use bytes::BytesMut;
use moq::coding::error::{DecodeError, EncodeError};
use moq::coding::params::Params;
use moq::coding::tuple::Tuple;
use moq::coding::wire::{Cursor, Decode, Encode};
use moq::message::control::{GoAway, Message, SubscriberMessage, Unsubscribe};
use moq::message::fix_bandwidth::FixBandwidth;
use moq::message::relay::Relay;
use moq::message::subscribe::{
    FilterType, GroupOrder, Subscribe, SubscribeLocation, SubscribePair, PARAM_DELIVERY_TIMEOUT,
};
use moq::session::reader::{DecodeStep, Reader};

fn read<T: Decode>(b: &[u8]) -> (Result<T, DecodeError>, usize) {
    let mut c = Cursor::new(b);
    let r = T::decode(&mut c);
    let n = c.position();
    (r, n)
}

fn written<T: Encode>(v: &T) -> Vec<u8> {
    let mut w = BytesMut::new();
    assert_eq!(v.encode(&mut w), Ok(()));
    w.to_vec()
}

fn subscribe(filter_type: FilterType) -> Subscribe {
    Subscribe {
        id: 1,
        track_alias: 2,
        track_namespace: Tuple::from_utf8_path("a/b"),
        track_name: String::from("1.m4s"),
        subscriber_priority: 127,
        group_order: GroupOrder::Ascending,
        filter_type,
        start: None,
        end: None,
        params: Params::new(),
        delivery_timeout_ms: None,
    }
}

const HEAD: [u8; 15] = [1, 2, 2, 1, 0x61, 1, 0x62, 5, 0x31, 0x2e, 0x6d, 0x34, 0x73, 127, 1];

#[test]
fn a_subscription_for_the_latest_group_has_no_range() {
    let mut m = subscribe(FilterType::LatestGroup);
    m.start = Some(SubscribePair {
        group: SubscribeLocation::Absolute(1),
        object: SubscribeLocation::Unset,
    });
    let b = written(&m);
    let mut want = HEAD.to_vec();
    want.extend_from_slice(&[1, 0]);
    assert_eq!(b, want);
    let (r, n) = read::<Subscribe>(&b);
    let r = r.unwrap();
    assert_eq!(n, b.len());
    assert_eq!(r.id, 1);
    assert_eq!(r.track_alias, 2);
    assert!(r.track_namespace.same(&Tuple::from_utf8_path("a/b")));
    assert_eq!(r.track_name, "1.m4s");
    assert_eq!(r.subscriber_priority, 127);
    assert_eq!(r.group_order, GroupOrder::Ascending);
    assert_eq!(r.filter_type, FilterType::LatestGroup);
    assert_eq!(r.start, None);
    assert_eq!(r.end, None);
    assert_eq!(r.delivery_timeout_ms, None);
}

#[test]
fn the_delivery_timeout_travels_as_a_parameter() {
    assert_eq!(PARAM_DELIVERY_TIMEOUT, 100);
    let mut m = subscribe(FilterType::LatestObject);
    m.delivery_timeout_ms = Some(1500);
    let b = written(&m);
    let mut want = HEAD.to_vec();
    want.extend_from_slice(&[2, 1, 0x40, 0x64, 2, 0x45, 0xdc]);
    assert_eq!(b, want);
    let r = read::<Subscribe>(&b).0.unwrap();
    assert_eq!(r.delivery_timeout_ms, Some(1500));
    assert!(!r.params.has(PARAM_DELIVERY_TIMEOUT));
}

#[test]
fn a_range_is_written_where_the_filter_asks_for_it() {
    let start = SubscribePair {
        group: SubscribeLocation::Absolute(9),
        object: SubscribeLocation::Latest(0),
    };
    let end = SubscribePair {
        group: SubscribeLocation::Future(1),
        object: SubscribeLocation::Unset,
    };
    let mut m = subscribe(FilterType::AbsoluteRange);
    m.start = Some(start);
    m.end = Some(end);
    let b = written(&m);
    let mut want = HEAD.to_vec();
    want.extend_from_slice(&[4, 1, 9, 2, 0, 3, 1, 0, 0]);
    assert_eq!(b, want);
    let r = read::<Subscribe>(&b).0.unwrap();
    assert_eq!(r.start, Some(start));
    assert_eq!(r.end, Some(end));

    let mut m = subscribe(FilterType::AbsoluteStart);
    m.start = Some(start);
    m.end = Some(end);
    let b = written(&m);
    let r = read::<Subscribe>(&b).0.unwrap();
    assert_eq!(r.start, Some(start));
    assert_eq!(r.end, None);
}

#[test]
fn a_range_that_is_missing_cannot_be_written() {
    let mut w = BytesMut::new();
    assert_eq!(
        subscribe(FilterType::AbsoluteStart).encode(&mut w),
        Err(EncodeError::MissingField)
    );
    let mut m = subscribe(FilterType::AbsoluteRange);
    m.start = Some(SubscribePair {
        group: SubscribeLocation::Absolute(9),
        object: SubscribeLocation::Latest(0),
    });
    let mut w = BytesMut::new();
    assert_eq!(m.encode(&mut w), Err(EncodeError::MissingField));
    let mut want = HEAD.to_vec();
    want.push(4);
    assert_eq!(w.to_vec(), want);
}

#[test]
fn what_stands_for_nothing_is_refused() {
    let mut b = HEAD.to_vec();
    b[14] = 3;
    b.extend_from_slice(&[1, 0]);
    assert_eq!(read::<Subscribe>(&b).0.unwrap_err(), DecodeError::InvalidGroupOrder);
    let mut b = HEAD.to_vec();
    b.extend_from_slice(&[5, 0]);
    assert_eq!(read::<Subscribe>(&b).0.unwrap_err(), DecodeError::InvalidFilterType);
    assert_eq!(
        read::<SubscribeLocation>(&[4, 1]).0.unwrap_err(),
        DecodeError::InvalidSubscribeLocation
    );
}

#[test]
fn locations_have_numbers() {
    for (location, bytes) in [
        (SubscribeLocation::Unset, vec![0u8]),
        (SubscribeLocation::Absolute(7), vec![1, 7]),
        (SubscribeLocation::Latest(7), vec![2, 7]),
        (SubscribeLocation::Future(64), vec![3, 0x40, 0x40]),
    ] {
        assert_eq!(location.id(), bytes[0] as u64);
        assert_eq!(written(&location), bytes);
        assert_eq!(read::<SubscribeLocation>(&bytes), (Ok(location), bytes.len()));
    }
}

#[test]
fn the_bandwidth_is_fixed_by_one_number() {
    let m = FixBandwidth { bandwidth: 5_000_000 };
    let b = written(&m);
    assert_eq!(b, vec![0x80, 0x4c, 0x4b, 0x40]);
    assert_eq!(read::<FixBandwidth>(&b), (Ok(m), 4));
    assert_eq!(read::<FixBandwidth>(&b[..3]).0, Err(DecodeError::More(1)));
    let mut w = BytesMut::new();
    assert_eq!(
        FixBandwidth { bandwidth: u64::MAX }.encode(&mut w),
        Err(EncodeError::BoundsExceeded)
    );
}

#[test]
fn messages_of_a_relay_come_back() {
    let m = Message::from(Relay::from(FixBandwidth { bandwidth: 9 }));
    match Relay::from_message(m) {
        Ok(Relay::FixBandwidth(f)) => assert_eq!(f.bandwidth, 9),
        other => panic!("{:?}", other),
    }
    let m = Message::from(Relay::from(GoAway { url: String::from("https://x") }));
    match Relay::from_message(m) {
        Ok(Relay::GoAway(g)) => assert_eq!(g.url, "https://x"),
        other => panic!("{:?}", other),
    }
    let m = Message::Subscriber(SubscriberMessage::Unsubscribe(Unsubscribe { id: 3 }));
    match Relay::from_message(m) {
        Err(Message::Subscriber(SubscriberMessage::Unsubscribe(u))) => assert_eq!(u.id, 3),
        other => panic!("{:?}", other),
    }
}

fn full_subscription() -> Subscribe {
    let mut m = subscribe(FilterType::AbsoluteRange);
    m.start = Some(SubscribePair {
        group: SubscribeLocation::Absolute(300),
        object: SubscribeLocation::Latest(0),
    });
    m.end = Some(SubscribePair {
        group: SubscribeLocation::Future(70_000),
        object: SubscribeLocation::Unset,
    });
    m.delivery_timeout_ms = Some(250);
    m
}

#[test]
fn subscriptions_in_part_are_waited_for() {
    let b = written(&full_subscription());
    for k in 0..b.len() {
        match read::<Subscribe>(&b[..k]).0 {
            Err(DecodeError::More(n)) => assert!(0 < n && n <= b.len() - k),
            _ => panic!("{} bytes of {} are not waited for", k, b.len()),
        }
    }
}

#[test]
fn a_subscription_is_the_same_however_it_arrives() {
    let b = written(&full_subscription());
    let mut reader = Reader::new();
    for k in 0..b.len() {
        assert!(matches!(reader.decode::<Subscribe>(), DecodeStep::Need(_)));
        reader.received(&b[k..k + 1]);
    }
    reader.received(&[1, 2, 3]);
    match reader.decode::<Subscribe>() {
        DecodeStep::Value(m) => assert_eq!(written(&m), b),
        _ => panic!("all of it has arrived"),
    }
    assert_eq!(reader.len(), 3);
}

#[test]
fn it_does_not_matter_where_a_stream_is_cut() {
    let mut b = written(&full_subscription());
    let len = b.len();
    b.extend_from_slice(&[1, 2, 3]);
    for size in 1..b.len() {
        let mut reader = Reader::new();
        let mut chunks = b.chunks(size);
        let m = loop {
            match reader.decode::<Subscribe>() {
                DecodeStep::Value(m) => break m,
                DecodeStep::Need(n) => {
                    while reader.len() < n {
                        reader.received(chunks.next().unwrap());
                    }
                }
                DecodeStep::Failed(e) => panic!("{:?}", e),
            }
        };
        assert_eq!(written(&m), &b[..len]);
        let mut left = Vec::new();
        while let Some(bytes) = reader.read_chunk(9) {
            left.extend_from_slice(&bytes);
        }
        for chunk in chunks {
            left.extend_from_slice(chunk);
        }
        assert_eq!(left, vec![1, 2, 3]);
    }
}

#[test]
fn what_a_filter_does_not_ask_for_is_not_read_back() {
    let pair = SubscribePair {
        group: SubscribeLocation::Absolute(1),
        object: SubscribeLocation::Unset,
    };
    for (filter, start, end) in [
        (FilterType::LatestGroup, None, None),
        (FilterType::LatestObject, None, None),
        (FilterType::AbsoluteStart, Some(pair), None),
        (FilterType::AbsoluteRange, Some(pair), Some(pair)),
    ] {
        let mut m = subscribe(filter);
        m.start = Some(pair);
        m.end = Some(pair);
        let b = written(&m);
        let (r, n) = read::<Subscribe>(&b);
        let r = r.unwrap();
        assert_eq!(n, b.len());
        assert_eq!((r.start, r.end), (start, end));
        assert_eq!(r.filter_type, filter);
    }
    // A timeout among the parameters gives way to the one that stands apart.
    let mut m = subscribe(FilterType::LatestGroup);
    m.params.set(7, 1u64).unwrap();
    m.params.set(PARAM_DELIVERY_TIMEOUT, 20u64).unwrap();
    let r = read::<Subscribe>(&written(&m)).0.unwrap();
    assert_eq!(r.delivery_timeout_ms, Some(20));
    assert_eq!(r.params.entries, vec![(7, vec![1])]);
    m.delivery_timeout_ms = Some(30);
    let r = read::<Subscribe>(&written(&m)).0.unwrap();
    assert_eq!(r.delivery_timeout_ms, Some(30));
    assert_eq!(r.params.entries, vec![(7, vec![1])]);
}

#[test]
fn what_follows_does_not_mend_a_bad_subscription() {
    let mut b = written(&subscribe(FilterType::LatestGroup));
    b[14] = 9;
    assert_eq!(read::<Subscribe>(&b).0.unwrap_err(), DecodeError::InvalidGroupOrder);
    b.extend_from_slice(&[0; 20]);
    assert_eq!(read::<Subscribe>(&b).0.unwrap_err(), DecodeError::InvalidGroupOrder);
}
