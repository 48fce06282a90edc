use bytes::BytesMut;
use moq::coding::error::{DecodeError, EncodeError};
use moq::coding::wire::{Cursor, Decode, Encode};
use moq::data::datagram::Datagram;
use moq::data::header::{Header, SubgroupHeader, TrackHeader};
use moq::data::object::{ObjectStatus, SubgroupObject, TrackObject};

fn written<T: Encode>(v: &T) -> Vec<u8> {
    let mut w = BytesMut::new();
    assert_eq!(v.encode(&mut w), Ok(()));
    w.to_vec()
}

fn read<T: Decode>(b: &[u8]) -> (Result<T, DecodeError>, usize) {
    let mut c = Cursor::new(b);
    let r = T::decode(&mut c);
    let n = c.position();
    (r, n)
}

fn subgroup() -> SubgroupHeader {
    SubgroupHeader {
        subscribe_id: 1,
        track_alias: 64,
        group_id: 3,
        subgroup_id: 4,
        publisher_priority: 127,
    }
}

#[test]
fn headers_begin_with_their_number() {
    let h = Header::from(subgroup());
    assert_eq!(written(&h), vec![4, 1, 0x40, 0x40, 3, 4, 127]);
    let t = Header::from(TrackHeader { subscribe_id: 9, track_alias: 8, publisher_priority: 7 });
    assert_eq!(written(&t), vec![2, 9, 8, 7]);
    assert_eq!(h.id(), 4);
    assert_eq!(t.id(), 2);
    assert_eq!(h.subscribe_id(), 1);
    assert_eq!(t.subscribe_id(), 9);
    assert_eq!(h.track_alias(), 64);
    assert_eq!(t.track_alias(), 8);
    assert_eq!(h.publisher_priority(), 127);
    assert_eq!(t.publisher_priority(), 7);
}

#[test]
fn headers_read_back() {
    let h = Header::Subgroup(subgroup());
    let mut b = written(&h);
    let n = b.len();
    b.push(99);
    assert_eq!(read::<Header>(&b), (Ok(h), n));
    let t = Header::Track(TrackHeader { subscribe_id: 9, track_alias: 8, publisher_priority: 7 });
    assert_eq!(read::<Header>(&written(&t)), (Ok(t), 4));
}

#[test]
fn headers_in_part_are_waited_for() {
    let b = written(&Header::Subgroup(subgroup()));
    for k in 0..b.len() {
        match read::<Header>(&b[..k]).0 {
            Err(DecodeError::More(n)) => assert!(0 < n && k + n <= b.len()),
            other => panic!("{:?}", other),
        }
    }
}

#[test]
fn headers_of_other_numbers_are_refused() {
    assert_eq!(read::<Header>(&[3, 1, 1, 1]).0, Err(DecodeError::InvalidMessage(3)));
    assert_eq!(read::<Header>(&[0x40, 0x50]).0, Err(DecodeError::InvalidMessage(80)));
}

#[test]
fn a_header_that_does_not_fit_stops_where_it_fails() {
    let mut w = BytesMut::new();
    let h = Header::Subgroup(SubgroupHeader { group_id: 1 << 62, ..subgroup() });
    assert_eq!(h.encode(&mut w), Err(EncodeError::BoundsExceeded));
    assert_eq!(w.to_vec(), vec![4, 1, 0x40, 0x40]);
}

#[test]
fn the_status_of_an_object_is_written_where_it_is_empty() {
    let o = SubgroupObject { object_id: 5, size: 300, status: ObjectStatus::Object, deadline: 7 };
    assert_eq!(written(&o), vec![5, 0x41, 0x2c, 7]);
    assert_eq!(read::<SubgroupObject>(&written(&o)), (Ok(o), 4));
    let e = SubgroupObject { object_id: 5, size: 0, status: ObjectStatus::EndOfGroup, deadline: 7 };
    assert_eq!(written(&e), vec![5, 0, 3, 7]);
    assert_eq!(read::<SubgroupObject>(&written(&e)), (Ok(e), 4));
    assert_eq!(
        read::<SubgroupObject>(&[5, 0, 2, 7]).0,
        Err(DecodeError::InvalidObjectStatus)
    );
}

#[test]
fn every_status_has_its_number() {
    for (status, number) in [
        (ObjectStatus::Object, 0u8),
        (ObjectStatus::ObjectDoesNotExist, 1),
        (ObjectStatus::EndOfGroup, 3),
        (ObjectStatus::EndOfTrack, 4),
        (ObjectStatus::EndOfSubgroup, 5),
    ] {
        assert_eq!(written(&status), vec![number]);
        assert_eq!(read::<ObjectStatus>(&[number]), (Ok(status), 1));
    }
}

#[test]
fn object_headers_in_part_are_waited_for() {
    let o = SubgroupObject {
        object_id: 70,
        size: 0,
        status: ObjectStatus::EndOfTrack,
        deadline: 1_700_000_000_000,
    };
    let b = written(&o);
    assert_eq!(b.len(), 12);
    for k in 0..b.len() {
        match read::<SubgroupObject>(&b[..k]).0 {
            Err(DecodeError::More(n)) => assert!(0 < n && k + n <= b.len()),
            other => panic!("{:?}", other),
        }
    }
}

#[test]
fn objects_of_a_track_name_their_group() {
    let o = TrackObject { group_id: 2, object_id: 1, size: 9, status: ObjectStatus::Object };
    assert_eq!(written(&o), vec![2, 1, 9]);
    assert_eq!(read::<TrackObject>(&[2, 1, 9, 4]), (Ok(o), 3));
    let b = written(&TrackObject { group_id: 2, object_id: 1, size: 0, status: ObjectStatus::EndOfGroup });
    assert_eq!(b, vec![2, 1, 0, 3]);
    for k in 0..b.len() {
        assert_eq!(read::<TrackObject>(&b[..k]).0, Err(DecodeError::More(1)));
    }
}

#[test]
fn datagrams_read_back() {
    let d = Datagram {
        subscribe_id: 1,
        track_alias: 2,
        group_id: 64,
        object_id: 4,
        publisher_priority: 5,
        object_status: ObjectStatus::Object,
        payload_len: 3,
        payload: vec![7, 8, 9],
    };
    let b = written(&d);
    assert_eq!(b, vec![1, 2, 0x40, 0x40, 4, 5, 0, 3, 7, 8, 9]);
    let (r, n) = read::<Datagram>(&b);
    let r = r.unwrap();
    assert_eq!(n, b.len());
    assert_eq!(r.subscribe_id, 1);
    assert_eq!(r.track_alias, 2);
    assert_eq!(r.group_id, 64);
    assert_eq!(r.object_id, 4);
    assert_eq!(r.publisher_priority, 5);
    assert_eq!(r.object_status, ObjectStatus::Object);
    assert_eq!(r.payload_len, 3);
    assert_eq!(r.payload, vec![7, 8, 9]);
    assert_eq!(read::<Datagram>(&b[..6]).0.unwrap_err(), DecodeError::More(1));
}
