use moq::coding::error::{DecodeError, EncodeError};
use moq::coding::params::Params;
use moq::coding::tuple::Tuple;
use moq::coding::wire::{Cursor, Decode};
use moq::data::datagram::Datagram;
use moq::data::object::ObjectStatus;
use moq::message::control::{
    Announce, AnnounceCancel, AnnounceError, AnnounceOk, GoAway, MaxSubscribeId, Message,
    PublisherMessage, SubscribeDone, SubscribeError, SubscriberMessage, TrackStatusCode,
    TrackStatusRequest, Unannounce, Unsubscribe,
};
use moq::message::fix_bandwidth::FixBandwidth;
use moq::message::relay::Relay;
use moq::message::subscribe::{FilterType, GroupOrder, Subscribe};
use moq::session::dispatch::{recv_message, Dispatched, Session, StreamStep};
use moq::session::error::{ServeError, SessionError};
use moq::session::publisher::{Publisher, PublisherAction};
use moq::session::setup::{
    accept_client, negotiate, offered_versions, offers, Role, SetupError, DRAFT_07,
};
use moq::session::subscribed::{
    effective_timeout, DatagramObject, Subscribed, SubscribedRecv, SubscribedState, SubscribeOk,
    TrackMode,
};
use moq::session::subscriber::{Subscriber, SubscribeRecv};
use moq::watch::Queue;

fn tuple(path: &str) -> Tuple {
    Tuple::from_utf8_path(path)
}

fn subscribe(id: u64, path: &str) -> Subscribe {
    Subscribe {
        id,
        track_alias: id + 100,
        track_namespace: tuple(path),
        track_name: String::from("1.m4s"),
        subscriber_priority: 1,
        group_order: GroupOrder::Publisher,
        filter_type: FilterType::LatestGroup,
        start: None,
        end: None,
        params: Params::new(),
        delivery_timeout_ms: None,
    }
}

fn publisher() -> Publisher {
    Publisher::new(Queue::new())
}

fn subscriber() -> Subscriber {
    Subscriber::new(Queue::new())
}

fn asks(p: &mut Publisher, id: u64, path: &str) -> PublisherAction {
    p.recv_message(SubscriberMessage::Subscribe(subscribe(id, path)))
}

#[test]
fn roles_are_shared_out() {
    for (peer, own, taken) in [
        (Role::Both, Role::Publisher, Role::Publisher),
        (Role::Both, Role::Subscriber, Role::Subscriber),
        (Role::Both, Role::Both, Role::Both),
        (Role::Publisher, Role::Subscriber, Role::Subscriber),
        (Role::Publisher, Role::Both, Role::Subscriber),
        (Role::Subscriber, Role::Publisher, Role::Publisher),
        (Role::Subscriber, Role::Both, Role::Publisher),
    ] {
        assert_eq!(negotiate(peer, own).unwrap(), taken);
    }
    for role in [Role::Publisher, Role::Subscriber] {
        match negotiate(role, role) {
            Err(SetupError::RoleIncompatible { peer, own }) => {
                assert_eq!((peer, own), (role, role))
            }
            other => panic!("{:?}", other),
        }
    }
}

#[test]
fn a_client_never_refuses_what_a_server_answers() {
    for client in [Role::Publisher, Role::Subscriber, Role::Both] {
        for server in [Role::Publisher, Role::Subscriber, Role::Both] {
            if let Ok(answer) = accept_client(offered_versions(), client, server) {
                assert!(negotiate(answer, client).is_ok());
            } else {
                assert_eq!(client, server);
            }
        }
    }
}

#[test]
fn versions_are_checked() {
    assert_eq!(offered_versions(), vec![0xff00_0007]);
    assert!(offers(&vec![1, DRAFT_07], DRAFT_07));
    assert!(!offers(&vec![], DRAFT_07));
    match accept_client(vec![1, 2], Role::Both, Role::Both) {
        Err(SetupError::Version { offered, supported }) => {
            assert_eq!(offered, vec![1, 2]);
            assert_eq!(supported, vec![DRAFT_07]);
        }
        other => panic!("{:?}", other),
    }
}

#[test]
fn a_session_has_one_half() {
    let s = Session::new(Role::Both);
    assert!(s.publisher().is_ok());
    assert_eq!(s.subscriber().unwrap_err(), SessionError::RoleViolation);
    assert_eq!(s.accept_stream(true), Err(SessionError::RoleViolation));
    assert_eq!(s.accept_stream(false), Ok(StreamStep::Stop));
    assert_eq!(s.recv_datagram(&[]).unwrap_err(), SessionError::RoleViolation);
    let s = Session::new(Role::Subscriber);
    assert!(s.subscriber().is_ok());
    assert_eq!(s.publisher().unwrap_err(), SessionError::RoleViolation);
    assert_eq!(s.accept_stream(true), Ok(StreamStep::Read));
    assert!(Session::new(Role::Publisher).publisher().is_ok());
}

#[test]
fn messages_go_to_the_half_that_takes_them() {
    let mut s = Session::new(Role::Publisher);
    let r = recv_message(
        Message::Subscriber(SubscriberMessage::Subscribe(subscribe(1, "a"))),
        &mut s.publisher,
        &mut s.subscriber,
    );
    assert!(matches!(r, Ok(Dispatched::Publisher(PublisherAction::Nothing))));
    let r = recv_message(
        Message::Publisher(PublisherMessage::Announce(Announce { namespace: tuple("a") })),
        &mut s.publisher,
        &mut s.subscriber,
    );
    assert_eq!(r.unwrap_err(), SessionError::RoleViolation);
    let r = recv_message(
        Message::GoAway(GoAway { url: String::from("https://x/") }),
        &mut s.publisher,
        &mut s.subscriber,
    );
    assert!(matches!(r, Ok(Dispatched::Relay)));
    assert_eq!(s.publisher().unwrap().get_url(), "https://x/");

    let mut s = Session::new(Role::Subscriber);
    let r = recv_message(
        Message::Publisher(PublisherMessage::Announce(Announce { namespace: tuple("a") })),
        &mut s.publisher,
        &mut s.subscriber,
    );
    assert!(matches!(r, Ok(Dispatched::Subscriber)));
    let r = recv_message(
        Message::Subscriber(SubscriberMessage::Unsubscribe(Unsubscribe { id: 1 })),
        &mut s.publisher,
        &mut s.subscriber,
    );
    assert_eq!(r.unwrap_err(), SessionError::RoleViolation);
    let r = recv_message(
        Message::FixBandwidth(FixBandwidth { bandwidth: 1 }),
        &mut s.publisher,
        &mut s.subscriber,
    );
    assert!(matches!(r, Ok(Dispatched::Relay)));
    assert_eq!(s.subscriber().unwrap().get_url(), "");
}

#[test]
fn a_namespace_is_announced_once() {
    let mut p = publisher();
    assert_eq!(p.announce(&tuple("a/b")), Ok(()));
    assert_eq!(
        p.announce(&tuple("a/b")),
        Err(SessionError::Serve(ServeError::Duplicate))
    );
    p.send_message(PublisherMessage::Unannounce(Unannounce { namespace: tuple("a/b") }));
    assert_eq!(p.announce(&tuple("a/b")), Ok(()));
    assert!(matches!(
        p.pop_outgoing(),
        Some(Message::Publisher(PublisherMessage::Unannounce(_)))
    ));
    assert!(p.pop_outgoing().is_none());
}

#[test]
fn a_subscription_goes_to_its_namespace() {
    let mut p = publisher();
    p.announce(&tuple("a")).unwrap();
    match asks(&mut p, 1, "a") {
        PublisherAction::Serve(s) => {
            assert_eq!(s.msg.id, 1);
            assert!(s.receiving && !s.ok);
        }
        other => panic!("{:?}", other),
    }
    assert!(p.subscribed().is_none());
    assert!(matches!(asks(&mut p, 2, "b"), PublisherAction::Nothing));
    assert_eq!(p.subscribed().unwrap().msg.id, 2);
    assert!(p.subscribed().is_none());
    p.stop_serving(&tuple("a"));
    assert!(matches!(
        asks(&mut p, 3, "a"),
        PublisherAction::Ignored(SessionError::Serve(ServeError::Done))
    ));
}

#[test]
fn a_number_is_taken_once() {
    let mut p = publisher();
    asks(&mut p, 1, "a");
    assert!(matches!(
        asks(&mut p, 1, "b"),
        PublisherAction::Ignored(SessionError::Duplicate)
    ));
    p.send_message(PublisherMessage::SubscribeDone(SubscribeDone { id: 1, code: 0 }));
    assert!(matches!(asks(&mut p, 1, "b"), PublisherAction::Nothing));
    p.send_message(PublisherMessage::SubscribeError(SubscribeError { id: 1, code: 0 }));
    assert!(matches!(asks(&mut p, 1, "b"), PublisherAction::Nothing));
}

#[test]
fn a_subscription_is_called_off_once() {
    let mut p = publisher();
    asks(&mut p, 1, "a");
    let off = |p: &mut Publisher, id| {
        p.recv_message(SubscriberMessage::Unsubscribe(Unsubscribe { id }))
    };
    assert!(matches!(off(&mut p, 9), PublisherAction::Nothing));
    assert!(matches!(off(&mut p, 1), PublisherAction::Cancelled(1)));
    assert!(matches!(
        off(&mut p, 1),
        PublisherAction::Ignored(SessionError::Serve(ServeError::Cancel))
    ));
    asks(&mut p, 2, "a");
    p.end_subscribed(2, Ok(()));
    assert!(matches!(off(&mut p, 2), PublisherAction::Nothing));
    p.end_subscribed(2, Err(ServeError::NotFound));
    assert!(matches!(
        off(&mut p, 2),
        PublisherAction::Ignored(SessionError::Serve(ServeError::NotFound))
    ));
}

#[test]
fn an_announcement_is_accepted_or_refused() {
    let mut p = publisher();
    let ok = |p: &mut Publisher| {
        p.recv_message(SubscriberMessage::AnnounceOk(AnnounceOk { namespace: tuple("a") }))
    };
    assert!(matches!(ok(&mut p), PublisherAction::Nothing));
    p.announce(&tuple("a")).unwrap();
    assert!(matches!(ok(&mut p), PublisherAction::Nothing));
    assert!(matches!(
        ok(&mut p),
        PublisherAction::Ignored(SessionError::Serve(ServeError::Duplicate))
    ));
    match p.recv_message(SubscriberMessage::AnnounceError(AnnounceError {
        namespace: tuple("a"),
        error_code: 7,
    })) {
        PublisherAction::Closed(t, e) => {
            assert!(t.same(&tuple("a")));
            assert_eq!(e, ServeError::Closed(7));
        }
        other => panic!("{:?}", other),
    }
    p.announce(&tuple("a")).unwrap();
    assert!(matches!(
        p.recv_message(SubscriberMessage::AnnounceCancel(AnnounceCancel { namespace: tuple("a") })),
        PublisherAction::Closed(_, ServeError::Cancel)
    ));
    p.announce(&tuple("a")).unwrap();
    p.stop_serving(&tuple("a"));
    assert!(matches!(
        p.recv_message(SubscriberMessage::AnnounceCancel(AnnounceCancel { namespace: tuple("a") })),
        PublisherAction::Ignored(SessionError::Serve(ServeError::Done))
    ));
}

#[test]
fn what_is_not_supported_is_passed_over() {
    let mut p = publisher();
    assert!(matches!(
        p.recv_message(SubscriberMessage::SubscribeUpdate),
        PublisherAction::Ignored(SessionError::Internal)
    ));
    let request = || {
        SubscriberMessage::TrackStatusRequest(TrackStatusRequest {
            track_namespace: tuple("a"),
            track_name: String::from("t"),
        })
    };
    assert!(matches!(
        p.recv_message(request()),
        PublisherAction::Ignored(SessionError::Internal)
    ));
    p.announce(&tuple("a")).unwrap();
    assert!(matches!(p.recv_message(request()), PublisherAction::Status(_)));
    p.stop_serving(&tuple("a"));
    assert!(matches!(
        p.recv_message(request()),
        PublisherAction::Ignored(SessionError::Serve(ServeError::Done))
    ));
}

#[test]
fn the_state_of_a_track_is_told() {
    let request = TrackStatusRequest {
        track_namespace: tuple("a/b"),
        track_name: String::from("t"),
    };
    assert_eq!(
        Publisher::serve_track_status(&request, None).unwrap_err(),
        SessionError::Serve(ServeError::NotFound)
    );
    let s = Publisher::serve_track_status(&request, Some(Some((4, 2)))).unwrap();
    assert!(s.track_namespace.same(&tuple("a/b")));
    assert_eq!(s.track_name, "t");
    assert_eq!(s.status_code, TrackStatusCode::InProgress);
    assert_eq!((s.last_group_id, s.last_object_id), (4, 2));
    let s = Publisher::serve_track_status(&request, Some(None)).unwrap();
    assert_eq!(s.status_code, TrackStatusCode::DoesNotExist);
    assert_eq!((s.last_group_id, s.last_object_id), (0, 0));
}

#[test]
fn a_track_that_does_not_exist_is_not_served() {
    let (mut s, _) = Subscribed::new(subscribe(1, "a"));
    assert_eq!(Publisher::serve_subscribe(&mut s, true), Ok(true));
    assert_eq!(s.closed(), None);
    assert_eq!(Publisher::serve_subscribe(&mut s, false), Ok(false));
    assert_eq!(s.closed(), Some(Err(ServeError::NotFound)));
    assert_eq!(
        Publisher::serve_subscribe(&mut s, false),
        Err(SessionError::Serve(ServeError::NotFound))
    );
}

#[test]
fn an_empty_address_is_an_error_for_the_publisher_alone() {
    let mut p = publisher();
    assert_eq!(
        p.recv_goaway_message(GoAway { url: String::new() }),
        Err(SessionError::Serve(ServeError::NotFound))
    );
    assert_eq!(p.recv_goaway(Relay::GoAway(GoAway { url: String::new() })), Ok(()));
    assert_eq!(p.recv_goaway(Relay::GoAway(GoAway { url: String::from("u") })), Ok(()));
    assert_eq!(p.get_url(), "u");
    let mut s = subscriber();
    assert_eq!(s.recv_goaway_message(&GoAway { url: String::new() }), Ok(()));
    assert_eq!(s.recv_goaway(&Relay::GoAway(GoAway { url: String::from("u") })), Ok(()));
    assert_eq!(s.get_url(), "u");
}

#[test]
fn the_latest_position_only_grows() {
    let mut s = SubscribedState::default();
    for (group, object, latest) in [
        (2, 5, (2, 5)),
        (1, 9, (2, 5)),
        (2, 4, (2, 5)),
        (2, 6, (2, 6)),
        (3, 0, (3, 0)),
        (3, 0, (3, 0)),
    ] {
        assert_eq!(s.update_max_group_id(group, object), Ok(()));
        assert_eq!(s.max_group_id, Some(latest));
    }
}

#[test]
fn a_subscription_is_accepted_while_the_other_half_is_there() {
    let (mut s, recv) = Subscribed::new(subscribe(3, "a"));
    assert_eq!(recv, SubscribedRecv { state: SubscribedState::default(), serving: true });
    assert_eq!(
        s.accept(Some((7, 1))),
        Ok(SubscribeOk {
            id: 3,
            expires: None,
            group_order: GroupOrder::Descending,
            latest: Some((7, 1)),
        })
    );
    assert!(s.ok);
    assert_eq!(s.state.max_group_id, Some((7, 1)));
    s.receiving = false;
    assert_eq!(s.accept(None), Err(ServeError::Cancel));
    assert_eq!(s.closed(), Some(Ok(())));
    assert_eq!(s.close(ServeError::Mode), Err(ServeError::Done));
}

#[test]
fn the_end_of_a_subscription_is_told_by_whether_it_was_accepted() {
    let (mut s, _) = Subscribed::new(subscribe(3, "a"));
    match s.ending(404) {
        PublisherMessage::SubscribeError(m) => assert_eq!((m.id, m.code), (3, 404)),
        other => panic!("{:?}", other),
    }
    s.accept(None).unwrap();
    match s.ending(0) {
        PublisherMessage::SubscribeDone(m) => assert_eq!((m.id, m.code), (3, 0)),
        other => panic!("{:?}", other),
    }
}

#[test]
fn the_first_end_counts() {
    let (mut s, mut recv) = Subscribed::new(subscribe(3, "a"));
    assert_eq!(s.closed(), None);
    assert_eq!(recv.recv_unsubscribe(), Ok(()));
    assert_eq!(recv.state.closed, Err(ServeError::Cancel));
    assert_eq!(recv.recv_unsubscribe(), Err(ServeError::Cancel));
    s.cancelled();
    assert_eq!(s.closed(), Some(Err(ServeError::Cancel)));
    assert_eq!(s.close(ServeError::Mode), Err(ServeError::Cancel));
    s.cancelled();
    assert_eq!(s.closed(), Some(Err(ServeError::Cancel)));
    let mut recv = SubscribedRecv { state: SubscribedState::default(), serving: false };
    assert_eq!(recv.recv_unsubscribe(), Ok(()));
    assert_eq!(recv.state.closed, Ok(()));
}

#[test]
fn the_subscriber_sets_the_timeout() {
    assert_eq!(effective_timeout(Some(5), Some(9)), Some(5));
    assert_eq!(effective_timeout(Some(0), Some(9)), Some(9));
    assert_eq!(effective_timeout(None, Some(9)), Some(9));
    assert_eq!(effective_timeout(Some(0), None), None);
    let mut m = subscribe(1, "a");
    m.delivery_timeout_ms = Some(12);
    assert_eq!(Subscribed::new(m).0.timeout(Some(9)), Some(12));
}

#[test]
fn a_track_is_not_delivered_as_one_stream() {
    assert_eq!(
        Subscribed::check_mode(TrackMode::Stream),
        Err(SessionError::Serve(ServeError::Mode))
    );
    assert_eq!(Subscribed::check_mode(TrackMode::Subgroups), Ok(TrackMode::Subgroups));
    assert_eq!(Subscribed::check_mode(TrackMode::Datagrams), Ok(TrackMode::Datagrams));
}

#[test]
fn subgroups_name_their_subscription() {
    let (s, _) = Subscribed::new(subscribe(3, "a"));
    let h = s.subgroup_header(8, 9, 10);
    assert_eq!((h.subscribe_id, h.track_alias), (3, 103));
    assert_eq!((h.group_id, h.subgroup_id, h.publisher_priority), (8, 9, 10));
}

fn datagram_object(group_id: u64) -> DatagramObject {
    DatagramObject {
        group_id,
        object_id: 6,
        priority: 1,
        status: ObjectStatus::Object,
        payload: vec![1, 2, 3],
    }
}

#[test]
fn datagrams_name_their_subscription() {
    let (mut s, _) = Subscribed::new(subscribe(3, "a"));
    let b = s.datagram(datagram_object(5)).unwrap();
    assert_eq!(b.to_vec(), vec![3, 0x40, 103, 5, 6, 1, 0, 3, 1, 2, 3]);
    let d = Datagram::decode(&mut Cursor::new(&b)).unwrap();
    assert_eq!((d.subscribe_id, d.track_alias), (3, 103));
    assert_eq!(
        s.datagram(datagram_object(1 << 62)).unwrap_err(),
        SessionError::Encode(EncodeError::BoundsExceeded)
    );
    assert_eq!(s.datagram_sent(5, 6), Ok(()));
    assert_eq!(s.state.max_group_id, Some((5, 6)));
    s.receiving = false;
    assert_eq!(s.datagram_sent(7, 0), Err(SessionError::Serve(ServeError::Done)));
    assert_eq!(s.state.max_group_id, Some((5, 6)));
}

#[test]
fn datagrams_reach_a_subscription_that_is_there() {
    let (p, _) = Subscribed::new(subscribe(0, "a"));
    let b = p.datagram(datagram_object(5)).unwrap();
    let mut s = subscriber();
    assert!(s.recv_datagram(&b).unwrap().is_none());
    assert_eq!(s.subscribe(), 0);
    let d = s.recv_datagram(&b).unwrap().unwrap();
    assert_eq!(d.group_id, 5);
    assert_eq!(d.payload, vec![1, 2, 3]);
    assert_eq!(
        s.recv_datagram(&b[..3]).unwrap_err(),
        SessionError::Decode(DecodeError::More(1))
    );
}

#[test]
fn announcements_are_looked_at_in_order() {
    let mut s = subscriber();
    let announce = |path: &str| PublisherMessage::Announce(Announce { namespace: tuple(path) });
    assert_eq!(s.recv_message(announce("a")), Ok(()));
    assert_eq!(s.recv_message(announce("b")), Ok(()));
    assert_eq!(s.recv_message(announce("a")), Err(SessionError::Duplicate));
    assert!(s.announced().unwrap().same(&tuple("a")));
    assert!(s.announced().unwrap().same(&tuple("b")));
    assert!(s.announced().is_none());
    let gone = PublisherMessage::Unannounce(Unannounce { namespace: tuple("a") });
    assert_eq!(s.recv_message(gone), Ok(()));
    assert_eq!(s.recv_message(announce("a")), Ok(()));
}

#[test]
fn refusing_an_announcement_forgets_it() {
    let mut s = subscriber();
    let announce = |path: &str| Announce { namespace: tuple(path) };
    s.recv_announce(&announce("a")).unwrap();
    s.recv_announce(&announce("b")).unwrap();
    s.send_message(SubscriberMessage::AnnounceError(AnnounceError {
        namespace: tuple("a"),
        error_code: 1,
    }));
    s.send_message(SubscriberMessage::AnnounceCancel(AnnounceCancel { namespace: tuple("b") }));
    assert_eq!(s.recv_announce(&announce("a")), Ok(()));
    assert_eq!(s.recv_announce(&announce("b")), Ok(()));
    assert!(matches!(
        s.pop_outgoing(),
        Some(Message::Subscriber(SubscriberMessage::AnnounceError(_)))
    ));
    assert!(matches!(
        s.pop_outgoing(),
        Some(Message::Subscriber(SubscriberMessage::AnnounceCancel(_)))
    ));
    assert!(s.pop_outgoing().is_none());
}

#[test]
fn subscriptions_are_numbered_and_told_their_end() {
    let mut s = subscriber();
    assert_eq!(s.subscribe(), 0);
    assert_eq!(s.subscribe_with_timeout(250), 1);
    assert_eq!(s.subscribe(), 2);
    let ok = PublisherMessage::SubscribeOk(SubscribeOk {
        id: 0,
        expires: None,
        group_order: GroupOrder::Ascending,
        latest: None,
    });
    assert_eq!(s.recv_message(ok), Ok(()));
    assert_eq!(s.find_subscribe(0), Ok(()));
    let done = |id, code| PublisherMessage::SubscribeDone(SubscribeDone { id, code });
    let error = |id, code| PublisherMessage::SubscribeError(SubscribeError { id, code });
    assert_eq!(s.recv_message(done(0, 4)), Ok(()));
    assert_eq!(s.recv_message(error(1, 5)), Ok(()));
    assert_eq!(s.recv_message(error(1, 6)), Ok(()));
    s.stop_waiting(2);
    assert_eq!(s.recv_message(error(2, 7)), Ok(()));
    assert_eq!(s.ended(), Some((0, ServeError::Closed(4))));
    assert_eq!(s.ended(), Some((1, ServeError::Closed(5))));
    assert_eq!(s.ended(), None);
    for id in 0..3 {
        assert_eq!(
            s.find_subscribe(id),
            Err(SessionError::Serve(ServeError::NotFound))
        );
    }
    let max = PublisherMessage::MaxSubscribeId(MaxSubscribeId { id: 3 });
    assert_eq!(s.recv_message(max), Ok(()));
}

#[test]
fn what_is_known_of_a_subscription_changes_once() {
    let mut r = SubscribeRecv::new(Some(5));
    assert_eq!(r.delivery_timeout_ms, Some(5));
    assert_eq!(r.ok(), Ok(()));
    assert!(r.ok);
    assert_eq!(r.error(ServeError::Closed(1)), Ok(true));
    assert_eq!(r.error(ServeError::Closed(2)), Err(ServeError::Closed(1)));
    assert_eq!(r.ok(), Err(ServeError::Closed(1)));
    let mut r = SubscribeRecv::new(None);
    r.open = false;
    assert_eq!(r.ok(), Ok(()));
    assert!(!r.ok);
    assert_eq!(r.error(ServeError::Done), Ok(false));
    assert_eq!(r.closed, Ok(()));
}

#[test]
fn streams_that_end_badly_end_their_subscription() {
    let mut s = subscriber();
    s.subscribe();
    let o = s.stream_ended(0, Ok(()));
    assert_eq!((o.dropped, o.result), (false, Ok(())));
    let o = s.stream_ended(0, Err(SessionError::Transport));
    assert_eq!((o.dropped, o.result), (true, Ok(())));
    let o = s.stream_ended(0, Err(SessionError::Serve(ServeError::Cancel)));
    assert_eq!((o.dropped, o.result), (true, Ok(())));
    let o = s.stream_ended(0, Err(SessionError::Internal));
    assert_eq!((o.dropped, o.result), (false, Err(SessionError::Internal)));
    assert_eq!(s.find_subscribe(0), Ok(()));
    let lost = Err(SessionError::Serve(ServeError::Size));
    let o = s.stream_ended(0, lost);
    assert_eq!((o.dropped, o.result), (true, lost));
    assert_eq!(s.ended(), Some((0, ServeError::Size)));
    assert!(s.find_subscribe(0).is_err());
}

#[test]
fn a_queue_keeps_order_and_gives_back_what_nobody_reads() {
    let mut q = Queue::new();
    assert_eq!(q.push(1), Ok(()));
    assert_eq!(q.push(2), Ok(()));
    q.open = false;
    assert_eq!(q.push(3), Err(3));
    assert_eq!((q.pop(), q.pop(), q.pop()), (Some(1), Some(2), None));
}
