use moq::coding::error::{DecodeError, EncodeError};
use moq::coding::wire::{Cursor, Decode};
use moq::data::header::{Header, SubgroupHeader};
use moq::data::object::{ObjectStatus, SubgroupObject};
use moq::session::error::{ServeError, SessionError};
use moq::session::receive::{
    header_outcome, HeaderOutcome, SubgroupAction, SubgroupEvent, SubgroupPhase, SubgroupReceiver,
    TrackGroup, TrackReceiver,
};
use moq::session::serve::{
    Account, AnnounceLoop, NextObject, NextSubgroup, ObjectInfo, ServeAction, ServeLoop,
    ServePhase, SubgroupServer,
};
use moq::session::subscribed::SubscribedState;

fn header() -> SubgroupHeader {
    SubgroupHeader {
        subscribe_id: 1,
        track_alias: 2,
        group_id: 3,
        subgroup_id: 4,
        publisher_priority: 5,
    }
}

fn object(object_id: u64, size: usize) -> ObjectInfo {
    ObjectInfo { object_id, size, status: ObjectStatus::Object }
}

#[test]
fn a_subgroup_starts_with_its_header() {
    let (s, plan) = SubgroupServer::start(header(), 9, Some(100), true, true, 1234);
    assert_eq!(s.phase, ServePhase::Header);
    assert_eq!(s.group_id, 3);
    assert!(plan.set_bandwidth);
    assert_eq!(plan.priority, 9);
    let bytes = plan.header.bytes.unwrap();
    assert_eq!(bytes.to_vec(), vec![4, 1, 2, 3, 4, 5]);
    assert_eq!(
        plan.header.account,
        Some(Account { size: 6, timeout: Some(100), time: 1234 })
    );
    assert_eq!(Header::decode(&mut Cursor::new(&bytes)), Ok(Header::Subgroup(header())));
    let (_, plan) = SubgroupServer::start(header(), 9, None, false, false, 0);
    assert_eq!(plan.header.account, None);
    assert!(!plan.set_bandwidth);
    let big = SubgroupHeader { track_alias: u64::MAX, ..header() };
    let (_, plan) = SubgroupServer::start(big, 9, None, true, false, 0);
    assert_eq!(plan.header.bytes.unwrap_err(), EncodeError::BoundsExceeded);
    assert_eq!(plan.header.account.unwrap().size, 2);
}

#[test]
fn objects_are_sent_one_after_the_other() {
    let (mut s, _) = SubgroupServer::start(header(), 0, Some(50), true, false, 0);
    let mut state = SubscribedState::default();
    assert!(matches!(s.header_written(true), ServeAction::Next));
    for id in 0..3 {
        match s.next(NextObject::Object(object(id, 10)), 60 + id) {
            ServeAction::WriteHeader(plan) => {
                assert_eq!(
                    plan.account,
                    Some(Account { size: 10, timeout: Some(50), time: 60 + id })
                );
                let bytes = plan.bytes.unwrap();
                assert_eq!(
                    SubgroupObject::decode(&mut Cursor::new(&bytes)),
                    Ok(SubgroupObject {
                        object_id: id,
                        size: 10,
                        status: ObjectStatus::Object,
                        deadline: 60 + id,
                    })
                );
            }
            other => panic!("{:?}", other),
        }
        assert!(matches!(
            s.object_header_written(true, &mut state, true),
            ServeAction::ReadPayload
        ));
        assert_eq!(state.max_group_id, Some((3, id)));
        assert!(matches!(s.payload(Ok(10)), ServeAction::WritePayload));
        assert!(matches!(s.payload_written(true), ServeAction::Next));
    }
    assert!(matches!(s.next(NextObject::End, 0), ServeAction::Finish));
    assert_eq!(s.phase, ServePhase::Over);
}

fn at_payload() -> SubgroupServer {
    let (mut s, _) = SubgroupServer::start(header(), 0, None, false, false, 0);
    s.header_written(true);
    s.next(NextObject::Object(object(1, 10)), 0);
    s.object_header_written(true, &mut SubscribedState::default(), true);
    s
}

#[test]
fn what_stops_a_subgroup() {
    let (s, _) = SubgroupServer::start(header(), 0, None, false, false, 0);
    let mut state = SubscribedState::default();
    let mut a = s;
    assert!(matches!(a.header_written(false), ServeAction::Finish));
    assert_eq!(a.phase, ServePhase::Over);
    let mut a = s;
    a.header_written(true);
    assert!(matches!(
        a.next(NextObject::Failed(ServeError::Cancel), 0),
        ServeAction::Fail(ServeError::Cancel)
    ));
    let mut a = s;
    a.header_written(true);
    a.next(NextObject::Object(object(1, 10)), 0);
    let mut b = a;
    assert!(matches!(
        a.object_header_written(false, &mut state, true),
        ServeAction::Finish
    ));
    assert!(matches!(
        b.object_header_written(true, &mut state, false),
        ServeAction::Fail(ServeError::Done)
    ));
    assert_eq!(state.max_group_id, None);
    assert!(matches!(at_payload().payload(Ok(9)), ServeAction::Truncated));
    assert!(matches!(
        at_payload().payload(Err(ServeError::Size)),
        ServeAction::Fail(ServeError::Size)
    ));
    let mut a = at_payload();
    a.payload(Ok(10));
    assert!(matches!(a.payload_written(false), ServeAction::Lost));
    assert_eq!(a.phase, ServePhase::Over);
}

#[test]
fn subgroups_are_served_until_the_last_task_ends() {
    let mut l = ServeLoop::new();
    assert!(l.taking());
    assert!(l.next(NextSubgroup::Subgroup));
    assert!(l.next(NextSubgroup::Subgroup));
    assert!(!l.next(NextSubgroup::End));
    assert!(!l.taking());
    assert_eq!(l.finished(), None);
    l.task_done();
    l.task_done();
    assert_eq!(l.finished(), Some(Ok(())));
    let mut l = ServeLoop::new();
    l.next(NextSubgroup::Failed(ServeError::Size));
    assert_eq!(l.finished(), Some(Err(SessionError::Serve(ServeError::Size))));
    let mut l = ServeLoop::new();
    l.closed(Err(ServeError::Cancel));
    assert_eq!(l.finished(), Some(Err(SessionError::Serve(ServeError::Cancel))));
}

#[test]
fn a_namespace_is_served_until_nothing_is_left() {
    let mut l = AnnounceLoop::new();
    assert_eq!(l.subscribed(Ok(true)), Ok(true));
    assert_eq!(l.status_requested(Ok(true)), Ok(true));
    assert_eq!(l.subscribed(Ok(false)), Ok(false));
    assert_eq!(
        l.status_requested(Err(ServeError::Cancel)),
        Err(SessionError::Serve(ServeError::Cancel))
    );
    assert_eq!(l.status_requested(Ok(false)), Ok(false));
    assert!(!l.finished());
    l.subscribe_task_done();
    assert!(!l.finished());
    l.status_task_done();
    assert!(l.finished());
    let mut l = AnnounceLoop::new();
    assert_eq!(
        l.subscribed(Err(ServeError::Done)),
        Err(SessionError::Serve(ServeError::Done))
    );
}

#[test]
fn an_object_ends_at_its_size() {
    let mut r = SubgroupReceiver::new();
    assert_eq!(r.event(SubgroupEvent::NotDone), SubgroupAction::ReadHeader);
    assert_eq!(r.event(SubgroupEvent::Header { size: 10 }), SubgroupAction::Create { size: 10 });
    assert_eq!(r.created(), SubgroupAction::Read { max: 10 });
    assert_eq!(
        r.event(SubgroupEvent::Chunk { len: 4, written: true }),
        SubgroupAction::Read { max: 6 }
    );
    assert_eq!(
        r.event(SubgroupEvent::Chunk { len: 6, written: true }),
        SubgroupAction::CheckDone
    );
    assert_eq!(r.event(SubgroupEvent::Done), SubgroupAction::Finish);
    assert_eq!(r.phase, SubgroupPhase::Over);
}

#[test]
fn an_empty_object_ends_at_once() {
    let mut r = SubgroupReceiver::new();
    r.event(SubgroupEvent::NotDone);
    r.event(SubgroupEvent::Header { size: 0 });
    assert_eq!(r.created(), SubgroupAction::CheckDone);
}

#[test]
fn a_lost_object_is_drained_and_reported_at_its_end() {
    let at = |remain| SubgroupReceiver { phase: SubgroupPhase::Payload { remain } };
    let mut r = at(10);
    assert_eq!(
        r.event(SubgroupEvent::Chunk { len: 4, written: false }),
        SubgroupAction::Discard { max: 6 }
    );
    assert_eq!(
        r.event(SubgroupEvent::Chunk { len: 5, written: true }),
        SubgroupAction::Discard { max: 1 }
    );
    assert_eq!(
        r.event(SubgroupEvent::Chunk { len: 1, written: true }),
        SubgroupAction::DropThenCheckDone
    );
    assert_eq!(r.phase, SubgroupPhase::Between);
    assert_eq!(
        at(4).event(SubgroupEvent::Chunk { len: 4, written: false }),
        SubgroupAction::DropThenCheckDone
    );
    let mut r = at(10);
    assert_eq!(r.event(SubgroupEvent::Failed), SubgroupAction::Discard { max: 10 });
    assert_eq!(r.event(SubgroupEvent::Ended), SubgroupAction::Finish);
    let mut r = at(10);
    assert_eq!(r.event(SubgroupEvent::Ended), SubgroupAction::Discard { max: 10 });
    assert_eq!(r.event(SubgroupEvent::Failed), SubgroupAction::Finish);
}

#[test]
fn a_subgroup_ends_quietly_or_fails() {
    let mut r = SubgroupReceiver::new();
    assert_eq!(
        r.event(SubgroupEvent::DoneFailed(SessionError::Transport)),
        SubgroupAction::Fail(SessionError::Transport)
    );
    let mut r = SubgroupReceiver { phase: SubgroupPhase::Header };
    assert_eq!(r.event(SubgroupEvent::HeaderFailed), SubgroupAction::Finish);
    let mut r = SubgroupReceiver { phase: SubgroupPhase::Payload { remain: 1 } };
    assert_eq!(
        r.event(SubgroupEvent::CreateFailed(ServeError::Cancel)),
        SubgroupAction::Fail(SessionError::Serve(ServeError::Cancel))
    );
}

#[test]
fn objects_of_a_track_share_their_group() {
    let mut r = TrackReceiver::new();
    assert_eq!(r.object(4, 10), TrackGroup::Create(4));
    assert_eq!(r.next(), Some(10));
    r.chunk(7);
    assert_eq!(r.next(), Some(3));
    r.ended();
    assert_eq!(r.next(), None);
    assert_eq!(r.object(4, 1), TrackGroup::Same);
    r.chunk(1);
    assert_eq!(r.next(), None);
    assert_eq!(r.object(5, 1), TrackGroup::Create(5));
}

#[test]
fn streams_that_break_off_before_their_header_are_dropped() {
    let h = Header::Subgroup(header());
    assert_eq!(header_outcome(Ok(h)), HeaderOutcome::Continue(h));
    for e in [
        SessionError::Decode(DecodeError::More(2)),
        SessionError::Io,
        SessionError::Transport,
    ] {
        match header_outcome(Err(e)) {
            HeaderOutcome::Stop(o) => assert_eq!((o.dropped, o.result), (true, Ok(()))),
            other => panic!("{:?}", other),
        }
    }
    let e = SessionError::Decode(DecodeError::InvalidMessage(9));
    match header_outcome(Err(e)) {
        HeaderOutcome::Stop(o) => assert_eq!((o.dropped, o.result), (false, Err(e))),
        other => panic!("{:?}", other),
    }
}
