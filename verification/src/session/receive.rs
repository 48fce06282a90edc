//! How the subscriber takes in a data stream.
//!
//! The machines here decide. Whoever runs them reads from the stream, passes the
//! bytes on, and reports how it went.

use crate::coding::error::DecodeError;
use crate::data::header::Header;
use crate::session::error::{ServeError, SessionError};
use vstd::prelude::*;

verus! {

/// Where the reception of a subgroup stands.
#[derive(Clone, Copy, Debug, PartialEq, Eq, Structural)]
pub enum SubgroupPhase {
    /// Whether the stream is at its end is not known.
    Between,
    /// The header of an object is being read.
    Header,
    /// The payload of an object: so much is still to come.
    Payload { remain: usize },
    /// The rest of an object that is lost: so much is still to come.
    Drain { remain: usize },
    /// It is over.
    Over,
}

/// What happened on the stream of a subgroup.
#[derive(Clone, Copy, Debug, PartialEq, Eq, Structural)]
pub enum SubgroupEvent {
    /// The stream is not at its end.
    NotDone,
    /// The stream is at its end.
    Done,
    /// Whether it is at its end cannot be told.
    DoneFailed(SessionError),
    /// The header of an object: the size of its payload.
    Header { size: usize },
    /// The header cannot be read.
    HeaderFailed,
    /// There is no place for the object.
    CreateFailed(ServeError),
    /// A piece of the payload, and whether it could be passed on.
    Chunk { len: usize, written: bool },
    /// The stream ended inside the payload.
    Ended,
    /// Reading failed inside the payload.
    Failed,
}

/// What to do next.
#[derive(Clone, Copy, Debug, PartialEq, Eq, Structural)]
pub enum SubgroupAction {
    /// Find out whether the stream is at its end.
    CheckDone,
    /// Report a missing frame and a dropped one, then find out whether the stream
    /// is at its end.
    DropThenCheckDone,
    /// Read the header of an object.
    ReadHeader,
    /// Make a place for an object of this size, then read up to as much of it.
    Create { size: usize },
    /// Read up to so much of the payload and pass it on.
    Read { max: usize },
    /// Read up to so much and throw it away.
    Discard { max: usize },
    /// The work is done.
    Finish,
    /// Give up.
    Fail(SessionError),
}

/// What follows once so much of an object is still to come.
pub open spec fn payload_action(remain: usize) -> (SubgroupPhase, SubgroupAction) {
    if remain == 0 {
        (SubgroupPhase::Between, SubgroupAction::CheckDone)
    } else {
        (SubgroupPhase::Payload { remain }, SubgroupAction::Read { max: remain })
    }
}

/// What follows once so much of a lost object is still to come.
pub open spec fn drain_action(remain: usize) -> (SubgroupPhase, SubgroupAction) {
    if remain == 0 {
        (SubgroupPhase::Between, SubgroupAction::DropThenCheckDone)
    } else {
        (SubgroupPhase::Drain { remain }, SubgroupAction::Discard { max: remain })
    }
}

/// Whether an event can happen in a phase.
pub open spec fn expected(p: SubgroupPhase, e: SubgroupEvent) -> bool {
    match p {
        SubgroupPhase::Between => e is NotDone || e is Done || e is DoneFailed,
        SubgroupPhase::Header => e is Header || e is HeaderFailed,
        SubgroupPhase::Payload { remain } => match e {
            SubgroupEvent::Chunk { len, .. } => len <= remain,
            SubgroupEvent::CreateFailed(_) => true,
            SubgroupEvent::Ended => true,
            SubgroupEvent::Failed => true,
            _ => false,
        },
        SubgroupPhase::Drain { remain } => match e {
            SubgroupEvent::Chunk { len, .. } => len <= remain,
            SubgroupEvent::Ended => true,
            SubgroupEvent::Failed => true,
            _ => false,
        },
        SubgroupPhase::Over => false,
    }
}

/// The next phase and what to do, by phase and event.
///
/// A header that cannot be read ends the subgroup quietly. An object of which a
/// piece cannot be passed on, or that breaks off, is lost: the rest of it is thrown
/// away, and it is reported once all of it has come. Where the stream ends or fails
/// before that, the subgroup ends quietly.
pub open spec fn received(p: SubgroupPhase, e: SubgroupEvent) -> (SubgroupPhase, SubgroupAction) {
    match (p, e) {
        (SubgroupPhase::Between, SubgroupEvent::NotDone) => (
            SubgroupPhase::Header,
            SubgroupAction::ReadHeader,
        ),
        (SubgroupPhase::Between, SubgroupEvent::DoneFailed(err)) => (
            SubgroupPhase::Over,
            SubgroupAction::Fail(err),
        ),
        (SubgroupPhase::Header, SubgroupEvent::Header { size }) => (
            SubgroupPhase::Payload { remain: size },
            SubgroupAction::Create { size },
        ),
        (SubgroupPhase::Payload { .. }, SubgroupEvent::CreateFailed(err)) => (
            SubgroupPhase::Over,
            SubgroupAction::Fail(SessionError::Serve(err)),
        ),
        (SubgroupPhase::Payload { remain }, SubgroupEvent::Chunk { len, written }) => {
            let left = (remain - len) as usize;
            if written {
                payload_action(left)
            } else {
                drain_action(left)
            }
        },
        (SubgroupPhase::Payload { remain }, SubgroupEvent::Ended) => drain_action(remain),
        (SubgroupPhase::Payload { remain }, SubgroupEvent::Failed) => drain_action(remain),
        (SubgroupPhase::Drain { remain }, SubgroupEvent::Chunk { len, .. }) => drain_action(
            (remain - len) as usize,
        ),
        _ => (SubgroupPhase::Over, SubgroupAction::Finish),
    }
}

fn after_payload(remain: usize) -> (r: (SubgroupPhase, SubgroupAction))
    ensures
        r == payload_action(remain),
{
    if remain == 0 {
        (SubgroupPhase::Between, SubgroupAction::CheckDone)
    } else {
        (SubgroupPhase::Payload { remain }, SubgroupAction::Read { max: remain })
    }
}

fn after_drain(remain: usize) -> (r: (SubgroupPhase, SubgroupAction))
    ensures
        r == drain_action(remain),
{
    if remain == 0 {
        (SubgroupPhase::Between, SubgroupAction::DropThenCheckDone)
    } else {
        (SubgroupPhase::Drain { remain }, SubgroupAction::Discard { max: remain })
    }
}

/// The reception of a subgroup. It starts by finding out whether the stream is at
/// its end.
#[derive(Clone, Copy, Debug, PartialEq, Eq, Structural)]
pub struct SubgroupReceiver {
    pub phase: SubgroupPhase,
}

impl SubgroupReceiver {
    /// The start of the reception.
    pub fn new() -> (r: SubgroupReceiver)
        ensures
            r.phase == SubgroupPhase::Between,
    {
        SubgroupReceiver { phase: SubgroupPhase::Between }
    }

    /// Takes in an event and says what to do next.
    pub fn event(&mut self, e: SubgroupEvent) -> (r: SubgroupAction)
        requires
            expected(old(self).phase, e),
        ensures
            (final(self).phase, r) == received(old(self).phase, e),
    {
        let (phase, action): (SubgroupPhase, SubgroupAction) = match (self.phase, e) {
            (SubgroupPhase::Between, SubgroupEvent::NotDone) => (
                SubgroupPhase::Header,
                SubgroupAction::ReadHeader,
            ),
            (SubgroupPhase::Between, SubgroupEvent::DoneFailed(err)) => (
                SubgroupPhase::Over,
                SubgroupAction::Fail(err),
            ),
            (SubgroupPhase::Header, SubgroupEvent::Header { size }) => (
                SubgroupPhase::Payload { remain: size },
                SubgroupAction::Create { size },
            ),
            (SubgroupPhase::Payload { .. }, SubgroupEvent::CreateFailed(err)) => (
                SubgroupPhase::Over,
                SubgroupAction::Fail(SessionError::Serve(err)),
            ),
            (SubgroupPhase::Payload { remain }, SubgroupEvent::Chunk { len, written }) => {
                let left: usize = remain - len;
                if written {
                    after_payload(left)
                } else {
                    after_drain(left)
                }
            },
            (SubgroupPhase::Payload { remain }, SubgroupEvent::Ended) => after_drain(remain),
            (SubgroupPhase::Payload { remain }, SubgroupEvent::Failed) => after_drain(remain),
            (SubgroupPhase::Drain { remain }, SubgroupEvent::Chunk { len, .. }) => after_drain(
                remain - len,
            ),
            _ => (SubgroupPhase::Over, SubgroupAction::Finish),
        };
        self.phase = phase;
        action
    }

    /// The place for the object has been made.
    pub fn created(&mut self) -> (r: SubgroupAction)
        requires
            old(self).phase is Payload,
        ensures
            (final(self).phase, r) == payload_action(old(self).phase->Payload_remain),
    {
        match self.phase {
            SubgroupPhase::Payload { remain } => {
                let (phase, action): (SubgroupPhase, SubgroupAction) = after_payload(remain);
                self.phase = phase;
                action
            },
            _ => SubgroupAction::Finish,
        }
    }
}

/// The phase after a number of pieces of an object, all passed on.
pub open spec fn after_chunks(remain: usize, lens: Seq<usize>) -> SubgroupPhase
    decreases lens.len(),
{
    if lens.len() == 0 {
        payload_action(remain).0
    } else {
        let left = (remain - lens[0]) as usize;
        after_chunks(left, lens.skip(1))
    }
}

/// The sum of some lengths.
pub open spec fn total(lens: Seq<usize>) -> int
    decreases lens.len(),
{
    if lens.len() == 0 {
        0
    } else {
        lens[0] + total(lens.skip(1))
    }
}

/// An object is complete when exactly its declared size has been passed on, in
/// whatever pieces it came.
pub proof fn object_ends_at_its_size(size: usize, lens: Seq<usize>)
    requires
        total(lens) <= size,
    ensures
        after_chunks(size, lens) == payload_action((size - total(lens)) as usize).0,
        total(lens) == size <==> after_chunks(size, lens) == SubgroupPhase::Between,
    decreases lens.len(),
{
    lemma_total_is_not_negative(lens);
    if lens.len() > 0 {
        lemma_total_is_not_negative(lens.skip(1));
        object_ends_at_its_size((size - lens[0]) as usize, lens.skip(1));
    }
}

proof fn lemma_total_is_not_negative(lens: Seq<usize>)
    ensures
        total(lens) >= 0,
    decreases lens.len(),
{
    if lens.len() > 0 {
        lemma_total_is_not_negative(lens.skip(1));
    }
}

/// A lost object is reported only where all of it has come, and then the next
/// object is read.
pub proof fn lost_object_is_reported_at_its_end(p: SubgroupPhase, e: SubgroupEvent)
    requires
        expected(p, e),
        received(p, e).1 is DropThenCheckDone,
    ensures
        received(p, e).0 is Between,
        p matches SubgroupPhase::Drain { remain } ==> (e matches SubgroupEvent::Chunk { len, .. }
            && len == remain),
{
}

/// Which group an object of a track goes into.
#[derive(Clone, Copy, Debug, PartialEq, Eq, Structural)]
pub enum TrackGroup {
    /// The group that is open.
    Same,
    /// A new one of this number.
    Create(u64),
}

/// The reception of a track on one stream.
#[derive(Clone, Copy, Debug, PartialEq, Eq, Structural)]
pub struct TrackReceiver {
    /// The group that is open.
    pub group: Option<u64>,
    /// How much of the current object is still to come.
    pub remain: usize,
}

impl TrackReceiver {
    /// The start of the reception.
    pub fn new() -> (r: TrackReceiver)
        ensures
            r == (TrackReceiver { group: None, remain: 0 }),
    {
        TrackReceiver { group: None, remain: 0 }
    }

    /// The header of an object has been read: which group it goes into.
    pub fn object(&mut self, group_id: u64, size: usize) -> (r: TrackGroup)
        ensures
            r == (if old(self).group == Some(group_id) {
                TrackGroup::Same
            } else {
                TrackGroup::Create(group_id)
            }),
            *final(self) == (TrackReceiver { group: Some(group_id), remain: size }),
    {
        let same: bool = match self.group {
            Some(g) => g == group_id,
            None => false,
        };
        self.group = Some(group_id);
        self.remain = size;
        if same {
            TrackGroup::Same
        } else {
            TrackGroup::Create(group_id)
        }
    }

    /// How much of the object to read next; nothing once it is complete.
    pub fn next(&self) -> (r: Option<usize>)
        ensures
            r == (if self.remain > 0 {
                Some(self.remain)
            } else {
                None
            }),
    {
        if self.remain > 0 {
            Some(self.remain)
        } else {
            None
        }
    }

    /// A piece of the object has come.
    pub fn chunk(&mut self, len: usize)
        requires
            len <= old(self).remain,
        ensures
            *final(self) == (TrackReceiver {
                remain: (old(self).remain - len) as usize,
                ..*old(self)
            }),
    {
        self.remain = self.remain - len;
    }

    /// The stream ended inside the object: it is dropped, and the group stays open.
    pub fn ended(&mut self)
        ensures
            *final(self) == (TrackReceiver { remain: 0, ..*old(self) }),
    {
        self.remain = 0;
    }
}

/// What is reported of a stream that is lost, and how its reception ends.
#[derive(Clone, Copy, Debug, PartialEq, Eq)]
pub struct StreamOutcome {
    /// Whether a missing frame and a dropped one are reported.
    pub dropped: bool,
    pub result: Result<(), SessionError>,
}

/// What follows from the header of a stream.
#[derive(Clone, Copy, Debug, PartialEq, Eq)]
pub enum HeaderOutcome {
    /// Take in what follows.
    Continue(Header),
    /// Stop here.
    Stop(StreamOutcome),
}

/// Whether a stream that fails in this way before its header is complete is only
/// dropped: it ended, or reading from it failed.
pub open spec fn is_soft_drop(e: SessionError) -> bool {
    ||| e matches SessionError::Decode(DecodeError::More(_))
    ||| e == SessionError::Io
    ||| e == SessionError::Transport
}

/// What follows from the header of a stream.
pub fn header_outcome(res: Result<Header, SessionError>) -> (r: HeaderOutcome)
    ensures
        match res {
            Ok(h) => r == HeaderOutcome::Continue(h),
            Err(e) => {
                &&& r matches HeaderOutcome::Stop(o)
                &&& o.dropped == is_soft_drop(e)
                &&& if is_soft_drop(e) {
                    o.result is Ok
                } else {
                    o.result == Err::<(), SessionError>(e)
                }
            },
        },
{
    match res {
        Ok(h) => HeaderOutcome::Continue(h),
        Err(SessionError::Decode(DecodeError::More(_))) | Err(SessionError::Io) | Err(
            SessionError::Transport,
        ) => HeaderOutcome::Stop(StreamOutcome { dropped: true, result: Ok(()) }),
        Err(e) => HeaderOutcome::Stop(StreamOutcome { dropped: false, result: Err(e) }),
    }
}

/// A piece of an object that is passed on brings its end nearer by as much: exactly as
/// much as is left is asked for next, and where nothing is, the object is complete and
/// the next one is looked for.
pub proof fn pieces_that_are_passed_on_complete_the_object(
    m: &mut SubgroupReceiver,
    remain: usize,
    len: usize,
    r: SubgroupAction,
)
    requires
        call_ensures(
            SubgroupReceiver::event,
            (m, SubgroupEvent::Chunk { len, written: true }),
            r,
        ),
        old(m).phase == (SubgroupPhase::Payload { remain }),
        len <= remain,
    ensures
        len == remain ==> r == SubgroupAction::CheckDone && final(m).phase
            == SubgroupPhase::Between,
        len < remain ==> r == (SubgroupAction::Read { max: (remain - len) as usize })
            && final(m).phase == (SubgroupPhase::Payload { remain: (remain - len) as usize }),
{
}

/// An object of which a piece is not passed on, or that breaks off, is lost. All that is
/// left of it is thrown away; once nothing is, it is reported, and the next one is
/// looked for.
pub proof fn a_lost_object_is_thrown_away(
    m: &mut SubgroupReceiver,
    remain: usize,
    len: usize,
    r: SubgroupAction,
    n: &mut SubgroupReceiver,
    fails: bool,
    s: SubgroupAction,
    o: &mut SubgroupReceiver,
    written: bool,
    t: SubgroupAction,
)
    requires
        old(m).phase == (SubgroupPhase::Payload { remain }),
        old(n).phase == (SubgroupPhase::Payload { remain }),
        old(o).phase == (SubgroupPhase::Drain { remain }),
        len <= remain,
        call_ensures(
            SubgroupReceiver::event,
            (m, SubgroupEvent::Chunk { len, written: false }),
            r,
        ),
        call_ensures(
            SubgroupReceiver::event,
            (
                n,
                if fails {
                    SubgroupEvent::Failed
                } else {
                    SubgroupEvent::Ended
                },
            ),
            s,
        ),
        call_ensures(SubgroupReceiver::event, (o, SubgroupEvent::Chunk { len, written }), t),
    ensures
        len == remain ==> r == SubgroupAction::DropThenCheckDone && t == r && final(m).phase
            == SubgroupPhase::Between && final(o).phase == SubgroupPhase::Between,
        len < remain ==> r == (SubgroupAction::Discard { max: (remain - len) as usize }) && t == r
            && final(m).phase == (SubgroupPhase::Drain { remain: (remain - len) as usize })
            && final(o).phase == final(m).phase,
        remain == 0 ==> s == SubgroupAction::DropThenCheckDone && final(n).phase
            == SubgroupPhase::Between,
        remain > 0 ==> s == (SubgroupAction::Discard { max: remain }) && final(n).phase == (
        SubgroupPhase::Drain { remain }),
{
}

/// Between two objects the stream is asked whether it goes on: if so a header is read;
/// if not the work is done; where that cannot be told, it fails in the same way.
pub proof fn between_objects_the_stream_decides(
    m: &mut SubgroupReceiver,
    e: SubgroupEvent,
    r: SubgroupAction,
)
    requires
        call_ensures(SubgroupReceiver::event, (m, e), r),
        old(m).phase == SubgroupPhase::Between,
    ensures
        e is NotDone ==> r == SubgroupAction::ReadHeader && final(m).phase == SubgroupPhase::Header,
        e is Done ==> r == SubgroupAction::Finish && final(m).phase == SubgroupPhase::Over,
        e matches SubgroupEvent::DoneFailed(err) ==> r == SubgroupAction::Fail(err)
            && final(m).phase == SubgroupPhase::Over,
{
}

/// A header makes place for an object of its size, all of which is then to come. One
/// that cannot be read ends the work, and so does a lost object whose rest does not
/// come; without a place for the object the work fails.
pub proof fn a_header_makes_place_for_its_object(
    m: &mut SubgroupReceiver,
    size: usize,
    r: SubgroupAction,
    n: &mut SubgroupReceiver,
    s: SubgroupAction,
    o: &mut SubgroupReceiver,
    t: SubgroupAction,
    p: &mut SubgroupReceiver,
    err: ServeError,
    u: SubgroupAction,
    q: &mut SubgroupReceiver,
    fails: bool,
    v: SubgroupAction,
)
    requires
        old(m).phase == SubgroupPhase::Header,
        call_ensures(SubgroupReceiver::event, (m, SubgroupEvent::Header { size }), r),
        *old(n) == *final(m),
        call_ensures(SubgroupReceiver::created, (n,), s),
        old(o).phase == SubgroupPhase::Header,
        call_ensures(SubgroupReceiver::event, (o, SubgroupEvent::HeaderFailed), t),
        *old(p) == *final(m),
        call_ensures(SubgroupReceiver::event, (p, SubgroupEvent::CreateFailed(err)), u),
        old(q).phase is Drain,
        call_ensures(
            SubgroupReceiver::event,
            (
                q,
                if fails {
                    SubgroupEvent::Failed
                } else {
                    SubgroupEvent::Ended
                },
            ),
            v,
        ),
    ensures
        r == (SubgroupAction::Create { size }),
        size > 0 ==> s == (SubgroupAction::Read { max: size }) && final(n).phase == (
        SubgroupPhase::Payload { remain: size }),
        size == 0 ==> s == SubgroupAction::CheckDone && final(n).phase == SubgroupPhase::Between,
        t == SubgroupAction::Finish && final(o).phase == SubgroupPhase::Over,
        u == SubgroupAction::Fail(SessionError::Serve(err)) && final(p).phase
            == SubgroupPhase::Over,
        v == SubgroupAction::Finish && final(q).phase == SubgroupPhase::Over,
{
}

/// An object of a track goes into the open group where that has its number, else into a
/// new one, which is then the open group. All of its size is to come, less by each
/// piece, until nothing is asked for any longer.
pub proof fn objects_of_a_track_go_into_their_group(
    m: &mut TrackReceiver,
    group_id: u64,
    size: usize,
    g: TrackGroup,
    n: &mut TrackReceiver,
    len: usize,
    want: Option<usize>,
    then: Option<usize>,
    o: &mut TrackReceiver,
    last: Option<usize>,
)
    requires
        call_ensures(TrackReceiver::object, (m, group_id, size), g),
        call_ensures(TrackReceiver::next, (final(m),), want),
        *old(n) == *final(m),
        len <= size,
        call_ensures(TrackReceiver::chunk, (n, len), ()),
        call_ensures(TrackReceiver::next, (final(n),), then),
        *old(o) == *final(n),
        call_ensures(TrackReceiver::ended, (o,), ()),
        call_ensures(TrackReceiver::next, (final(o),), last),
    ensures
        g == TrackGroup::Same <==> old(m).group == Some(group_id),
        g != TrackGroup::Same ==> g == TrackGroup::Create(group_id),
        final(m).group == Some(group_id) && final(n).group == Some(group_id) && final(o).group
            == Some(group_id),
        want is None == (size == 0),
        want matches Some(w) ==> w == size,
        then is None == (len == size),
        then matches Some(w) ==> len + w == size,
        last is None,
{
}

/// A stream whose header has come is taken in. One that ends or fails before is only
/// counted as dropped; a header that is wrong is the error of the stream.
pub proof fn streams_without_a_header_are_dropped(
    res: Result<Header, SessionError>,
    r: HeaderOutcome,
)
    requires
        call_ensures(header_outcome, (res,), r),
    ensures
        res matches Ok(h) ==> r == HeaderOutcome::Continue(h),
        res matches Err(e) ==> (r matches HeaderOutcome::Stop(o) && ({
            let soft = (e matches SessionError::Decode(DecodeError::More(_))) || e
                == SessionError::Io || e == SessionError::Transport;
            &&& o.dropped == soft
            &&& soft ==> o.result is Ok
            &&& !soft ==> o.result == Err::<(), SessionError>(e)
        })),
{
}

/// The reception of a stream starts between two objects and in no group.
pub proof fn reception_starts_between_objects(s: SubgroupReceiver, t: TrackReceiver)
    requires
        call_ensures(SubgroupReceiver::new, (), s),
        call_ensures(TrackReceiver::new, (), t),
    ensures
        s.phase is Between,
        t.group is None,
        t.remain == 0,
{
}

} // verus!
