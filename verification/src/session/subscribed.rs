//! The publisher's side of a subscription.

use crate::buffer::{buffered, freeze, frozen, new_buffer};
use crate::coding::error::EncodeError;
use crate::coding::wire::Encode;
use crate::data::datagram::{datagram_is_short, write_datagram, Datagram, DatagramView};
use crate::data::header::SubgroupHeader;
use crate::data::object::ObjectStatus;
use crate::message::control::{PublisherMessage, SubscribeDone, SubscribeError};
use crate::message::subscribe::{GroupOrder, Subscribe};
use crate::session::error::{ServeError, SessionError};
use vstd::prelude::*;

verus! {

/// A group and an object in it.
pub type Position = (u64, u64);

/// Whether one position lies behind another: in a later group, or later in the
/// same group.
pub open spec fn later(a: Position, b: Position) -> bool {
    a.0 > b.0 || (a.0 == b.0 && a.1 > b.1)
}

/// What the two halves of a subscription share.
#[derive(Clone, Copy, Debug, PartialEq, Eq)]
pub struct SubscribedState {
    /// The latest position that has been sent.
    pub max_group_id: Option<Position>,
    /// Whether the subscription is over, and why.
    pub closed: Result<(), ServeError>,
}

/// The later of the latest position and a new one.
pub open spec fn latest_of(max: Option<Position>, p: Position) -> Option<Position> {
    match max {
        None => Some(p),
        Some(m) => if later(p, m) {
            Some(p)
        } else {
            Some(m)
        },
    }
}

impl SubscribedState {
    /// Notes that an object has been sent.
    pub fn update_max_group_id(&mut self, group_id: u64, object_id: u64) -> (r: Result<(), ServeError>)
        ensures
            r == Ok::<(), ServeError>(()),
            *final(self) == (SubscribedState {
                max_group_id: latest_of(old(self).max_group_id, (group_id, object_id)),
                ..*old(self)
            }),
    {
        match self.max_group_id {
            None => {
                self.max_group_id = Some((group_id, object_id));
            },
            Some((max_group, max_object)) => {
                if group_id > max_group || (group_id == max_group && object_id > max_object) {
                    self.max_group_id = Some((group_id, object_id));
                }
            },
        }
        Ok(())
    }
}

impl Default for SubscribedState {
    fn default() -> (r: SubscribedState)
        ensures
            r == (SubscribedState { max_group_id: None, closed: Ok(()) }),
    {
        SubscribedState { max_group_id: None, closed: Ok(()) }
    }
}

/// The latest position never goes back, and nothing sent lies behind it.
pub proof fn latest_position_only_grows(max: Option<Position>, p: Position)
    ensures
        latest_of(max, p) matches Some(m) && !later(p, m) && (max matches Some(old) ==> !later(
            old,
            m,
        )),
{
}

/// In whatever order two objects are sent, the latest position is the same.
pub proof fn order_of_sending_does_not_matter(max: Option<Position>, p: Position, q: Position)
    ensures
        latest_of(latest_of(max, p), q) == latest_of(latest_of(max, q), p),
{
}

/// What a subscription shares between the half that serves and the half that
/// receives messages, and whether both halves are there.
#[derive(Clone, Copy, Debug, PartialEq, Eq)]
pub struct SubscribedRecv {
    pub state: SubscribedState,
    /// Whether the half that serves is still there.
    pub serving: bool,
}

/// A subscription that the subscriber does not want any longer: called off, unless
/// it is over already or nobody serves it.
pub open spec fn unsubscribed(s: SubscribedRecv) -> SubscribedRecv {
    if s.state.closed is Ok && s.serving {
        SubscribedRecv {
            state: SubscribedState { closed: Err(ServeError::Cancel), ..s.state },
            ..s
        }
    } else {
        s
    }
}

impl SubscribedRecv {
    /// The subscriber does not want it any longer. Nothing changes where it is over
    /// already or nobody serves it.
    pub fn recv_unsubscribe(&mut self) -> (r: Result<(), ServeError>)
        ensures
            match old(self).state.closed {
                Err(e) => r == Err::<(), ServeError>(e),
                Ok(_) => r is Ok,
            },
            *final(self) == unsubscribed(*old(self)),
    {
        if let Err(e) = self.state.closed {
            return Err(e);
        }
        if self.serving {
            self.state.closed = Err(ServeError::Cancel);
        }
        Ok(())
    }
}

/// The half of a subscription that serves.
#[derive(Debug)]
pub struct Subscribed {
    pub msg: Subscribe,
    pub state: SubscribedState,
    /// Whether the half that receives messages is still there.
    pub receiving: bool,
    /// Whether the subscription has been accepted.
    pub ok: bool,
}

/// The answer that accepts a subscription.
#[derive(Clone, Copy, Debug, PartialEq, Eq)]
pub struct SubscribeOk {
    pub id: u64,
    pub expires: Option<u64>,
    pub group_order: GroupOrder,
    pub latest: Option<Position>,
}

/// How a track is delivered.
#[derive(Clone, Copy, Debug, PartialEq, Eq, Structural)]
pub enum TrackMode {
    Stream,
    Subgroups,
    Datagrams,
}

/// An object that is to be sent as a datagram.
#[derive(Debug)]
pub struct DatagramObject {
    pub group_id: u64,
    pub object_id: u64,
    pub priority: u8,
    pub status: ObjectStatus,
    pub payload: Vec<u8>,
}

/// The timeout by which objects are delivered: what the subscriber asks for, where
/// it is not zero, else the default.
pub open spec fn timeout_for(asked: Option<u64>, default: Option<u64>) -> Option<u64> {
    match asked {
        Some(ms) if ms > 0 => Some(ms),
        _ => default,
    }
}

/// The timeout by which objects are delivered.
pub fn effective_timeout(asked: Option<u64>, default: Option<u64>) -> (r: Option<u64>)
    ensures
        r == timeout_for(asked, default),
{
    match asked {
        Some(ms) => if ms > 0 {
            Some(ms)
        } else {
            default
        },
        None => default,
    }
}

impl Subscribed {
    /// A subscription that has just been asked for.
    pub fn new(msg: Subscribe) -> (r: (Subscribed, SubscribedRecv))
        ensures
            r.0.msg == msg,
            r.0.state == (SubscribedState { max_group_id: None, closed: Ok(()) }),
            r.0.receiving,
            !r.0.ok,
            r.1 == (SubscribedRecv {
                state: SubscribedState { max_group_id: None, closed: Ok(()) },
                serving: true,
            }),
    {
        (
            Subscribed { msg, state: SubscribedState::default(), receiving: true, ok: false },
            SubscribedRecv { state: SubscribedState::default(), serving: true },
        )
    }

    /// The timeout by which the objects of this subscription are delivered.
    pub fn timeout(&self, default: Option<u64>) -> (r: Option<u64>)
        ensures
            r == timeout_for(self.msg@.delivery_timeout_ms, default),
    {
        effective_timeout(self.msg.delivery_timeout_ms, default)
    }

    /// Accepts the subscription: notes the latest position of the track and answers
    /// with it.
    ///
    /// It is too late where the other half has gone.
    pub fn accept(&mut self, latest: Option<Position>) -> (r: Result<SubscribeOk, ServeError>)
        ensures
            if old(self).receiving {
                &&& r == Ok::<SubscribeOk, ServeError>(
                    SubscribeOk {
                        id: old(self).msg@.id,
                        expires: None,
                        group_order: GroupOrder::Descending,
                        latest,
                    },
                )
                &&& *final(self) == (Subscribed {
                    state: SubscribedState { max_group_id: latest, ..old(self).state },
                    ok: true,
                    ..*old(self)
                })
            } else {
                &&& r == Err::<SubscribeOk, ServeError>(ServeError::Cancel)
                &&& *final(self) == *old(self)
            },
    {
        if !self.receiving {
            return Err(ServeError::Cancel);
        }
        self.state.max_group_id = latest;
        self.ok = true;
        Ok(
            SubscribeOk {
                id: self.msg.id,
                expires: None,
                group_order: GroupOrder::Descending,
                latest,
            },
        )
    }

    /// Whether a track that is delivered in this way can be served: not as one
    /// stream.
    pub fn check_mode(mode: TrackMode) -> (r: Result<TrackMode, SessionError>)
        ensures
            r == (if mode == TrackMode::Stream {
                Err::<TrackMode, SessionError>(SessionError::Serve(ServeError::Mode))
            } else {
                Ok::<TrackMode, SessionError>(mode)
            }),
    {
        match mode {
            TrackMode::Stream => Err(SessionError::Serve(ServeError::Mode)),
            _ => Ok(mode),
        }
    }

    /// The subscriber has called the subscription off.
    pub fn cancelled(&mut self)
        ensures
            *final(self) == (if old(self).state.closed is Ok {
                Subscribed {
                    state: SubscribedState {
                        closed: Err(ServeError::Cancel),
                        ..old(self).state
                    },
                    ..*old(self)
                }
            } else {
                *old(self)
            }),
    {
        if let Ok(()) = self.state.closed {
            self.state.closed = Err(ServeError::Cancel);
        }
    }

    /// What an object is as a datagram of this subscription.
    pub open spec fn as_datagram(&self, d: DatagramObject) -> DatagramView {
        DatagramView {
            subscribe_id: self.msg@.id,
            track_alias: self.msg@.track_alias,
            group_id: d.group_id,
            object_id: d.object_id,
            publisher_priority: d.priority,
            object_status: d.status,
            payload_len: d.payload@.len() as u64,
            payload: d.payload@,
        }
    }

    /// The bytes of an object as a datagram.
    pub fn datagram(&self, d: DatagramObject) -> (r: Result<bytes::Bytes, SessionError>)
        requires
            d.payload@.len() <= isize::MAX - 49,
        ensures
            match write_datagram(self.as_datagram(d)).1 {
                None => r matches Ok(b) && frozen(b) == write_datagram(self.as_datagram(d)).0,
                Some(e) => r == Err::<bytes::Bytes, SessionError>(SessionError::Encode(e)),
            },
    {
        let payload_len: u64 = d.payload.len() as u64;
        let datagram: Datagram = Datagram {
            subscribe_id: self.msg.id,
            track_alias: self.msg.track_alias,
            group_id: d.group_id,
            object_id: d.object_id,
            publisher_priority: d.priority,
            object_status: d.status,
            payload_len,
            payload: d.payload,
        };
        let mut w: bytes::BytesMut = new_buffer();
        proof {
            datagram_is_short(datagram@);
        }
        let res: Result<(), EncodeError> = datagram.encode(&mut w);
        assert(buffered(w) == write_datagram(datagram@).0);
        match res {
            Ok(()) => Ok(freeze(w)),
            Err(e) => Err(SessionError::Encode(e)),
        }
    }

    /// A datagram has been sent: its object counts as sent, if the other half is still
    /// there.
    pub fn datagram_sent(&mut self, group_id: u64, object_id: u64) -> (r: Result<(), SessionError>)
        ensures
            if old(self).receiving {
                &&& r == Ok::<(), SessionError>(())
                &&& *final(self) == (Subscribed {
                    state: SubscribedState {
                        max_group_id: latest_of(
                            old(self).state.max_group_id,
                            (group_id, object_id),
                        ),
                        ..old(self).state
                    },
                    ..*old(self)
                })
            } else {
                &&& r == Err::<(), SessionError>(SessionError::Serve(ServeError::Done))
                &&& *final(self) == *old(self)
            },
    {
        if !self.receiving {
            return Err(SessionError::Serve(ServeError::Done));
        }
        let _ = self.state.update_max_group_id(group_id, object_id);
        Ok(())
    }

    /// Ends the subscription with an error, unless it is over or the other half has
    /// gone.
    pub fn close(&mut self, err: ServeError) -> (r: Result<(), ServeError>)
        ensures
            match old(self).state.closed {
                Err(e) => r == Err::<(), ServeError>(e) && *final(self) == *old(self),
                Ok(()) => if old(self).receiving {
                    &&& r == Ok::<(), ServeError>(())
                    &&& *final(self) == (Subscribed {
                        state: SubscribedState { closed: Err(err), ..old(self).state },
                        ..*old(self)
                    })
                } else {
                    r == Err::<(), ServeError>(ServeError::Done) && *final(self) == *old(self)
                },
            },
    {
        if let Err(e) = self.state.closed {
            return Err(e);
        }
        if !self.receiving {
            return Err(ServeError::Done);
        }
        self.state.closed = Err(err);
        Ok(())
    }

    /// The message that tells the subscriber that nothing more is served: that the
    /// subscription is done where it was accepted, else that it is refused.
    pub fn ending(&self, code: u64) -> (r: PublisherMessage)
        ensures
            r == (if self.ok {
                PublisherMessage::SubscribeDone(SubscribeDone { id: self.msg@.id, code })
            } else {
                PublisherMessage::SubscribeError(SubscribeError { id: self.msg@.id, code })
            }),
    {
        let id: u64 = self.msg.id;
        if self.ok {
            PublisherMessage::SubscribeDone(SubscribeDone { id, code })
        } else {
            PublisherMessage::SubscribeError(SubscribeError { id, code })
        }
    }

    /// Whether the subscription is over: with an error; or quietly, once the other
    /// half has gone; else not yet.
    pub fn closed(&self) -> (r: Option<Result<(), ServeError>>)
        ensures
            r == (match self.state.closed {
                Err(e) => Some(Err::<(), ServeError>(e)),
                Ok(()) => if self.receiving {
                    None
                } else {
                    Some(Ok::<(), ServeError>(()))
                },
            }),
    {
        match self.state.closed {
            Err(e) => Some(Err(e)),
            Ok(()) => if self.receiving {
                None
            } else {
                Some(Ok(()))
            },
        }
    }

    /// The header of the stream that carries a subgroup.
    pub fn subgroup_header(&self, group_id: u64, subgroup_id: u64, priority: u8) -> (r:
        SubgroupHeader)
        ensures
            r == (SubgroupHeader {
                subscribe_id: self.msg@.id,
                track_alias: self.msg@.track_alias,
                group_id,
                subgroup_id,
                publisher_priority: priority,
            }),
    {
        SubgroupHeader {
            subscribe_id: self.msg.id,
            track_alias: self.msg.track_alias,
            group_id,
            subgroup_id,
            publisher_priority: priority,
        }
    }
}

/// A subscription that is over stays as it is: calling it off once more, or after
/// another end, changes nothing.
pub proof fn first_end_counts(s: SubscribedRecv)
    ensures
        s.state.closed is Err ==> unsubscribed(s) == s,
        unsubscribed(unsubscribed(s)) == unsubscribed(s),
{
}

/// The timeout that a subscriber asks for counts, whatever the default, unless it is
/// zero; without one the default counts, and there may be none.
pub proof fn the_subscriber_decides_on_the_timeout(
    asked: Option<u64>,
    default: Option<u64>,
    r: Option<u64>,
    s: Subscribed,
    t: Option<u64>,
)
    requires
        call_ensures(effective_timeout, (asked, default), r),
        s.msg.delivery_timeout_ms == asked,
        call_ensures(Subscribed::timeout, (&s, default), t),
    ensures
        asked matches Some(ms) ==> (ms > 0 ==> r == Some(ms)),
        asked is None || asked == Some(0u64) ==> r == default,
        t == r,
{
}

/// A subscription starts open on both sides, with nothing sent and not accepted.
pub proof fn a_subscription_starts_open(msg: Subscribe, r: (Subscribed, SubscribedRecv))
    requires
        call_ensures(Subscribed::new, (msg,), r),
    ensures
        r.0.msg == msg && !r.0.ok && r.0.receiving && r.1.serving,
        r.0.state.max_group_id is None && r.1.state.max_group_id is None,
        r.0.state.closed is Ok && r.1.state.closed is Ok,
{
}

/// Accepting answers under the number of the subscription with the latest place of the
/// track, and notes both; where the other half has gone it is too late, and nothing
/// changes.
pub proof fn accepting_tells_the_latest_place(
    s: &mut Subscribed,
    latest: Option<Position>,
    r: Result<SubscribeOk, ServeError>,
)
    requires
        call_ensures(Subscribed::accept, (s, latest), r),
    ensures
        r is Ok == old(s).receiving,
        r matches Ok(ok) ==> ok.id == old(s).msg.id && ok.latest == latest && ok.expires is None
            && ok.group_order == GroupOrder::Descending && final(s).ok
            && final(s).state.max_group_id == latest && final(s).state.closed
            == old(s).state.closed,
        r matches Err(e) ==> e == ServeError::Cancel && *final(s) == *old(s),
        final(s).msg == old(s).msg && final(s).receiving == old(s).receiving,
{
}

/// The end of a subscription is told under its number and with its code: as done where
/// it was accepted, else as refused.
pub proof fn the_end_is_told_by_whether_it_was_accepted(
    s: &mut Subscribed,
    latest: Option<Position>,
    ok: SubscribeOk,
    fresh: Subscribe,
    pair: (Subscribed, SubscribedRecv),
    code: u64,
    done: PublisherMessage,
    refused: PublisherMessage,
)
    requires
        call_ensures(Subscribed::accept, (s, latest), Ok(ok)),
        call_ensures(Subscribed::ending, (final(s), code), done),
        call_ensures(Subscribed::new, (fresh,), pair),
        call_ensures(Subscribed::ending, (&pair.0, code), refused),
    ensures
        done matches PublisherMessage::SubscribeDone(m) && m.id == old(s).msg.id && m.code == code,
        refused matches PublisherMessage::SubscribeError(m) && m.id == fresh.id && m.code == code,
{
}

/// Only a track that comes as one stream cannot be served.
pub proof fn one_stream_cannot_be_served(mode: TrackMode, r: Result<TrackMode, SessionError>)
    requires
        call_ensures(Subscribed::check_mode, (mode,), r),
    ensures
        mode == TrackMode::Stream ==> r == Err::<TrackMode, SessionError>(
            SessionError::Serve(ServeError::Mode),
        ),
        mode != TrackMode::Stream ==> r == Ok::<TrackMode, SessionError>(mode),
{
}

/// The latest place is that of what was sent, unless something later was sent before:
/// in a later group, or later in the same one. Datagrams count in the same way, while
/// the other half is there.
pub proof fn the_latest_place_is_kept(
    state: &mut SubscribedState,
    group: u64,
    object: u64,
    r: Result<(), ServeError>,
    s: &mut Subscribed,
    t: Result<(), SessionError>,
)
    requires
        call_ensures(SubscribedState::update_max_group_id, (state, group, object), r),
        old(s).state == *old(state),
        call_ensures(Subscribed::datagram_sent, (s, group, object), t),
    ensures
        r is Ok,
        final(state).closed == old(state).closed,
        final(state).max_group_id == (match old(state).max_group_id {
            Some((g, o)) => if g > group || (g == group && o > object) {
                Some((g, o))
            } else {
                Some((group, object))
            },
            None => Some((group, object)),
        }),
        old(s).receiving ==> t is Ok && final(s).state == *final(state),
        !old(s).receiving ==> t == Err::<(), SessionError>(SessionError::Serve(ServeError::Done))
            && final(s).state == old(s).state,
        final(s).msg == old(s).msg && final(s).ok == old(s).ok && final(s).receiving
            == old(s).receiving,
{
}

/// A subscription ends once. The first end stays; a later one is answered with it. What
/// the subscriber calls off ends as called off, while it is served.
pub proof fn a_subscription_ends_once(
    s: &mut Subscribed,
    a: ServeError,
    ra: Result<(), ServeError>,
    t: &mut Subscribed,
    b: ServeError,
    rb: Result<(), ServeError>,
    told: Option<Result<(), ServeError>>,
    u: &mut Subscribed,
    v: &mut SubscribedRecv,
    rv: Result<(), ServeError>,
)
    requires
        old(s).state.closed is Ok,
        old(s).receiving,
        call_ensures(Subscribed::close, (s, a), ra),
        *old(t) == *final(s),
        call_ensures(Subscribed::close, (t, b), rb),
        call_ensures(Subscribed::closed, (final(t),), told),
        call_ensures(Subscribed::cancelled, (u,), ()),
        call_ensures(SubscribedRecv::recv_unsubscribe, (v,), rv),
    ensures
        ra is Ok,
        rb == Err::<(), ServeError>(a),
        told == Some(Err::<(), ServeError>(a)),
        final(t).msg == old(s).msg && final(t).ok == old(s).ok,
        old(u).state.closed is Ok ==> final(u).state.closed == Err::<(), ServeError>(
            ServeError::Cancel,
        ),
        old(u).state.closed is Err ==> *final(u) == *old(u),
        final(u).state.max_group_id == old(u).state.max_group_id && final(u).msg == old(u).msg,
        old(v).state.closed is Ok ==> rv is Ok && (old(v).serving ==> final(v).state.closed
            == Err::<(), ServeError>(ServeError::Cancel)) && (!old(v).serving ==> *final(v)
            == *old(v)),
        old(v).state.closed matches Err(e) ==> rv == Err::<(), ServeError>(e) && *final(v)
            == *old(v),
        final(v).serving == old(v).serving && final(v).state.max_group_id
            == old(v).state.max_group_id,
{
}

/// While both halves are there and nothing ended it, a subscription is not over; it is
/// over quietly once the other half has gone, and then it cannot be closed any more.
pub proof fn a_subscription_is_over_once_a_half_has_gone(
    s: Subscribed,
    told: Option<Result<(), ServeError>>,
    t: &mut Subscribed,
    e: ServeError,
    r: Result<(), ServeError>,
)
    requires
        s.state.closed is Ok,
        call_ensures(Subscribed::closed, (&s,), told),
        old(t).state.closed is Ok,
        !old(t).receiving,
        call_ensures(Subscribed::close, (t, e), r),
    ensures
        s.receiving ==> told is None,
        !s.receiving ==> told == Some(Ok::<(), ServeError>(())),
        r == Err::<(), ServeError>(ServeError::Done) && *final(t) == *old(t),
{
}

/// What is sent for a subscription carries its number and its alias, and the place, the
/// priority and the bytes of the object.
pub proof fn what_is_sent_names_its_subscription(
    s: Subscribed,
    group_id: u64,
    subgroup_id: u64,
    priority: u8,
    h: SubgroupHeader,
    d: DatagramObject,
    r: Result<bytes::Bytes, SessionError>,
)
    requires
        call_ensures(Subscribed::subgroup_header, (&s, group_id, subgroup_id, priority), h),
        call_ensures(Subscribed::datagram, (&s, d), r),
    ensures
        h.subscribe_id == s.msg.id && h.track_alias == s.msg.track_alias && h.group_id == group_id
            && h.subgroup_id == subgroup_id && h.publisher_priority == priority,
        ({
            let said = DatagramView {
                subscribe_id: s.msg.id,
                track_alias: s.msg.track_alias,
                group_id: d.group_id,
                object_id: d.object_id,
                publisher_priority: d.priority,
                object_status: d.status,
                payload_len: d.payload@.len() as u64,
                payload: d.payload@,
            };
            match write_datagram(said).1 {
                None => r matches Ok(b) && frozen(b) == write_datagram(said).0,
                Some(e) => r == Err::<bytes::Bytes, SessionError>(SessionError::Encode(e)),
            }
        }),
{
}

/// What the halves of a subscription share starts with nothing sent and not at its end.
pub proof fn sharing_starts_with_nothing_sent(s: SubscribedState)
    requires
        call_ensures(<SubscribedState as Default>::default, (), s),
    ensures
        s.max_group_id is None,
        s.closed is Ok,
{
}

} // verus!
