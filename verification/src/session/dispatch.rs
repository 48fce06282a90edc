//! A session: its two halves, and which of them takes what comes in.

use crate::data::datagram::{read_datagram, Datagram};
use crate::message::control::{GoAway, Message, PublisherMessage, SubscriberMessage};
use crate::message::fix_bandwidth::FixBandwidth;
use crate::message::relay::Relay;
use crate::session::error::SessionError;
use crate::session::publisher::{publisher_takes, Publisher, PublisherAction, PublisherView};
use crate::session::setup::Role;
use crate::session::subscriber::{subscriber_takes, Subscriber, SubscriberView};
use crate::watch::Queue;
use vstd::prelude::*;

verus! {

/// What is left to do once a message has been taken in.
#[derive(Debug)]
pub enum Dispatched {
    /// The subscribing half took it.
    Subscriber,
    /// The publishing half took it and asks for this.
    Publisher(PublisherAction),
    /// It was for whichever half there is.
    Relay,
}

/// Whether a message is one that the halves know how to take.
pub open spec fn dispatchable(msg: Message) -> bool {
    match msg {
        Message::Publisher(m) => subscriber_takes(m),
        Message::Subscriber(m) => publisher_takes(m),
        _ => true,
    }
}

/// What the publishing half holds.
pub open spec fn publisher_view(p: Option<Publisher>) -> Option<PublisherView> {
    match p {
        Some(p) => Some(p@),
        None => None,
    }
}

/// What the subscribing half holds.
pub open spec fn subscriber_view(s: Option<Subscriber>) -> Option<SubscriberView> {
    match s {
        Some(s) => Some(s@),
        None => None,
    }
}

/// Whether the tables of the halves are in order.
pub open spec fn halves_wf(p: Option<Publisher>, s: Option<Subscriber>) -> bool {
    &&& p matches Some(p) ==> p.wf()
    &&& s matches Some(s) ==> s.wf()
}

/// The publishing half after a message of the relay.
pub open spec fn publisher_after_relay(p: Option<PublisherView>, msg: Relay) -> Option<
    PublisherView,
> {
    match (p, msg) {
        (Some(p), Relay::GoAway(m)) => Some(PublisherView { url: m.url@, ..p }),
        _ => p,
    }
}

/// The subscribing half after a message of the relay.
pub open spec fn subscriber_after_relay(s: Option<SubscriberView>, msg: Relay) -> Option<
    SubscriberView,
> {
    match (s, msg) {
        (Some(s), Relay::GoAway(m)) => Some(SubscriberView { url: m.url@, ..s }),
        _ => s,
    }
}

fn copy_relay(msg: &Relay) -> (r: Relay)
    ensures
        match (*msg, r) {
            (Relay::GoAway(a), Relay::GoAway(b)) => a.url@ == b.url@,
            (Relay::FixBandwidth(a), Relay::FixBandwidth(b)) => a == b,
            _ => false,
        },
{
    match msg {
        Relay::GoAway(m) => Relay::GoAway(crate::message::control::GoAway { url: m.url.clone() }),
        Relay::FixBandwidth(m) => Relay::FixBandwidth(*m),
    }
}

/// Takes in one message of the control stream.
///
/// What a publisher sends is for the subscribing half, what a subscriber sends is
/// for the publishing half, and it is a violation where there is no such half. What
/// a relay sends is for whichever half there is.
pub fn recv_message(
    msg: Message,
    publisher: &mut Option<Publisher>,
    subscriber: &mut Option<Subscriber>,
) -> (r: Result<Dispatched, SessionError>)
    requires
        halves_wf(*old(publisher), *old(subscriber)),
        dispatchable(msg),
    ensures
        halves_wf(*final(publisher), *final(subscriber)),
        match msg {
            Message::Publisher(m) => {
                &&& publisher_view(*final(publisher)) == publisher_view(*old(publisher))
                &&& match (*old(subscriber), *final(subscriber)) {
                    (Some(before), Some(after)) => match r {
                        Ok(d) => d == Dispatched::Subscriber && before@.recv_step(m, after@, Ok(())),
                        Err(e) => before@.recv_step(m, after@, Err(e)),
                    },
                    (None, None) => r == Err::<Dispatched, SessionError>(
                        SessionError::RoleViolation,
                    ),
                    _ => false,
                }
            },
            Message::Subscriber(m) => {
                &&& subscriber_view(*final(subscriber)) == subscriber_view(*old(subscriber))
                &&& match (*old(publisher), *final(publisher)) {
                    (Some(before), Some(after)) => r matches Ok(Dispatched::Publisher(a))
                        && before@.recv_step(m, after@, a),
                    (None, None) => r == Err::<Dispatched, SessionError>(
                        SessionError::RoleViolation,
                    ),
                    _ => false,
                }
            },
            Message::GoAway(m) => {
                &&& r == Ok::<Dispatched, SessionError>(Dispatched::Relay)
                &&& publisher_view(*final(publisher)) == publisher_after_relay(
                    publisher_view(*old(publisher)),
                    Relay::GoAway(m),
                )
                &&& subscriber_view(*final(subscriber)) == subscriber_after_relay(
                    subscriber_view(*old(subscriber)),
                    Relay::GoAway(m),
                )
            },
            Message::FixBandwidth(_) => {
                &&& r == Ok::<Dispatched, SessionError>(Dispatched::Relay)
                &&& publisher_view(*final(publisher)) == publisher_view(*old(publisher))
                &&& subscriber_view(*final(subscriber)) == subscriber_view(*old(subscriber))
            },
        },
{
    let msg: Relay = match msg {
        Message::Publisher(m) => {
            return match subscriber {
                Some(s) => match s.recv_message(m) {
                    Ok(()) => Ok(Dispatched::Subscriber),
                    Err(e) => Err(e),
                },
                None => Err(SessionError::RoleViolation),
            };
        },
        Message::Subscriber(m) => {
            return match publisher {
                Some(p) => Ok(Dispatched::Publisher(p.recv_message(m))),
                None => Err(SessionError::RoleViolation),
            };
        },
        Message::GoAway(m) => Relay::GoAway(m),
        Message::FixBandwidth(m) => Relay::FixBandwidth(m),
    };
    if let Some(p) = publisher {
        let _ = p.recv_goaway(copy_relay(&msg));
    }
    if let Some(s) = subscriber {
        let _ = s.recv_goaway(&msg);
    }
    Ok(Dispatched::Relay)
}

/// The halves of a session.
#[derive(Debug)]
pub struct Session {
    pub publisher: Option<Publisher>,
    pub subscriber: Option<Subscriber>,
}

/// What to do about a stream of the peer.
#[derive(Clone, Copy, Debug, PartialEq, Eq, Structural)]
pub enum StreamStep {
    /// Read it, beside all others.
    Read,
    /// No more streams will come. The session ends well.
    Stop,
}

impl Session {
    /// The tables of the halves are in order.
    pub open spec fn wf(&self) -> bool {
        halves_wf(self.publisher, self.subscriber)
    }

    /// A session of this role. With both roles it publishes.
    pub fn new(role: Role) -> (r: Session)
        ensures
            r.wf(),
            r.publisher is Some == (role != Role::Subscriber),
            r.subscriber is Some == (role == Role::Subscriber),
            r.publisher matches Some(p) ==> p@ == PublisherView::start(Seq::empty(), true),
            r.subscriber matches Some(s) ==> s@ == SubscriberView::start(Seq::empty(), true),
    {
        match role {
            Role::Publisher | Role::Both => Session {
                publisher: Some(Publisher::new(Queue::new())),
                subscriber: None,
            },
            Role::Subscriber => Session {
                publisher: None,
                subscriber: Some(Subscriber::new(Queue::new())),
            },
        }
    }

    /// The publishing half.
    pub fn publisher(&self) -> (r: Result<&Publisher, SessionError>)
        ensures
            match self.publisher {
                Some(p) => r matches Ok(q) && *q == p,
                None => r matches Err(SessionError::RoleViolation),
            },
    {
        match &self.publisher {
            Some(p) => Ok(p),
            None => Err(SessionError::RoleViolation),
        }
    }

    /// The subscribing half.
    pub fn subscriber(&self) -> (r: Result<&Subscriber, SessionError>)
        ensures
            match self.subscriber {
                Some(s) => r matches Ok(t) && *t == s,
                None => r matches Err(SessionError::RoleViolation),
            },
    {
        match &self.subscriber {
            Some(s) => Ok(s),
            None => Err(SessionError::RoleViolation),
        }
    }

    /// A stream of the peer has been accepted, or none can be any longer. Only a
    /// subscriber takes streams.
    pub fn accept_stream(&self, accepted: bool) -> (r: Result<StreamStep, SessionError>)
        ensures
            r == (if !accepted {
                Ok::<StreamStep, SessionError>(StreamStep::Stop)
            } else if self.subscriber is Some {
                Ok::<StreamStep, SessionError>(StreamStep::Read)
            } else {
                Err::<StreamStep, SessionError>(SessionError::RoleViolation)
            }),
    {
        if !accepted {
            return Ok(StreamStep::Stop);
        }
        match &self.subscriber {
            Some(_) => Ok(StreamStep::Read),
            None => Err(SessionError::RoleViolation),
        }
    }

    /// A datagram of the peer has come: what is to be handed on. Only a subscriber
    /// takes datagrams.
    pub fn recv_datagram(&self, datagram: &[u8]) -> (r: Result<Option<Datagram>, SessionError>)
        requires
            self.wf(),
        ensures
            match self.subscriber {
                None => r == Err::<Option<Datagram>, SessionError>(SessionError::RoleViolation),
                Some(s) => match read_datagram(datagram@) {
                    Err(e) => r == Err::<Option<Datagram>, SessionError>(SessionError::Decode(e)),
                    Ok((v, _)) => if s@.subscribes.contains_key(v.subscribe_id) {
                        r matches Ok(Some(d)) && d@ == v
                    } else {
                        r matches Ok(None)
                    },
                },
            },
    {
        match &self.subscriber {
            Some(s) => s.recv_datagram(datagram),
            None => Err(SessionError::RoleViolation),
        }
    }
}

/// What a publisher sends is for the subscribing half, which takes it as it would by
/// itself, and the other half is not touched. Without that half it is a violation.
pub proof fn what_a_publisher_sends_is_for_the_subscriber(
    m: PublisherMessage,
    p: &mut Option<Publisher>,
    s: &mut Option<Subscriber>,
    r: Result<Dispatched, SessionError>,
)
    requires
        call_ensures(recv_message, (Message::Publisher(m), p, s), r),
    ensures
        publisher_view(*final(p)) == publisher_view(*old(p)),
        *old(s) is None ==> r == Err::<Dispatched, SessionError>(SessionError::RoleViolation)
            && *final(s) is None,
        *old(s) matches Some(before) ==> (*final(s) matches Some(after) && (match r {
            Ok(d) => d == Dispatched::Subscriber && before@.recv_step(m, after@, Ok(())),
            Err(e) => before@.recv_step(m, after@, Err(e)),
        })),
{
}

/// What a subscriber sends is for the publishing half, which takes it as it would by
/// itself, and the other half is not touched. Without that half it is a violation.
pub proof fn what_a_subscriber_sends_is_for_the_publisher(
    m: SubscriberMessage,
    p: &mut Option<Publisher>,
    s: &mut Option<Subscriber>,
    r: Result<Dispatched, SessionError>,
)
    requires
        call_ensures(recv_message, (Message::Subscriber(m), p, s), r),
    ensures
        subscriber_view(*final(s)) == subscriber_view(*old(s)),
        *old(p) is None ==> r == Err::<Dispatched, SessionError>(SessionError::RoleViolation)
            && *final(p) is None,
        *old(p) matches Some(before) ==> (*final(p) matches Some(after) && (r matches Ok(
            Dispatched::Publisher(a),
        ) && before@.recv_step(m, after@, a))),
{
}

/// An address to go to is told to every half there is, and nothing else of them changes.
/// A bandwidth changes nothing. Neither is ever a violation.
pub proof fn an_address_is_told_to_both_halves(
    m: GoAway,
    p: &mut Option<Publisher>,
    s: &mut Option<Subscriber>,
    r: Result<Dispatched, SessionError>,
    b: FixBandwidth,
    q: &mut Option<Publisher>,
    t: &mut Option<Subscriber>,
    u: Result<Dispatched, SessionError>,
)
    requires
        call_ensures(recv_message, (Message::GoAway(m), p, s), r),
        call_ensures(recv_message, (Message::FixBandwidth(b), q, t), u),
    ensures
        r == Ok::<Dispatched, SessionError>(Dispatched::Relay) && u == r,
        (*old(p) is None) == (*final(p) is None) && (*old(s) is None) == (*final(s) is None),
        *old(p) matches Some(was) ==> (*final(p) matches Some(is) && is@ == (PublisherView {
            url: m.url@,
            ..was@
        })),
        *old(s) matches Some(was) ==> (*final(s) matches Some(is) && is@ == (SubscriberView {
            url: m.url@,
            ..was@
        })),
        publisher_view(*final(q)) == publisher_view(*old(q)),
        subscriber_view(*final(t)) == subscriber_view(*old(t)),
{
}

/// A session has one half: that which subscribes where that is its role, else that which
/// publishes. Only the half that is there can be had.
pub proof fn a_session_has_the_half_of_its_role(
    role: Role,
    r: Session,
    p: Result<&Publisher, SessionError>,
    s: Result<&Subscriber, SessionError>,
)
    requires
        call_ensures(Session::new, (role,), r),
        call_ensures(Session::publisher, (&r,), p),
        call_ensures(Session::subscriber, (&r,), s),
    ensures
        r.subscriber is Some == (role == Role::Subscriber),
        r.publisher is Some == (role == Role::Publisher || role == Role::Both),
        p is Ok == r.publisher is Some && s is Ok == r.subscriber is Some,
        p matches Err(e) ==> e == SessionError::RoleViolation,
        s matches Err(e) ==> e == SessionError::RoleViolation,
        p matches Ok(x) ==> *x == r.publisher->Some_0,
        s matches Ok(x) ==> *x == r.subscriber->Some_0,
        r.publisher matches Some(x) ==> x@.announces.dom() == Set::<Seq<Seq<u8>>>::empty()
            && x@.subscribed.dom() == Set::<u64>::empty() && x@.unknown.len() == 0
            && x@.outgoing.len() == 0 && x@.outgoing_open && x@.unknown_open && x@.url.len() == 0,
        r.subscriber matches Some(x) ==> x@.announced.dom() == Set::<Seq<Seq<u8>>>::empty()
            && x@.subscribes.dom() == Set::<u64>::empty() && x@.subscribe_next == 0 && x@.queue.len()
            == 0 && x@.ended.len() == 0 && x@.outgoing.len() == 0 && x@.outgoing_open
            && x@.queue_open && x@.url.len() == 0,
{
}

/// Streams and datagrams of the peer are for a subscriber alone. Once no stream can be
/// accepted any longer, the session ends well.
pub proof fn only_a_subscriber_takes_data(
    s: Session,
    accepted: bool,
    r: Result<StreamStep, SessionError>,
    b: &[u8],
    d: Result<Option<Datagram>, SessionError>,
    own: Result<Option<Datagram>, SessionError>,
)
    requires
        call_ensures(Session::accept_stream, (&s, accepted), r),
        call_ensures(Session::recv_datagram, (&s, b), d),
        s.subscriber matches Some(x) ==> call_ensures(Subscriber::recv_datagram, (&x, b), own),
    ensures
        !accepted ==> r == Ok::<StreamStep, SessionError>(StreamStep::Stop),
        accepted && s.subscriber is Some ==> r == Ok::<StreamStep, SessionError>(StreamStep::Read),
        accepted && s.subscriber is None ==> r == Err::<StreamStep, SessionError>(
            SessionError::RoleViolation,
        ),
        s.subscriber is None ==> d == Err::<Option<Datagram>, SessionError>(
            SessionError::RoleViolation,
        ),
        s.subscriber is Some ==> d is Ok == own is Ok,
        s.subscriber is Some ==> (d matches Ok(x) ==> (own matches Ok(y) && (x is Some == y is Some)
            && (x matches Some(v) ==> v@ == y->Some_0@))),
{
}

} // verus!
