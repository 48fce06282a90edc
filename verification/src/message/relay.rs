//! The messages that a relay sends to either role.

use crate::message::control::{GoAway, Message};
use crate::message::fix_bandwidth::FixBandwidth;
use vstd::prelude::*;
use vstd::std_specs::convert::{FromSpec, FromSpecImpl};

verus! {

/// What a relay sends.
#[derive(Debug)]
pub enum Relay {
    GoAway(GoAway),
    FixBandwidth(FixBandwidth),
}

impl From<GoAway> for Relay {
    fn from(msg: GoAway) -> (r: Relay) {
        Relay::GoAway(msg)
    }
}

impl FromSpecImpl<GoAway> for Relay {
    open spec fn obeys_from_spec() -> bool {
        true
    }

    open spec fn from_spec(msg: GoAway) -> Relay {
        Relay::GoAway(msg)
    }
}

impl From<FixBandwidth> for Relay {
    fn from(msg: FixBandwidth) -> (r: Relay) {
        Relay::FixBandwidth(msg)
    }
}

impl FromSpecImpl<FixBandwidth> for Relay {
    open spec fn obeys_from_spec() -> bool {
        true
    }

    open spec fn from_spec(msg: FixBandwidth) -> Relay {
        Relay::FixBandwidth(msg)
    }
}

/// The message of the control stream that carries a relay's message.
pub open spec fn as_message(p: Relay) -> Message {
    match p {
        Relay::GoAway(m) => Message::GoAway(m),
        Relay::FixBandwidth(m) => Message::FixBandwidth(m),
    }
}

impl From<Relay> for Message {
    fn from(p: Relay) -> (r: Message) {
        match p {
            Relay::GoAway(m) => Message::GoAway(m),
            Relay::FixBandwidth(m) => Message::FixBandwidth(m),
        }
    }
}

impl FromSpecImpl<Relay> for Message {
    open spec fn obeys_from_spec() -> bool {
        true
    }

    open spec fn from_spec(p: Relay) -> Message {
        as_message(p)
    }
}

/// The relay's message that a message of the control stream carries, if it is one.
pub open spec fn relay_of(m: Message) -> Option<Relay> {
    match m {
        Message::GoAway(g) => Some(Relay::GoAway(g)),
        Message::FixBandwidth(f) => Some(Relay::FixBandwidth(f)),
        _ => None,
    }
}

impl Relay {
    /// The relay's message that a message of the control stream carries; the
    /// message itself comes back where it is none.
    pub fn from_message(m: Message) -> (r: Result<Relay, Message>)
        ensures
            match relay_of(m) {
                Some(p) => r == Ok::<Relay, Message>(p),
                None => r == Err::<Relay, Message>(m),
            },
    {
        match m {
            Message::GoAway(g) => Ok(Relay::GoAway(g)),
            Message::FixBandwidth(f) => Ok(Relay::FixBandwidth(f)),
            m => Err(m),
        }
    }
}

/// A relay's message that goes out as a message of the control stream comes back.
pub proof fn relay_message_comes_back(p: Relay, m: Message)
    ensures
        relay_of(as_message(p)) == Some(p),
        relay_of(m) matches Some(q) ==> as_message(q) == m,
{
}

/// Only a relay's two messages are taken, each as it is; any other comes back.
pub proof fn other_messages_come_back(m: Message, r: Result<Relay, Message>, g: GoAway, f: FixBandwidth)
    requires
        call_ensures(Relay::from_message, (m,), r),
    ensures
        m matches Message::GoAway(g) ==> r == Ok::<Relay, Message>(Relay::GoAway(g)),
        m matches Message::FixBandwidth(f) ==> r == Ok::<Relay, Message>(Relay::FixBandwidth(f)),
        m !is GoAway && m !is FixBandwidth ==> r == Err::<Relay, Message>(m),
        <Relay as FromSpec<GoAway>>::from_spec(g) == Relay::GoAway(g),
        <Relay as FromSpec<GoAway>>::obeys_from_spec(),
        <Relay as FromSpec<FixBandwidth>>::from_spec(f) == Relay::FixBandwidth(f),
        <Relay as FromSpec<FixBandwidth>>::obeys_from_spec(),
        <Message as FromSpec<Relay>>::from_spec(Relay::GoAway(g)) == Message::GoAway(g),
        <Message as FromSpec<Relay>>::from_spec(Relay::FixBandwidth(f)) == Message::FixBandwidth(f),
        <Message as FromSpec<Relay>>::obeys_from_spec(),
{
}

} // verus!
