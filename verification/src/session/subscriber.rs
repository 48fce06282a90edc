//! The subscribing half of a session.

use crate::coding::tuple::Tuple;
use crate::coding::wire::{Cursor, Decode};
use crate::data::datagram::{read_datagram, Datagram};
use crate::message::control::{
    Announce, GoAway, MaxSubscribeId, Message, PublisherMessage, SubscribeDone, SubscribeError,
    SubscriberMessage, TrackStatus, Unannounce,
};
use crate::message::relay::Relay;
use crate::session::error::{ServeError, SessionError};
use crate::session::receive::StreamOutcome;
use crate::session::subscribed::SubscribeOk;
use crate::table::Table;
use crate::watch::Queue;
use std::collections::HashMap;
use vstd::prelude::*;

verus! {

broadcast use vstd::std_specs::hash::group_hash_axioms;

/// What is known of a subscription that has been asked for.
#[derive(Clone, Copy, Debug, PartialEq, Eq)]
pub struct SubscribeRecv {
    /// Whether the publisher has accepted it.
    pub ok: bool,
    /// Whether it is over, and why.
    pub closed: Result<(), ServeError>,
    /// Whether somebody still waits for it.
    pub open: bool,
    /// Within how many milliseconds objects are to be delivered, if that was asked.
    pub delivery_timeout_ms: Option<u64>,
}

/// A subscription that has just been asked for.
pub open spec fn fresh(delivery_timeout_ms: Option<u64>) -> SubscribeRecv {
    SubscribeRecv { ok: false, closed: Ok(()), open: true, delivery_timeout_ms }
}

impl SubscribeRecv {
    /// A subscription that has just been asked for.
    pub fn new(delivery_timeout_ms: Option<u64>) -> (r: SubscribeRecv)
        ensures
            r == fresh(delivery_timeout_ms),
    {
        SubscribeRecv { ok: false, closed: Ok(()), open: true, delivery_timeout_ms }
    }

    /// The publisher has accepted it.
    pub fn ok(&mut self) -> (r: Result<(), ServeError>)
        ensures
            match old(self).closed {
                Err(e) => r == Err::<(), ServeError>(e) && *final(self) == *old(self),
                Ok(_) => {
                    &&& r is Ok
                    &&& *final(self) == (SubscribeRecv {
                        ok: old(self).ok || old(self).open,
                        ..*old(self)
                    })
                },
            },
    {
        if let Err(e) = self.closed {
            return Err(e);
        }
        if self.open {
            self.ok = true;
        }
        Ok(())
    }

    /// It is over for this reason, unless it is over already. Whoever waits for it is
    /// told: `true` where somebody does.
    pub fn error(&mut self, err: ServeError) -> (r: Result<bool, ServeError>)
        ensures
            match old(self).closed {
                Err(e) => r == Err::<bool, ServeError>(e) && *final(self) == *old(self),
                Ok(_) => if old(self).open {
                    &&& r == Ok::<bool, ServeError>(true)
                    &&& *final(self) == (SubscribeRecv { closed: Err(err), ..*old(self) })
                } else {
                    r == Ok::<bool, ServeError>(false) && *final(self) == *old(self)
                },
            },
    {
        if let Err(e) = self.closed {
            return Err(e);
        }
        if self.open {
            self.closed = Err(err);
        }
        Ok(self.open)
    }
}

/// What is known of a namespace that the publisher has announced.
#[derive(Clone, Copy, Debug, PartialEq, Eq)]
pub struct AnnouncedRecv {
    /// Whether it is over, and why.
    pub closed: Result<(), ServeError>,
}

impl AnnouncedRecv {
    /// The publisher does not offer it any longer. Whether it was not over already.
    pub fn recv_unannounce(self) -> (r: Result<(), ServeError>)
        ensures
            match self.closed {
                Err(e) => r == Err::<(), ServeError>(e),
                Ok(_) => r is Ok,
            },
    {
        if let Err(e) = self.closed {
            return Err(e);
        }
        Ok(())
    }
}

/// The subscribing half of a session.
#[derive(Debug)]
pub struct Subscriber {
    announced: Table<Tuple, AnnouncedRecv>,
    announced_queue: Queue<Tuple>,
    subscribes: HashMap<u64, SubscribeRecv>,
    subscribe_next: u64,
    ended: Queue<(u64, ServeError)>,
    outgoing: Queue<Message>,
    url: String,
}

/// What a [`Subscriber`] holds: the announced namespaces and those not looked at
/// yet, the subscriptions by number and the next number, which subscriptions are
/// over and why, the messages to be sent, and where to go next.
#[verifier::ext_equal]
pub struct SubscriberView {
    pub announced: Map<Seq<Seq<u8>>, AnnouncedRecv>,
    pub queue: Seq<Tuple>,
    pub queue_open: bool,
    pub subscribes: Map<u64, SubscribeRecv>,
    pub subscribe_next: u64,
    pub ended: Seq<(u64, ServeError)>,
    pub outgoing: Seq<Message>,
    pub outgoing_open: bool,
    pub url: Seq<char>,
}

impl View for Subscriber {
    type V = SubscriberView;

    closed spec fn view(&self) -> SubscriberView {
        SubscriberView {
            announced: self.announced@,
            queue: self.announced_queue@,
            queue_open: self.announced_queue.open,
            subscribes: self.subscribes@,
            subscribe_next: self.subscribe_next,
            ended: self.ended@,
            outgoing: self.outgoing@,
            outgoing_open: self.outgoing.open,
            url: self.url@,
        }
    }
}

/// An error that concerns a track or a namespace alone.
pub open spec fn is_serve(r: Result<(), SessionError>) -> bool {
    r matches Err(SessionError::Serve(_))
}

/// A result, with errors that concern a track or a namespace alone taken out.
pub open spec fn tolerated(r: Result<(), SessionError>) -> Result<(), SessionError> {
    if is_serve(r) {
        Ok(())
    } else {
        r
    }
}

/// A failure of a track or a namespace.
pub open spec fn serve_error(c: Result<(), ServeError>) -> Result<(), SessionError> {
    match c {
        Err(e) => Err(SessionError::Serve(e)),
        Ok(_) => Ok(()),
    }
}

fn into_session(c: Result<(), ServeError>) -> (r: Result<(), SessionError>)
    ensures
        r == serve_error(c),
{
    match c {
        Err(e) => Err(SessionError::Serve(e)),
        Ok(_) => Ok(()),
    }
}

impl SubscriberView {
    /// Nothing announced, nothing asked for.
    pub open spec fn start(outgoing: Seq<Message>, outgoing_open: bool) -> SubscriberView {
        SubscriberView {
            announced: Map::empty(),
            queue: Seq::empty(),
            queue_open: true,
            subscribes: Map::empty(),
            subscribe_next: 0,
            ended: Seq::empty(),
            outgoing,
            outgoing_open,
            url: Seq::empty(),
        }
    }

    /// Whether `(after, r)` is what becomes of an announcement.
    ///
    /// A namespace is announced once. Where nobody looks at announcements it is
    /// passed over.
    pub open spec fn announce_step(
        self,
        ns: Seq<Seq<u8>>,
        after: SubscriberView,
        r: Result<(), SessionError>,
    ) -> bool {
        if self.announced.contains_key(ns) {
            after == self && r == Err::<(), SessionError>(SessionError::Duplicate)
        } else if self.queue_open {
            &&& r is Ok
            &&& after.queue.len() == self.queue.len() + 1
            &&& after.queue.last()@ == ns
            &&& after == (SubscriberView {
                announced: self.announced.insert(ns, AnnouncedRecv { closed: Ok(()) }),
                queue: self.queue.push(after.queue.last()),
                ..self
            })
        } else {
            r is Ok && after == self
        }
    }

    /// Whether subscription `id` goes on.
    pub open spec fn lives(self, id: u64) -> bool {
        self.subscribes.contains_key(id) && self.subscribes[id].closed is Ok
    }

    /// The state once subscription `id` is over: it is forgotten, and whoever waits for
    /// it is told why.
    pub open spec fn after_end(self, id: u64, err: ServeError) -> SubscriberView {
        SubscriberView {
            subscribes: self.subscribes.remove(id),
            ended: if self.lives(id) && self.subscribes[id].open {
                self.ended.push((id, err))
            } else {
                self.ended
            },
            ..self
        }
    }

    /// How the end of subscription `id` ends: with the error by which it was over
    /// already.
    pub open spec fn end_outcome(self, id: u64) -> Result<(), SessionError> {
        if self.subscribes.contains_key(id) {
            serve_error(self.subscribes[id].closed)
        } else {
            Ok(())
        }
    }

    /// The state after a message other than an announcement.
    pub open spec fn after(self, msg: PublisherMessage) -> SubscriberView {
        match msg {
            PublisherMessage::Unannounce(m) => SubscriberView {
                announced: self.announced.remove(m.namespace@),
                ..self
            },
            PublisherMessage::SubscribeOk(m) => if self.lives(m.id) {
                let s = self.subscribes[m.id];
                SubscriberView {
                    subscribes: self.subscribes.insert(
                        m.id,
                        SubscribeRecv { ok: s.ok || s.open, ..s },
                    ),
                    ..self
                }
            } else {
                self
            },
            PublisherMessage::SubscribeError(m) => self.after_end(
                m.id,
                ServeError::Closed(m.code),
            ),
            PublisherMessage::SubscribeDone(m) => self.after_end(m.id, ServeError::Closed(m.code)),
            _ => self,
        }
    }

    /// How a message other than an announcement ends: with the error by which the
    /// thing that it is about is over already.
    pub open spec fn outcome(self, msg: PublisherMessage) -> Result<(), SessionError> {
        match msg {
            PublisherMessage::Unannounce(m) => if self.announced.contains_key(m.namespace@) {
                serve_error(self.announced[m.namespace@].closed)
            } else {
                Ok(())
            },
            PublisherMessage::SubscribeOk(m) => self.end_outcome(m.id),
            PublisherMessage::SubscribeError(m) => self.end_outcome(m.id),
            PublisherMessage::SubscribeDone(m) => self.end_outcome(m.id),
            _ => Ok(()),
        }
    }

    /// Whether `(after, r)` is what becomes of a message.
    pub open spec fn recv_step(
        self,
        msg: PublisherMessage,
        after: SubscriberView,
        r: Result<(), SessionError>,
    ) -> bool {
        match msg {
            PublisherMessage::Announce(m) => self.announce_step(m.namespace@, after, r),
            _ => after == self.after(msg) && r == tolerated(self.outcome(msg)),
        }
    }

    /// The state after a subscription is asked for.
    pub open spec fn after_subscribe(self, delivery_timeout_ms: Option<u64>) -> SubscriberView {
        SubscriberView {
            subscribe_next: if self.subscribe_next == u64::MAX {
                0
            } else {
                (self.subscribe_next + 1) as u64
            },
            subscribes: self.subscribes.insert(self.subscribe_next, fresh(delivery_timeout_ms)),
            ..self
        }
    }

    /// The state after a message is sent: what the message ends is forgotten.
    pub open spec fn after_send(self, msg: SubscriberMessage) -> SubscriberView {
        let kept = match msg {
            SubscriberMessage::AnnounceCancel(m) => SubscriberView {
                announced: self.announced.remove(m.namespace@),
                ..self
            },
            SubscriberMessage::AnnounceError(m) => SubscriberView {
                announced: self.announced.remove(m.namespace@),
                ..self
            },
            _ => self,
        };
        if self.outgoing_open {
            SubscriberView { outgoing: self.outgoing.push(Message::Subscriber(msg)), ..kept }
        } else {
            kept
        }
    }

    /// The state after a stream of subscription `id` has ended in this way.
    pub open spec fn after_stream(self, id: u64, res: Result<(), SessionError>) -> SubscriberView {
        match res {
            Err(SessionError::Serve(e)) if e != ServeError::Cancel => self.after_end(id, e),
            _ => self,
        }
    }

    /// What follows once a stream of subscription `id` has ended in this way.
    ///
    /// A stream that is called off or that the transport loses is only dropped. One
    /// that fails otherwise ends its subscription, if that is not over already.
    pub open spec fn stream_outcome(self, id: u64, res: Result<(), SessionError>) -> StreamOutcome {
        match res {
            Err(SessionError::Transport) => StreamOutcome { dropped: true, result: Ok(()) },
            Err(SessionError::Serve(e)) => if e == ServeError::Cancel {
                StreamOutcome { dropped: true, result: Ok(()) }
            } else if self.end_outcome(id) is Err {
                StreamOutcome { dropped: true, result: self.end_outcome(id) }
            } else {
                StreamOutcome { dropped: true, result: res }
            },
            _ => StreamOutcome { dropped: false, result: res },
        }
    }
}

/// Whether a message is one that a subscriber knows how to take.
pub open spec fn subscriber_takes(msg: PublisherMessage) -> bool {
    !(msg is FetchOk) && !(msg is FetchError)
}

impl Subscriber {
    /// The tables are in order.
    pub closed spec fn wf(&self) -> bool {
        self.announced.wf() && self.ended.open
    }

    /// A subscriber that has asked for nothing.
    pub fn new(outgoing: Queue<Message>) -> (r: Subscriber)
        ensures
            r.wf(),
            r@ == SubscriberView::start(outgoing@, outgoing.open),
    {
        Subscriber {
            announced: Table::new(),
            announced_queue: Queue::new(),
            subscribes: HashMap::new(),
            subscribe_next: 0,
            ended: Queue::new(),
            outgoing,
            url: String::new(),
        }
    }

    /// The next namespace that has been announced.
    pub fn announced(&mut self) -> (r: Option<Tuple>)
        requires
            old(self).wf(),
        ensures
            final(self).wf(),
            if old(self)@.queue.len() > 0 {
                &&& r == Some(old(self)@.queue[0])
                &&& final(self)@ == (SubscriberView { queue: old(self)@.queue.skip(1), ..old(self)@ })
            } else {
                r is None && final(self)@ == old(self)@
            },
    {
        self.announced_queue.pop()
    }

    /// Takes the next number for a subscription. After the greatest number comes 0.
    pub fn subscribe(&mut self) -> (r: u64)
        requires
            old(self).wf(),
        ensures
            final(self).wf(),
            r == old(self)@.subscribe_next,
            final(self)@ == old(self)@.after_subscribe(None),
    {
        self.add_subscribe(None)
    }

    /// Takes the next number for a subscription whose objects are to be delivered in
    /// time.
    pub fn subscribe_with_timeout(&mut self, delivery_timeout_ms: u64) -> (r: u64)
        requires
            old(self).wf(),
        ensures
            final(self).wf(),
            r == old(self)@.subscribe_next,
            final(self)@ == old(self)@.after_subscribe(Some(delivery_timeout_ms)),
    {
        self.add_subscribe(Some(delivery_timeout_ms))
    }

    fn add_subscribe(&mut self, delivery_timeout_ms: Option<u64>) -> (r: u64)
        requires
            old(self).wf(),
        ensures
            final(self).wf(),
            r == old(self)@.subscribe_next,
            final(self)@ == old(self)@.after_subscribe(delivery_timeout_ms),
    {
        let id: u64 = self.subscribe_next;
        self.subscribe_next = id.wrapping_add(1);
        let _ = self.subscribes.insert(id, SubscribeRecv::new(delivery_timeout_ms));
        id
    }

    /// Nobody waits for a subscription any longer.
    pub fn stop_waiting(&mut self, id: u64)
        requires
            old(self).wf(),
        ensures
            final(self).wf(),
            final(self)@ == (if old(self)@.subscribes.contains_key(id) {
                SubscriberView {
                    subscribes: old(self)@.subscribes.insert(
                        id,
                        SubscribeRecv { open: false, ..old(self)@.subscribes[id] },
                    ),
                    ..old(self)@
                }
            } else {
                old(self)@
            }),
    {
        let mut s: SubscribeRecv = match self.subscribes.get(&id) {
            Some(s) => *s,
            None => {
                return;
            },
        };
        s.open = false;
        let _ = self.subscribes.insert(id, s);
    }

    /// The next subscription that is over, and why.
    pub fn ended(&mut self) -> (r: Option<(u64, ServeError)>)
        requires
            old(self).wf(),
        ensures
            final(self).wf(),
            if old(self)@.ended.len() > 0 {
                &&& r == Some(old(self)@.ended[0])
                &&& final(self)@ == (SubscriberView { ended: old(self)@.ended.skip(1), ..old(self)@ })
            } else {
                r is None && final(self)@ == old(self)@
            },
    {
        self.ended.pop()
    }

    /// Sends a message, and forgets what it ends.
    pub fn send_message(&mut self, msg: SubscriberMessage)
        requires
            old(self).wf(),
        ensures
            final(self).wf(),
            final(self)@ == old(self)@.after_send(msg),
    {
        match &msg {
            SubscriberMessage::AnnounceCancel(m) => {
                self.drop_announce(&m.namespace);
            },
            SubscriberMessage::AnnounceError(m) => {
                self.drop_announce(&m.namespace);
            },
            _ => {},
        }
        let _ = self.outgoing.push(Message::Subscriber(msg));
        assert(self@ == old(self)@.after_send(msg));
    }

    /// The next message to be sent.
    pub fn pop_outgoing(&mut self) -> (r: Option<Message>)
        requires
            old(self).wf(),
        ensures
            final(self).wf(),
            if old(self)@.outgoing.len() > 0 {
                &&& r == Some(old(self)@.outgoing[0])
                &&& final(self)@ == (SubscriberView {
                    outgoing: old(self)@.outgoing.skip(1),
                    ..old(self)@
                })
            } else {
                r is None && final(self)@ == old(self)@
            },
    {
        self.outgoing.pop()
    }

    /// Takes in a message of the publisher. What concerns a track or a namespace
    /// alone does not fail the session.
    pub fn recv_message(&mut self, msg: PublisherMessage) -> (r: Result<(), SessionError>)
        requires
            old(self).wf(),
            subscriber_takes(msg),
        ensures
            final(self).wf(),
            old(self)@.recv_step(msg, final(self)@, r),
    {
        let res: Result<(), SessionError> = match &msg {
            PublisherMessage::Announce(m) => self.recv_announce(m),
            PublisherMessage::Unannounce(m) => self.recv_unannounce(m),
            PublisherMessage::SubscribeOk(m) => self.recv_subscribe_ok(m),
            PublisherMessage::SubscribeError(m) => self.recv_subscribe_error(m),
            PublisherMessage::SubscribeDone(m) => self.recv_subscribe_done(m),
            PublisherMessage::MaxSubscribeId(m) => self.recv_max_subscribe_id(m),
            PublisherMessage::TrackStatus(m) => self.recv_track_status(m),
            _ => Ok(()),
        };
        if let Err(SessionError::Serve(_)) = res {
            return Ok(());
        }
        res
    }

    /// Takes in a message of the relay. Whatever goes wrong, the session goes on.
    pub fn recv_goaway(&mut self, msg: &Relay) -> (r: Result<(), SessionError>)
        requires
            old(self).wf(),
        ensures
            final(self).wf(),
            r is Ok,
            final(self)@ == (match *msg {
                Relay::GoAway(m) => SubscriberView { url: m.url@, ..old(self)@ },
                Relay::FixBandwidth(_) => old(self)@,
            }),
    {
        match msg {
            Relay::GoAway(m) => {
                let _ = self.recv_goaway_message(m);
            },
            Relay::FixBandwidth(_) => {},
        }
        Ok(())
    }

    /// Notes where to go next.
    pub fn recv_goaway_message(&mut self, msg: &GoAway) -> (r: Result<(), SessionError>)
        requires
            old(self).wf(),
        ensures
            final(self).wf(),
            r is Ok,
            final(self)@ == (SubscriberView { url: msg.url@, ..old(self)@ }),
    {
        self.url = msg.url.clone();
        Ok(())
    }

    /// Where to go next.
    pub fn get_url(&self) -> (r: String)
        ensures
            r@ == self@.url,
    {
        self.url.clone()
    }

    /// A namespace is announced.
    pub fn recv_announce(&mut self, msg: &Announce) -> (r: Result<(), SessionError>)
        requires
            old(self).wf(),
        ensures
            final(self).wf(),
            old(self)@.announce_step(msg.namespace@, final(self)@, r),
    {
        if self.announced.contains(&msg.namespace) {
            return Err(SessionError::Duplicate);
        }
        if let Err(_) = self.announced_queue.push(msg.namespace.copy()) {
            return Ok(());
        }
        let _ = self.announced.insert(msg.namespace.copy(), AnnouncedRecv { closed: Ok(()) });
        Ok(())
    }

    /// A namespace is not offered any longer.
    pub fn recv_unannounce(&mut self, msg: &Unannounce) -> (r: Result<(), SessionError>)
        requires
            old(self).wf(),
        ensures
            final(self).wf(),
            final(self)@ == (SubscriberView {
                announced: old(self)@.announced.remove(msg.namespace@),
                ..old(self)@
            }),
            r == (if old(self)@.announced.contains_key(msg.namespace@) {
                serve_error(old(self)@.announced[msg.namespace@].closed)
            } else {
                Ok(())
            }),
    {
        match self.announced.remove(&msg.namespace) {
            Some(a) => into_session(a.recv_unannounce()),
            None => Ok(()),
        }
    }

    /// A subscription is accepted.
    pub fn recv_subscribe_ok(&mut self, msg: &SubscribeOk) -> (r: Result<(), SessionError>)
        requires
            old(self).wf(),
        ensures
            final(self).wf(),
            final(self)@ == old(self)@.after(PublisherMessage::SubscribeOk(*msg)),
            r == old(self)@.outcome(PublisherMessage::SubscribeOk(*msg)),
    {
        let mut s: SubscribeRecv = match self.subscribes.get(&msg.id) {
            Some(s) => *s,
            None => {
                return Ok(());
            },
        };
        if let Err(e) = s.ok() {
            return Err(SessionError::Serve(e));
        }
        let _ = self.subscribes.insert(msg.id, s);
        Ok(())
    }

    fn end_subscribe(&mut self, id: u64, err: ServeError) -> (r: Result<(), SessionError>)
        requires
            old(self).wf(),
        ensures
            final(self).wf(),
            final(self)@ == old(self)@.after_end(id, err),
            r == old(self)@.end_outcome(id),
    {
        let mut s: SubscribeRecv = match self.subscribes.remove(&id) {
            Some(s) => s,
            None => {
                return Ok(());
            },
        };
        match s.error(err) {
            Ok(told) => {
                if told {
                    let _ = self.ended.push((id, err));
                }
                Ok(())
            },
            Err(e) => Err(SessionError::Serve(e)),
        }
    }

    /// A subscription is refused.
    pub fn recv_subscribe_error(&mut self, msg: &SubscribeError) -> (r: Result<(), SessionError>)
        requires
            old(self).wf(),
        ensures
            final(self).wf(),
            final(self)@ == old(self)@.after(PublisherMessage::SubscribeError(*msg)),
            r == old(self)@.outcome(PublisherMessage::SubscribeError(*msg)),
    {
        self.end_subscribe(msg.id, ServeError::Closed(msg.code))
    }

    /// A subscription is over.
    pub fn recv_subscribe_done(&mut self, msg: &SubscribeDone) -> (r: Result<(), SessionError>)
        requires
            old(self).wf(),
        ensures
            final(self).wf(),
            final(self)@ == old(self)@.after(PublisherMessage::SubscribeDone(*msg)),
            r == old(self)@.outcome(PublisherMessage::SubscribeDone(*msg)),
    {
        self.end_subscribe(msg.id, ServeError::Closed(msg.code))
    }

    /// Up to which number subscriptions may go is not looked at.
    pub fn recv_max_subscribe_id(&mut self, _msg: &MaxSubscribeId) -> (r: Result<(), SessionError>)
        requires
            old(self).wf(),
        ensures
            final(self).wf(),
            r == Ok::<(), SessionError>(()),
            final(self)@ == old(self)@,
    {
        Ok(())
    }

    /// The state of a track is not looked at.
    pub fn recv_track_status(&mut self, _msg: &TrackStatus) -> (r: Result<(), SessionError>)
        requires
            old(self).wf(),
        ensures
            final(self).wf(),
            r == Ok::<(), SessionError>(()),
            final(self)@ == old(self)@,
    {
        Ok(())
    }

    /// Forgets a namespace.
    pub fn drop_announce(&mut self, namespace: &Tuple)
        requires
            old(self).wf(),
        ensures
            final(self).wf(),
            final(self)@ == (SubscriberView {
                announced: old(self)@.announced.remove(namespace@),
                ..old(self)@
            }),
    {
        let _ = self.announced.remove(namespace);
    }

    /// Takes in a datagram: what is to be handed on, if there is a subscription for
    /// it. One for no subscription is passed over.
    pub fn recv_datagram(&self, datagram: &[u8]) -> (r: Result<Option<Datagram>, SessionError>)
        requires
            self.wf(),
        ensures
            match read_datagram(datagram@) {
                Err(e) => r == Err::<Option<Datagram>, SessionError>(SessionError::Decode(e)),
                Ok((v, _)) => if self@.subscribes.contains_key(v.subscribe_id) {
                    r matches Ok(Some(d)) && d@ == v
                } else {
                    r matches Ok(None)
                },
            },
    {
        let mut c: Cursor<'_> = Cursor::new(datagram);
        assert(c.rest() == datagram@);
        match Datagram::decode(&mut c) {
            Ok(d) => if self.subscribes.contains_key(&d.subscribe_id) {
                Ok(Some(d))
            } else {
                Ok(None)
            },
            Err(e) => Err(SessionError::Decode(e)),
        }
    }

    /// Whether there is a subscription for a stream: one of none fails.
    pub fn find_subscribe(&self, id: u64) -> (r: Result<(), SessionError>)
        ensures
            if self@.subscribes.contains_key(id) {
                r is Ok
            } else {
                r == Err::<(), SessionError>(SessionError::Serve(ServeError::NotFound))
            },
    {
        if self.subscribes.contains_key(&id) {
            Ok(())
        } else {
            Err(SessionError::Serve(ServeError::NotFound))
        }
    }

    /// A stream of subscription `id` has ended in this way.
    pub fn stream_ended(&mut self, id: u64, res: Result<(), SessionError>) -> (r: StreamOutcome)
        requires
            old(self).wf(),
        ensures
            final(self).wf(),
            final(self)@ == old(self)@.after_stream(id, res),
            r == old(self)@.stream_outcome(id, res),
    {
        match res {
            Err(SessionError::Serve(ServeError::Cancel)) => StreamOutcome {
                dropped: true,
                result: Ok(()),
            },
            Err(SessionError::Transport) => StreamOutcome { dropped: true, result: Ok(()) },
            Err(SessionError::Serve(e)) => {
                if let Err(err) = self.end_subscribe(id, e) {
                    return StreamOutcome { dropped: true, result: Err(err) };
                }
                StreamOutcome { dropped: true, result: Err(SessionError::Serve(e)) }
            },
            _ => StreamOutcome { dropped: false, result: res },
        }
    }
}

/// Every subscription has a number below the next.
pub open spec fn numbers_taken(v: SubscriberView) -> bool {
    forall|k: u64| #[trigger] v.subscribes.contains_key(k) ==> k < v.subscribe_next
}

/// Subscriptions get distinct numbers: as long as no number is beyond the greatest,
/// the number of a new subscription is not taken, and all that are taken stay below
/// the next.
pub proof fn subscription_numbers_are_distinct(v: SubscriberView, delivery_timeout_ms: Option<u64>)
    requires
        numbers_taken(v),
        v.subscribe_next < u64::MAX,
    ensures
        !v.subscribes.contains_key(v.subscribe_next),
        numbers_taken(v.after_subscribe(delivery_timeout_ms)),
{
}

/// No message that comes or goes, and no stream that ends, takes a number that is
/// not below the next.
pub proof fn numbers_stay_taken(
    v: SubscriberView,
    received: PublisherMessage,
    after: SubscriberView,
    r: Result<(), SessionError>,
    sent: SubscriberMessage,
    id: u64,
    res: Result<(), SessionError>,
)
    requires
        numbers_taken(v),
        v.recv_step(received, after, r),
    ensures
        numbers_taken(after),
        numbers_taken(v.after_send(sent)),
        numbers_taken(v.after_stream(id, res)),
{
}

/// Whoever waits for a subscription that goes on is told the code by which the
/// publisher refuses or ends it, and the subscription is forgotten: nothing that the
/// publisher says of it later has an effect.
pub proof fn refusal_is_told_once(v: SubscriberView, m: SubscribeError, n: SubscribeDone)
    requires
        v.lives(m.id),
        v.subscribes[m.id].open,
        n.id == m.id,
    ensures
        v.after(PublisherMessage::SubscribeError(m)).ended == v.ended.push(
            (m.id, ServeError::Closed(m.code)),
        ),
        v.after(PublisherMessage::SubscribeDone(n)).ended == v.ended.push(
            (n.id, ServeError::Closed(n.code)),
        ),
        v.after(PublisherMessage::SubscribeError(m)).after(PublisherMessage::SubscribeDone(n))
            == v.after(PublisherMessage::SubscribeError(m)),
        v.after(PublisherMessage::SubscribeDone(n)).after(PublisherMessage::SubscribeError(m))
            == v.after(PublisherMessage::SubscribeDone(n)),
{
    let a = v.after(PublisherMessage::SubscribeError(m));
    let b = v.after(PublisherMessage::SubscribeDone(n));
    assert(a.after(PublisherMessage::SubscribeDone(n)).subscribes =~= a.subscribes);
    assert(b.after(PublisherMessage::SubscribeError(m)).subscribes =~= b.subscribes);
}

/// No message of the publisher fails the session, but for a namespace that is
/// announced twice.
pub proof fn only_duplicate_announcements_fail(
    v: SubscriberView,
    msg: PublisherMessage,
    after: SubscriberView,
    r: Result<(), SessionError>,
)
    requires
        v.recv_step(msg, after, r),
    ensures
        r is Err ==> r == Err::<(), SessionError>(SessionError::Duplicate) && (msg matches
            PublisherMessage::Announce(m) && v.announced.contains_key(m.namespace@)),
{
}

/// Each subscription gets the next number, is open and not yet accepted, and keeps the
/// timeout that it was asked for with, if any. Behind the last number comes zero. Nothing
/// else changes.
pub proof fn a_subscription_gets_the_next_number(
    s: &mut Subscriber,
    id: u64,
    t: &mut Subscriber,
    timeout: u64,
    other: u64,
)
    requires
        call_ensures(Subscriber::subscribe, (s,), id),
        *old(t) == *final(s),
        call_ensures(Subscriber::subscribe_with_timeout, (t, timeout), other),
    ensures
        id == old(s)@.subscribe_next && other == (id + 1) % 0x1_0000_0000_0000_0000,
        final(t)@.subscribe_next == (id + 2) % 0x1_0000_0000_0000_0000,
        ({
            let a = final(t)@.subscribes[id];
            let b = final(t)@.subscribes[other];
            &&& final(t)@.subscribes.contains_key(id) && final(t)@.subscribes.contains_key(other)
            &&& a.open && !a.ok && a.closed is Ok && a.delivery_timeout_ms is None
            &&& b.open && !b.ok && b.closed is Ok && b.delivery_timeout_ms == Some(timeout)
        }),
        final(t)@.subscribes.remove(id).remove(other) == old(s)@.subscribes.remove(id).remove(
            other,
        ),
        final(t)@.announced == old(s)@.announced && final(t)@.queue == old(s)@.queue,
        final(t)@.ended == old(s)@.ended && final(t)@.outgoing == old(s)@.outgoing,
        final(t)@.url == old(s)@.url,
{
    assert(final(t)@.subscribes.remove(id).remove(other) =~= old(s)@.subscribes.remove(id).remove(
        other,
    ));
}

/// A namespace that is announced for the first time is known then, and goes to the end
/// of the queue of those to be looked at; a second time it is a duplicate, which is the
/// one thing that fails the session. Where nobody looks, it is passed over.
pub proof fn a_namespace_is_announced_once(
    s: &mut Subscriber,
    m: Announce,
    r: Result<(), SessionError>,
)
    requires
        call_ensures(Subscriber::recv_message, (s, PublisherMessage::Announce(m)), r),
    ensures
        r is Err == old(s)@.announced.contains_key(m.namespace@),
        r matches Err(e) ==> e == SessionError::Duplicate,
        r is Err || !old(s)@.queue_open ==> final(s)@ == old(s)@,
        r is Ok && old(s)@.queue_open ==> {
            &&& final(s)@.announced.contains_key(m.namespace@)
            &&& final(s)@.announced[m.namespace@].closed is Ok
            &&& final(s)@.announced.remove(m.namespace@) == old(s)@.announced
            &&& final(s)@.queue.len() == old(s)@.queue.len() + 1
            &&& final(s)@.queue.drop_last() == old(s)@.queue
            &&& final(s)@.queue.last()@ == m.namespace@
        },
        final(s)@.subscribes == old(s)@.subscribes && final(s)@.ended == old(s)@.ended,
        final(s)@.outgoing == old(s)@.outgoing && final(s)@.url == old(s)@.url,
        final(s)@.subscribe_next == old(s)@.subscribe_next,
{
    if r is Ok && old(s)@.queue_open {
        assert(final(s)@.announced.remove(m.namespace@) =~= old(s)@.announced);
        assert(final(s)@.queue.drop_last() =~= old(s)@.queue);
    }
}

/// Announced namespaces are looked at in the order in which they came, and subscriptions
/// that are over are told in that order, each once.
pub proof fn what_comes_is_told_in_order(
    s: &mut Subscriber,
    a: Option<Tuple>,
    t: &mut Subscriber,
    b: Option<(u64, ServeError)>,
    u: &mut Subscriber,
    c: Option<Message>,
)
    requires
        call_ensures(Subscriber::announced, (s,), a),
        call_ensures(Subscriber::ended, (t,), b),
        call_ensures(Subscriber::pop_outgoing, (u,), c),
    ensures
        a is None == (old(s)@.queue.len() == 0),
        a matches Some(x) ==> seq![x] + final(s)@.queue == old(s)@.queue,
        a is None ==> final(s)@ == old(s)@,
        b is None == (old(t)@.ended.len() == 0),
        b matches Some(x) ==> seq![x] + final(t)@.ended == old(t)@.ended,
        b is None ==> final(t)@ == old(t)@,
        c is None == (old(u)@.outgoing.len() == 0),
        c matches Some(x) ==> seq![x] + final(u)@.outgoing == old(u)@.outgoing,
        c is None ==> final(u)@ == old(u)@,
        final(s)@.announced == old(s)@.announced && final(s)@.subscribes == old(s)@.subscribes,
        final(t)@.announced == old(t)@.announced && final(t)@.subscribes == old(t)@.subscribes,
        final(u)@.announced == old(u)@.announced && final(u)@.subscribes == old(u)@.subscribes,
{
    assert(a matches Some(x) ==> seq![x] + final(s)@.queue =~= old(s)@.queue);
    assert(b matches Some(x) ==> seq![x] + final(t)@.ended =~= old(t)@.ended);
    assert(c matches Some(x) ==> seq![x] + final(u)@.outgoing =~= old(u)@.outgoing);
}

/// A namespace that is no longer offered, or that this side refuses or calls off, is
/// forgotten, and so can be announced again; no other is.
pub proof fn a_namespace_can_be_forgotten(
    s: &mut Subscriber,
    m: Unannounce,
    r: Result<(), SessionError>,
    t: &mut Subscriber,
    msg: SubscriberMessage,
    u: &mut Subscriber,
    ns: Tuple,
)
    requires
        call_ensures(Subscriber::recv_message, (s, PublisherMessage::Unannounce(m)), r),
        call_ensures(Subscriber::send_message, (t, msg), ()),
        old(t)@.outgoing_open,
        call_ensures(Subscriber::drop_announce, (u, &ns), ()),
    ensures
        r is Ok,
        final(s)@.announced == old(s)@.announced.remove(m.namespace@),
        final(s)@.subscribes == old(s)@.subscribes && final(s)@.ended == old(s)@.ended,
        final(t)@.announced == (match msg {
            SubscriberMessage::AnnounceCancel(c) => old(t)@.announced.remove(c.namespace@),
            SubscriberMessage::AnnounceError(c) => old(t)@.announced.remove(c.namespace@),
            _ => old(t)@.announced,
        }),
        final(t)@.outgoing.len() == old(t)@.outgoing.len() + 1,
        final(t)@.outgoing.drop_last() == old(t)@.outgoing,
        final(t)@.outgoing.last() == Message::Subscriber(msg),
        final(t)@.subscribes == old(t)@.subscribes && final(t)@.ended == old(t)@.ended,
        final(u)@.announced == old(u)@.announced.remove(ns@),
        final(u)@.subscribes == old(u)@.subscribes && final(u)@.outgoing == old(u)@.outgoing,
{
    assert(final(t)@.outgoing.drop_last() =~= old(t)@.outgoing);
}

/// A subscription that goes on can be accepted: while somebody waits for it, it is noted
/// as such. One that is over, or unknown, is left alone. The session goes on.
pub proof fn a_subscription_is_accepted(
    s: &mut Subscriber,
    m: SubscribeOk,
    r: Result<(), SessionError>,
)
    requires
        call_ensures(Subscriber::recv_message, (s, PublisherMessage::SubscribeOk(m)), r),
    ensures
        r is Ok,
        old(s)@.subscribes.contains_key(m.id) && old(s)@.subscribes[m.id].closed is Ok ==> {
            let was = old(s)@.subscribes[m.id];
            let is = final(s)@.subscribes[m.id];
            &&& final(s)@.subscribes.contains_key(m.id)
            &&& is.ok == (was.ok || was.open)
            &&& is.open == was.open && is.closed == was.closed && is.delivery_timeout_ms
                == was.delivery_timeout_ms
            &&& final(s)@.subscribes.remove(m.id) == old(s)@.subscribes.remove(m.id)
        },
        !old(s)@.subscribes.contains_key(m.id) || old(s)@.subscribes[m.id].closed is Err
            ==> final(s)@ == old(s)@,
        final(s)@.announced == old(s)@.announced && final(s)@.ended == old(s)@.ended
            && final(s)@.outgoing == old(s)@.outgoing,
{
    assert(final(s)@.subscribes.remove(m.id) =~= old(s)@.subscribes.remove(m.id));
}

/// A subscription that the publisher refuses or ends is forgotten, and whoever waits for
/// it is told the code, behind all that was told before. No other subscription is
/// touched, and the session goes on.
pub proof fn a_subscription_ends_with_the_code_of_the_publisher(
    s: &mut Subscriber,
    id: u64,
    code: u64,
    refused: bool,
    r: Result<(), SessionError>,
)
    requires
        call_ensures(
            Subscriber::recv_message,
            (
                s,
                if refused {
                    PublisherMessage::SubscribeError(SubscribeError { id, code })
                } else {
                    PublisherMessage::SubscribeDone(SubscribeDone { id, code })
                },
            ),
            r,
        ),
    ensures
        r is Ok,
        !final(s)@.subscribes.contains_key(id),
        final(s)@.subscribes == old(s)@.subscribes.remove(id),
        ({
            let told = old(s)@.subscribes.contains_key(id) && old(s)@.subscribes[id].open
                && old(s)@.subscribes[id].closed is Ok;
            &&& told ==> final(s)@.ended.len() == old(s)@.ended.len() + 1
                && final(s)@.ended.drop_last() == old(s)@.ended && final(s)@.ended.last() == (
                id,
                ServeError::Closed(code),
            )
            &&& !told ==> final(s)@.ended == old(s)@.ended
        }),
        final(s)@.announced == old(s)@.announced && final(s)@.outgoing == old(s)@.outgoing
            && final(s)@.subscribe_next == old(s)@.subscribe_next,
{
    assert(final(s)@.ended.len() > old(s)@.ended.len() ==> final(s)@.ended.drop_last()
        =~= old(s)@.ended);
}

/// A stream that is called off, or that the transport loses, is only dropped, and its
/// subscription goes on. One that fails for its track ends the subscription, which is
/// told. Any other end is the end of the stream alone.
pub proof fn a_stream_ends_its_subscription_where_its_track_fails(
    s: &mut Subscriber,
    id: u64,
    res: Result<(), SessionError>,
    r: StreamOutcome,
)
    requires
        call_ensures(Subscriber::stream_ended, (s, id, res), r),
    ensures
        res == Err::<(), SessionError>(SessionError::Transport) || res == Err::<(), SessionError>(
            SessionError::Serve(ServeError::Cancel),
        ) ==> r.dropped && r.result is Ok && final(s)@ == old(s)@,
        res matches Err(SessionError::Serve(e)) ==> (e != ServeError::Cancel ==> {
            let known = old(s)@.subscribes.contains_key(id);
            let was = old(s)@.subscribes[id];
            &&& r.dropped
            &&& final(s)@.subscribes == old(s)@.subscribes.remove(id)
            &&& r.result == (if known && was.closed is Err {
                Err::<(), SessionError>(SessionError::Serve(was.closed->Err_0))
            } else {
                res
            })
            &&& known && was.open && was.closed is Ok ==> final(s)@.ended == old(s)@.ended.push(
                (id, e),
            )
            &&& !(known && was.open && was.closed is Ok) ==> final(s)@.ended == old(s)@.ended
        }),
        res is Ok || !(res matches Err(SessionError::Serve(_))) && res != Err::<(), SessionError>(
            SessionError::Transport,
        ) ==> !r.dropped && r.result == res && final(s)@ == old(s)@,
        final(s)@.announced == old(s)@.announced && final(s)@.outgoing == old(s)@.outgoing,
{
}

/// Once nobody waits for a subscription, nobody is told its end; nothing else of it, and
/// no other, changes.
pub proof fn waiting_can_stop(s: &mut Subscriber, id: u64)
    requires
        call_ensures(Subscriber::stop_waiting, (s, id), ()),
    ensures
        !old(s)@.subscribes.contains_key(id) ==> final(s)@ == old(s)@,
        old(s)@.subscribes.contains_key(id) ==> {
            let was = old(s)@.subscribes[id];
            let is = final(s)@.subscribes[id];
            &&& final(s)@.subscribes.contains_key(id)
            &&& is.open == false && is.ok == was.ok && is.closed == was.closed
            &&& is.delivery_timeout_ms == was.delivery_timeout_ms
        },
        final(s)@.subscribes.remove(id) == old(s)@.subscribes.remove(id),
        final(s)@.ended == old(s)@.ended && final(s)@.announced == old(s)@.announced,
{
    assert(final(s)@.subscribes.remove(id) =~= old(s)@.subscribes.remove(id));
}

/// The address to go to is the last one that was told, directly or by the relay, and
/// telling it changes nothing else.
pub proof fn the_last_address_is_kept(
    s: &mut Subscriber,
    m: GoAway,
    r: Result<(), SessionError>,
    url: String,
    t: &mut Subscriber,
    relay: Relay,
    q: Result<(), SessionError>,
    to: String,
)
    requires
        call_ensures(Subscriber::recv_goaway_message, (s, &m), r),
        call_ensures(Subscriber::get_url, (final(s),), url),
        call_ensures(Subscriber::recv_goaway, (t, &relay), q),
        call_ensures(Subscriber::get_url, (final(t),), to),
    ensures
        r is Ok && q is Ok,
        url@ == m.url@,
        to@ == (match relay {
            Relay::GoAway(g) => g.url@,
            Relay::FixBandwidth(_) => old(t)@.url,
        }),
        final(s)@.subscribes == old(s)@.subscribes && final(s)@.announced == old(s)@.announced,
        final(t)@.subscribes == old(t)@.subscribes && final(t)@.announced == old(t)@.announced,
        final(s)@.outgoing == old(s)@.outgoing && final(t)@.outgoing == old(t)@.outgoing,
{
}

/// What comes for a subscription is handed on exactly where there is such a subscription;
/// a stream of none fails, a datagram of none is passed over, and one that cannot be
/// read is an error.
pub proof fn what_comes_needs_a_subscription(
    s: Subscriber,
    id: u64,
    r: Result<(), SessionError>,
    b: &[u8],
    d: Result<Option<Datagram>, SessionError>,
)
    requires
        call_ensures(Subscriber::find_subscribe, (&s, id), r),
        call_ensures(Subscriber::recv_datagram, (&s, b), d),
    ensures
        r is Ok == s@.subscribes.contains_key(id),
        r matches Err(e) ==> e == SessionError::Serve(ServeError::NotFound),
        match read_datagram(b@) {
            Err(e) => d == Err::<Option<Datagram>, SessionError>(SessionError::Decode(e)),
            Ok((v, _)) => {
                &&& d is Ok
                &&& d->Ok_0 is Some == s@.subscribes.contains_key(v.subscribe_id)
                &&& d->Ok_0 matches Some(x) ==> x@ == v
            },
        },
{
}

/// What is known of a subscription changes only while it goes on: accepted while
/// somebody waits, ended for the first reason alone.
pub proof fn a_subscription_keeps_its_first_end(
    a: &mut SubscribeRecv,
    r: Result<(), ServeError>,
    b: &mut SubscribeRecv,
    e: ServeError,
    told: Result<bool, ServeError>,
    n: AnnouncedRecv,
    u: Result<(), ServeError>,
)
    requires
        call_ensures(SubscribeRecv::ok, (a,), r),
        call_ensures(SubscribeRecv::error, (b, e), told),
        call_ensures(AnnouncedRecv::recv_unannounce, (n,), u),
    ensures
        old(a).closed matches Err(x) ==> r == Err::<(), ServeError>(x) && *final(a) == *old(a),
        old(a).closed is Ok ==> r is Ok && final(a).ok == (old(a).ok || old(a).open)
            && final(a).open == old(a).open && final(a).closed is Ok && final(a).delivery_timeout_ms
            == old(a).delivery_timeout_ms,
        old(b).closed matches Err(x) ==> told == Err::<bool, ServeError>(x) && *final(b) == *old(b),
        old(b).closed is Ok && old(b).open ==> told == Ok::<bool, ServeError>(true)
            && final(b).closed == Err::<(), ServeError>(e) && final(b).ok == old(b).ok,
        old(b).closed is Ok && !old(b).open ==> told == Ok::<bool, ServeError>(false) && *final(b)
            == *old(b),
        u == n.closed || (u is Ok && n.closed is Ok),
{
}

/// What is said of the greatest number, or of the state of a track, changes nothing.
pub proof fn some_messages_change_nothing(
    s: &mut Subscriber,
    m: MaxSubscribeId,
    r: Result<(), SessionError>,
    t: &mut Subscriber,
    n: TrackStatus,
    q: Result<(), SessionError>,
)
    requires
        call_ensures(Subscriber::recv_message, (s, PublisherMessage::MaxSubscribeId(m)), r),
        call_ensures(Subscriber::recv_message, (t, PublisherMessage::TrackStatus(n)), q),
    ensures
        r is Ok && q is Ok,
        final(s)@ == old(s)@ && final(t)@ == old(t)@,
{
}

/// A subscriber starts with nothing announced or asked for, and counts from zero; a
/// subscription starts unanswered and open.
pub proof fn a_subscriber_starts_with_nothing(
    outgoing: Queue<Message>,
    s: Subscriber,
    timeout: Option<u64>,
    r: SubscribeRecv,
)
    requires
        call_ensures(Subscriber::new, (outgoing,), s),
        call_ensures(SubscribeRecv::new, (timeout,), r),
    ensures
        s@.announced.dom() == Set::<Seq<Seq<u8>>>::empty(),
        s@.subscribes.dom() == Set::<u64>::empty(),
        s@.queue.len() == 0 && s@.ended.len() == 0 && s@.url.len() == 0,
        s@.queue_open,
        s@.subscribe_next == 0,
        s@.outgoing == outgoing@ && s@.outgoing_open == outgoing.open,
        !r.ok && r.closed is Ok && r.open && r.delivery_timeout_ms == timeout,
{
}

} // verus!
