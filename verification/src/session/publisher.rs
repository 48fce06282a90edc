//! The publishing half of a session.

use crate::coding::tuple::Tuple;
use crate::message::control::{
    AnnounceCancel, AnnounceError, AnnounceOk, GoAway, Message, PublisherMessage, SubscriberMessage,
    TrackStatus, TrackStatusCode, TrackStatusRequest, Unsubscribe,
};
use crate::message::relay::Relay;
use crate::message::subscribe::Subscribe;
use crate::session::error::{ServeError, SessionError};
use crate::session::subscribed::{unsubscribed, Subscribed, SubscribedRecv, SubscribedState};
use crate::table::Table;
use crate::watch::Queue;
use std::collections::HashMap;
use vstd::prelude::*;

verus! {

broadcast use vstd::std_specs::hash::group_hash_axioms;

/// What is known of a namespace that has been announced.
#[derive(Clone, Copy, Debug, PartialEq, Eq)]
pub struct AnnounceRecv {
    /// Whether the peer has accepted it.
    pub ok: bool,
    /// Whether it is over, and why.
    pub closed: Result<(), ServeError>,
    /// Whether somebody still serves it.
    pub open: bool,
}

/// How an announcement answers to being accepted: once is enough.
pub open spec fn accepted(a: AnnounceRecv) -> (AnnounceRecv, Option<ServeError>) {
    if !a.open {
        (a, None)
    } else if a.ok {
        (a, Some(ServeError::Duplicate))
    } else {
        (AnnounceRecv { ok: true, ..a }, None)
    }
}

/// What an announcement answers to being closed.
pub open spec fn refused(a: AnnounceRecv) -> Option<ServeError> {
    match a.closed {
        Err(e) => Some(e),
        Ok(_) => if a.open {
            None
        } else {
            Some(ServeError::Done)
        },
    }
}

impl AnnounceRecv {
    /// A namespace that has just been announced.
    pub fn new() -> (r: AnnounceRecv)
        ensures
            r == (AnnounceRecv { ok: false, closed: Ok(()), open: true }),
    {
        AnnounceRecv { ok: false, closed: Ok(()), open: true }
    }

    /// The peer has accepted it.
    pub fn recv_ok(&mut self) -> (r: Result<(), ServeError>)
        ensures
            *final(self) == accepted(*old(self)).0,
            match accepted(*old(self)).1 {
                Some(e) => r == Err::<(), ServeError>(e),
                None => r is Ok,
            },
    {
        if self.open {
            if self.ok {
                return Err(ServeError::Duplicate);
            }
            self.ok = true;
        }
        Ok(())
    }

    /// The peer does not want it.
    pub fn recv_error(self) -> (r: Result<(), ServeError>)
        ensures
            match refused(self) {
                Some(e) => r == Err::<(), ServeError>(e),
                None => r is Ok,
            },
    {
        if let Err(e) = self.closed {
            return Err(e);
        }
        if !self.open {
            return Err(ServeError::Done);
        }
        Ok(())
    }
}

/// What is left to do once a message has been taken in.
#[derive(Debug)]
pub enum PublisherAction {
    Nothing,
    /// The message failed; the session goes on.
    Ignored(SessionError),
    /// Hand the subscription to whoever serves its namespace.
    Serve(Subscribed),
    /// Tell whoever serves the subscription that it is called off.
    Cancelled(u64),
    /// Tell whoever serves the namespace that it is over.
    Closed(Tuple, ServeError),
    /// Hand the request to whoever serves its namespace.
    Status(TrackStatusRequest),
}

/// The publishing half of a session.
#[derive(Debug)]
pub struct Publisher {
    announces: Table<Tuple, AnnounceRecv>,
    subscribed: HashMap<u64, SubscribedRecv>,
    unknown: Queue<Subscribed>,
    outgoing: Queue<Message>,
    url: String,
}

/// What a [`Publisher`] holds: the announced namespaces, the subscriptions by
/// number, those for no announced namespace, the messages to be sent, and where to
/// go next.
#[verifier::ext_equal]
pub struct PublisherView {
    pub announces: Map<Seq<Seq<u8>>, AnnounceRecv>,
    pub subscribed: Map<u64, SubscribedRecv>,
    pub unknown: Seq<Subscribed>,
    pub unknown_open: bool,
    pub outgoing: Seq<Message>,
    pub outgoing_open: bool,
    pub url: Seq<char>,
}

impl View for Publisher {
    type V = PublisherView;

    closed spec fn view(&self) -> PublisherView {
        PublisherView {
            announces: self.announces@,
            subscribed: self.subscribed@,
            unknown: self.unknown@,
            unknown_open: self.unknown.open,
            outgoing: self.outgoing@,
            outgoing_open: self.outgoing.open,
            url: self.url@,
        }
    }
}

/// A subscription that has just been asked for.
pub open spec fn fresh() -> SubscribedRecv {
    SubscribedRecv { state: SubscribedState { max_group_id: None, closed: Ok(()) }, serving: true }
}

/// A subscription that nobody will serve.
pub open spec fn unserved(closed: Result<(), ServeError>) -> SubscribedRecv {
    SubscribedRecv { state: SubscribedState { max_group_id: None, closed }, serving: false }
}

/// A subscription once nobody serves it any longer, who has closed it like this.
pub open spec fn left(s: SubscribedRecv, closed: Result<(), ServeError>) -> SubscribedRecv {
    SubscribedRecv {
        state: SubscribedState {
            closed: if s.state.closed is Ok {
                closed
            } else {
                s.state.closed
            },
            ..s.state
        },
        serving: false,
    }
}

/// Whether `s` is the half that serves a message which has just come in.
pub open spec fn serves(s: Subscribed, msg: Subscribe) -> bool {
    &&& s.msg == msg
    &&& s.state == (SubscribedState { max_group_id: None, closed: Ok(()) })
    &&& s.receiving
    &&& !s.ok
}

impl PublisherView {
    /// Nothing announced, nothing asked for.
    pub open spec fn start(outgoing: Seq<Message>, outgoing_open: bool) -> PublisherView {
        PublisherView {
            announces: Map::empty(),
            subscribed: Map::empty(),
            unknown: Seq::empty(),
            unknown_open: true,
            outgoing,
            outgoing_open,
            url: Seq::empty(),
        }
    }

    /// Whether `(after, r)` is what becomes of a subscription that is asked for.
    ///
    /// A number is taken once. The subscription goes to whoever serves its
    /// namespace, else into the queue of those for no announced namespace. Where
    /// nobody reads that queue it is closed as not found.
    pub open spec fn subscribe_step(
        self,
        msg: Subscribe,
        after: PublisherView,
        r: PublisherAction,
    ) -> bool {
        let ns = msg@.track_namespace;
        if self.subscribed.contains_key(msg@.id) {
            after == self && r == PublisherAction::Ignored(SessionError::Duplicate)
        } else if self.announces.contains_key(ns) {
            if self.announces[ns].open {
                &&& after == (PublisherView {
                    subscribed: self.subscribed.insert(msg@.id, fresh()),
                    ..self
                })
                &&& r matches PublisherAction::Serve(s)
                &&& serves(s, msg)
            } else {
                &&& after == (PublisherView {
                    subscribed: self.subscribed.insert(msg@.id, unserved(Ok(()))),
                    ..self
                })
                &&& r == PublisherAction::Ignored(SessionError::Serve(ServeError::Done))
            }
        } else if self.unknown_open {
            &&& r == PublisherAction::Nothing
            &&& after.unknown.len() == self.unknown.len() + 1
            &&& serves(after.unknown.last(), msg)
            &&& after == (PublisherView {
                subscribed: self.subscribed.insert(msg@.id, fresh()),
                unknown: self.unknown.push(after.unknown.last()),
                ..self
            })
        } else {
            &&& r == PublisherAction::Nothing
            &&& after == (PublisherView {
                subscribed: self.subscribed.insert(msg@.id, unserved(Err(ServeError::NotFound))),
                ..self
            })
        }
    }

    /// What becomes of an announcement that is refused or called off.
    pub open spec fn refuse_step(
        self,
        ns: Seq<Seq<u8>>,
        err: ServeError,
        after: PublisherView,
        r: PublisherAction,
    ) -> bool {
        if self.announces.contains_key(ns) {
            &&& after == (PublisherView { announces: self.announces.remove(ns), ..self })
            &&& match refused(self.announces[ns]) {
                Some(e) => r == PublisherAction::Ignored(SessionError::Serve(e)),
                None => r matches PublisherAction::Closed(t, e) && t@ == ns && e == err,
            }
        } else {
            after == self && r == PublisherAction::Nothing
        }
    }

    /// Whether `(after, r)` is what becomes of a message.
    pub open spec fn recv_step(
        self,
        msg: SubscriberMessage,
        after: PublisherView,
        r: PublisherAction,
    ) -> bool {
        match msg {
            SubscriberMessage::AnnounceOk(m) => {
                let ns = m.namespace@;
                if self.announces.contains_key(ns) {
                    let (a, e) = accepted(self.announces[ns]);
                    &&& after == (PublisherView { announces: self.announces.insert(ns, a), ..self })
                    &&& r == (match e {
                        Some(e) => PublisherAction::Ignored(SessionError::Serve(e)),
                        None => PublisherAction::Nothing,
                    })
                } else {
                    after == self && r == PublisherAction::Nothing
                }
            },
            SubscriberMessage::AnnounceError(m) => self.refuse_step(
                m.namespace@,
                ServeError::Closed(m.error_code),
                after,
                r,
            ),
            SubscriberMessage::AnnounceCancel(m) => self.refuse_step(
                m.namespace@,
                ServeError::Cancel,
                after,
                r,
            ),
            SubscriberMessage::Subscribe(m) => self.subscribe_step(m, after, r),
            SubscriberMessage::Unsubscribe(m) => if self.subscribed.contains_key(m.id) {
                let s = self.subscribed[m.id];
                &&& after == (PublisherView {
                    subscribed: self.subscribed.insert(m.id, unsubscribed(s)),
                    ..self
                })
                &&& r == (match s.state.closed {
                    Err(e) => PublisherAction::Ignored(SessionError::Serve(e)),
                    Ok(_) => if s.serving {
                        PublisherAction::Cancelled(m.id)
                    } else {
                        PublisherAction::Nothing
                    },
                })
            } else {
                after == self && r == PublisherAction::Nothing
            },
            SubscriberMessage::SubscribeUpdate => {
                after == self && r == PublisherAction::Ignored(SessionError::Internal)
            },
            SubscriberMessage::TrackStatusRequest(m) => {
                &&& after == self
                &&& if !self.announces.contains_key(m.track_namespace@) {
                    r == PublisherAction::Ignored(SessionError::Internal)
                } else if self.announces[m.track_namespace@].open {
                    r == PublisherAction::Status(m)
                } else {
                    r == PublisherAction::Ignored(SessionError::Serve(ServeError::Done))
                }
            },
            _ => true,
        }
    }

    /// What becomes of the tables when a message is sent: what the message ends is
    /// forgotten.
    pub open spec fn after_send(self, msg: PublisherMessage) -> PublisherView {
        let kept = match msg {
            PublisherMessage::SubscribeDone(m) => PublisherView {
                subscribed: self.subscribed.remove(m.id),
                ..self
            },
            PublisherMessage::SubscribeError(m) => PublisherView {
                subscribed: self.subscribed.remove(m.id),
                ..self
            },
            PublisherMessage::Unannounce(m) => PublisherView {
                announces: self.announces.remove(m.namespace@),
                ..self
            },
            _ => self,
        };
        if self.outgoing_open {
            PublisherView { outgoing: self.outgoing.push(Message::Publisher(msg)), ..kept }
        } else {
            kept
        }
    }
}

/// Whether a message is one that a publisher knows how to take.
pub open spec fn publisher_takes(msg: SubscriberMessage) -> bool {
    match msg {
        SubscriberMessage::SubscribeNamespace => false,
        SubscriberMessage::SubscribeNamespaceOk => false,
        SubscriberMessage::SubscribeNamespaceError => false,
        SubscriberMessage::UnsubscribeNamespace => false,
        SubscriberMessage::Fetch => false,
        SubscriberMessage::FetchCancel => false,
        _ => true,
    }
}

impl Publisher {
    /// The tables are in order.
    pub closed spec fn wf(&self) -> bool {
        self.announces.wf()
    }

    /// A publisher with nothing announced.
    pub fn new(outgoing: Queue<Message>) -> (r: Publisher)
        ensures
            r.wf(),
            r@ == PublisherView::start(outgoing@, outgoing.open),
    {
        Publisher {
            announces: Table::new(),
            subscribed: HashMap::new(),
            unknown: Queue::new(),
            outgoing,
            url: String::new(),
        }
    }

    /// Announces a namespace, if it has not been announced.
    pub fn announce(&mut self, namespace: &Tuple) -> (r: Result<(), SessionError>)
        requires
            old(self).wf(),
        ensures
            final(self).wf(),
            if old(self)@.announces.contains_key(namespace@) {
                &&& r == Err::<(), SessionError>(SessionError::Serve(ServeError::Duplicate))
                &&& final(self)@ == old(self)@
            } else {
                &&& r is Ok
                &&& final(self)@ == (PublisherView {
                    announces: old(self)@.announces.insert(
                        namespace@,
                        AnnounceRecv { ok: false, closed: Ok(()), open: true },
                    ),
                    ..old(self)@
                })
            },
    {
        if self.announces.contains(namespace) {
            return Err(SessionError::Serve(ServeError::Duplicate));
        }
        let _ = self.announces.insert(namespace.copy(), AnnounceRecv::new());
        Ok(())
    }

    /// Nobody serves a namespace any longer.
    pub fn stop_serving(&mut self, namespace: &Tuple)
        requires
            old(self).wf(),
        ensures
            final(self).wf(),
            final(self)@ == (if old(self)@.announces.contains_key(namespace@) {
                PublisherView {
                    announces: old(self)@.announces.insert(
                        namespace@,
                        AnnounceRecv { open: false, ..old(self)@.announces[namespace@] },
                    ),
                    ..old(self)@
                }
            } else {
                old(self)@
            }),
    {
        if let Some(a) = self.announces.get(namespace) {
            let a = AnnounceRecv { open: false, ..*a };
            let _ = self.announces.insert(namespace.copy(), a);
        }
    }

    /// Nobody serves a subscription any longer. What it was closed with is noted,
    /// unless it was over before.
    pub fn end_subscribed(&mut self, id: u64, closed: Result<(), ServeError>)
        requires
            old(self).wf(),
        ensures
            final(self).wf(),
            final(self)@ == (if old(self)@.subscribed.contains_key(id) {
                PublisherView {
                    subscribed: old(self)@.subscribed.insert(
                        id,
                        left(old(self)@.subscribed[id], closed),
                    ),
                    ..old(self)@
                }
            } else {
                old(self)@
            }),
    {
        let mut s: SubscribedRecv = match self.subscribed.get(&id) {
            Some(s) => *s,
            None => {
                return;
            },
        };
        if let Ok(()) = s.state.closed {
            s.state.closed = closed;
        }
        s.serving = false;
        let _ = self.subscribed.insert(id, s);
    }

    /// The next subscription for no announced namespace.
    pub fn subscribed(&mut self) -> (r: Option<Subscribed>)
        requires
            old(self).wf(),
        ensures
            final(self).wf(),
            if old(self)@.unknown.len() > 0 {
                &&& r == Some(old(self)@.unknown[0])
                &&& final(self)@ == (PublisherView {
                    unknown: old(self)@.unknown.skip(1),
                    ..old(self)@
                })
            } else {
                r is None && final(self)@ == old(self)@
            },
    {
        self.unknown.pop()
    }

    fn recv_announce_ok(&mut self, msg: AnnounceOk) -> (r: PublisherAction)
        requires
            old(self).wf(),
        ensures
            final(self).wf(),
            old(self)@.recv_step(SubscriberMessage::AnnounceOk(msg), final(self)@, r),
    {
        let mut a: AnnounceRecv = match self.announces.get(&msg.namespace) {
            Some(a) => *a,
            None => {
                return PublisherAction::Nothing;
            },
        };
        let res: Result<(), ServeError> = a.recv_ok();
        let _ = self.announces.insert(msg.namespace, a);
        match res {
            Ok(()) => PublisherAction::Nothing,
            Err(e) => PublisherAction::Ignored(SessionError::Serve(e)),
        }
    }

    fn refuse(&mut self, namespace: Tuple, err: ServeError) -> (r: PublisherAction)
        requires
            old(self).wf(),
        ensures
            final(self).wf(),
            old(self)@.refuse_step(namespace@, err, final(self)@, r),
    {
        match self.announces.remove(&namespace) {
            Some(a) => match a.recv_error() {
                Ok(()) => PublisherAction::Closed(namespace, err),
                Err(e) => PublisherAction::Ignored(SessionError::Serve(e)),
            },
            None => {
                assert(self@.announces == old(self)@.announces);
                PublisherAction::Nothing
            },
        }
    }

    fn recv_subscribe(&mut self, msg: Subscribe) -> (r: PublisherAction)
        requires
            old(self).wf(),
        ensures
            final(self).wf(),
            old(self)@.subscribe_step(msg, final(self)@, r),
    {
        let id: u64 = msg.id;
        if self.subscribed.contains_key(&id) {
            return PublisherAction::Ignored(SessionError::Duplicate);
        }
        let route: Option<bool> = match self.announces.get(&msg.track_namespace) {
            Some(a) => Some(a.open),
            None => None,
        };
        let (send, recv) = Subscribed::new(msg);
        match route {
            Some(true) => {
                let _ = self.subscribed.insert(id, recv);
                PublisherAction::Serve(send)
            },
            Some(false) => {
                let _ = self.subscribed.insert(id, SubscribedRecv { serving: false, ..recv });
                PublisherAction::Ignored(SessionError::Serve(ServeError::Done))
            },
            None => {
                match self.unknown.push(send) {
                    Ok(()) => {
                        let _ = self.subscribed.insert(id, recv);
                    },
                    Err(mut send) => {
                        let _ = send.close(ServeError::NotFound);
                        let _ = self.subscribed.insert(
                            id,
                            SubscribedRecv { state: send.state, serving: false },
                        );
                    },
                }
                PublisherAction::Nothing
            },
        }
    }

    fn recv_unsubscribe(&mut self, msg: Unsubscribe) -> (r: PublisherAction)
        requires
            old(self).wf(),
        ensures
            final(self).wf(),
            old(self)@.recv_step(SubscriberMessage::Unsubscribe(msg), final(self)@, r),
    {
        let mut s: SubscribedRecv = match self.subscribed.get(&msg.id) {
            Some(s) => *s,
            None => {
                return PublisherAction::Nothing;
            },
        };
        let res: Result<(), ServeError> = s.recv_unsubscribe();
        let _ = self.subscribed.insert(msg.id, s);
        match res {
            Ok(()) => if s.serving {
                PublisherAction::Cancelled(msg.id)
            } else {
                PublisherAction::Nothing
            },
            Err(e) => PublisherAction::Ignored(SessionError::Serve(e)),
        }
    }

    /// Takes in a message of the subscriber. Whatever goes wrong, the session goes
    /// on.
    pub fn recv_message(&mut self, msg: SubscriberMessage) -> (r: PublisherAction)
        requires
            old(self).wf(),
            publisher_takes(msg),
        ensures
            final(self).wf(),
            old(self)@.recv_step(msg, final(self)@, r),
    {
        match msg {
            SubscriberMessage::AnnounceOk(m) => self.recv_announce_ok(m),
            SubscriberMessage::AnnounceError(m) => {
                let code: u64 = m.error_code;
                self.refuse(m.namespace, ServeError::Closed(code))
            },
            SubscriberMessage::AnnounceCancel(m) => self.refuse(m.namespace, ServeError::Cancel),
            SubscriberMessage::Subscribe(m) => self.recv_subscribe(m),
            SubscriberMessage::Unsubscribe(m) => self.recv_unsubscribe(m),
            SubscriberMessage::SubscribeUpdate => PublisherAction::Ignored(SessionError::Internal),
            SubscriberMessage::TrackStatusRequest(m) => match self.announces.get(
                &m.track_namespace,
            ) {
                None => PublisherAction::Ignored(SessionError::Internal),
                Some(a) => if a.open {
                    PublisherAction::Status(m)
                } else {
                    PublisherAction::Ignored(SessionError::Serve(ServeError::Done))
                },
            },
            _ => PublisherAction::Nothing,
        }
    }

    /// Sends a message, and forgets what it ends.
    pub fn send_message(&mut self, msg: PublisherMessage)
        requires
            old(self).wf(),
        ensures
            final(self).wf(),
            final(self)@ == old(self)@.after_send(msg),
    {
        match &msg {
            PublisherMessage::SubscribeDone(m) => {
                let _ = self.subscribed.remove(&m.id);
            },
            PublisherMessage::SubscribeError(m) => {
                let _ = self.subscribed.remove(&m.id);
            },
            PublisherMessage::Unannounce(m) => {
                let _ = self.announces.remove(&m.namespace);
            },
            _ => {},
        }
        let _ = self.outgoing.push(Message::Publisher(msg));
        assert(self@ == old(self)@.after_send(msg));
    }

    /// The next message to be sent.
    pub fn pop_outgoing(&mut self) -> (r: Option<Message>)
        requires
            old(self).wf(),
        ensures
            final(self).wf(),
            if old(self)@.outgoing.len() > 0 {
                &&& r == Some(old(self)@.outgoing[0])
                &&& final(self)@ == (PublisherView {
                    outgoing: old(self)@.outgoing.skip(1),
                    ..old(self)@
                })
            } else {
                r is None && final(self)@ == old(self)@
            },
    {
        self.outgoing.pop()
    }

    /// Takes in a message of the relay. Whatever goes wrong, the session goes on.
    pub fn recv_goaway(&mut self, msg: Relay) -> (r: Result<(), SessionError>)
        requires
            old(self).wf(),
        ensures
            final(self).wf(),
            r is Ok,
            final(self)@ == (match msg {
                Relay::GoAway(m) => PublisherView { url: m.url@, ..old(self)@ },
                Relay::FixBandwidth(_) => old(self)@,
            }),
    {
        match msg {
            Relay::GoAway(m) => {
                let _ = self.recv_goaway_message(m);
            },
            Relay::FixBandwidth(_) => {},
        }
        Ok(())
    }

    /// Notes where to go next. Nowhere is an error, but it is noted.
    pub fn recv_goaway_message(&mut self, msg: GoAway) -> (r: Result<(), SessionError>)
        requires
            old(self).wf(),
        ensures
            final(self).wf(),
            final(self)@ == (PublisherView { url: msg.url@, ..old(self)@ }),
            if msg.url@.len() == 0 {
                r == Err::<(), SessionError>(SessionError::Serve(ServeError::NotFound))
            } else {
                r is Ok
            },
    {
        let empty: bool = is_empty_text(&msg.url);
        self.url = msg.url;
        if empty {
            return Err(SessionError::Serve(ServeError::NotFound));
        }
        Ok(())
    }

    /// Where to go next.
    pub fn get_url(&self) -> (r: String)
        ensures
            r@ == self@.url,
    {
        self.url.clone()
    }

    /// What becomes of a subscription, by whether its track exists: it is served,
    /// or closed as not found. Whether it is to be served.
    pub fn serve_subscribe(subscribed: &mut Subscribed, found: bool) -> (r: Result<
        bool,
        SessionError,
    >)
        ensures
            if found {
                r == Ok::<bool, SessionError>(true) && *final(subscribed) == *old(subscribed)
            } else {
                match old(subscribed).state.closed {
                    Err(e) => {
                        &&& r == Err::<bool, SessionError>(SessionError::Serve(e))
                        &&& *final(subscribed) == *old(subscribed)
                    },
                    Ok(_) => if old(subscribed).receiving {
                        &&& r == Ok::<bool, SessionError>(false)
                        &&& *final(subscribed) == (Subscribed {
                            state: SubscribedState {
                                closed: Err(ServeError::NotFound),
                                ..old(subscribed).state
                            },
                            ..*old(subscribed)
                        })
                    } else {
                        &&& r == Err::<bool, SessionError>(SessionError::Serve(ServeError::Done))
                        &&& *final(subscribed) == *old(subscribed)
                    },
                }
            },
    {
        if found {
            return Ok(true);
        }
        match subscribed.close(ServeError::NotFound) {
            Ok(()) => Ok(false),
            Err(e) => Err(SessionError::Serve(e)),
        }
    }

    /// The answer to a status request: where the track stands that has begun. `track`
    /// is nothing where there is no such track, and holds the latest position where it
    /// has begun.
    pub fn serve_track_status(request: &TrackStatusRequest, track: Option<Option<(u64, u64)>>) -> (r:
        Result<TrackStatus, SessionError>)
        ensures
            match track {
                None => r == Err::<TrackStatus, SessionError>(
                    SessionError::Serve(ServeError::NotFound),
                ),
                Some(latest) => {
                    &&& r matches Ok(t)
                    &&& t.track_namespace@ == request.track_namespace@
                    &&& t.track_name@ == request.track_name@
                    &&& match latest {
                        Some((group, object)) => t.status_code == TrackStatusCode::InProgress
                            && t.last_group_id == group && t.last_object_id == object,
                        None => t.status_code == TrackStatusCode::DoesNotExist && t.last_group_id
                            == 0 && t.last_object_id == 0,
                    }
                },
            },
    {
        let latest: Option<(u64, u64)> = match track {
            Some(latest) => latest,
            None => {
                return Err(SessionError::Serve(ServeError::NotFound));
            },
        };
        let (status_code, last_group_id, last_object_id): (TrackStatusCode, u64, u64) =
            match latest {
            Some((group, object)) => (TrackStatusCode::InProgress, group, object),
            None => (TrackStatusCode::DoesNotExist, 0, 0),
        };
        Ok(
            TrackStatus {
                track_namespace: request.track_namespace.copy(),
                track_name: request.track_name.clone(),
                status_code,
                last_group_id,
                last_object_id,
            },
        )
    }
}

/// Whether a text has no characters.
pub fn is_empty_text(s: &String) -> (r: bool)
    ensures
        r == (s@.len() == 0),
{
    let empty: String = String::new();
    let r: bool = *s == empty;
    assert(r == (s@ == Seq::<char>::empty()));
    assert(s@.len() == 0 ==> s@ == Seq::<char>::empty());
    r
}

/// A message about one subscription leaves all others as they are.
pub proof fn other_subscriptions_are_untouched(
    v: PublisherView,
    msg: SubscriberMessage,
    after: PublisherView,
    r: PublisherAction,
    id: u64,
)
    requires
        publisher_takes(msg),
        v.recv_step(msg, after, r),
        match msg {
            SubscriberMessage::Subscribe(m) => m@.id != id,
            SubscriberMessage::Unsubscribe(m) => m.id != id,
            _ => true,
        },
    ensures
        after.subscribed.contains_key(id) == v.subscribed.contains_key(id),
        v.subscribed.contains_key(id) ==> after.subscribed[id] == v.subscribed[id],
{
}

/// A number is never taken by two subscriptions at once.
pub proof fn second_subscription_is_refused(
    v: PublisherView,
    a: Subscribe,
    b: Subscribe,
    middle: PublisherView,
    after: PublisherView,
    r: PublisherAction,
    s: PublisherAction,
)
    requires
        a@.id == b@.id,
        v.subscribe_step(a, middle, r),
        middle.subscribe_step(b, after, s),
    ensures
        s == PublisherAction::Ignored(SessionError::Duplicate),
        after == middle,
{
}

/// Whoever serves a subscription is told that it is called off, and told once.
pub proof fn subscription_is_called_off_once(
    v: PublisherView,
    msg: Unsubscribe,
    middle: PublisherView,
    after: PublisherView,
    r: PublisherAction,
    s: PublisherAction,
)
    requires
        v.subscribed.contains_key(msg.id),
        v.subscribed[msg.id].state.closed is Ok,
        v.subscribed[msg.id].serving,
        v.recv_step(SubscriberMessage::Unsubscribe(msg), middle, r),
        middle.recv_step(SubscriberMessage::Unsubscribe(msg), after, s),
    ensures
        r == PublisherAction::Cancelled(msg.id),
        s == PublisherAction::Ignored(SessionError::Serve(ServeError::Cancel)),
        after == middle,
{
    assert(after.subscribed =~= middle.subscribed);
}

/// A subscription for an announced namespace goes to whoever serves that namespace;
/// one for any other does not.
pub proof fn subscription_goes_to_its_namespace(
    v: PublisherView,
    msg: Subscribe,
    after: PublisherView,
    r: PublisherAction,
)
    requires
        v.subscribe_step(msg, after, r),
    ensures
        r is Serve <==> !v.subscribed.contains_key(msg@.id) && v.announces.contains_key(
            msg@.track_namespace,
        ) && v.announces[msg@.track_namespace].open,
        r matches PublisherAction::Serve(s) ==> s.msg == msg,
        after.announces == v.announces,
{
}

/// Once the end of a subscription has been sent, its number is free again.
pub proof fn ended_subscription_is_forgotten(v: PublisherView, msg: PublisherMessage, id: u64)
    requires
        match msg {
            PublisherMessage::SubscribeDone(m) => m.id == id,
            PublisherMessage::SubscribeError(m) => m.id == id,
            _ => false,
        },
    ensures
        !v.after_send(msg).subscribed.contains_key(id),
{
}

/// A subscription whose number is free is taken down as open, and whoever serves its
/// namespace gets it. For a namespace that nobody announced it goes to the end of a
/// queue, or, where nobody reads that, it is over as not found. Nothing else changes.
pub proof fn a_subscription_is_taken_to_whoever_serves_it(
    p: &mut Publisher,
    msg: Subscribe,
    r: PublisherAction,
)
    requires
        call_ensures(Publisher::recv_message, (p, SubscriberMessage::Subscribe(msg)), r),
        !old(p)@.subscribed.contains_key(msg.id),
    ensures
        final(p)@.subscribed.contains_key(msg.id),
        final(p)@.subscribed.remove(msg.id) == old(p)@.subscribed,
        final(p)@.announces == old(p)@.announces && final(p)@.outgoing == old(p)@.outgoing
            && final(p)@.url == old(p)@.url,
        ({
            let ns = msg.track_namespace@;
            let s = final(p)@.subscribed[msg.id];
            let known = old(p)@.announces.contains_key(ns);
            let served = known && old(p)@.announces[ns].open;
            let queued = !known && old(p)@.unknown_open;
            &&& s.serving == (served || queued)
            &&& s.state.max_group_id is None
            &&& s.state.closed == (if !known && !queued {
                Err::<(), ServeError>(ServeError::NotFound)
            } else {
                Ok(())
            })
            &&& served ==> (r matches PublisherAction::Serve(half) && half.msg == msg
                && half.receiving && !half.ok && half.state.closed is Ok
                && half.state.max_group_id is None)
            &&& known && !served ==> r == PublisherAction::Ignored(
                SessionError::Serve(ServeError::Done),
            )
            &&& !known ==> r == PublisherAction::Nothing
            &&& queued ==> final(p)@.unknown.len() == old(p)@.unknown.len() + 1
                && final(p)@.unknown.drop_last() == old(p)@.unknown
                && final(p)@.unknown.last().msg == msg && !final(p)@.unknown.last().ok
            &&& !queued ==> final(p)@.unknown == old(p)@.unknown
        }),
{
    assert(final(p)@.subscribed.remove(msg.id) =~= old(p)@.subscribed);
    assert(final(p)@.unknown.drop_last() =~= old(p)@.unknown || final(p)@.unknown
        == old(p)@.unknown);
}

/// A subscription whose number is taken is refused, and changes nothing.
pub proof fn a_taken_number_is_refused(p: &mut Publisher, msg: Subscribe, r: PublisherAction)
    requires
        call_ensures(Publisher::recv_message, (p, SubscriberMessage::Subscribe(msg)), r),
        old(p)@.subscribed.contains_key(msg.id),
    ensures
        r == PublisherAction::Ignored(SessionError::Duplicate),
        final(p)@ == old(p)@,
{
}

/// A subscription that is called off is over, and whoever serves it is told; one that is
/// over stays as it ended. Nothing else changes, and an unknown number changes nothing.
pub proof fn a_subscription_can_be_called_off(p: &mut Publisher, id: u64, r: PublisherAction)
    requires
        call_ensures(
            Publisher::recv_message,
            (p, SubscriberMessage::Unsubscribe(Unsubscribe { id })),
            r,
        ),
    ensures
        !old(p)@.subscribed.contains_key(id) ==> r == PublisherAction::Nothing && final(p)@
            == old(p)@,
        old(p)@.subscribed.contains_key(id) ==> {
            let was = old(p)@.subscribed[id];
            let is = final(p)@.subscribed[id];
            &&& final(p)@.subscribed.contains_key(id)
            &&& final(p)@.subscribed.remove(id) == old(p)@.subscribed.remove(id)
            &&& is.serving == was.serving && is.state.max_group_id == was.state.max_group_id
            &&& was.state.closed is Ok && was.serving ==> r == PublisherAction::Cancelled(id)
                && is.state.closed == Err::<(), ServeError>(ServeError::Cancel)
            &&& was.state.closed is Ok && !was.serving ==> r == PublisherAction::Nothing
                && is.state.closed is Ok
            &&& was.state.closed matches Err(e) ==> r == PublisherAction::Ignored(
                SessionError::Serve(e),
            ) && is.state.closed == Err::<(), ServeError>(e)
        },
        final(p)@.announces == old(p)@.announces && final(p)@.unknown == old(p)@.unknown
            && final(p)@.outgoing == old(p)@.outgoing && final(p)@.url == old(p)@.url,
{
    assert(final(p)@.subscribed.remove(id) =~= old(p)@.subscribed.remove(id));
}

/// A namespace is announced once, and then it is open and not yet accepted. The peer
/// accepts it once; a second time is a duplicate. Once nobody serves it, being accepted
/// changes nothing.
pub proof fn a_namespace_is_announced_and_accepted(
    p: &mut Publisher,
    ns: Tuple,
    r: Result<(), SessionError>,
    q: &mut Publisher,
    ok: AnnounceOk,
    s: PublisherAction,
)
    requires
        call_ensures(Publisher::announce, (p, &ns), r),
        call_ensures(Publisher::recv_message, (q, SubscriberMessage::AnnounceOk(ok)), s),
    ensures
        r is Ok == !old(p)@.announces.contains_key(ns@),
        r matches Err(e) ==> e == SessionError::Serve(ServeError::Duplicate) && final(p)@
            == old(p)@,
        r is Ok ==> {
            let a = final(p)@.announces[ns@];
            &&& final(p)@.announces.contains_key(ns@) && a.open && !a.ok && a.closed is Ok
            &&& final(p)@.announces.remove(ns@) == old(p)@.announces
        },
        final(p)@.subscribed == old(p)@.subscribed && final(p)@.outgoing == old(p)@.outgoing,
        !old(q)@.announces.contains_key(ok.namespace@) ==> s == PublisherAction::Nothing
            && final(q)@ == old(q)@,
        old(q)@.announces.contains_key(ok.namespace@) ==> {
            let was = old(q)@.announces[ok.namespace@];
            let is = final(q)@.announces[ok.namespace@];
            &&& is.ok == (was.ok || was.open) && is.open == was.open && is.closed == was.closed
            &&& s == (if was.open && was.ok {
                PublisherAction::Ignored(SessionError::Serve(ServeError::Duplicate))
            } else {
                PublisherAction::Nothing
            })
        },
        final(q)@.subscribed == old(q)@.subscribed && final(q)@.outgoing == old(q)@.outgoing,
{
    assert(r is Ok ==> final(p)@.announces.remove(ns@) =~= old(p)@.announces);
}

/// An announcement that the peer refuses or calls off is forgotten, and whoever serves
/// it is told why: by the code of the peer, or that it was called off.
pub proof fn an_announcement_can_be_refused(
    p: &mut Publisher,
    e: AnnounceError,
    r: PublisherAction,
    q: &mut Publisher,
    c: AnnounceCancel,
    s: PublisherAction,
)
    requires
        call_ensures(Publisher::recv_message, (p, SubscriberMessage::AnnounceError(e)), r),
        call_ensures(Publisher::recv_message, (q, SubscriberMessage::AnnounceCancel(c)), s),
    ensures
        !final(p)@.announces.contains_key(e.namespace@),
        !final(q)@.announces.contains_key(c.namespace@),
        final(p)@.announces == old(p)@.announces.remove(e.namespace@),
        final(q)@.announces == old(q)@.announces.remove(c.namespace@),
        final(p)@.subscribed == old(p)@.subscribed && final(p)@.outgoing == old(p)@.outgoing,
        final(q)@.subscribed == old(q)@.subscribed && final(q)@.outgoing == old(q)@.outgoing,
        !old(p)@.announces.contains_key(e.namespace@) ==> r == PublisherAction::Nothing,
        !old(q)@.announces.contains_key(c.namespace@) ==> s == PublisherAction::Nothing,
        old(p)@.announces.contains_key(e.namespace@) && old(p)@.announces[e.namespace@].open
            && old(p)@.announces[e.namespace@].closed is Ok ==> (
        r matches PublisherAction::Closed(t, why) && t@ == e.namespace@ && why == ServeError::Closed(e.error_code)),
        old(q)@.announces.contains_key(c.namespace@) && old(q)@.announces[c.namespace@].open
            && old(q)@.announces[c.namespace@].closed is Ok ==> (
        s matches PublisherAction::Closed(t, why) && t@ == c.namespace@ && why == ServeError::Cancel),
        old(p)@.announces.contains_key(e.namespace@) && !old(p)@.announces[e.namespace@].open
            && old(p)@.announces[e.namespace@].closed is Ok ==> r == PublisherAction::Ignored(
            SessionError::Serve(ServeError::Done),
        ),
{
    assert(final(p)@.announces =~= old(p)@.announces.remove(e.namespace@));
    assert(final(q)@.announces =~= old(q)@.announces.remove(c.namespace@));
}

/// A request for the status of a track goes to whoever serves its namespace, as it came,
/// and an update of a subscription is not supported. Neither changes anything.
pub proof fn requests_go_to_whoever_serves(
    p: &mut Publisher,
    m: TrackStatusRequest,
    r: PublisherAction,
    q: &mut Publisher,
    s: PublisherAction,
)
    requires
        call_ensures(Publisher::recv_message, (p, SubscriberMessage::TrackStatusRequest(m)), r),
        call_ensures(Publisher::recv_message, (q, SubscriberMessage::SubscribeUpdate), s),
    ensures
        final(p)@ == old(p)@ && final(q)@ == old(q)@,
        s == PublisherAction::Ignored(SessionError::Internal),
        ({
            let ns = m.track_namespace@;
            r == (if !old(p)@.announces.contains_key(ns) {
                PublisherAction::Ignored(SessionError::Internal)
            } else if old(p)@.announces[ns].open {
                PublisherAction::Status(m)
            } else {
                PublisherAction::Ignored(SessionError::Serve(ServeError::Done))
            })
        }),
{
}

/// Messages go out in the order in which they were sent, each once. The end of a
/// subscription frees its number, the end of an announcement its namespace; no other
/// message forgets anything.
pub proof fn messages_go_out_in_order(
    p: &mut Publisher,
    msg: PublisherMessage,
    q: &mut Publisher,
    r: Option<Message>,
)
    requires
        call_ensures(Publisher::send_message, (p, msg), ()),
        old(p)@.outgoing_open,
        call_ensures(Publisher::pop_outgoing, (q,), r),
    ensures
        final(p)@.outgoing.len() == old(p)@.outgoing.len() + 1,
        final(p)@.outgoing.drop_last() == old(p)@.outgoing,
        final(p)@.outgoing.last() == Message::Publisher(msg),
        final(p)@.subscribed == (match msg {
            PublisherMessage::SubscribeDone(m) => old(p)@.subscribed.remove(m.id),
            PublisherMessage::SubscribeError(m) => old(p)@.subscribed.remove(m.id),
            _ => old(p)@.subscribed,
        }),
        final(p)@.announces == (match msg {
            PublisherMessage::Unannounce(m) => old(p)@.announces.remove(m.namespace@),
            _ => old(p)@.announces,
        }),
        final(p)@.unknown == old(p)@.unknown && final(p)@.url == old(p)@.url,
        old(q)@.outgoing.len() == 0 ==> r is None && final(q)@ == old(q)@,
        old(q)@.outgoing.len() > 0 ==> r == Some(old(q)@.outgoing[0]) && final(q)@.outgoing.len()
            == old(q)@.outgoing.len() - 1 && seq![old(q)@.outgoing[0]] + final(q)@.outgoing
            == old(q)@.outgoing,
        final(q)@.subscribed == old(q)@.subscribed && final(q)@.announces == old(q)@.announces,
{
    assert(final(p)@.outgoing.drop_last() =~= old(p)@.outgoing);
    assert(old(q)@.outgoing.len() > 0 ==> seq![old(q)@.outgoing[0]] + final(q)@.outgoing
        =~= old(q)@.outgoing);
}

/// Subscriptions for no announced namespace come out in the order in which they came.
pub proof fn unknown_subscriptions_come_in_order(p: &mut Publisher, r: Option<Subscribed>)
    requires
        call_ensures(Publisher::subscribed, (p,), r),
    ensures
        r is None == (old(p)@.unknown.len() == 0),
        r matches Some(s) ==> seq![s] + final(p)@.unknown == old(p)@.unknown,
        r is None ==> final(p)@ == old(p)@,
        final(p)@.subscribed == old(p)@.subscribed && final(p)@.announces == old(p)@.announces
            && final(p)@.outgoing == old(p)@.outgoing && final(p)@.url == old(p)@.url,
{
    assert(r matches Some(s) ==> seq![s] + final(p)@.unknown =~= old(p)@.unknown);
}

/// Once nobody serves a namespace or a subscription any longer, it is no longer served,
/// and nothing else of it is lost: a subscription keeps the end it had.
pub proof fn serving_can_stop(
    p: &mut Publisher,
    ns: Tuple,
    q: &mut Publisher,
    id: u64,
    closed: Result<(), ServeError>,
)
    requires
        call_ensures(Publisher::stop_serving, (p, &ns), ()),
        call_ensures(Publisher::end_subscribed, (q, id, closed), ()),
    ensures
        !old(p)@.announces.contains_key(ns@) ==> final(p)@ == old(p)@,
        old(p)@.announces.contains_key(ns@) ==> final(p)@.announces.contains_key(ns@)
            && !final(p)@.announces[ns@].open && final(p)@.announces[ns@].ok
            == old(p)@.announces[ns@].ok
            && final(p)@.announces[ns@].closed == old(p)@.announces[ns@].closed,
        final(p)@.announces.remove(ns@) == old(p)@.announces.remove(ns@),
        final(p)@.subscribed == old(p)@.subscribed,
        !old(q)@.subscribed.contains_key(id) ==> final(q)@ == old(q)@,
        old(q)@.subscribed.contains_key(id) ==> final(q)@.subscribed.contains_key(id)
            && !final(q)@.subscribed[id].serving && final(q)@.subscribed[id].state.max_group_id
            == old(q)@.subscribed[id].state.max_group_id,
        old(q)@.subscribed.contains_key(id) ==> final(q)@.subscribed[id].state.closed
            == (if old(q)@.subscribed[id].state.closed is Ok {
            closed
        } else {
            old(q)@.subscribed[id].state.closed
        }),
        final(q)@.subscribed.remove(id) == old(q)@.subscribed.remove(id),
        final(q)@.announces == old(q)@.announces,
{
    assert(final(p)@.announces.remove(ns@) =~= old(p)@.announces.remove(ns@));
    assert(final(q)@.subscribed.remove(id) =~= old(q)@.subscribed.remove(id));
}

/// The address to go to is the last one that was told, and telling it changes nothing
/// else. Nowhere is an error of its own, but not of the session.
pub proof fn the_last_address_is_kept(
    p: &mut Publisher,
    m: GoAway,
    r: Result<(), SessionError>,
    url: String,
    q: &mut Publisher,
    relay: Relay,
    s: Result<(), SessionError>,
    to: String,
)
    requires
        call_ensures(Publisher::recv_goaway_message, (p, m), r),
        call_ensures(Publisher::get_url, (final(p),), url),
        call_ensures(Publisher::recv_goaway, (q, relay), s),
        call_ensures(Publisher::get_url, (final(q),), to),
    ensures
        url@ == m.url@,
        r is Ok == (m.url@.len() > 0),
        r matches Err(e) ==> e == SessionError::Serve(ServeError::NotFound),
        s is Ok,
        to@ == (match relay {
            Relay::GoAway(g) => g.url@,
            Relay::FixBandwidth(_) => old(q)@.url,
        }),
        final(p)@.subscribed == old(p)@.subscribed && final(p)@.announces == old(p)@.announces
            && final(p)@.outgoing == old(p)@.outgoing,
        final(q)@.subscribed == old(q)@.subscribed && final(q)@.announces == old(q)@.announces
            && final(q)@.outgoing == old(q)@.outgoing,
{
}

/// A track that is there is served; without it the subscription ends as not found,
/// unless it was over before.
pub proof fn a_subscription_needs_its_track(
    s: &mut Subscribed,
    found: bool,
    r: Result<bool, SessionError>,
)
    requires
        call_ensures(Publisher::serve_subscribe, (s, found), r),
    ensures
        found ==> r == Ok::<bool, SessionError>(true) && *final(s) == *old(s),
        !found && old(s).state.closed is Ok && old(s).receiving ==> r == Ok::<bool, SessionError>(
            false,
        ) && final(s).state.closed == Err::<(), ServeError>(ServeError::NotFound),
        !found ==> (old(s).state.closed matches Err(e) ==> r == Err::<bool, SessionError>(
            SessionError::Serve(e),
        ) && *final(s) == *old(s)),
        !found && old(s).state.closed is Ok && !old(s).receiving ==> r == Err::<bool, SessionError>(
            SessionError::Serve(ServeError::Done),
        ) && *final(s) == *old(s),
        final(s).msg == old(s).msg && final(s).ok == old(s).ok && final(s).receiving
            == old(s).receiving && final(s).state.max_group_id == old(s).state.max_group_id,
{
}

/// A status names the track that was asked for. A track that has begun is in progress at
/// its latest place, one that has not does not exist yet; without a track there is no
/// status.
pub proof fn a_status_names_its_track(
    m: TrackStatusRequest,
    track: Option<Option<(u64, u64)>>,
    r: Result<TrackStatus, SessionError>,
)
    requires
        call_ensures(Publisher::serve_track_status, (&m, track), r),
    ensures
        r is Ok == track is Some,
        r matches Err(e) ==> e == SessionError::Serve(ServeError::NotFound),
        r matches Ok(t) ==> {
            &&& t.track_namespace@ == m.track_namespace@ && t.track_name@ == m.track_name@
            &&& track->Some_0 matches Some((g, o)) ==> t.status_code == TrackStatusCode::InProgress
                && t.last_group_id == g && t.last_object_id == o
            &&& track->Some_0 is None ==> t.status_code == TrackStatusCode::DoesNotExist
                && t.last_group_id == 0 && t.last_object_id == 0
        },
{
}

/// What is announced can be accepted while it is open, once, and refused while it is
/// open and not over; the first end is told.
pub proof fn an_announcement_is_accepted_once(
    a: &mut AnnounceRecv,
    r: Result<(), ServeError>,
    b: AnnounceRecv,
    s: Result<(), ServeError>,
    n: AnnounceRecv,
)
    requires
        call_ensures(AnnounceRecv::recv_ok, (a,), r),
        call_ensures(AnnounceRecv::recv_error, (b,), s),
        call_ensures(AnnounceRecv::new, (), n),
    ensures
        r is Err == (old(a).open && old(a).ok),
        r matches Err(e) ==> e == ServeError::Duplicate,
        final(a).ok == (old(a).ok || old(a).open) && final(a).open == old(a).open
            && final(a).closed == old(a).closed,
        s is Ok == (b.closed is Ok && b.open),
        s matches Err(e) ==> (match b.closed {
            Err(first) => e == first,
            Ok(_) => e == ServeError::Done,
        }),
        n.open && !n.ok && n.closed is Ok,
{
}

/// A publisher starts with nothing announced and nobody subscribed.
pub proof fn a_publisher_starts_with_nothing(outgoing: Queue<Message>, p: Publisher, s: String, e: bool)
    requires
        call_ensures(Publisher::new, (outgoing,), p),
        call_ensures(is_empty_text, (&s,), e),
    ensures
        p@.announces.dom() == Set::<Seq<Seq<u8>>>::empty(),
        p@.subscribed.dom() == Set::<u64>::empty(),
        p@.unknown.len() == 0 && p@.url.len() == 0,
        p@.unknown_open,
        p@.outgoing == outgoing@ && p@.outgoing_open == outgoing.open,
        e == (s@.len() == 0),
{
}

} // verus!
