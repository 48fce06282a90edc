//! The messages of the control stream, by who sends them.

use crate::coding::tuple::Tuple;
use crate::message::fix_bandwidth::FixBandwidth;
use crate::message::subscribe::Subscribe;
use crate::session::subscribed::SubscribeOk;
use vstd::prelude::*;

verus! {

/// A namespace is offered.
#[derive(Debug)]
pub struct Announce {
    pub namespace: Tuple,
}

/// A namespace is no longer offered.
#[derive(Debug)]
pub struct Unannounce {
    pub namespace: Tuple,
}

/// An offer is accepted.
#[derive(Debug)]
pub struct AnnounceOk {
    pub namespace: Tuple,
}

/// An offer is refused.
#[derive(Debug)]
pub struct AnnounceError {
    pub namespace: Tuple,
    pub error_code: u64,
}

/// An accepted offer is called off.
#[derive(Debug)]
pub struct AnnounceCancel {
    pub namespace: Tuple,
}

/// A subscription is refused.
#[derive(Clone, Copy, Debug)]
pub struct SubscribeError {
    pub id: u64,
    pub code: u64,
}

/// A subscription is over.
#[derive(Clone, Copy, Debug)]
pub struct SubscribeDone {
    pub id: u64,
    pub code: u64,
}

/// A subscription is called off.
#[derive(Clone, Copy, Debug)]
pub struct Unsubscribe {
    pub id: u64,
}

/// Up to which number subscriptions may go.
#[derive(Clone, Copy, Debug)]
pub struct MaxSubscribeId {
    pub id: u64,
}

/// The state of a track is asked for.
#[derive(Debug)]
pub struct TrackStatusRequest {
    pub track_namespace: Tuple,
    pub track_name: String,
}

/// Whether a track has begun.
#[derive(Clone, Copy, Debug, PartialEq, Eq, Structural)]
pub enum TrackStatusCode {
    InProgress,
    DoesNotExist,
}

/// The state of a track, and its last object.
#[derive(Debug)]
pub struct TrackStatus {
    pub track_namespace: Tuple,
    pub track_name: String,
    pub status_code: TrackStatusCode,
    pub last_group_id: u64,
    pub last_object_id: u64,
}

/// The peer is asked to leave for another server.
#[derive(Debug)]
pub struct GoAway {
    pub url: String,
}

/// What a publisher sends.
#[derive(Debug)]
pub enum PublisherMessage {
    Announce(Announce),
    Unannounce(Unannounce),
    SubscribeOk(SubscribeOk),
    SubscribeError(SubscribeError),
    SubscribeDone(SubscribeDone),
    MaxSubscribeId(MaxSubscribeId),
    TrackStatus(TrackStatus),
    FetchOk,
    FetchError,
}

/// What a subscriber sends.
#[derive(Debug)]
pub enum SubscriberMessage {
    AnnounceOk(AnnounceOk),
    AnnounceError(AnnounceError),
    AnnounceCancel(AnnounceCancel),
    Subscribe(Subscribe),
    Unsubscribe(Unsubscribe),
    SubscribeUpdate,
    TrackStatusRequest(TrackStatusRequest),
    SubscribeNamespace,
    SubscribeNamespaceOk,
    SubscribeNamespaceError,
    UnsubscribeNamespace,
    Fetch,
    FetchCancel,
}

/// Any message of the control stream.
#[derive(Debug)]
pub enum Message {
    Publisher(PublisherMessage),
    Subscriber(SubscriberMessage),
    GoAway(GoAway),
    FixBandwidth(FixBandwidth),
}

} // verus!
