//! How QUIC connections are set up.

use crate::address::Transport;
use crate::coding::tuple::same_bytes;
use crate::media::playback::Nanos;
use vstd::prelude::*;
use vstd::utf8::{encode_utf8, is_ascii_chars, is_ascii_chars_encode_utf8};

verus! {

/// The protocol of WebTransport, as it is negotiated.
pub const ALPN_WEBTRANSPORT: &'static str = "h3";

/// The protocol over QUIC itself, as it is negotiated.
pub const ALPN_QUIC: &'static str = "moq-00";

/// The settings of every connection.
#[derive(Clone, Copy, Debug, PartialEq, Eq, Structural)]
pub struct TransportPlan {
    pub max_idle_timeout_secs: u64,
    pub keep_alive_interval_secs: u64,
    pub segmentation_offload: bool,
    pub mtu_discovery: bool,
    pub initial_mtu: u16,
    pub min_mtu: u16,
    /// The round-trip time that is supposed at first, where one is given.
    pub initial_rtt_ms: Option<u64>,
    pub deadline_scheduler: bool,
    /// The bits of the factor by which the packet rate is scaled.
    pub beta_bits: u64,
    pub guard_ms: u64,
    pub default_mss: u64,
}

/// The settings of every connection, given the round-trip time to be supposed.
pub fn transport_plan(rtt_ms: Option<u32>) -> (r: TransportPlan)
    ensures
        r == (TransportPlan {
            max_idle_timeout_secs: 30,
            keep_alive_interval_secs: 10,
            segmentation_offload: false,
            mtu_discovery: false,
            initial_mtu: 1200,
            min_mtu: 1200,
            initial_rtt_ms: match rtt_ms {
                Some(ms) => Some(ms as u64),
                None => None,
            },
            deadline_scheduler: false,
            beta_bits: 0x3fe9_9999_9999_999a,
            guard_ms: 10,
            default_mss: 1200,
        }),
{
    TransportPlan {
        max_idle_timeout_secs: 30,
        keep_alive_interval_secs: 10,
        segmentation_offload: false,
        mtu_discovery: false,
        initial_mtu: 1200,
        min_mtu: 1200,
        initial_rtt_ms: match rtt_ms {
            Some(ms) => Some(ms as u64),
            None => None,
        },
        deadline_scheduler: false,
        beta_bits: 0x3fe9_9999_9999_999a,
        guard_ms: 10,
        default_mss: 1200,
    }
}

/// The protocol by which to talk to a server in this way.
pub open spec fn alpn_of(transport: Transport) -> Seq<char> {
    match transport {
        Transport::WebTransport => ALPN_WEBTRANSPORT@,
        Transport::Quic => ALPN_QUIC@,
    }
}

/// The protocol that a client asks for.
pub fn client_alpn(transport: Transport) -> (r: &'static str)
    ensures
        r@ == alpn_of(transport),
{
    match transport {
        Transport::WebTransport => ALPN_WEBTRANSPORT,
        Transport::Quic => ALPN_QUIC,
    }
}

/// The protocols that a server takes, the preferred one first.
pub fn server_alpns() -> (r: Vec<&'static str>)
    ensures
        r@.len() == 2,
        r@[0]@ == ALPN_WEBTRANSPORT@,
        r@[1]@ == ALPN_QUIC@,
{
    let mut v: Vec<&'static str> = Vec::new();
    v.push(ALPN_WEBTRANSPORT);
    v.push(ALPN_QUIC);
    v
}

/// How to talk to a client, by the protocol that was negotiated with it: none where
/// that is missing or another.
pub open spec fn negotiated_transport(alpn: Option<Seq<u8>>) -> Option<Transport> {
    if alpn == Some(seq![0x68u8, 0x33u8]) {
        Some(Transport::WebTransport)
    } else if alpn == Some(seq![0x6du8, 0x6fu8, 0x71u8, 0x2du8, 0x30u8, 0x30u8]) {
        Some(Transport::Quic)
    } else {
        None
    }
}

/// Why a connection is not taken.
#[derive(Clone, Copy, Debug, PartialEq, Eq, Structural)]
pub enum AcceptError {
    /// No protocol was negotiated.
    Missing,
    /// Another protocol was negotiated.
    Unsupported,
}

/// How to talk to a client, by the protocol that was negotiated with it.
pub fn accept_transport(alpn: Option<&[u8]>) -> (r: Result<Transport, AcceptError>)
    ensures
        match alpn {
            None => r == Err::<Transport, AcceptError>(AcceptError::Missing),
            Some(b) => match negotiated_transport(Some(b@)) {
                Some(t) => r == Ok::<Transport, AcceptError>(t),
                None => r == Err::<Transport, AcceptError>(AcceptError::Unsupported),
            },
        },
{
    let b: &[u8] = match alpn {
        Some(b) => b,
        None => {
            return Err(AcceptError::Missing);
        },
    };
    let h3: [u8; 2] = [0x68u8, 0x33u8];
    let moq: [u8; 6] = [0x6du8, 0x6fu8, 0x71u8, 0x2du8, 0x30u8, 0x30u8];
    assert(h3@ == seq![0x68u8, 0x33u8]);
    assert(moq@ == seq![0x6du8, 0x6fu8, 0x71u8, 0x2du8, 0x30u8, 0x30u8]);
    if same_bytes(b, h3.as_slice()) {
        Ok(Transport::WebTransport)
    } else if same_bytes(b, moq.as_slice()) {
        Ok(Transport::Quic)
    } else {
        Err(AcceptError::Unsupported)
    }
}

/// What a client asks for, a server takes for the same.
pub proof fn server_takes_what_the_client_asks(transport: Transport)
    ensures
        negotiated_transport(Some(encode_utf8(alpn_of(transport)))) == Some(transport),
{
    reveal_strlit("h3");
    reveal_strlit("moq-00");
    let asked = alpn_of(transport);
    assert(is_ascii_chars(asked));
    is_ascii_chars_encode_utf8(asked);
    match transport {
        Transport::WebTransport => {
            assert(encode_utf8(asked) =~= seq![0x68u8, 0x33u8]);
        },
        Transport::Quic => {
            assert(encode_utf8(asked) =~= seq![0x6du8, 0x6fu8, 0x71u8, 0x2du8, 0x30u8, 0x30u8]);
            assert(encode_utf8(asked).len() != seq![0x68u8, 0x33u8].len());
        },
    }
}

/// What a connection reports of its path.
#[derive(Clone, Copy, Debug, PartialEq, Eq, Structural)]
pub struct PathStats {
    pub rtt: Nanos,
    pub cwnd: u64,
    pub congestion_events: u64,
    pub lost_packets: u64,
    pub sent_packets: u64,
}

/// Statistics as the estimators take them: round-trip time, congestion window,
/// bytes in flight, packets lost and packets sent. The number of congestion events
/// stands in for the bytes in flight.
pub fn stats_of(path: &PathStats) -> (r: (Nanos, u64, u64, u64, u64))
    ensures
        r == (path.rtt, path.cwnd, path.congestion_events, path.lost_packets, path.sent_packets),
{
    (path.rtt, path.cwnd, path.congestion_events, path.lost_packets, path.sent_packets)
}

/// Every connection ends after thirty idle seconds, is kept alive every ten, and sends
/// packets of 1200 bytes; the round-trip time that is given is supposed at first.
pub proof fn connections_are_set_up_alike(rtt: Option<u32>, r: TransportPlan)
    requires
        call_ensures(transport_plan, (rtt,), r),
    ensures
        r.max_idle_timeout_secs == 30 && r.keep_alive_interval_secs == 10,
        r.initial_mtu == 1200 && r.min_mtu == 1200 && r.default_mss == 1200,
        !r.segmentation_offload && !r.mtu_discovery && !r.deadline_scheduler,
        r.guard_ms == 10 && r.beta_bits == 0x3fe9_9999_9999_999a,
        r.initial_rtt_ms is Some == rtt is Some,
        rtt matches Some(ms) ==> r.initial_rtt_ms->Some_0 == ms,
{
}

/// The protocol that is negotiated tells how to talk: `h3` and `moq-00` are the two that
/// a client asks for and a server takes, the first of them first. Without one, or with
/// another, there is no talking, and that is told apart.
pub proof fn protocols_tell_the_transport(
    alpn: Option<&[u8]>,
    r: Result<Transport, AcceptError>,
    transport: Transport,
    asks: &'static str,
    takes: Vec<&'static str>,
)
    requires
        call_ensures(accept_transport, (alpn,), r),
        call_ensures(client_alpn, (transport,), asks),
        call_ensures(server_alpns, (), takes),
    ensures
        (r == Ok::<Transport, AcceptError>(Transport::WebTransport)) == (alpn matches Some(b) && b@
            == seq![0x68u8, 0x33]),
        (r == Ok::<Transport, AcceptError>(Transport::Quic)) == (alpn matches Some(b) && b@
            == seq![0x6du8, 0x6f, 0x71, 0x2d, 0x30, 0x30]),
        alpn is None ==> r == Err::<Transport, AcceptError>(AcceptError::Missing),
        alpn is Some && r is Err ==> r == Err::<Transport, AcceptError>(AcceptError::Unsupported),
        transport == Transport::WebTransport ==> asks@ == "h3"@,
        transport == Transport::Quic ==> asks@ == "moq-00"@,
        takes@.len() == 2 && takes@[0]@ == "h3"@ && takes@[1]@ == "moq-00"@,
{
    assert(seq![0x68u8, 0x33u8].len() != seq![0x6du8, 0x6f, 0x71, 0x2d, 0x30, 0x30].len());
}

/// Statistics are handed on in the order in which the estimators take them.
pub proof fn statistics_are_handed_on(p: PathStats, r: (Nanos, u64, u64, u64, u64))
    requires
        call_ensures(stats_of, (&p,), r),
    ensures
        r.0 == p.rtt,
        r.1 == p.cwnd,
        r.2 == p.congestion_events,
        r.3 == p.lost_packets,
        r.4 == p.sent_packets,
{
}

} // verus!
