//! Fixing the bandwidth of a session.

use crate::coding::error::{DecodeError, EncodeError};
use crate::coding::varint::{read_varint, varint, varint_is_steady, varint_round_trip, VARINT_LIMIT};
use crate::coding::wire::{
    front_waits, steady, waits, Cursor, Decode, Decoding, Encode, Encoding, SelfDelimited,
};
use vstd::prelude::*;

verus! {

/// Sent by the server to tell the client at which bandwidth to send.
#[derive(Clone, Copy, Debug, PartialEq, Eq, Structural)]
pub struct FixBandwidth {
    pub bandwidth: u64,
}

impl View for FixBandwidth {
    type V = FixBandwidth;

    open spec fn view(&self) -> FixBandwidth {
        *self
    }
}

impl Decode for FixBandwidth {
    open spec fn decoding(b: Seq<u8>) -> Decoding<FixBandwidth> {
        match read_varint(b) {
            Ok((bandwidth, n)) => Ok((FixBandwidth { bandwidth }, n)),
            Err(e) => Err(e),
        }
    }

    fn decode(c: &mut Cursor<'_>) -> (r: Result<Self, DecodeError>) {
        match u64::decode(c) {
            Ok(bandwidth) => Ok(FixBandwidth { bandwidth }),
            Err(e) => Err(e),
        }
    }
}

impl Encode for FixBandwidth {
    open spec fn encoding(v: FixBandwidth) -> Encoding {
        varint(v.bandwidth)
    }

    fn encode(&self, w: &mut bytes::BytesMut) -> (r: Result<(), EncodeError>) {
        self.bandwidth.encode(w)
    }
}

/// The message reads back, and takes its bytes and no more.
pub proof fn fix_bandwidth_round_trip(v: FixBandwidth, rest: Seq<u8>)
    requires
        v.bandwidth < VARINT_LIMIT,
    ensures
        FixBandwidth::encoding(v).1 is None,
        FixBandwidth::decoding(FixBandwidth::encoding(v).0 + rest) == Ok::<
            (FixBandwidth, int),
            DecodeError,
        >((v, FixBandwidth::encoding(v).0.len() as int)),
{
    varint_round_trip(v.bandwidth, rest);
}

/// What has been read of the message stands, whatever follows.
pub proof fn fix_bandwidth_is_steady(b: Seq<u8>, more: Seq<u8>)
    ensures
        steady(
            FixBandwidth::decoding(b),
            FixBandwidth::decoding(b + more),
            b.len() as int,
            more.len() as int,
        ),
{
    varint_is_steady(b, more);
}

/// A message that has arrived in part is waited for, and for no more than is to
/// come.
pub proof fn fix_bandwidth_waits(v: FixBandwidth, k: int)
    requires
        v.bandwidth < VARINT_LIMIT,
        0 <= k < FixBandwidth::encoding(v).0.len(),
    ensures
        waits(
            FixBandwidth::decoding(FixBandwidth::encoding(v).0.take(k)),
            FixBandwidth::encoding(v).0.len() - k,
        ),
{
    let all = FixBandwidth::encoding(v).0;
    fix_bandwidth_round_trip(v, Seq::empty());
    assert(all + Seq::<u8>::empty() == all);
    assert(all.take(k) + all.skip(k) == all);
    fix_bandwidth_is_steady(all.take(k), all.skip(k));
    front_waits(
        FixBandwidth::decoding(all.take(k)),
        FixBandwidth::decoding(all),
        k,
        all.len() - k,
    );
}

impl SelfDelimited for FixBandwidth {
    proof fn reading_is_steady(b: Seq<u8>, more: Seq<u8>) {
        fix_bandwidth_is_steady(b, more);
    }
}

/// The message is the bandwidth alone, written and read.
pub proof fn the_message_is_the_bandwidth(v: FixBandwidth, b: Seq<u8>)
    ensures
        FixBandwidth::encoding(v) == u64::encoding(v.bandwidth),
        match u64::decoding(b) {
            Ok((x, n)) => FixBandwidth::decoding(b) matches Ok((w, m)) && w.bandwidth == x && m == n,
            Err(e) => FixBandwidth::decoding(b) == Err::<(FixBandwidth, int), DecodeError>(e),
        },
{
}

} // verus!
