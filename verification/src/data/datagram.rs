//! Objects that travel as datagrams.

use crate::buffer::{append, buffered};
use crate::coding::error::{DecodeError, EncodeError};
use crate::coding::field::read_byte;
use crate::coding::varint::{read_varint, varint, varint_len, varint_round_trip, VARINT_LIMIT};
use crate::coding::wire::{
    chain, chain_parts, moved, moved_twice, next_part, Cursor, Decode, Decoding, Encode, Encoding,
};
use crate::data::header::{decode_two, encode_two, read_two, two_round_trip, write_two};
use crate::data::object::{read_status, status_number, ObjectStatus};
use vstd::prelude::*;

verus! {

/// An object and where it belongs.
#[derive(Debug)]
pub struct Datagram {
    pub subscribe_id: u64,
    pub track_alias: u64,
    pub group_id: u64,
    pub object_id: u64,
    pub publisher_priority: u8,
    pub object_status: ObjectStatus,
    pub payload_len: u64,
    /// All that follows the header.
    pub payload: Vec<u8>,
}

/// What a [`Datagram`] holds.
#[verifier::ext_equal]
pub struct DatagramView {
    pub subscribe_id: u64,
    pub track_alias: u64,
    pub group_id: u64,
    pub object_id: u64,
    pub publisher_priority: u8,
    pub object_status: ObjectStatus,
    pub payload_len: u64,
    pub payload: Seq<u8>,
}

impl View for Datagram {
    type V = DatagramView;

    open spec fn view(&self) -> DatagramView {
        DatagramView {
            subscribe_id: self.subscribe_id,
            track_alias: self.track_alias,
            group_id: self.group_id,
            object_id: self.object_id,
            publisher_priority: self.publisher_priority,
            object_status: self.object_status,
            payload_len: self.payload_len,
            payload: self.payload@,
        }
    }
}

/// What writing the numbers that say where a datagram belongs does.
#[verifier::opaque]
pub open spec fn write_place(v: DatagramView) -> Encoding {
    chain(write_two(v.subscribe_id, v.track_alias), write_two(v.group_id, v.object_id))
}

/// What reading them gives: subscription, alias, group and object.
#[verifier::opaque]
pub open spec fn read_place(b: Seq<u8>) -> Decoding<(u64, u64, u64, u64)> {
    match read_two(b) {
        Err(e) => Err(e),
        Ok(((s, t), n)) => match read_two(b.skip(n)) {
            Err(e) => Err(e),
            Ok(((g, o), m)) => Ok(((s, t, g, o), n + m)),
        },
    }
}

/// What writing priority, status and length does.
#[verifier::opaque]
pub open spec fn write_kind(v: DatagramView) -> Encoding {
    chain(
        chain((seq![v.publisher_priority], None), varint(status_number(v.object_status))),
        varint(v.payload_len),
    )
}

/// What reading priority, status and length gives.
#[verifier::opaque]
pub open spec fn read_kind(b: Seq<u8>) -> Decoding<(u8, ObjectStatus, u64)> {
    match read_byte(b) {
        Err(e) => Err(e),
        Ok((p, n)) => match read_status(b.skip(n)) {
            Err(e) => Err(e),
            Ok((s, m)) => match read_varint(b.skip(n + m)) {
                Err(e) => Err(e),
                Ok((len, k)) => Ok(((p, s, len), n + m + k)),
            },
        },
    }
}

/// What writing a datagram does.
#[verifier::opaque]
pub open spec fn write_datagram(v: DatagramView) -> Encoding {
    chain(chain(write_place(v), write_kind(v)), (v.payload, None))
}

/// What reading a datagram gives. It takes all there is.
#[verifier::opaque]
pub open spec fn read_datagram(b: Seq<u8>) -> Decoding<DatagramView> {
    match read_place(b) {
        Err(e) => Err(e),
        Ok(((subscribe_id, track_alias, group_id, object_id), n)) => match read_kind(b.skip(n)) {
            Err(e) => Err(e),
            Ok(((publisher_priority, object_status, payload_len), m)) => Ok(
                (
                    DatagramView {
                        subscribe_id,
                        track_alias,
                        group_id,
                        object_id,
                        publisher_priority,
                        object_status,
                        payload_len,
                        payload: b.skip(n + m),
                    },
                    b.len() as int,
                ),
            ),
        },
    }
}

/// Where a datagram belongs, as it is read.
type Place = (u64, u64, u64, u64);

/// Priority, status and length, as they are read.
type Kind = (u8, ObjectStatus, u64);

fn decode_place(c: &mut Cursor<'_>) -> (r: Result<Place, DecodeError>)
    requires
        old(c).wf(),
    ensures
        match read_place(old(c).rest()) {
            Ok((v, n)) => r == Ok::<Place, DecodeError>(v) && moved(*old(c), *final(c), n),
            Err(e) => r == Err::<Place, DecodeError>(e),
        },
        final(c).wf(),
        final(c).data() == old(c).data(),
{
    reveal(read_place);
    let ghost c0 = *c;
    let (s, t): (u64, u64) = match decode_two(c) {
        Ok(x) => x,
        Err(e) => {
            return Err(e);
        },
    };
    let ghost c1 = *c;
    match decode_two(c) {
        Ok((g, o)) => {
            proof {
                let n = read_two(c0.rest())->Ok_0.1;
                moved_twice(c0, c1, *c, n, read_two(c1.rest())->Ok_0.1);
            }
            Ok((s, t, g, o))
        },
        Err(e) => Err(e),
    }
}

fn decode_kind(c: &mut Cursor<'_>) -> (r: Result<Kind, DecodeError>)
    requires
        old(c).wf(),
    ensures
        match read_kind(old(c).rest()) {
            Ok((v, n)) => r == Ok::<Kind, DecodeError>(v) && moved(*old(c), *final(c), n),
            Err(e) => r == Err::<Kind, DecodeError>(e),
        },
        final(c).wf(),
        final(c).data() == old(c).data(),
{
    reveal(read_kind);
    let ghost c0 = *c;
    let p: u8 = match u8::decode(c) {
        Ok(p) => p,
        Err(e) => {
            return Err(e);
        },
    };
    let ghost c1 = *c;
    let s: ObjectStatus = match ObjectStatus::decode(c) {
        Ok(s) => s,
        Err(e) => {
            return Err(e);
        },
    };
    let ghost c2 = *c;
    let ghost m = read_status(c1.rest())->Ok_0.1;
    proof {
        moved_twice(c0, c1, c2, 1, m);
    }
    match u64::decode(c) {
        Ok(len) => {
            proof {
                moved_twice(c0, c2, *c, 1 + m, read_varint(c2.rest())->Ok_0.1);
            }
            Ok((p, s, len))
        },
        Err(e) => Err(e),
    }
}

impl Decode for Datagram {
    open spec fn decoding(b: Seq<u8>) -> Decoding<DatagramView> {
        read_datagram(b)
    }

    fn decode(c: &mut Cursor<'_>) -> (r: Result<Self, DecodeError>) {
        reveal(read_datagram);
        let ghost c0 = *c;
        let (subscribe_id, track_alias, group_id, object_id): Place = match decode_place(c) {
            Ok(x) => x,
            Err(e) => {
                return Err(e);
            },
        };
        let ghost c1 = *c;
        let ghost n = read_place(c0.rest())->Ok_0.1;
        let (publisher_priority, object_status, payload_len): Kind = match decode_kind(c) {
            Ok(x) => x,
            Err(e) => {
                return Err(e);
            },
        };
        let ghost c2 = *c;
        let ghost m = read_kind(c1.rest())->Ok_0.1;
        proof {
            moved_twice(c0, c1, c2, n, m);
        }
        let left: usize = c.remaining();
        let payload: Vec<u8> = c.take(left);
        proof {
            assert(c2.rest().take(left as int) == c2.rest());
            moved_twice(c0, c2, *c, n + m, left as int);
        }
        Ok(
            Datagram {
                subscribe_id,
                track_alias,
                group_id,
                object_id,
                publisher_priority,
                object_status,
                payload_len,
                payload,
            },
        )
    }
}

impl Datagram {
    fn encode_place(&self, w: &mut bytes::BytesMut) -> (r: Result<(), EncodeError>)
        requires
            buffered(*old(w)).len() + write_place(self@).0.len() <= isize::MAX,
        ensures
            buffered(*final(w)) == buffered(*old(w)) + write_place(self@).0,
            r == (match write_place(self@).1 {
                Some(e) => Err::<(), EncodeError>(e),
                None => Ok::<(), EncodeError>(()),
            }),
    {
        reveal(write_place);
        let ghost start = buffered(*w);
        if let Err(e) = encode_two(self.subscribe_id, self.track_alias, w) {
            return Err(e);
        }
        let r: Result<(), EncodeError> = encode_two(self.group_id, self.object_id, w);
        assert(buffered(*w) == start + write_place(self@).0);
        r
    }

    fn encode_kind(&self, w: &mut bytes::BytesMut) -> (r: Result<(), EncodeError>)
        requires
            buffered(*old(w)).len() + write_kind(self@).0.len() <= isize::MAX,
        ensures
            buffered(*final(w)) == buffered(*old(w)) + write_kind(self@).0,
            r == (match write_kind(self@).1 {
                Some(e) => Err::<(), EncodeError>(e),
                None => Ok::<(), EncodeError>(()),
            }),
    {
        reveal(write_kind);
        let ghost start = buffered(*w);
        let ghost e1: Encoding = (seq![self.publisher_priority], None);
        let ghost e2 = chain(e1, varint(status_number(self.object_status)));
        if let Err(e) = self.publisher_priority.encode(w) {
            return Err(e);
        }
        let r: Result<(), EncodeError> = self.object_status.encode(w);
        assert(buffered(*w) == start + e2.0);
        if let Err(e) = r {
            return Err(e);
        }
        let r: Result<(), EncodeError> = self.payload_len.encode(w);
        assert(buffered(*w) == start + write_kind(self@).0);
        r
    }
}

impl Encode for Datagram {
    open spec fn encoding(v: DatagramView) -> Encoding {
        write_datagram(v)
    }

    fn encode(&self, w: &mut bytes::BytesMut) -> (r: Result<(), EncodeError>) {
        reveal(write_datagram);
        let ghost start = buffered(*w);
        let ghost e1 = write_place(self@);
        let ghost e2 = chain(e1, write_kind(self@));
        if let Err(e) = self.encode_place(w) {
            return Err(e);
        }
        let r: Result<(), EncodeError> = self.encode_kind(w);
        assert(buffered(*w) == start + e2.0);
        if let Err(e) = r {
            return Err(e);
        }
        append(w, self.payload.as_slice());
        assert(buffered(*w) == start + write_datagram(self@).0);
        Ok(())
    }
}

/// Whether the numbers of a datagram can be written.
pub open spec fn datagram_fits(v: DatagramView) -> bool {
    &&& v.subscribe_id < VARINT_LIMIT
    &&& v.track_alias < VARINT_LIMIT
    &&& v.group_id < VARINT_LIMIT
    &&& v.object_id < VARINT_LIMIT
    &&& v.payload_len < VARINT_LIMIT
}

proof fn lemma_place_round_trip(v: DatagramView, rest: Seq<u8>)
    requires
        datagram_fits(v),
    ensures
        write_place(v).1 is None,
        read_place(write_place(v).0 + rest) == Ok::<(Place, int), DecodeError>(
            (
                (v.subscribe_id, v.track_alias, v.group_id, v.object_id),
                write_place(v).0.len() as int,
            ),
        ),
{
    reveal(write_place);
    reveal(read_place);
    let e1 = write_two(v.subscribe_id, v.track_alias);
    let e2 = write_two(v.group_id, v.object_id);
    two_round_trip(v.subscribe_id, v.track_alias, e2.0 + rest);
    two_round_trip(v.group_id, v.object_id, rest);
    chain_parts(e1, e2, rest);
    let all = write_place(v).0 + rest;
    assert(all.skip(0) == all);
    next_part(all, 0, e1.0, e2.0 + rest);
}

proof fn lemma_kind_round_trip(v: DatagramView, rest: Seq<u8>)
    requires
        datagram_fits(v),
    ensures
        write_kind(v).1 is None,
        read_kind(write_kind(v).0 + rest) == Ok::<(Kind, int), DecodeError>(
            (
                (v.publisher_priority, v.object_status, v.payload_len),
                write_kind(v).0.len() as int,
            ),
        ),
{
    reveal(write_kind);
    let e1: Encoding = (seq![v.publisher_priority], None);
    let e2 = varint(status_number(v.object_status));
    let e3 = varint(v.payload_len);
    let r3 = e3.0 + rest;
    let r2 = e2.0 + r3;
    varint_round_trip(status_number(v.object_status), r3);
    varint_round_trip(v.payload_len, rest);
    chain_parts(e1, e2, r3);
    chain_parts(chain(e1, e2), e3, rest);
    let all = write_kind(v).0 + rest;
    assert(all.skip(0) == all);
    next_part(all, 0, e1.0, r2);
    next_part(all, 1, e2.0, r3);
    assert(read_byte(all) == Ok::<(u8, int), DecodeError>((v.publisher_priority, 1)));
    assert(read_status(r2) == Ok::<(ObjectStatus, int), DecodeError>(
        (v.object_status, e2.0.len() as int),
    ));
    lemma_read_kind(all, v, e2.0.len() as int, e3.0.len() as int);
}

proof fn lemma_read_kind(b: Seq<u8>, v: DatagramView, m: int, k: int)
    requires
        read_byte(b) == Ok::<(u8, int), DecodeError>((v.publisher_priority, 1)),
        read_status(b.skip(1)) == Ok::<(ObjectStatus, int), DecodeError>((v.object_status, m)),
        read_varint(b.skip(1 + m)) == Ok::<(u64, int), DecodeError>((v.payload_len, k)),
    ensures
        read_kind(b) == Ok::<(Kind, int), DecodeError>(
            ((v.publisher_priority, v.object_status, v.payload_len), 1 + m + k),
        ),
{
    reveal(read_kind);
}

/// A datagram reads back as it was written.
pub proof fn datagram_round_trip(v: DatagramView)
    requires
        datagram_fits(v),
    ensures
        write_datagram(v).1 is None,
        read_datagram(write_datagram(v).0) == Ok::<(DatagramView, int), DecodeError>(
            (v, write_datagram(v).0.len() as int),
        ),
{
    reveal(write_datagram);
    reveal(read_datagram);
    let e1 = write_place(v);
    let e2 = write_kind(v);
    let e3: Encoding = (v.payload, None);
    let none = Seq::<u8>::empty();
    let r2 = e2.0 + v.payload;
    assert(v.payload + none == v.payload);
    lemma_place_round_trip(v, r2);
    lemma_kind_round_trip(v, v.payload);
    chain_parts(e1, e2, v.payload);
    chain_parts(chain(e1, e2), e3, none);
    let all = write_datagram(v).0;
    assert(all + none == all);
    assert(all.skip(0) == all);
    next_part(all, 0, e1.0, r2);
    next_part(all, e1.0.len() as int, e2.0, v.payload);
}

/// The header of a datagram takes at most 49 bytes.
pub proof fn datagram_is_short(v: DatagramView)
    ensures
        write_datagram(v).0.len() <= v.payload.len() + 49,
{
    reveal(write_datagram);
    reveal(write_place);
    reveal(write_kind);
    varint_len(v.subscribe_id);
    varint_len(v.track_alias);
    varint_len(v.group_id);
    varint_len(v.object_id);
    varint_len(v.payload_len);
    varint_len(status_number(v.object_status));
}

/// A datagram is the subscription, the alias of the track, the group, the object, the
/// priority, the status and the length of the payload, one behind the other, and then the
/// payload; all that follows the length is payload.
pub proof fn datagrams_hold_where_they_belong(v: DatagramView)
    requires
        v.subscribe_id < VARINT_LIMIT,
        v.track_alias < VARINT_LIMIT,
        v.group_id < VARINT_LIMIT,
        v.object_id < VARINT_LIMIT,
        v.payload_len < VARINT_LIMIT,
    ensures
        ({
            let all = u64::encoding(v.subscribe_id).0 + u64::encoding(v.track_alias).0
                + u64::encoding(v.group_id).0 + u64::encoding(v.object_id).0
                + seq![v.publisher_priority] + ObjectStatus::encoding(v.object_status).0
                + u64::encoding(v.payload_len).0 + v.payload;
            &&& Datagram::encoding(v) == (all, None::<EncodeError>)
            &&& Datagram::decoding(all) == Ok::<(DatagramView, int), DecodeError>(
                (v, all.len() as int),
            )
        }),
{
    reveal(write_datagram);
    reveal(write_place);
    reveal(write_kind);
    let a = u64::encoding(v.subscribe_id).0;
    let b = u64::encoding(v.track_alias).0;
    let c = u64::encoding(v.group_id).0;
    let d = u64::encoding(v.object_id).0;
    let p = seq![v.publisher_priority];
    let s = ObjectStatus::encoding(v.object_status).0;
    let l = u64::encoding(v.payload_len).0;
    varint_len(v.subscribe_id);
    varint_len(v.track_alias);
    varint_len(v.group_id);
    varint_len(v.object_id);
    varint_len(status_number(v.object_status));
    varint_len(v.payload_len);
    assert(write_place(v) == (a + b + (c + d), None::<EncodeError>));
    assert(write_kind(v) == (p + s + l, None::<EncodeError>));
    assert(a + b + (c + d) + (p + s + l) + v.payload =~= a + b + c + d + p + s + l + v.payload);
    datagram_round_trip(v);
}

} // verus!
