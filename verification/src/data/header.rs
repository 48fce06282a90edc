//! The header of a data stream.

use crate::buffer::buffered;
use crate::coding::error::{DecodeError, EncodeError};
use crate::coding::field::{byte_is_steady, read_byte};
use crate::coding::varint::{
    numbers_are_written_in_the_fewest_bytes, read_varint, varint, varint_is_steady, varint_len,
    varint_round_trip, VARINT_LIMIT,
};
use crate::coding::wire::{
    chain, chain_parts, front_waits, moved, moved_twice, next_part, skip_more, steady, waits,
    Cursor, Decode, Decoding, Encode, Encoding, SelfDelimited,
};
use vstd::prelude::*;
use vstd::std_specs::convert::{FromSpec, FromSpecImpl};

verus! {

/// The number of a [`TrackHeader`].
pub const TRACK_STREAM: u64 = 0x2;

/// The number of a [`SubgroupHeader`].
pub const SUBGROUP_STREAM: u64 = 0x4;

/// A stream that carries all objects of a track.
#[derive(Clone, Copy, Debug, PartialEq, Eq, Structural)]
pub struct TrackHeader {
    pub subscribe_id: u64,
    pub track_alias: u64,
    pub publisher_priority: u8,
}

/// A stream that carries the objects of one subgroup.
#[derive(Clone, Copy, Debug, PartialEq, Eq, Structural)]
pub struct SubgroupHeader {
    pub subscribe_id: u64,
    pub track_alias: u64,
    pub group_id: u64,
    pub subgroup_id: u64,
    pub publisher_priority: u8,
}

/// The header of a stream, behind the number that says which it is.
#[derive(Clone, Copy, Debug, PartialEq, Eq, Structural)]
pub enum Header {
    Track(TrackHeader),
    Subgroup(SubgroupHeader),
}

impl View for TrackHeader {
    type V = TrackHeader;

    open spec fn view(&self) -> TrackHeader {
        *self
    }
}

impl View for SubgroupHeader {
    type V = SubgroupHeader;

    open spec fn view(&self) -> SubgroupHeader {
        *self
    }
}

impl View for Header {
    type V = Header;

    open spec fn view(&self) -> Header {
        *self
    }
}

/// What writing two numbers does.
pub open spec fn write_two(a: u64, b: u64) -> Encoding {
    chain(varint(a), varint(b))
}

/// What reading two numbers gives.
pub open spec fn read_two(b: Seq<u8>) -> Decoding<(u64, u64)> {
    match read_varint(b) {
        Err(e) => Err(e),
        Ok((x, n)) => match read_varint(b.skip(n)) {
            Err(e) => Err(e),
            Ok((y, m)) => Ok(((x, y), n + m)),
        },
    }
}

/// Reads two numbers.
pub fn decode_two(c: &mut Cursor<'_>) -> (r: Result<(u64, u64), DecodeError>)
    requires
        old(c).wf(),
    ensures
        match read_two(old(c).rest()) {
            Ok((v, n)) => r == Ok::<(u64, u64), DecodeError>(v) && moved(*old(c), *final(c), n),
            Err(e) => r == Err::<(u64, u64), DecodeError>(e),
        },
        final(c).wf(),
        final(c).data() == old(c).data(),
{
    let ghost c0 = *c;
    let x: u64 = match u64::decode(c) {
        Ok(x) => x,
        Err(e) => {
            return Err(e);
        },
    };
    let ghost c1 = *c;
    match u64::decode(c) {
        Ok(y) => {
            proof {
                let n = read_varint(c0.rest())->Ok_0.1;
                moved_twice(c0, c1, *c, n, read_varint(c1.rest())->Ok_0.1);
            }
            Ok((x, y))
        },
        Err(e) => Err(e),
    }
}

/// Writes two numbers.
pub fn encode_two(x: u64, y: u64, w: &mut bytes::BytesMut) -> (r: Result<(), EncodeError>)
    requires
        buffered(*old(w)).len() + write_two(x, y).0.len() <= isize::MAX,
    ensures
        buffered(*final(w)) == buffered(*old(w)) + write_two(x, y).0,
        r == (match write_two(x, y).1 {
            Some(e) => Err::<(), EncodeError>(e),
            None => Ok::<(), EncodeError>(()),
        }),
{
    let ghost start = buffered(*w);
    if let Err(e) = x.encode(w) {
        return Err(e);
    }
    let r: Result<(), EncodeError> = y.encode(w);
    assert(buffered(*w) == start + write_two(x, y).0);
    r
}

/// Two numbers read back, and take their bytes and no more.
pub proof fn two_round_trip(x: u64, y: u64, rest: Seq<u8>)
    requires
        x < VARINT_LIMIT,
        y < VARINT_LIMIT,
    ensures
        write_two(x, y).1 is None,
        2 <= write_two(x, y).0.len() <= 16,
        read_two(write_two(x, y).0 + rest) == Ok::<((u64, u64), int), DecodeError>(
            ((x, y), write_two(x, y).0.len() as int),
        ),
{
    let e1 = varint(x);
    let e2 = varint(y);
    varint_len(x);
    varint_len(y);
    varint_round_trip(x, e2.0 + rest);
    varint_round_trip(y, rest);
    chain_parts(e1, e2, rest);
    let all = write_two(x, y).0 + rest;
    assert(all.skip(0) == all);
    next_part(all, 0, e1.0, e2.0 + rest);
}

/// What writing the header of a track does.
#[verifier::opaque]
pub open spec fn write_track(v: TrackHeader) -> Encoding {
    chain(write_two(v.subscribe_id, v.track_alias), (seq![v.publisher_priority], None))
}

/// What reading the header of a track gives.
#[verifier::opaque]
pub open spec fn read_track(b: Seq<u8>) -> Decoding<TrackHeader> {
    match read_two(b) {
        Err(e) => Err(e),
        Ok(((subscribe_id, track_alias), n)) => match read_byte(b.skip(n)) {
            Err(e) => Err(e),
            Ok((publisher_priority, m)) => Ok(
                (TrackHeader { subscribe_id, track_alias, publisher_priority }, n + m),
            ),
        },
    }
}

/// What writing the header of a subgroup does.
#[verifier::opaque]
pub open spec fn write_subgroup(v: SubgroupHeader) -> Encoding {
    chain(
        chain(write_two(v.subscribe_id, v.track_alias), write_two(v.group_id, v.subgroup_id)),
        (seq![v.publisher_priority], None),
    )
}

/// What reading the header of a subgroup gives.
#[verifier::opaque]
pub open spec fn read_subgroup(b: Seq<u8>) -> Decoding<SubgroupHeader> {
    match read_two(b) {
        Err(e) => Err(e),
        Ok(((subscribe_id, track_alias), n)) => match read_two(b.skip(n)) {
            Err(e) => Err(e),
            Ok(((group_id, subgroup_id), m)) => match read_byte(b.skip(n + m)) {
                Err(e) => Err(e),
                Ok((publisher_priority, k)) => Ok(
                    (
                        SubgroupHeader {
                            subscribe_id,
                            track_alias,
                            group_id,
                            subgroup_id,
                            publisher_priority,
                        },
                        n + m + k,
                    ),
                ),
            },
        },
    }
}

/// The number of a kind of header.
pub open spec fn header_number(v: Header) -> u64 {
    match v {
        Header::Track(_) => TRACK_STREAM,
        Header::Subgroup(_) => SUBGROUP_STREAM,
    }
}

/// What writing a header does.
#[verifier::opaque]
pub open spec fn write_header(v: Header) -> Encoding {
    chain(
        varint(header_number(v)),
        match v {
            Header::Track(h) => write_track(h),
            Header::Subgroup(h) => write_subgroup(h),
        },
    )
}

/// What reading a header gives.
#[verifier::opaque]
pub open spec fn read_header(b: Seq<u8>) -> Decoding<Header> {
    match read_varint(b) {
        Err(e) => Err(e),
        Ok((t, n)) => if t == TRACK_STREAM {
            match read_track(b.skip(n)) {
                Err(e) => Err(e),
                Ok((h, m)) => Ok((Header::Track(h), n + m)),
            }
        } else if t == SUBGROUP_STREAM {
            match read_subgroup(b.skip(n)) {
                Err(e) => Err(e),
                Ok((h, m)) => Ok((Header::Subgroup(h), n + m)),
            }
        } else {
            Err(DecodeError::InvalidMessage(t))
        },
    }
}

impl Decode for TrackHeader {
    open spec fn decoding(b: Seq<u8>) -> Decoding<TrackHeader> {
        read_track(b)
    }

    fn decode(c: &mut Cursor<'_>) -> (r: Result<Self, DecodeError>) {
        reveal(read_track);
        let ghost c0 = *c;
        let (subscribe_id, track_alias): (u64, u64) = match decode_two(c) {
            Ok(x) => x,
            Err(e) => {
                return Err(e);
            },
        };
        let ghost c1 = *c;
        match u8::decode(c) {
            Ok(publisher_priority) => {
                proof {
                    moved_twice(c0, c1, *c, read_two(c0.rest())->Ok_0.1, 1);
                }
                Ok(TrackHeader { subscribe_id, track_alias, publisher_priority })
            },
            Err(e) => Err(e),
        }
    }
}

impl Encode for TrackHeader {
    open spec fn encoding(v: TrackHeader) -> Encoding {
        write_track(v)
    }

    fn encode(&self, w: &mut bytes::BytesMut) -> (r: Result<(), EncodeError>) {
        reveal(write_track);
        let ghost start = buffered(*w);
        if let Err(e) = encode_two(self.subscribe_id, self.track_alias, w) {
            return Err(e);
        }
        let r: Result<(), EncodeError> = self.publisher_priority.encode(w);
        assert(buffered(*w) == start + write_track(*self).0);
        r
    }
}

impl Decode for SubgroupHeader {
    open spec fn decoding(b: Seq<u8>) -> Decoding<SubgroupHeader> {
        read_subgroup(b)
    }

    fn decode(c: &mut Cursor<'_>) -> (r: Result<Self, DecodeError>) {
        reveal(read_subgroup);
        let ghost c0 = *c;
        let (subscribe_id, track_alias): (u64, u64) = match decode_two(c) {
            Ok(x) => x,
            Err(e) => {
                return Err(e);
            },
        };
        let ghost c1 = *c;
        let ghost n = read_two(c0.rest())->Ok_0.1;
        let (group_id, subgroup_id): (u64, u64) = match decode_two(c) {
            Ok(x) => x,
            Err(e) => {
                return Err(e);
            },
        };
        let ghost c2 = *c;
        let ghost m = read_two(c1.rest())->Ok_0.1;
        proof {
            moved_twice(c0, c1, c2, n, m);
        }
        match u8::decode(c) {
            Ok(publisher_priority) => {
                proof {
                    moved_twice(c0, c2, *c, n + m, 1);
                }
                Ok(
                    SubgroupHeader {
                        subscribe_id,
                        track_alias,
                        group_id,
                        subgroup_id,
                        publisher_priority,
                    },
                )
            },
            Err(e) => Err(e),
        }
    }
}

impl Encode for SubgroupHeader {
    open spec fn encoding(v: SubgroupHeader) -> Encoding {
        write_subgroup(v)
    }

    fn encode(&self, w: &mut bytes::BytesMut) -> (r: Result<(), EncodeError>) {
        reveal(write_subgroup);
        let ghost start = buffered(*w);
        let ghost e1 = write_two(self.subscribe_id, self.track_alias);
        let ghost e2 = chain(e1, write_two(self.group_id, self.subgroup_id));
        if let Err(e) = encode_two(self.subscribe_id, self.track_alias, w) {
            return Err(e);
        }
        let r: Result<(), EncodeError> = encode_two(self.group_id, self.subgroup_id, w);
        assert(buffered(*w) == start + e2.0);
        if let Err(e) = r {
            return Err(e);
        }
        let r: Result<(), EncodeError> = self.publisher_priority.encode(w);
        assert(buffered(*w) == start + write_subgroup(*self).0);
        r
    }
}

impl Decode for Header {
    open spec fn decoding(b: Seq<u8>) -> Decoding<Header> {
        read_header(b)
    }

    fn decode(c: &mut Cursor<'_>) -> (r: Result<Self, DecodeError>) {
        reveal(read_header);
        let ghost c0 = *c;
        let t: u64 = match u64::decode(c) {
            Ok(t) => t,
            Err(e) => {
                return Err(e);
            },
        };
        let ghost c1 = *c;
        let ghost n = read_varint(c0.rest())->Ok_0.1;
        if t == TRACK_STREAM {
            match TrackHeader::decode(c) {
                Ok(h) => {
                    proof {
                        moved_twice(c0, c1, *c, n, read_track(c1.rest())->Ok_0.1);
                    }
                    Ok(Header::Track(h))
                },
                Err(e) => Err(e),
            }
        } else if t == SUBGROUP_STREAM {
            match SubgroupHeader::decode(c) {
                Ok(h) => {
                    proof {
                        moved_twice(c0, c1, *c, n, read_subgroup(c1.rest())->Ok_0.1);
                    }
                    Ok(Header::Subgroup(h))
                },
                Err(e) => Err(e),
            }
        } else {
            Err(DecodeError::InvalidMessage(t))
        }
    }
}

impl Encode for Header {
    open spec fn encoding(v: Header) -> Encoding {
        write_header(v)
    }

    fn encode(&self, w: &mut bytes::BytesMut) -> (r: Result<(), EncodeError>) {
        reveal(write_header);
        let ghost start = buffered(*w);
        if let Err(e) = self.id().encode(w) {
            return Err(e);
        }
        let r: Result<(), EncodeError> = match self {
            Header::Track(h) => h.encode(w),
            Header::Subgroup(h) => h.encode(w),
        };
        assert(buffered(*w) == start + write_header(*self).0);
        r
    }
}

impl From<TrackHeader> for Header {
    fn from(m: TrackHeader) -> (r: Header) {
        Header::Track(m)
    }
}

impl FromSpecImpl<TrackHeader> for Header {
    open spec fn obeys_from_spec() -> bool {
        true
    }

    open spec fn from_spec(m: TrackHeader) -> Header {
        Header::Track(m)
    }
}

impl From<SubgroupHeader> for Header {
    fn from(m: SubgroupHeader) -> (r: Header) {
        Header::Subgroup(m)
    }
}

impl FromSpecImpl<SubgroupHeader> for Header {
    open spec fn obeys_from_spec() -> bool {
        true
    }

    open spec fn from_spec(m: SubgroupHeader) -> Header {
        Header::Subgroup(m)
    }
}

impl Header {
    /// The number of this kind of header.
    pub fn id(&self) -> (r: u64)
        ensures
            r == header_number(*self),
    {
        match self {
            Header::Track(_) => TRACK_STREAM,
            Header::Subgroup(_) => SUBGROUP_STREAM,
        }
    }

    /// The number of the subscription.
    pub fn subscribe_id(&self) -> (r: u64)
        ensures
            r == (match *self {
                Header::Track(h) => h.subscribe_id,
                Header::Subgroup(h) => h.subscribe_id,
            }),
    {
        match self {
            Header::Track(h) => h.subscribe_id,
            Header::Subgroup(h) => h.subscribe_id,
        }
    }

    /// The alias of the track.
    pub fn track_alias(&self) -> (r: u64)
        ensures
            r == (match *self {
                Header::Track(h) => h.track_alias,
                Header::Subgroup(h) => h.track_alias,
            }),
    {
        match self {
            Header::Track(h) => h.track_alias,
            Header::Subgroup(h) => h.track_alias,
        }
    }

    /// The priority that the publisher gave.
    pub fn publisher_priority(&self) -> (r: u8)
        ensures
            r == (match *self {
                Header::Track(h) => h.publisher_priority,
                Header::Subgroup(h) => h.publisher_priority,
            }),
    {
        match self {
            Header::Track(h) => h.publisher_priority,
            Header::Subgroup(h) => h.publisher_priority,
        }
    }
}

/// Whether the numbers of a header can be written.
pub open spec fn header_fits(v: Header) -> bool {
    match v {
        Header::Track(h) => h.subscribe_id < VARINT_LIMIT && h.track_alias < VARINT_LIMIT,
        Header::Subgroup(h) => {
            &&& h.subscribe_id < VARINT_LIMIT
            &&& h.track_alias < VARINT_LIMIT
            &&& h.group_id < VARINT_LIMIT
            &&& h.subgroup_id < VARINT_LIMIT
        },
    }
}

/// The header of a track reads back.
proof fn lemma_track_round_trip(v: TrackHeader, rest: Seq<u8>)
    requires
        v.subscribe_id < VARINT_LIMIT,
        v.track_alias < VARINT_LIMIT,
    ensures
        write_track(v).1 is None,
        write_track(v).0.len() <= 17,
        read_track(write_track(v).0 + rest) == Ok::<(TrackHeader, int), DecodeError>(
            (v, write_track(v).0.len() as int),
        ),
{
    reveal(write_track);
    reveal(read_track);
    let e1 = write_two(v.subscribe_id, v.track_alias);
    let e2: Encoding = (seq![v.publisher_priority], None);
    two_round_trip(v.subscribe_id, v.track_alias, e2.0 + rest);
    chain_parts(e1, e2, rest);
    let all = write_track(v).0 + rest;
    assert(all.skip(0) == all);
    next_part(all, 0, e1.0, e2.0 + rest);
}

/// The header of a subgroup reads back.
proof fn lemma_subgroup_round_trip(v: SubgroupHeader, rest: Seq<u8>)
    requires
        header_fits(Header::Subgroup(v)),
    ensures
        write_subgroup(v).1 is None,
        write_subgroup(v).0.len() <= 33,
        read_subgroup(write_subgroup(v).0 + rest) == Ok::<(SubgroupHeader, int), DecodeError>(
            (v, write_subgroup(v).0.len() as int),
        ),
{
    reveal(write_subgroup);
    let e1 = write_two(v.subscribe_id, v.track_alias);
    let e2 = write_two(v.group_id, v.subgroup_id);
    let e3: Encoding = (seq![v.publisher_priority], None);
    let r3 = e3.0 + rest;
    two_round_trip(v.subscribe_id, v.track_alias, e2.0 + r3);
    two_round_trip(v.group_id, v.subgroup_id, r3);
    chain_parts(e1, e2, r3);
    chain_parts(chain(e1, e2), e3, rest);
    let all = write_subgroup(v).0 + rest;
    assert(all.skip(0) == all);
    next_part(all, 0, e1.0, e2.0 + r3);
    next_part(all, e1.0.len() as int, e2.0, r3);
    assert(read_byte(r3) == Ok::<(u8, int), DecodeError>((v.publisher_priority, 1)));
    lemma_read_subgroup(all, v, e1.0.len() as int, e2.0.len() as int);
}

proof fn lemma_read_subgroup(b: Seq<u8>, v: SubgroupHeader, n: int, m: int)
    requires
        read_two(b) == Ok::<((u64, u64), int), DecodeError>(((v.subscribe_id, v.track_alias), n)),
        read_two(b.skip(n)) == Ok::<((u64, u64), int), DecodeError>(
            ((v.group_id, v.subgroup_id), m),
        ),
        read_byte(b.skip(n + m)) == Ok::<(u8, int), DecodeError>((v.publisher_priority, 1)),
    ensures
        read_subgroup(b) == Ok::<(SubgroupHeader, int), DecodeError>((v, n + m + 1)),
{
    reveal(read_subgroup);
}

/// A header reads back, and takes its bytes and no more.
pub proof fn header_round_trip(v: Header, rest: Seq<u8>)
    requires
        header_fits(v),
    ensures
        write_header(v).1 is None,
        write_header(v).0.len() <= 34,
        read_header(write_header(v).0 + rest) == Ok::<(Header, int), DecodeError>(
            (v, write_header(v).0.len() as int),
        ),
{
    reveal(write_header);
    reveal(read_header);
    let e1 = varint(header_number(v));
    let e2 = match v {
        Header::Track(h) => write_track(h),
        Header::Subgroup(h) => write_subgroup(h),
    };
    varint_len(header_number(v));
    varint_round_trip(header_number(v), e2.0 + rest);
    match v {
        Header::Track(h) => {
            lemma_track_round_trip(h, rest);
        },
        Header::Subgroup(h) => {
            lemma_subgroup_round_trip(h, rest);
        },
    }
    chain_parts(e1, e2, rest);
    let all = write_header(v).0 + rest;
    assert(all.skip(0) == all);
    next_part(all, 0, e1.0, e2.0 + rest);
}

/// What has been read of two numbers stands, whatever follows.
pub proof fn two_are_steady(b: Seq<u8>, more: Seq<u8>)
    ensures
        steady(read_two(b), read_two(b + more), b.len() as int, more.len() as int),
{
    varint_is_steady(b, more);
    match read_varint(b) {
        Ok((_, n)) => {
            skip_more(b, more, n);
            varint_is_steady(b.skip(n), more);
        },
        Err(_) => {},
    }
}

proof fn lemma_track_is_steady(b: Seq<u8>, more: Seq<u8>)
    ensures
        steady(read_track(b), read_track(b + more), b.len() as int, more.len() as int),
{
    reveal(read_track);
    two_are_steady(b, more);
    match read_two(b) {
        Ok((_, n)) => {
            skip_more(b, more, n);
            byte_is_steady(b.skip(n), more);
        },
        Err(_) => {},
    }
}

proof fn lemma_subgroup_is_steady(b: Seq<u8>, more: Seq<u8>)
    ensures
        steady(read_subgroup(b), read_subgroup(b + more), b.len() as int, more.len() as int),
{
    reveal(read_subgroup);
    two_are_steady(b, more);
    match read_two(b) {
        Ok((_, n)) => {
            skip_more(b, more, n);
            two_are_steady(b.skip(n), more);
            match read_two(b.skip(n)) {
                Ok((_, m)) => {
                    skip_more(b, more, n + m);
                    byte_is_steady(b.skip(n + m), more);
                },
                Err(_) => {},
            }
        },
        Err(_) => {},
    }
}

/// What has been read of a header stands, whatever follows.
pub proof fn header_is_steady(b: Seq<u8>, more: Seq<u8>)
    ensures
        steady(read_header(b), read_header(b + more), b.len() as int, more.len() as int),
{
    reveal(read_header);
    varint_is_steady(b, more);
    match read_varint(b) {
        Ok((_, n)) => {
            skip_more(b, more, n);
            lemma_track_is_steady(b.skip(n), more);
            lemma_subgroup_is_steady(b.skip(n), more);
        },
        Err(_) => {},
    }
}

/// A header that has arrived in part is never taken for another: it is waited for,
/// and for no more than is to come.
pub proof fn header_waits(v: Header, k: int)
    requires
        header_fits(v),
        0 <= k < write_header(v).0.len(),
    ensures
        waits(read_header(write_header(v).0.take(k)), write_header(v).0.len() - k),
{
    let all = write_header(v).0;
    header_round_trip(v, Seq::empty());
    assert(all + Seq::<u8>::empty() == all);
    assert(all.take(k) + all.skip(k) == all);
    header_is_steady(all.take(k), all.skip(k));
    front_waits(read_header(all.take(k)), read_header(all), k, all.len() - k);
}

/// A header takes at most 34 bytes, whatever its numbers.
pub proof fn header_is_short(v: Header)
    ensures
        write_header(v).0.len() <= 34,
{
    reveal(write_header);
    reveal(write_track);
    reveal(write_subgroup);
    varint_len(header_number(v));
    match v {
        Header::Track(h) => {
            varint_len(h.subscribe_id);
            varint_len(h.track_alias);
        },
        Header::Subgroup(h) => {
            varint_len(h.subscribe_id);
            varint_len(h.track_alias);
            varint_len(h.group_id);
            varint_len(h.subgroup_id);
        },
    }
}

impl SelfDelimited for TrackHeader {
    proof fn reading_is_steady(b: Seq<u8>, more: Seq<u8>) {
        lemma_track_is_steady(b, more);
    }
}

impl SelfDelimited for SubgroupHeader {
    proof fn reading_is_steady(b: Seq<u8>, more: Seq<u8>) {
        lemma_subgroup_is_steady(b, more);
    }
}

impl SelfDelimited for Header {
    proof fn reading_is_steady(b: Seq<u8>, more: Seq<u8>) {
        header_is_steady(b, more);
    }
}

/// The header of a track is the number 2, the subscription, the alias of the track and
/// the priority, one behind the other. That of a subgroup is the number 4, and has the
/// group and the subgroup before the priority.
pub proof fn headers_stand_behind_their_number(t: TrackHeader, g: SubgroupHeader)
    requires
        t.subscribe_id < VARINT_LIMIT,
        t.track_alias < VARINT_LIMIT,
        g.subscribe_id < VARINT_LIMIT,
        g.track_alias < VARINT_LIMIT,
        g.group_id < VARINT_LIMIT,
        g.subgroup_id < VARINT_LIMIT,
    ensures
        TrackHeader::encoding(t) == (
            u64::encoding(t.subscribe_id).0 + u64::encoding(t.track_alias).0
                + seq![t.publisher_priority],
            None::<EncodeError>,
        ),
        SubgroupHeader::encoding(g) == (
            u64::encoding(g.subscribe_id).0 + u64::encoding(g.track_alias).0 + u64::encoding(
                g.group_id,
            ).0 + u64::encoding(g.subgroup_id).0 + seq![g.publisher_priority],
            None::<EncodeError>,
        ),
        Header::encoding(Header::Track(t)) == (
            seq![2u8] + TrackHeader::encoding(t).0,
            None::<EncodeError>,
        ),
        Header::encoding(Header::Subgroup(g)) == (
            seq![4u8] + SubgroupHeader::encoding(g).0,
            None::<EncodeError>,
        ),
{
    reveal(write_track);
    reveal(write_subgroup);
    reveal(write_header);
    varint_len(t.subscribe_id);
    varint_len(t.track_alias);
    varint_len(g.subscribe_id);
    varint_len(g.track_alias);
    varint_len(g.group_id);
    varint_len(g.subgroup_id);
    numbers_are_written_in_the_fewest_bytes(2);
    numbers_are_written_in_the_fewest_bytes(4);
    assert(SubgroupHeader::encoding(g).0 =~= u64::encoding(g.subscribe_id).0 + u64::encoding(
        g.track_alias,
    ).0 + u64::encoding(g.group_id).0 + u64::encoding(g.subgroup_id).0
        + seq![g.publisher_priority]);
}

/// The number at the front tells which header follows; any other number is an error.
pub proof fn the_number_tells_the_header(b: Seq<u8>, number: u64, n: int)
    requires
        u64::decoding(b) == Ok::<(u64, int), DecodeError>((number, n)),
    ensures
        number == 2 ==> (match TrackHeader::decoding(b.skip(n)) {
            Ok((h, m)) => Header::decoding(b) == Ok::<(Header, int), DecodeError>(
                (Header::Track(h), n + m),
            ),
            Err(e) => Header::decoding(b) == Err::<(Header, int), DecodeError>(e),
        }),
        number == 4 ==> (match SubgroupHeader::decoding(b.skip(n)) {
            Ok((h, m)) => Header::decoding(b) == Ok::<(Header, int), DecodeError>(
                (Header::Subgroup(h), n + m),
            ),
            Err(e) => Header::decoding(b) == Err::<(Header, int), DecodeError>(e),
        }),
        number != 2 && number != 4 ==> Header::decoding(b) == Err::<(Header, int), DecodeError>(
            DecodeError::InvalidMessage(number),
        ),
{
    reveal(read_header);
}

/// A header tells what stands in it, whichever it is.
pub proof fn a_header_tells_what_stands_in_it(
    t: TrackHeader,
    g: SubgroupHeader,
    of_t: (u64, u64, u64, u8),
    of_g: (u64, u64, u64, u8),
)
    requires
        call_ensures(Header::id, (&Header::Track(t),), of_t.0),
        call_ensures(Header::subscribe_id, (&Header::Track(t),), of_t.1),
        call_ensures(Header::track_alias, (&Header::Track(t),), of_t.2),
        call_ensures(Header::publisher_priority, (&Header::Track(t),), of_t.3),
        call_ensures(Header::id, (&Header::Subgroup(g),), of_g.0),
        call_ensures(Header::subscribe_id, (&Header::Subgroup(g),), of_g.1),
        call_ensures(Header::track_alias, (&Header::Subgroup(g),), of_g.2),
        call_ensures(Header::publisher_priority, (&Header::Subgroup(g),), of_g.3),
    ensures
        of_t == (2u64, t.subscribe_id, t.track_alias, t.publisher_priority),
        of_g == (4u64, g.subscribe_id, g.track_alias, g.publisher_priority),
        <Header as FromSpec<TrackHeader>>::from_spec(t) == Header::Track(t),
        <Header as FromSpec<TrackHeader>>::obeys_from_spec(),
        <Header as FromSpec<SubgroupHeader>>::from_spec(g) == Header::Subgroup(g),
        <Header as FromSpec<SubgroupHeader>>::obeys_from_spec(),
{
}

} // verus!
