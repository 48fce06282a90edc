//! What stands before the payload of an object.

use crate::buffer::buffered;
use crate::coding::error::{DecodeError, EncodeError};
use crate::coding::varint::{
    read_varint, varint, varint_is_steady, varint_len, varint_round_trip, VARINT_LIMIT,
};
use crate::coding::wire::{
    chain, chain_parts, front_waits, moved_twice, next_part, skip_more, steady, waits, Cursor,
    Decode, Decoding, Encode, Encoding, SelfDelimited,
};
use crate::data::header::{decode_two, encode_two, read_two, two_are_steady, two_round_trip, write_two};
use vstd::prelude::*;

verus! {

/// Whether an object has a payload, and if not, why.
#[derive(Clone, Copy, Debug, PartialEq, Eq, Structural)]
pub enum ObjectStatus {
    Object,
    ObjectDoesNotExist,
    EndOfGroup,
    EndOfTrack,
    EndOfSubgroup,
}

/// An object of a subgroup: its number, the size of its payload, and the time from
/// which its delivery is counted, in milliseconds of Unix time.
#[derive(Clone, Copy, Debug, PartialEq, Eq, Structural)]
pub struct SubgroupObject {
    pub object_id: u64,
    pub size: usize,
    pub status: ObjectStatus,
    pub deadline: u64,
}

/// What every object header holds.
#[derive(Clone, Copy, Debug, PartialEq, Eq, Structural)]
pub struct ObjectHead {
    pub object_id: u64,
    pub size: usize,
    pub status: ObjectStatus,
}

/// An object of a track.
#[derive(Clone, Copy, Debug, PartialEq, Eq, Structural)]
pub struct TrackObject {
    pub group_id: u64,
    pub object_id: u64,
    pub size: usize,
    pub status: ObjectStatus,
}

impl View for ObjectStatus {
    type V = ObjectStatus;

    open spec fn view(&self) -> ObjectStatus {
        *self
    }
}

impl View for SubgroupObject {
    type V = SubgroupObject;

    open spec fn view(&self) -> SubgroupObject {
        *self
    }
}

impl View for ObjectHead {
    type V = ObjectHead;

    open spec fn view(&self) -> ObjectHead {
        *self
    }
}

impl View for TrackObject {
    type V = TrackObject;

    open spec fn view(&self) -> TrackObject {
        *self
    }
}

/// The number of a status.
pub open spec fn status_number(v: ObjectStatus) -> u64 {
    match v {
        ObjectStatus::Object => 0,
        ObjectStatus::ObjectDoesNotExist => 1,
        ObjectStatus::EndOfGroup => 3,
        ObjectStatus::EndOfTrack => 4,
        ObjectStatus::EndOfSubgroup => 5,
    }
}

/// What reading a status gives.
pub open spec fn read_status(b: Seq<u8>) -> Decoding<ObjectStatus> {
    match read_varint(b) {
        Err(e) => Err(e),
        Ok((x, n)) => if x == 0 {
            Ok((ObjectStatus::Object, n))
        } else if x == 1 {
            Ok((ObjectStatus::ObjectDoesNotExist, n))
        } else if x == 3 {
            Ok((ObjectStatus::EndOfGroup, n))
        } else if x == 4 {
            Ok((ObjectStatus::EndOfTrack, n))
        } else if x == 5 {
            Ok((ObjectStatus::EndOfSubgroup, n))
        } else {
            Err(DecodeError::InvalidObjectStatus)
        },
    }
}

impl Decode for ObjectStatus {
    open spec fn decoding(b: Seq<u8>) -> Decoding<ObjectStatus> {
        read_status(b)
    }

    fn decode(c: &mut Cursor<'_>) -> (r: Result<Self, DecodeError>) {
        match u64::decode(c) {
            Err(e) => Err(e),
            Ok(0) => Ok(ObjectStatus::Object),
            Ok(1) => Ok(ObjectStatus::ObjectDoesNotExist),
            Ok(3) => Ok(ObjectStatus::EndOfGroup),
            Ok(4) => Ok(ObjectStatus::EndOfTrack),
            Ok(5) => Ok(ObjectStatus::EndOfSubgroup),
            Ok(_) => Err(DecodeError::InvalidObjectStatus),
        }
    }
}

impl Encode for ObjectStatus {
    open spec fn encoding(v: ObjectStatus) -> Encoding {
        varint(status_number(v))
    }

    fn encode(&self, w: &mut bytes::BytesMut) -> (r: Result<(), EncodeError>) {
        let x: u64 = match self {
            ObjectStatus::Object => 0,
            ObjectStatus::ObjectDoesNotExist => 1,
            ObjectStatus::EndOfGroup => 3,
            ObjectStatus::EndOfTrack => 4,
            ObjectStatus::EndOfSubgroup => 5,
        };
        x.encode(w)
    }
}

/// What writing a size does: the status follows where it is zero.
pub open spec fn write_status(size: usize, status: ObjectStatus) -> Encoding {
    if size == 0 {
        varint(status_number(status))
    } else {
        (Seq::empty(), None)
    }
}

/// What writing the common part of an object header does.
#[verifier::opaque]
pub open spec fn write_object_head(v: ObjectHead) -> Encoding {
    chain(write_two(v.object_id, v.size as u64), write_status(v.size, v.status))
}

/// What reading the common part of an object header gives. Where the size is not
/// zero the status goes without saying.
#[verifier::opaque]
pub open spec fn read_object_head(b: Seq<u8>) -> Decoding<ObjectHead> {
    match read_two(b) {
        Err(e) => Err(e),
        Ok(((object_id, size), n)) => if size > usize::MAX {
            Err(DecodeError::BoundsExceeded)
        } else if size == 0 {
            match read_status(b.skip(n)) {
                Err(e) => Err(e),
                Ok((status, m)) => Ok((ObjectHead { object_id, size: 0, status }, n + m)),
            }
        } else {
            Ok((ObjectHead { object_id, size: size as usize, status: ObjectStatus::Object }, n))
        },
    }
}

impl Decode for ObjectHead {
    open spec fn decoding(b: Seq<u8>) -> Decoding<ObjectHead> {
        read_object_head(b)
    }

    fn decode(c: &mut Cursor<'_>) -> (r: Result<Self, DecodeError>) {
        reveal(read_object_head);
        let ghost c0 = *c;
        let (object_id, size): (u64, u64) = match decode_two(c) {
            Ok(x) => x,
            Err(e) => {
                return Err(e);
            },
        };
        let ghost c1 = *c;
        if size > usize::MAX as u64 {
            return Err(DecodeError::BoundsExceeded);
        }
        if size != 0 {
            return Ok(
                ObjectHead { object_id, size: size as usize, status: ObjectStatus::Object },
            );
        }
        match ObjectStatus::decode(c) {
            Ok(status) => {
                proof {
                    let n = read_two(c0.rest())->Ok_0.1;
                    moved_twice(c0, c1, *c, n, read_status(c1.rest())->Ok_0.1);
                }
                Ok(ObjectHead { object_id, size: 0, status })
            },
            Err(e) => Err(e),
        }
    }
}

impl Encode for ObjectHead {
    open spec fn encoding(v: ObjectHead) -> Encoding {
        write_object_head(v)
    }

    fn encode(&self, w: &mut bytes::BytesMut) -> (r: Result<(), EncodeError>) {
        reveal(write_object_head);
        let ghost start = buffered(*w);
        if let Err(e) = encode_two(self.object_id, self.size as u64, w) {
            return Err(e);
        }
        let r: Result<(), EncodeError> = if self.size == 0 {
            self.status.encode(w)
        } else {
            Ok(())
        };
        assert(buffered(*w) == start + write_object_head(*self).0);
        r
    }
}

/// What writing an object of a track does.
#[verifier::opaque]
pub open spec fn write_track_object(v: TrackObject) -> Encoding {
    chain(
        varint(v.group_id),
        write_object_head(ObjectHead { object_id: v.object_id, size: v.size, status: v.status }),
    )
}

/// What reading an object of a track gives.
#[verifier::opaque]
pub open spec fn read_track_object(b: Seq<u8>) -> Decoding<TrackObject> {
    match read_varint(b) {
        Err(e) => Err(e),
        Ok((group_id, n)) => match read_object_head(b.skip(n)) {
            Err(e) => Err(e),
            Ok((o, m)) => Ok(
                (
                    TrackObject {
                        group_id,
                        object_id: o.object_id,
                        size: o.size,
                        status: o.status,
                    },
                    n + m,
                ),
            ),
        },
    }
}

impl Decode for TrackObject {
    open spec fn decoding(b: Seq<u8>) -> Decoding<TrackObject> {
        read_track_object(b)
    }

    fn decode(c: &mut Cursor<'_>) -> (r: Result<Self, DecodeError>) {
        reveal(read_track_object);
        let ghost c0 = *c;
        let group_id: u64 = match u64::decode(c) {
            Ok(x) => x,
            Err(e) => {
                return Err(e);
            },
        };
        let ghost c1 = *c;
        match ObjectHead::decode(c) {
            Ok(o) => {
                proof {
                    let n = read_varint(c0.rest())->Ok_0.1;
                    moved_twice(c0, c1, *c, n, read_object_head(c1.rest())->Ok_0.1);
                }
                Ok(
                    TrackObject {
                        group_id,
                        object_id: o.object_id,
                        size: o.size,
                        status: o.status,
                    },
                )
            },
            Err(e) => Err(e),
        }
    }
}

impl Encode for TrackObject {
    open spec fn encoding(v: TrackObject) -> Encoding {
        write_track_object(v)
    }

    fn encode(&self, w: &mut bytes::BytesMut) -> (r: Result<(), EncodeError>) {
        reveal(write_track_object);
        let ghost start = buffered(*w);
        if let Err(e) = self.group_id.encode(w) {
            return Err(e);
        }
        let o = ObjectHead { object_id: self.object_id, size: self.size, status: self.status };
        let r: Result<(), EncodeError> = o.encode(w);
        assert(buffered(*w) == start + write_track_object(*self).0);
        r
    }
}

/// Whether an object can be written and says nothing that is not written.
pub open spec fn head_fits(v: ObjectHead) -> bool {
    &&& v.object_id < VARINT_LIMIT
    &&& v.size < VARINT_LIMIT
    &&& v.size > 0 ==> v.status == ObjectStatus::Object
}

proof fn lemma_head_is_short(v: ObjectHead)
    ensures
        write_object_head(v).0.len() <= 24,
{
    reveal(write_object_head);
    varint_len(v.object_id);
    varint_len(v.size as u64);
    varint_len(status_number(v.status));
}

proof fn lemma_head_round_trip(v: ObjectHead, rest: Seq<u8>)
    requires
        head_fits(v),
    ensures
        write_object_head(v).1 is None,
        read_object_head(write_object_head(v).0 + rest) == Ok::<(ObjectHead, int), DecodeError>(
            (v, write_object_head(v).0.len() as int),
        ),
{
    reveal(write_object_head);
    reveal(read_object_head);
    let e1 = write_two(v.object_id, v.size as u64);
    let e2 = write_status(v.size, v.status);
    two_round_trip(v.object_id, v.size as u64, e2.0 + rest);
    varint_round_trip(status_number(v.status), rest);
    chain_parts(e1, e2, rest);
    let all = write_object_head(v).0 + rest;
    assert(all.skip(0) == all);
    next_part(all, 0, e1.0, e2.0 + rest);
}

/// An object header of a track reads back, and takes its bytes and no more.
pub proof fn track_object_round_trip(v: TrackObject, rest: Seq<u8>)
    requires
        v.group_id < VARINT_LIMIT,
        head_fits(ObjectHead { object_id: v.object_id, size: v.size, status: v.status }),
    ensures
        write_track_object(v).1 is None,
        read_track_object(write_track_object(v).0 + rest) == Ok::<(TrackObject, int), DecodeError>(
            (v, write_track_object(v).0.len() as int),
        ),
{
    reveal(write_track_object);
    reveal(read_track_object);
    let o = ObjectHead { object_id: v.object_id, size: v.size, status: v.status };
    let e1 = varint(v.group_id);
    let e2 = write_object_head(o);
    varint_round_trip(v.group_id, e2.0 + rest);
    lemma_head_round_trip(o, rest);
    chain_parts(e1, e2, rest);
    let all = write_track_object(v).0 + rest;
    assert(all.skip(0) == all);
    next_part(all, 0, e1.0, e2.0 + rest);
}

proof fn lemma_object_head_is_steady(b: Seq<u8>, more: Seq<u8>)
    ensures
        steady(read_object_head(b), read_object_head(b + more), b.len() as int, more.len() as int),
{
    reveal(read_object_head);
    two_are_steady(b, more);
    match read_two(b) {
        Ok((_, n)) => {
            skip_more(b, more, n);
            varint_is_steady(b.skip(n), more);
        },
        Err(_) => {},
    }
}

/// What has been read of an object header of a track stands, whatever follows.
pub proof fn track_object_is_steady(b: Seq<u8>, more: Seq<u8>)
    ensures
        steady(
            read_track_object(b),
            read_track_object(b + more),
            b.len() as int,
            more.len() as int,
        ),
{
    reveal(read_track_object);
    varint_is_steady(b, more);
    match read_varint(b) {
        Ok((_, n)) => {
            skip_more(b, more, n);
            lemma_object_head_is_steady(b.skip(n), more);
        },
        Err(_) => {},
    }
}

/// An object header of a track that has arrived in part is waited for, and for no
/// more than is to come.
pub proof fn track_object_waits(v: TrackObject, k: int)
    requires
        v.group_id < VARINT_LIMIT,
        head_fits(ObjectHead { object_id: v.object_id, size: v.size, status: v.status }),
        0 <= k < write_track_object(v).0.len(),
    ensures
        waits(read_track_object(write_track_object(v).0.take(k)), write_track_object(v).0.len() - k),
{
    let all = write_track_object(v).0;
    track_object_round_trip(v, Seq::empty());
    assert(all + Seq::<u8>::empty() == all);
    assert(all.take(k) + all.skip(k) == all);
    track_object_is_steady(all.take(k), all.skip(k));
    front_waits(read_track_object(all.take(k)), read_track_object(all), k, all.len() - k);
}

/// What writing an object of a subgroup does.
#[verifier::opaque]
pub open spec fn write_object(v: SubgroupObject) -> Encoding {
    chain(
        write_object_head(
            ObjectHead { object_id: v.object_id, size: v.size, status: v.status },
        ),
        varint(v.deadline),
    )
}

/// What reading an object of a subgroup gives.
#[verifier::opaque]
pub open spec fn read_object(b: Seq<u8>) -> Decoding<SubgroupObject> {
    match read_object_head(b) {
        Err(e) => Err(e),
        Ok((o, n)) => match read_varint(b.skip(n)) {
            Err(e) => Err(e),
            Ok((deadline, m)) => Ok(
                (
                    SubgroupObject {
                        object_id: o.object_id,
                        size: o.size,
                        status: o.status,
                        deadline,
                    },
                    n + m,
                ),
            ),
        },
    }
}

impl Decode for SubgroupObject {
    open spec fn decoding(b: Seq<u8>) -> Decoding<SubgroupObject> {
        read_object(b)
    }

    fn decode(c: &mut Cursor<'_>) -> (r: Result<Self, DecodeError>) {
        reveal(read_object);
        let ghost c0 = *c;
        let o: ObjectHead = match ObjectHead::decode(c) {
            Ok(o) => o,
            Err(e) => {
                return Err(e);
            },
        };
        let ghost c1 = *c;
        match u64::decode(c) {
            Ok(deadline) => {
                proof {
                    let n = read_object_head(c0.rest())->Ok_0.1;
                    moved_twice(c0, c1, *c, n, read_varint(c1.rest())->Ok_0.1);
                }
                Ok(
                    SubgroupObject {
                        object_id: o.object_id,
                        size: o.size,
                        status: o.status,
                        deadline,
                    },
                )
            },
            Err(e) => Err(e),
        }
    }
}

impl Encode for SubgroupObject {
    open spec fn encoding(v: SubgroupObject) -> Encoding {
        write_object(v)
    }

    fn encode(&self, w: &mut bytes::BytesMut) -> (r: Result<(), EncodeError>) {
        reveal(write_object);
        let ghost start = buffered(*w);
        let o = ObjectHead { object_id: self.object_id, size: self.size, status: self.status };
        if let Err(e) = o.encode(w) {
            return Err(e);
        }
        let r: Result<(), EncodeError> = self.deadline.encode(w);
        assert(buffered(*w) == start + write_object(*self).0);
        r
    }
}

/// Whether an object can be written and says nothing that is not written.
pub open spec fn object_fits(v: SubgroupObject) -> bool {
    &&& head_fits(ObjectHead { object_id: v.object_id, size: v.size, status: v.status })
    &&& v.deadline < VARINT_LIMIT
}

/// An object header takes at most 32 bytes, whatever its numbers.
pub proof fn object_is_short(v: SubgroupObject)
    ensures
        write_object(v).0.len() <= 32,
{
    reveal(write_object);
    lemma_head_is_short(
        ObjectHead { object_id: v.object_id, size: v.size, status: v.status },
    );
    varint_len(v.deadline);
}

/// An object header reads back, and takes its bytes and no more.
pub proof fn object_round_trip(v: SubgroupObject, rest: Seq<u8>)
    requires
        object_fits(v),
    ensures
        write_object(v).1 is None,
        read_object(write_object(v).0 + rest) == Ok::<(SubgroupObject, int), DecodeError>(
            (v, write_object(v).0.len() as int),
        ),
{
    reveal(write_object);
    reveal(read_object);
    let o = ObjectHead { object_id: v.object_id, size: v.size, status: v.status };
    let e1 = write_object_head(o);
    let e2 = varint(v.deadline);
    lemma_head_round_trip(o, e2.0 + rest);
    varint_round_trip(v.deadline, rest);
    chain_parts(e1, e2, rest);
    let all = write_object(v).0 + rest;
    assert(all.skip(0) == all);
    next_part(all, 0, e1.0, e2.0 + rest);
}

/// What has been read of an object header stands, whatever follows.
pub proof fn object_is_steady(b: Seq<u8>, more: Seq<u8>)
    ensures
        steady(read_object(b), read_object(b + more), b.len() as int, more.len() as int),
{
    reveal(read_object);
    lemma_object_head_is_steady(b, more);
    match read_object_head(b) {
        Ok((_, n)) => {
            skip_more(b, more, n);
            varint_is_steady(b.skip(n), more);
        },
        Err(_) => {},
    }
}

/// An object header that has arrived in part is never taken for another: it is
/// waited for, and for no more than is to come.
pub proof fn object_waits(v: SubgroupObject, k: int)
    requires
        object_fits(v),
        0 <= k < write_object(v).0.len(),
    ensures
        waits(read_object(write_object(v).0.take(k)), write_object(v).0.len() - k),
{
    let all = write_object(v).0;
    object_round_trip(v, Seq::empty());
    assert(all + Seq::<u8>::empty() == all);
    assert(all.take(k) + all.skip(k) == all);
    object_is_steady(all.take(k), all.skip(k));
    front_waits(read_object(all.take(k)), read_object(all), k, all.len() - k);
}

impl SelfDelimited for ObjectStatus {
    proof fn reading_is_steady(b: Seq<u8>, more: Seq<u8>) {
        varint_is_steady(b, more);
    }
}

impl SelfDelimited for ObjectHead {
    proof fn reading_is_steady(b: Seq<u8>, more: Seq<u8>) {
        lemma_object_head_is_steady(b, more);
    }
}

impl SelfDelimited for TrackObject {
    proof fn reading_is_steady(b: Seq<u8>, more: Seq<u8>) {
        track_object_is_steady(b, more);
    }
}

impl SelfDelimited for SubgroupObject {
    proof fn reading_is_steady(b: Seq<u8>, more: Seq<u8>) {
        object_is_steady(b, more);
    }
}

/// The statuses have the numbers 0, 1, 3, 4 and 5, written and read; another number is
/// none.
pub proof fn statuses_have_their_numbers(b: Seq<u8>, number: u64, n: int)
    requires
        u64::decoding(b) == Ok::<(u64, int), DecodeError>((number, n)),
    ensures
        ObjectStatus::encoding(ObjectStatus::Object) == u64::encoding(0),
        ObjectStatus::encoding(ObjectStatus::ObjectDoesNotExist) == u64::encoding(1),
        ObjectStatus::encoding(ObjectStatus::EndOfGroup) == u64::encoding(3),
        ObjectStatus::encoding(ObjectStatus::EndOfTrack) == u64::encoding(4),
        ObjectStatus::encoding(ObjectStatus::EndOfSubgroup) == u64::encoding(5),
        ({
            let r = ObjectStatus::decoding(b);
            &&& number == 0 ==> r == Ok::<_, DecodeError>((ObjectStatus::Object, n))
            &&& number == 1 ==> r == Ok::<_, DecodeError>((ObjectStatus::ObjectDoesNotExist, n))
            &&& number == 3 ==> r == Ok::<_, DecodeError>((ObjectStatus::EndOfGroup, n))
            &&& number == 4 ==> r == Ok::<_, DecodeError>((ObjectStatus::EndOfTrack, n))
            &&& number == 5 ==> r == Ok::<_, DecodeError>((ObjectStatus::EndOfSubgroup, n))
            &&& number == 2 || number > 5 ==> r == Err::<(ObjectStatus, int), DecodeError>(
                DecodeError::InvalidObjectStatus,
            )
        }),
{
}

/// An object of a subgroup is its number, the size of its payload, its status where there
/// is no payload, and the deadline, one behind the other; one of a track has its group
/// before and no deadline.
pub proof fn objects_tell_a_status_without_a_payload(o: SubgroupObject, t: TrackObject)
    requires
        o.object_id < VARINT_LIMIT,
        o.size < VARINT_LIMIT,
        o.deadline < VARINT_LIMIT,
        t.group_id < VARINT_LIMIT,
        t.object_id < VARINT_LIMIT,
        t.size < VARINT_LIMIT,
    ensures
        o.size > 0 ==> SubgroupObject::encoding(o) == (
            u64::encoding(o.object_id).0 + u64::encoding(o.size as u64).0 + u64::encoding(
                o.deadline,
            ).0,
            None::<EncodeError>,
        ),
        o.size == 0 ==> SubgroupObject::encoding(o) == (
            u64::encoding(o.object_id).0 + u64::encoding(0).0 + ObjectStatus::encoding(o.status).0
                + u64::encoding(o.deadline).0,
            None::<EncodeError>,
        ),
        t.size > 0 ==> TrackObject::encoding(t) == (
            u64::encoding(t.group_id).0 + u64::encoding(t.object_id).0 + u64::encoding(
                t.size as u64,
            ).0,
            None::<EncodeError>,
        ),
        t.size == 0 ==> TrackObject::encoding(t) == (
            u64::encoding(t.group_id).0 + u64::encoding(t.object_id).0 + u64::encoding(0).0
                + ObjectStatus::encoding(t.status).0,
            None::<EncodeError>,
        ),
{
    reveal(write_object_head);
    reveal(write_track_object);
    reveal(write_object);
    varint_len(o.object_id);
    varint_len(o.size as u64);
    varint_len(o.deadline);
    varint_len(status_number(o.status));
    varint_len(t.group_id);
    varint_len(t.object_id);
    varint_len(t.size as u64);
    varint_len(status_number(t.status));
    let a = u64::encoding(o.object_id).0;
    let s = u64::encoding(o.size as u64).0;
    let d = u64::encoding(o.deadline).0;
    let z = ObjectStatus::encoding(o.status).0;
    assert(a + s + Seq::<u8>::empty() + d =~= a + s + d);
    let g = u64::encoding(t.group_id).0;
    let i = u64::encoding(t.object_id).0;
    let l = u64::encoding(t.size as u64).0;
    let y = ObjectStatus::encoding(t.status).0;
    assert(g + (i + l + Seq::<u8>::empty()) =~= g + i + l);
    assert(g + (i + l + y) =~= g + i + l + y);
}

/// An object with a payload is read as an object, one without has the status that
/// follows. A size beyond the machine's is an error.
pub proof fn objects_with_a_payload_are_objects(
    b: Seq<u8>,
    id: u64,
    n: int,
    size: u64,
    m: int,
)
    requires
        u64::decoding(b) == Ok::<(u64, int), DecodeError>((id, n)),
        u64::decoding(b.skip(n)) == Ok::<(u64, int), DecodeError>((size, m)),
    ensures
        0 < size <= usize::MAX ==> (match u64::decoding(b.skip(n + m)) {
            Ok((deadline, k)) => SubgroupObject::decoding(b) == Ok::<
                (SubgroupObject, int),
                DecodeError,
            >(
                (
                    SubgroupObject {
                        object_id: id,
                        size: size as usize,
                        status: ObjectStatus::Object,
                        deadline,
                    },
                    n + m + k,
                ),
            ),
            Err(e) => SubgroupObject::decoding(b) == Err::<(SubgroupObject, int), DecodeError>(e),
        }),
        size == 0 ==> (match ObjectStatus::decoding(b.skip(n + m)) {
            Ok((status, k)) => SubgroupObject::decoding(b) matches Ok((o, _)) ==> o.object_id == id
                && o.size == 0 && o.status == status,
            Err(e) => SubgroupObject::decoding(b) == Err::<(SubgroupObject, int), DecodeError>(e),
        }),
        size > usize::MAX ==> SubgroupObject::decoding(b) == Err::<
            (SubgroupObject, int),
            DecodeError,
        >(DecodeError::BoundsExceeded),
{
    reveal(read_object_head);
    reveal(read_object);
}

} // verus!
