//! Byte strings and texts, each behind its length, and single bytes.

use crate::buffer::{append, buffered};
use crate::coding::error::{DecodeError, EncodeError};
use crate::coding::varint::{
    read_varint, varint, varint_is_steady, varint_round_trip, VARINT_LIMIT,
};
use crate::coding::wire::{
    chain, moved, steady, Cursor, Decode, Decoding, Encode, Encoding, SelfDelimited,
};
use vstd::prelude::*;
use vstd::utf8::{decode_utf8, encode_utf8, valid_utf8};

verus! {

/// What writing a byte string does.
pub open spec fn write_bytes(v: Seq<u8>) -> Encoding {
    chain(varint(v.len() as u64), (v, None))
}

/// What reading a byte string gives.
pub open spec fn read_bytes(b: Seq<u8>) -> Decoding<Seq<u8>> {
    match read_varint(b) {
        Err(e) => Err(e),
        Ok((len, n)) => if len > usize::MAX {
            Err(DecodeError::BoundsExceeded)
        } else if b.len() - n < len {
            Err(DecodeError::More((len - (b.len() - n)) as usize))
        } else {
            Ok((b.subrange(n, n + len), n + len))
        },
    }
}

/// What writing a text does.
pub open spec fn write_text(v: Seq<char>) -> Encoding {
    write_bytes(encode_utf8(v))
}

/// What reading a text gives.
pub open spec fn read_text(b: Seq<u8>) -> Decoding<Seq<char>> {
    match read_bytes(b) {
        Err(e) => Err(e),
        Ok((s, n)) => if valid_utf8(s) {
            Ok((decode_utf8(s), n))
        } else {
            Err(DecodeError::InvalidString)
        },
    }
}

/// What reading a byte gives.
pub open spec fn read_byte(b: Seq<u8>) -> Decoding<u8> {
    if b.len() == 0 {
        Err(DecodeError::More(1))
    } else {
        Ok((b[0], 1))
    }
}

/// `String::from_utf8`: the text that bytes stand for, if they are UTF-8.
#[verifier::external_body]
fn call_from_utf8(v: Vec<u8>) -> (r: Option<String>)
    ensures
        r is Some == valid_utf8(v@),
        r matches Some(s) ==> s@ == decode_utf8(v@),
{
    String::from_utf8(v).ok()
}

/// Reads a byte string.
pub fn decode_bytes(c: &mut Cursor<'_>) -> (r: Result<Vec<u8>, DecodeError>)
    requires
        old(c).wf(),
    ensures
        match read_bytes(old(c).rest()) {
            Ok((v, n)) => {
                &&& r matches Ok(x)
                &&& x@ == v
                &&& moved(*old(c), *final(c), n)
            },
            Err(e) => r == Err::<Vec<u8>, DecodeError>(e),
        },
        final(c).wf(),
        final(c).data() == old(c).data(),
{
    let ghost b = c.rest();
    let len: u64 = match u64::decode(c) {
        Ok(len) => len,
        Err(e) => {
            return Err(e);
        },
    };
    let ghost n = read_varint(b)->Ok_0.1;
    if len > usize::MAX as u64 {
        return Err(DecodeError::BoundsExceeded);
    }
    let len: usize = len as usize;
    let have: usize = c.remaining();
    if have < len {
        return Err(DecodeError::More(len - have));
    }
    let v: Vec<u8> = c.take(len);
    assert(v@ == b.subrange(n, n + len));
    assert(c.rest() == b.skip(n + len));
    Ok(v)
}

/// Writes a byte string.
pub fn encode_bytes(v: &[u8], w: &mut bytes::BytesMut) -> (r: Result<(), EncodeError>)
    requires
        buffered(*old(w)).len() + write_bytes(v@).0.len() <= isize::MAX,
    ensures
        buffered(*final(w)) == buffered(*old(w)) + write_bytes(v@).0,
        r == (match write_bytes(v@).1 {
            Some(e) => Err::<(), EncodeError>(e),
            None => Ok::<(), EncodeError>(()),
        }),
{
    let len: u64 = v.len() as u64;
    if let Err(e) = len.encode(w) {
        return Err(e);
    }
    append(w, v);
    assert(buffered(*w) == buffered(*old(w)) + write_bytes(v@).0);
    Ok(())
}

/// A byte string reads back, and takes its bytes and no more.
pub proof fn bytes_round_trip(v: Seq<u8>, rest: Seq<u8>)
    requires
        v.len() < VARINT_LIMIT,
        v.len() <= usize::MAX,
    ensures
        write_bytes(v).1 is None,
        read_bytes(write_bytes(v).0 + rest) == Ok::<(Seq<u8>, int), DecodeError>(
            (v, write_bytes(v).0.len() as int),
        ),
{
    let head = varint(v.len() as u64).0;
    varint_round_trip(v.len() as u64, v + rest);
    let all = write_bytes(v).0 + rest;
    assert(all == head + (v + rest));
    assert(all.subrange(head.len() as int, (head.len() + v.len()) as int) == v);
}

/// A text reads back, and takes its bytes and no more.
pub proof fn text_round_trip(v: Seq<char>, rest: Seq<u8>)
    requires
        encode_utf8(v).len() < VARINT_LIMIT,
        encode_utf8(v).len() <= usize::MAX,
    ensures
        write_text(v).1 is None,
        read_text(write_text(v).0 + rest) == Ok::<(Seq<char>, int), DecodeError>(
            (v, write_text(v).0.len() as int),
        ),
{
    broadcast use {vstd::utf8::encode_utf8_valid_utf8, vstd::utf8::encode_utf8_decode_utf8};

    bytes_round_trip(encode_utf8(v), rest);
}

/// What has been read of a byte string stands, whatever follows.
pub proof fn bytes_are_steady(b: Seq<u8>, more: Seq<u8>)
    ensures
        steady(read_bytes(b), read_bytes(b + more), b.len() as int, more.len() as int),
{
    varint_is_steady(b, more);
    match read_varint(b) {
        Ok((len, n)) => if b.len() - n >= len {
            assert((b + more).subrange(n, n + len) == b.subrange(n, n + len));
        },
        Err(_) => {},
    }
}

/// What has been read of a text stands, whatever follows.
pub proof fn text_is_steady(b: Seq<u8>, more: Seq<u8>)
    ensures
        steady(read_text(b), read_text(b + more), b.len() as int, more.len() as int),
{
    bytes_are_steady(b, more);
}

/// What has been read of a byte stands, whatever follows.
pub proof fn byte_is_steady(b: Seq<u8>, more: Seq<u8>)
    ensures
        steady(read_byte(b), read_byte(b + more), b.len() as int, more.len() as int),
{
    if b.len() > 0 {
        assert((b + more)[0] == b[0]);
    }
}

impl Decode for String {
    open spec fn decoding(b: Seq<u8>) -> Decoding<Seq<char>> {
        read_text(b)
    }

    fn decode(c: &mut Cursor<'_>) -> (r: Result<Self, DecodeError>) {
        match decode_bytes(c) {
            Err(e) => Err(e),
            Ok(v) => match call_from_utf8(v) {
                Some(s) => Ok(s),
                None => Err(DecodeError::InvalidString),
            },
        }
    }
}

impl Encode for String {
    open spec fn encoding(v: Seq<char>) -> Encoding {
        write_text(v)
    }

    fn encode(&self, w: &mut bytes::BytesMut) -> (r: Result<(), EncodeError>) {
        encode_bytes(self.as_str().as_bytes(), w)
    }
}

impl Decode for u8 {
    open spec fn decoding(b: Seq<u8>) -> Decoding<u8> {
        read_byte(b)
    }

    fn decode(c: &mut Cursor<'_>) -> (r: Result<Self, DecodeError>) {
        if c.remaining() == 0 {
            return Err(DecodeError::More(1));
        }
        let x: u8 = c.peek(0);
        c.skip(1);
        Ok(x)
    }
}

impl Encode for u8 {
    open spec fn encoding(v: u8) -> Encoding {
        (seq![v], None)
    }

    fn encode(&self, w: &mut bytes::BytesMut) -> (r: Result<(), EncodeError>) {
        let mut one: Vec<u8> = Vec::new();
        one.push(*self);
        assert(one@ == seq![*self]);
        append(w, one.as_slice());
        Ok(())
    }
}

impl SelfDelimited for String {
    proof fn reading_is_steady(b: Seq<u8>, more: Seq<u8>) {
        text_is_steady(b, more);
    }
}

impl SelfDelimited for u8 {
    proof fn reading_is_steady(b: Seq<u8>, more: Seq<u8>) {
        byte_is_steady(b, more);
    }
}

/// A text is written as the length of its UTF-8 bytes and then those bytes; a byte is
/// itself.
pub proof fn texts_stand_behind_their_length(v: Seq<char>, x: u8)
    requires
        encode_utf8(v).len() < VARINT_LIMIT,
    ensures
        String::encoding(v) == (
            u64::encoding(encode_utf8(v).len() as u64).0 + encode_utf8(v),
            None::<EncodeError>,
        ),
        u8::encoding(x) == (seq![x], None::<EncodeError>),
{
    varint_round_trip(encode_utf8(v).len() as u64, Seq::empty());
}

/// What is read behind a length is as long as that tells: bytes that are missing are
/// asked for, and bytes that are no UTF-8 are no text.
pub proof fn texts_are_as_long_as_they_tell(b: Seq<u8>, len: u64, n: int)
    requires
        u64::decoding(b) == Ok::<(u64, int), DecodeError>((len, n)),
        len <= usize::MAX,
    ensures
        ({
            let s = b.subrange(n, n + len);
            &&& b.len() < n + len ==> String::decoding(b) == Err::<(Seq<char>, int), DecodeError>(
                DecodeError::More((n + len - b.len()) as usize),
            )
            &&& b.len() >= n + len && valid_utf8(s) ==> String::decoding(b) == Ok::<
                (Seq<char>, int),
                DecodeError,
            >((decode_utf8(s), n + len))
            &&& b.len() >= n + len && !valid_utf8(s) ==> String::decoding(b) == Err::<
                (Seq<char>, int),
                DecodeError,
            >(DecodeError::InvalidString)
        }),
        b.len() > 0 ==> u8::decoding(b) == Ok::<(u8, int), DecodeError>((b[0], 1)),
        u8::decoding(Seq::empty()) == Err::<(u8, int), DecodeError>(DecodeError::More(1)),
{
}

} // verus!
