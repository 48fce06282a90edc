//! Values that have an encoding.

use crate::buffer::buffered;
use crate::coding::error::{DecodeError, EncodeError};
use vstd::prelude::*;

verus! {

/// What writing a value does: the bytes that come out, and the error that stops
/// it behind them.
pub type Encoding = (Seq<u8>, Option<EncodeError>);

/// Writing one thing and, unless that fails, another behind it.
pub open spec fn chain(a: Encoding, b: Encoding) -> Encoding {
    if a.1 is Some {
        a
    } else {
        (a.0 + b.0, b.1)
    }
}

/// What reading does: the value and how many bytes it took, or the error.
pub type Decoding<V> = Result<(V, int), DecodeError>;

/// Bytes that are being read.
pub struct Cursor<'a> {
    data: &'a [u8],
    pos: usize,
}

impl<'a> Cursor<'a> {
    /// The bytes that are being read.
    pub closed spec fn data(&self) -> Seq<u8> {
        self.data@
    }

    /// How many have been read.
    pub closed spec fn pos(&self) -> int {
        self.pos as int
    }

    /// No more has been read than there is.
    pub closed spec fn wf(&self) -> bool {
        self.pos <= self.data.len()
    }

    /// What is left to be read.
    pub open spec fn rest(&self) -> Seq<u8> {
        self.data().skip(self.pos())
    }

    /// Reads from the start of `data`.
    pub fn new(data: &'a [u8]) -> (r: Cursor<'a>)
        ensures
            r.wf(),
            r.data() == data@,
            r.pos() == 0,
    {
        Cursor { data, pos: 0 }
    }

    /// How many bytes have been read.
    pub fn position(&self) -> (r: usize)
        requires
            self.wf(),
        ensures
            r == self.pos(),
            r <= self.data().len(),
    {
        self.pos
    }

    /// How many bytes are left.
    pub fn remaining(&self) -> (r: usize)
        requires
            self.wf(),
        ensures
            r == self.rest().len(),
    {
        self.data.len() - self.pos
    }

    /// The byte `i` places ahead.
    pub fn peek(&self, i: usize) -> (r: u8)
        requires
            self.wf(),
            i < self.rest().len(),
        ensures
            r == self.rest()[i as int],
    {
        self.data[self.pos + i]
    }

    /// Moves on by `n` bytes.
    pub fn skip(&mut self, n: usize)
        requires
            old(self).wf(),
            n <= old(self).rest().len(),
        ensures
            final(self).wf(),
            final(self).data() == old(self).data(),
            final(self).pos() == old(self).pos() + n,
            final(self).rest() == old(self).rest().skip(n as int),
    {
        self.pos = self.pos + n;
        assert(self.rest() =~= old(self).rest().skip(n as int));
    }

    /// Takes the next `n` bytes.
    pub fn take(&mut self, n: usize) -> (r: Vec<u8>)
        requires
            old(self).wf(),
            n <= old(self).rest().len(),
        ensures
            r@ == old(self).rest().take(n as int),
            final(self).wf(),
            final(self).data() == old(self).data(),
            final(self).pos() == old(self).pos() + n,
            final(self).rest() == old(self).rest().skip(n as int),
    {
        let mut out: Vec<u8> = Vec::new();
        out.extend_from_slice(vstd::slice::slice_subrange(self.data, self.pos, self.pos + n));
        assert(out@ =~= self.rest().take(n as int));
        self.skip(n);
        out
    }
}

/// A cursor that has moved on by `n` bytes.
pub open spec fn moved(before: Cursor, after: Cursor, n: int) -> bool {
    &&& after.wf()
    &&& after.data() == before.data()
    &&& after.pos() == before.pos() + n
    &&& after.rest() == before.rest().skip(n)
    &&& 0 <= n <= before.rest().len()
}

/// Moving on twice.
pub proof fn moved_twice(a: Cursor, b: Cursor, c: Cursor, n: int, m: int)
    requires
        moved(a, b, n),
        moved(b, c, m),
    ensures
        moved(a, c, n + m),
{
    assert(a.rest().skip(n).skip(m) == a.rest().skip(n + m));
}

/// What follows the next part of a byte string.
pub proof fn next_part(all: Seq<u8>, at: int, part: Seq<u8>, rest: Seq<u8>)
    requires
        0 <= at <= all.len(),
        all.skip(at) == part + rest,
    ensures
        at + part.len() <= all.len(),
        all.skip(at + part.len()) == rest,
{
    assert(all.skip(at).len() == part.len() + rest.len());
    assert(all.skip(at + part.len()) == all.skip(at).skip(part.len() as int));
    assert((part + rest).skip(part.len() as int) == rest);
}

/// Writing one thing behind another, and what follows both.
pub proof fn chain_parts(a: Encoding, b: Encoding, rest: Seq<u8>)
    requires
        a.1 is None,
    ensures
        chain(a, b).1 == b.1,
        chain(a, b).0.len() == a.0.len() + b.0.len(),
        chain(a, b).0 + rest == a.0 + (b.0 + rest),
{
    assert(chain(a, b).0 + rest =~= a.0 + (b.0 + rest));
}

/// Whether a reading waits for bytes that are to come: it asks for more, and for no
/// more than `left`.
pub open spec fn waits<V>(d: Decoding<V>, left: int) -> bool {
    d matches Err(DecodeError::More(n)) && 0 < n <= left
}

/// Whether a reading of `have` bytes stands when `more` follow: a value stands, and
/// so does a failure; where bytes are asked for and fewer come, bytes are still asked
/// for.
pub open spec fn steady<V>(before: Decoding<V>, after: Decoding<V>, have: int, more: int) -> bool {
    match before {
        Ok((_, n)) => 0 <= n <= have && after == before,
        Err(DecodeError::More(n)) => 0 < n && (more < n ==> after matches Err(
            DecodeError::More(_),
        )),
        Err(_) => after == before,
    }
}

/// What follows a part of a byte string, when more follows the whole.
pub proof fn skip_more(b: Seq<u8>, more: Seq<u8>, n: int)
    requires
        0 <= n <= b.len(),
    ensures
        (b + more).skip(n) == b.skip(n) + more,
{
    assert((b + more).skip(n) =~= b.skip(n) + more);
}

/// What reads as a whole is waited for as long as only its front is there.
pub proof fn front_waits<V>(before: Decoding<V>, after: Decoding<V>, have: int, more: int)
    requires
        steady(before, after, have, more),
        0 < more,
        after matches Ok((_, n)) && n == have + more,
    ensures
        waits(before, more),
{
}

/// Values that can be read from bytes.
pub trait Decode: View + Sized {
    /// What reading the first value of `b` gives.
    spec fn decoding(b: Seq<u8>) -> Decoding<Self::V>;

    /// Reads a value.
    fn decode(c: &mut Cursor<'_>) -> (r: Result<Self, DecodeError>)
        requires
            old(c).wf(),
        ensures
            match Self::decoding(old(c).rest()) {
                Ok((v, n)) => {
                    &&& r matches Ok(x)
                    &&& x@ == v
                    &&& moved(*old(c), *final(c), n)
                },
                Err(e) => r == Err::<Self, DecodeError>(e),
            },
            final(c).wf(),
            final(c).data() == old(c).data(),
    ;
}

/// Values that show in their own bytes where they end: reading one does not depend on
/// what follows it.
pub trait SelfDelimited: Decode {
    /// A reading stands when more follows.
    proof fn reading_is_steady(b: Seq<u8>, more: Seq<u8>)
        ensures
            steady(
                Self::decoding(b),
                Self::decoding(b + more),
                b.len() as int,
                more.len() as int,
            ),
    ;
}

/// Values that can be written as bytes.
pub trait Encode: View {
    /// What writing a value does.
    spec fn encoding(v: Self::V) -> Encoding;

    /// Writes a value behind what `w` holds. There must be room for it in memory.
    fn encode(&self, w: &mut bytes::BytesMut) -> (r: Result<(), EncodeError>)
        requires
            buffered(*old(w)).len() + Self::encoding(self@).0.len() <= isize::MAX,
        ensures
            buffered(*final(w)) == buffered(*old(w)) + Self::encoding(self@).0,
            r == (match Self::encoding(self@).1 {
                Some(e) => Err::<(), EncodeError>(e),
                None => Ok::<(), EncodeError>(()),
            }),
    ;
}

/// Bytes are read one behind the other: what is taken, and what is left, are what was
/// there, and the position counts what was taken. Looking ahead takes nothing.
pub proof fn bytes_are_read_one_behind_the_other<'a>(
    data: &'a [u8],
    start: Cursor<'a>,
    c: &mut Cursor<'a>,
    n: usize,
    taken: Vec<u8>,
    d: &mut Cursor<'a>,
    m: usize,
    pos: usize,
    left: usize,
    i: usize,
    ahead: u8,
)
    requires
        call_ensures(Cursor::<'a>::new, (data,), start),
        *old(c) == start,
        n <= data@.len(),
        m <= data@.len() - n,
        call_ensures(Cursor::<'a>::take, (c, n), taken),
        *old(d) == *final(c),
        call_ensures(Cursor::<'a>::skip, (d, m), ()),
        call_ensures(Cursor::<'a>::position, (final(d),), pos),
        call_ensures(Cursor::<'a>::remaining, (final(d),), left),
        i < data@.len() - n - m,
        call_ensures(Cursor::<'a>::peek, (final(d), i), ahead),
    ensures
        taken@ == data@.take(n as int),
        pos == n + m,
        pos + left == data@.len(),
        ahead == data@[n + m + i],
{
    assert(start.rest() == data@);
}

} // verus!
