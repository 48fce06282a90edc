//! Writing values and payload to a stream.

use crate::buffer::{buffered, freeze, frozen, new_buffer};
use crate::coding::error::EncodeError;
use crate::coding::wire::Encode;
use vstd::prelude::*;

verus! {

/// No write is longer than this.
pub const MAX_CHUNK: usize = 16 * 1024;

/// What is to be written to a stream.
#[derive(Debug)]
pub struct Writer {
    buffer: bytes::BytesMut,
}

impl View for Writer {
    type V = Seq<u8>;

    closed spec fn view(&self) -> Seq<u8> {
        buffered(self.buffer)
    }
}

impl Writer {
    /// A writer with nothing to write.
    pub fn new() -> (r: Writer)
        ensures
            r@ == Seq::<u8>::empty(),
    {
        Writer { buffer: new_buffer() }
    }

    /// The bytes to be written for a value, behind what is left over.
    ///
    /// Where the value cannot be encoded, what came out before the error stays and
    /// goes out before the next value.
    pub fn encode<T: Encode>(&mut self, msg: &T) -> (r: Result<bytes::Bytes, EncodeError>)
        requires
            old(self)@.len() + T::encoding(msg@).0.len() <= isize::MAX,
        ensures
            match T::encoding(msg@) {
                (b, None) => {
                    &&& r matches Ok(data)
                    &&& frozen(data) == old(self)@ + b
                    &&& final(self)@ == Seq::<u8>::empty()
                },
                (b, Some(e)) => {
                    &&& r == Err::<bytes::Bytes, EncodeError>(e)
                    &&& final(self)@ == old(self)@ + b
                },
            },
    {
        if let Err(e) = msg.encode(&mut self.buffer) {
            return Err(e);
        }
        let mut data: bytes::BytesMut = new_buffer();
        std::mem::swap(&mut data, &mut self.buffer);
        Ok(freeze(data))
    }
}

/// How far the writing of some bytes has come.
#[derive(Clone, Copy, Debug, PartialEq, Eq, Structural)]
pub struct Progress {
    pub len: usize,
    pub pos: usize,
}

/// How long the next write is: what is left, but no more than the limit.
pub open spec fn next_write(p: Progress) -> int {
    if p.len - p.pos < MAX_CHUNK {
        p.len - p.pos
    } else {
        MAX_CHUNK as int
    }
}

impl Progress {
    /// No more is written than there is.
    pub open spec fn wf(self) -> bool {
        self.pos <= self.len
    }

    /// The start of the writing of `len` bytes.
    pub fn new(len: usize) -> (r: Progress)
        ensures
            r == (Progress { len, pos: 0 }),
            r.wf(),
    {
        Progress { len, pos: 0 }
    }

    /// The bytes of the next write, from where to where; none once all is written.
    pub fn next(&self) -> (r: Option<(usize, usize)>)
        requires
            self.wf(),
        ensures
            r == (if self.pos < self.len {
                Some((self.pos, (self.pos + next_write(*self)) as usize))
            } else {
                None
            }),
    {
        if self.pos < self.len {
            let left: usize = self.len - self.pos;
            let want: usize = if left < MAX_CHUNK {
                left
            } else {
                MAX_CHUNK
            };
            Some((self.pos, self.pos + want))
        } else {
            None
        }
    }

    /// The stream took the first `n` bytes of the write.
    pub fn wrote(&mut self, n: usize)
        requires
            old(self).wf(),
            n <= next_write(*old(self)),
        ensures
            final(self).wf(),
            *final(self) == (Progress { pos: (old(self).pos + n) as usize, ..*old(self) }),
    {
        self.pos = self.pos + n;
    }
}

/// The bytes that go out, when every write is cut as [`Progress`] says and the
/// stream takes `taken[i]` bytes of the write number `i`.
pub open spec fn sent(b: Seq<u8>, p: Progress, taken: Seq<int>) -> Seq<u8>
    decreases taken.len(),
{
    if taken.len() == 0 || p.pos >= p.len {
        Seq::empty()
    } else {
        let n = taken[0];
        b.subrange(p.pos as int, p.pos + n) + sent(
            b,
            Progress { pos: (p.pos + n) as usize, ..p },
            taken.skip(1),
        )
    }
}

/// Whether the stream takes no more of each write than it is given.
pub open spec fn takes(p: Progress, taken: Seq<int>) -> bool
    decreases taken.len(),
{
    taken.len() == 0 || p.pos >= p.len || (0 <= taken[0] <= next_write(p) && takes(
        Progress { pos: (p.pos + taken[0]) as usize, ..p },
        taken.skip(1),
    ))
}

/// However much the stream takes of each write, what goes out is the bytes in
/// order, with none left out and none twice.
pub proof fn writes_are_in_order(b: Seq<u8>, p: Progress, taken: Seq<int>)
    requires
        p.len == b.len(),
        p.wf(),
        takes(p, taken),
    ensures
        p.pos + sent(b, p, taken).len() <= b.len(),
        sent(b, p, taken) == b.subrange(p.pos as int, p.pos + sent(b, p, taken).len()),
    decreases taken.len(),
{
    if taken.len() > 0 && p.pos < p.len {
        let q = Progress { pos: (p.pos + taken[0]) as usize, ..p };
        writes_are_in_order(b, q, taken.skip(1));
        let rest = sent(b, q, taken.skip(1));
        assert(b.subrange(p.pos as int, q.pos as int) + b.subrange(q.pos as int, q.pos + rest.len())
            == b.subrange(p.pos as int, q.pos + rest.len()));
    } else {
        assert(b.subrange(p.pos as int, p.pos as int) == Seq::<u8>::empty());
    }
}

/// What goes out for a value is what was left over, then the value; nothing is left
/// then. A value that fails leaves what came of it for the next.
pub proof fn values_go_out_behind_what_is_left<T: Encode>(
    w: &mut Writer,
    msg: &T,
    r: Result<bytes::Bytes, EncodeError>,
)
    requires
        call_ensures(Writer::encode::<T>, (w, msg), r),
    ensures
        r is Ok == (T::encoding(msg@).1 is None),
        r matches Ok(b) ==> frozen(b) == old(w)@ + T::encoding(msg@).0 && final(w)@.len() == 0,
        r matches Err(e) ==> T::encoding(msg@).1 == Some(e) && final(w)@ == old(w)@ + T::encoding(
            msg@,
        ).0,
{
}

/// Writing goes on where it stands, with all that is left or sixteen kilobytes of it,
/// and is over once all is written.
pub proof fn a_write_goes_on_where_it_stands(
    p: &mut Progress,
    n: usize,
    at: Option<(usize, usize)>,
    then: Option<(usize, usize)>,
)
    requires
        old(p).pos <= old(p).len,
        call_ensures(Progress::next, (old(p),), at),
        at matches Some((from, to)) && n <= to - from,
        call_ensures(Progress::wrote, (p, n), ()),
        call_ensures(Progress::next, (final(p),), then),
    ensures
        ({
            let (from, to) = at->Some_0;
            &&& from == old(p).pos && from < to <= old(p).len
            &&& to - from <= 16384
            &&& to < old(p).len ==> to - from == 16384
            &&& then is None == (from + n == old(p).len)
            &&& then matches Some((f, _)) ==> f == from + n
        }),
{
}

/// Nothing is written of what has no bytes or has been written.
pub proof fn a_write_ends(p: Progress, at: Option<(usize, usize)>)
    requires
        p.pos <= p.len,
        call_ensures(Progress::next, (&p,), at),
    ensures
        at is None == (p.pos == p.len),
{
}

/// A writer starts with nothing left over, and the writing of some bytes before them.
pub proof fn writing_starts_at_the_front(
    w: Writer,
    len: usize,
    p: Progress,
    next: Option<(usize, usize)>,
)
    requires
        call_ensures(Writer::new, (), w),
        call_ensures(Progress::new, (len,), p),
        call_ensures(Progress::next, (&p,), next),
    ensures
        w@.len() == 0,
        len == 0 ==> next is None,
        len > 0 ==> (next matches Some((from, to)) && from == 0 && 0 < to <= len),
{
}

} // verus!
