//! Reading values and payload from a stream.
//!
//! [`Reader`] holds what has arrived and has not been used. Whoever runs it reads
//! from the stream when it asks for more.

use crate::buffer::{advance, append, buffered, chunk, freeze, frozen, new_buffer, split_to};
use crate::coding::error::DecodeError;
use crate::coding::wire::{Cursor, Decode, SelfDelimited};
use crate::message::subscribe::{
    as_read, subscribe_reads_back, subscribe_written, write_subscribe, Subscribe, SubscribeView,
};
use vstd::prelude::*;

verus! {

/// What has arrived on a stream and has not been used.
#[derive(Debug)]
pub struct Reader {
    buffer: bytes::BytesMut,
}

impl View for Reader {
    type V = Seq<u8>;

    closed spec fn view(&self) -> Seq<u8> {
        buffered(self.buffer)
    }
}

/// How an attempt to decode a value ends.
pub enum DecodeStep<T> {
    /// Here it is.
    Value(T),
    /// Not before so many bytes are there in all.
    Need(usize),
    /// The bytes stand for no value.
    Failed(DecodeError),
}

impl Reader {
    /// A reader that has received nothing.
    pub fn new() -> (r: Reader)
        ensures
            r@ == Seq::<u8>::empty(),
    {
        Reader { buffer: new_buffer() }
    }

    /// How much has arrived and has not been used.
    pub fn len(&self) -> (r: usize)
        ensures
            r == self@.len(),
    {
        chunk(&self.buffer).len()
    }

    /// More has arrived.
    pub fn received(&mut self, more: &[u8])
        requires
            old(self)@.len() + more@.len() <= isize::MAX,
        ensures
            final(self)@ == old(self)@ + more@,
    {
        append(&mut self.buffer, more);
    }

    /// Decodes a value from the front of what has arrived.
    ///
    /// Bytes are used up only where there is a value.
    pub fn decode<T: Decode>(&mut self) -> (r: DecodeStep<T>)
        requires
            T::decoding(old(self)@) matches Err(DecodeError::More(n)) ==> old(self)@.len() + n
                <= usize::MAX,
        ensures
            match T::decoding(old(self)@) {
                Ok((v, n)) => {
                    &&& r matches DecodeStep::Value(x)
                    &&& x@ == v
                    &&& 0 <= n <= old(self)@.len()
                    &&& final(self)@ == old(self)@.skip(n)
                },
                Err(DecodeError::More(n)) => {
                    &&& r == DecodeStep::<T>::Need((old(self)@.len() + n) as usize)
                    &&& final(self)@ == old(self)@
                },
                Err(e) => {
                    &&& r == DecodeStep::<T>::Failed(e)
                    &&& final(self)@ == old(self)@
                },
            },
    {
        let data: &[u8] = chunk(&self.buffer);
        let len: usize = data.len();
        let mut c: Cursor<'_> = Cursor::new(data);
        assert(c.rest() == self@);
        match T::decode(&mut c) {
            Ok(x) => {
                let used: usize = c.position();
                advance(&mut self.buffer, used);
                DecodeStep::Value(x)
            },
            Err(DecodeError::More(n)) => DecodeStep::Need(len + n),
            Err(e) => DecodeStep::Failed(e),
        }
    }

    /// The error where the stream ends while `required` bytes are waited for.
    pub fn ended(&self, required: usize) -> (r: DecodeError)
        requires
            self@.len() <= required,
        ensures
            r == DecodeError::More((required - self@.len()) as usize),
    {
        DecodeError::More(required - self.len())
    }

    /// Up to `max` bytes of what has arrived; nothing where all has been used and
    /// the stream is to be read.
    pub fn read_chunk(&mut self, max: usize) -> (r: Option<bytes::Bytes>)
        ensures
            if old(self)@.len() == 0 {
                r is None && final(self)@ == old(self)@
            } else {
                let n = if max < old(self)@.len() {
                    max as int
                } else {
                    old(self)@.len() as int
                };
                &&& r matches Some(b)
                &&& frozen(b) == old(self)@.take(n)
                &&& final(self)@ == old(self)@.skip(n)
            },
    {
        let len: usize = self.len();
        if len == 0 {
            return None;
        }
        let size: usize = if max < len {
            max
        } else {
            len
        };
        Some(freeze(split_to(&mut self.buffer, size)))
    }

    /// Whether the stream is at its end, as far as that is known without reading
    /// from it: it is not while something is left.
    pub fn done(&self) -> (r: Option<bool>)
        ensures
            r == (if self@.len() > 0 {
                Some(false)
            } else {
                None
            }),
    {
        if self.len() > 0 {
            Some(false)
        } else {
            None
        }
    }
}

/// What some chunks of a stream hold in all.
pub open spec fn all_of(chunks: Seq<Seq<u8>>) -> Seq<u8>
    decreases chunks.len(),
{
    if chunks.len() == 0 {
        Seq::empty()
    } else {
        chunks[0] + all_of(chunks.skip(1))
    }
}

/// What is there, and the chunks that are still to come, once a stream has been read
/// until `need` bytes are there or it has ended.
pub open spec fn filled(have: Seq<u8>, chunks: Seq<Seq<u8>>, need: int) -> (
    Seq<u8>,
    Seq<Seq<u8>>,
)
    decreases chunks.len(),
{
    if have.len() >= need || chunks.len() == 0 {
        (have, chunks)
    } else {
        filled(have + chunks[0], chunks.skip(1), need)
    }
}

/// What becomes of an attempt to decode a value from `have` and then from the chunks
/// that come, with what is then there and the chunks that are still to come.
///
/// An attempt that needs more is made again once so much is there. Where the stream
/// ends before, what is missing is the error.
pub open spec fn attempts<T: Decode>(have: Seq<u8>, chunks: Seq<Seq<u8>>) -> (
    Result<T::V, DecodeError>,
    Seq<u8>,
    Seq<Seq<u8>>,
)
    decreases chunks.len(),
{
    match T::decoding(have) {
        Ok((v, n)) => (Ok(v), have.skip(n), chunks),
        Err(DecodeError::More(n)) => {
            let need = have.len() + n;
            let (there, left) = filled(have, chunks, need);
            if there.len() < need || left.len() >= chunks.len() {
                (Err(DecodeError::More((need - there.len()) as usize)), there, left)
            } else {
                attempts::<T>(there, left)
            }
        },
        Err(e) => (Err(e), have, chunks),
    }
}

/// Reading a stream loses nothing and stops no later than it has to.
proof fn lemma_filled(have: Seq<u8>, chunks: Seq<Seq<u8>>, need: int)
    ensures
        ({
            let (there, left) = filled(have, chunks, need);
            &&& there + all_of(left) == have + all_of(chunks)
            &&& there.len() >= have.len()
            &&& left.len() <= chunks.len()
            &&& there.len() < need ==> left.len() == 0
            &&& have.len() < need <= there.len() ==> left.len() < chunks.len()
        }),
    decreases chunks.len(),
{
    if have.len() < need && chunks.len() > 0 {
        lemma_filled(have + chunks[0], chunks.skip(1), need);
        assert(have + chunks[0] + all_of(chunks.skip(1)) =~= have + all_of(chunks));
    }
}

/// It does not matter into which chunks a stream is cut: what is decoded is what the
/// whole stream starts with, and all that follows it is left. Where the stream ends
/// before a value does, more is asked for. Where it starts with no value, that is the
/// error, and nothing is used up.
pub proof fn chunks_do_not_matter<T: SelfDelimited>(have: Seq<u8>, chunks: Seq<Seq<u8>>)
    ensures
        ({
            let all = have + all_of(chunks);
            let (r, there, left) = attempts::<T>(have, chunks);
            match T::decoding(all) {
                Ok((v, n)) => {
                    &&& 0 <= n <= all.len()
                    &&& r == Ok::<T::V, DecodeError>(v)
                    &&& there + all_of(left) == all.skip(n)
                },
                Err(DecodeError::More(_)) => {
                    &&& r matches Err(DecodeError::More(n)) && 0 < n
                    &&& there == all
                    &&& left.len() == 0
                },
                Err(e) => {
                    &&& r == Err::<T::V, DecodeError>(e)
                    &&& there + all_of(left) == all
                },
            }
        }),
    decreases chunks.len(),
{
    let all = have + all_of(chunks);
    T::reading_is_steady(have, all_of(chunks));
    T::reading_is_steady(all, Seq::empty());
    match T::decoding(have) {
        Ok((_, n)) => {
            assert(all.skip(n) =~= have.skip(n) + all_of(chunks));
        },
        Err(DecodeError::More(n)) => {
            let need = have.len() + n;
            lemma_filled(have, chunks, need);
            let (there, left) = filled(have, chunks, need);
            if there.len() < need {
                assert(there =~= there + all_of(left));
            } else {
                chunks_do_not_matter::<T>(there, left);
            }
        },
        Err(_) => {},
    }
}

/// A subscription that was written is read back from its stream, into whatever chunks
/// that is cut, and what follows it is left.
pub proof fn a_subscription_is_read_from_any_chunks(
    v: SubscribeView,
    rest: Seq<u8>,
    have: Seq<u8>,
    chunks: Seq<Seq<u8>>,
)
    requires
        subscribe_written(v),
        have + all_of(chunks) == write_subscribe(v).0 + rest,
    ensures
        ({
            let (r, there, left) = attempts::<Subscribe>(have, chunks);
            &&& r == Ok::<SubscribeView, DecodeError>(as_read(v))
            &&& there + all_of(left) == rest
        }),
{
    subscribe_reads_back(v, rest);
    chunks_do_not_matter::<Subscribe>(have, chunks);
    let all = write_subscribe(v).0 + rest;
    assert(all.skip(write_subscribe(v).0.len() as int) =~= rest);
}

/// A chunk and what is left make up what had arrived.
pub proof fn chunk_and_rest(b: Seq<u8>, n: int)
    requires
        0 <= n <= b.len(),
    ensures
        b.take(n) + b.skip(n) == b,
{
}

/// What has arrived comes out as it came, in chunks of at most the size that is asked for:
/// a chunk and what is left are what was there before. Only an empty reader has no chunk.
pub proof fn chunks_come_out_as_they_came(
    p: &mut Reader,
    more: &[u8],
    q: &mut Reader,
    max: usize,
    r: Option<bytes::Bytes>,
    n: usize,
    done: Option<bool>,
    start: Reader,
)
    requires
        call_ensures(Reader::received, (p, more), ()),
        *old(q) == *final(p),
        call_ensures(Reader::len, (old(q),), n),
        call_ensures(Reader::done, (old(q),), done),
        call_ensures(Reader::read_chunk, (q, max), r),
        call_ensures(Reader::new, (), start),
    ensures
        n == old(p)@.len() + more@.len(),
        done == Some(false) <==> n > 0,
        done is None <==> n == 0,
        r is Some == (n > 0),
        r is None ==> final(q)@ == old(q)@,
        r matches Some(b) ==> frozen(b) + final(q)@ == old(p)@ + more@ && frozen(b).len() <= max
            && (frozen(b).len() == max || final(q)@.len() == 0),
        start@.len() == 0,
{
    if let Some(b) = r {
        let all = old(q)@;
        let k = frozen(b).len() as int;
        chunk_and_rest(all, k);
    }
}

/// A value is taken off the front with its bytes and no more. Where bytes are missing, or
/// stand for no value, nothing is taken; the count that is needed covers what is there and
/// what is missing.
pub proof fn a_value_is_taken_with_its_bytes<T: Decode>(
    p: &mut Reader,
    r: DecodeStep<T>,
    required: usize,
    e: DecodeError,
)
    requires
        call_ensures(Reader::decode::<T>, (p,), r),
        old(p)@.len() + usize::MAX / 2 <= usize::MAX,
        T::decoding(old(p)@) matches Err(DecodeError::More(n)) ==> n <= usize::MAX / 2,
        call_ensures(Reader::ended, (final(p), required), e),
        r == DecodeStep::<T>::Need(required),
    ensures
        final(p)@ == old(p)@,
        T::decoding(old(p)@) == Err::<(T::V, int), DecodeError>(e),
{
}

/// What a reader hands out is what the bytes at its front stand for.
pub proof fn a_value_is_what_its_bytes_stand_for<T: Decode>(
    p: &mut Reader,
    r: DecodeStep<T>,
    v: T::V,
    n: int,
)
    requires
        call_ensures(Reader::decode::<T>, (p,), r),
    ensures
        r matches DecodeStep::Value(x) ==> (T::decoding(old(p)@) matches Ok((w, k)) && x@ == w
            && final(p)@ == old(p)@.skip(k)),
        r matches DecodeStep::Failed(e) ==> final(p)@ == old(p)@ && e !is More && T::decoding(
            old(p)@,
        ) == Err::<(T::V, int), DecodeError>(e),
        T::decoding(old(p)@) == Ok::<(T::V, int), DecodeError>((v, n)) ==> r is Value,
        r is Need == (T::decoding(old(p)@) matches Err(DecodeError::More(_))),
{
}

} // verus!
