//! Numbers of variable length.
//!
//! The two top bits of the first byte say how many bytes there are: one, two, four
//! or eight. The other bits hold the number, the highest first.

use crate::buffer::append;
use crate::buffer::buffered;
use crate::coding::error::{DecodeError, EncodeError};
use crate::coding::wire::{steady, Cursor, Decode, Decoding, Encode, Encoding, SelfDelimited};
use vstd::prelude::*;

verus! {

/// The least number that has no encoding.
pub const VARINT_LIMIT: u64 = 0x4000_0000_0000_0000;

/// The `n` lowest bytes of `x`, the highest first.
pub open spec fn be_bytes(x: int, n: nat) -> Seq<u8>
    decreases n,
{
    if n == 0 {
        Seq::empty()
    } else {
        be_bytes(x / 256, (n - 1) as nat).push((x % 256) as u8)
    }
}

/// The number that bytes stand for, the highest first.
pub open spec fn be_value(b: Seq<u8>) -> nat
    decreases b.len(),
{
    if b.len() == 0 {
        0
    } else {
        be_value(b.drop_last()) * 256 + b.last() as nat
    }
}

/// What writing a number does.
pub open spec fn varint(x: u64) -> Encoding {
    if x < 0x40 {
        (be_bytes(x as int, 1), None)
    } else if x < 0x4000 {
        (be_bytes(x + 0x4000, 2), None)
    } else if x < 0x4000_0000 {
        (be_bytes(x + 0x8000_0000, 4), None)
    } else if x < VARINT_LIMIT {
        (be_bytes(x + 0xc000_0000_0000_0000, 8), None)
    } else {
        (Seq::empty(), Some(EncodeError::BoundsExceeded))
    }
}

/// How many bytes follow the first, by the top bits of the first.
pub open spec fn following(first: u8) -> int {
    if first < 0x40 {
        0
    } else if first < 0x80 {
        1
    } else if first < 0xc0 {
        3
    } else {
        7
    }
}

/// What reading a number gives.
pub open spec fn read_varint(b: Seq<u8>) -> Decoding<u64> {
    if b.len() == 0 {
        Err(DecodeError::More(1))
    } else {
        let n = following(b[0]);
        if b.len() < 1 + n {
            Err(DecodeError::More((1 + n - b.len()) as usize))
        } else {
            Ok((be_value(b.take(1 + n).update(0, (b[0] % 0x40) as u8)) as u64, 1 + n))
        }
    }
}

proof fn lemma_be_value_push(b: Seq<u8>, x: u8)
    ensures
        be_value(b.push(x)) == be_value(b) * 256 + x,
{
    assert(b.push(x).drop_last() == b);
}

proof fn lemma_be_value_bound(b: Seq<u8>)
    requires
        b.len() <= 8,
        b.len() > 0 ==> b[0] < 0x40,
    ensures
        b.len() == 1 ==> be_value(b) < 0x40,
        b.len() == 2 ==> be_value(b) < 0x4000,
        b.len() == 3 ==> be_value(b) < 0x40_0000,
        b.len() == 4 ==> be_value(b) < 0x4000_0000,
        b.len() == 5 ==> be_value(b) < 0x40_0000_0000,
        b.len() == 6 ==> be_value(b) < 0x4000_0000_0000,
        b.len() == 7 ==> be_value(b) < 0x40_0000_0000_0000,
        b.len() == 8 ==> be_value(b) < 0x4000_0000_0000_0000,
    decreases b.len(),
{
    reveal_with_fuel(be_value, 2);
    if b.len() > 0 {
        lemma_be_value_bound(b.drop_last());
    }
}

/// A number that reads back is below the limit.
pub proof fn read_varint_is_below_the_limit(b: Seq<u8>)
    ensures
        read_varint(b) matches Ok((x, n)) ==> x < VARINT_LIMIT && 1 <= n <= 8 && n <= b.len(),
{
    if b.len() > 0 && b.len() >= 1 + following(b[0]) {
        let s = b.take(1 + following(b[0])).update(0, (b[0] % 0x40) as u8);
        lemma_be_value_bound(s);
    }
}

proof fn lemma_be_round_trip(x: int, n: nat)
    requires
        0 <= x,
        n <= 8,
    ensures
        be_bytes(x, n).len() == n,
        n == 1 && x < 0x100 ==> be_value(be_bytes(x, n)) == x,
        n == 2 && x < 0x1_0000 ==> be_value(be_bytes(x, n)) == x,
        n == 3 && x < 0x100_0000 ==> be_value(be_bytes(x, n)) == x,
        n == 4 && x < 0x1_0000_0000 ==> be_value(be_bytes(x, n)) == x,
        n == 5 && x < 0x100_0000_0000 ==> be_value(be_bytes(x, n)) == x,
        n == 6 && x < 0x1_0000_0000_0000 ==> be_value(be_bytes(x, n)) == x,
        n == 7 && x < 0x100_0000_0000_0000 ==> be_value(be_bytes(x, n)) == x,
        n == 8 && x < 0x1_0000_0000_0000_0000 ==> be_value(be_bytes(x, n)) == x,
    decreases n,
{
    if n > 0 {
        lemma_be_round_trip(x / 256, (n - 1) as nat);
        lemma_be_value_push(be_bytes(x / 256, (n - 1) as nat), (x % 256) as u8);
        if n == 1 {
            assert(be_value(be_bytes(x / 256, 0)) == 0);
        }
    }
}

/// The length of an encoding.
pub proof fn varint_len(x: u64)
    ensures
        varint(x).0.len() == (if x < 0x40 {
            1int
        } else if x < 0x4000 {
            2
        } else if x < 0x4000_0000 {
            4
        } else if x < VARINT_LIMIT {
            8
        } else {
            0
        }),
        varint(x).1 is Some == (x >= VARINT_LIMIT),
{
    lemma_be_round_trip(x as int, 1);
    lemma_be_round_trip(x + 0x4000, 2);
    lemma_be_round_trip(x + 0x8000_0000, 4);
    lemma_be_round_trip(x + 0xc000_0000_0000_0000, 8);
}

/// 256 to the power of `k`.
spec fn power(k: nat) -> int
    decreases k,
{
    if k == 0 {
        1
    } else {
        256 * power((k - 1) as nat)
    }
}

/// Adding to the highest byte changes no other.
proof fn lemma_highest_byte(x: int, t: int, n: nat)
    requires
        n >= 1,
        0 <= t < 0x100 - 0x40 + 1,
        0 <= x < 0x40 * power((n - 1) as nat),
    ensures
        be_bytes(x, n).len() == n,
        be_bytes(x + t * power((n - 1) as nat), n).len() == n,
        be_bytes(x, n)[0] < 0x40,
        be_bytes(x + t * power((n - 1) as nat), n) == be_bytes(x, n).update(
            0,
            (be_bytes(x, n)[0] + t) as u8,
        ),
    decreases n,
{
    reveal_with_fuel(be_bytes, 2);
    let y = x + t * power((n - 1) as nat);
    if n > 1 {
        let m = (n - 1) as nat;
        let p = power((n - 2) as nat);
        assert(power(m) == 256 * p);
        assert(t * power(m) == 256 * (t * p)) by (nonlinear_arith)
            requires
                power(m) == 256 * p,
        ;
        assert(y / 256 == x / 256 + t * p);
        assert(y % 256 == x % 256);
        assert(x / 256 < 0x40 * p);
        lemma_highest_byte(x / 256, t, m);
        assert(be_bytes(y, n) =~= be_bytes(x, n).update(0, (be_bytes(x, n)[0] + t) as u8));
    } else {
        assert(be_bytes(y, n) =~= be_bytes(x, n).update(0, (be_bytes(x, n)[0] + t) as u8));
    }
}

/// Reading a number gives back the number that was written, and takes its bytes and
/// no more.
pub proof fn varint_round_trip(x: u64, rest: Seq<u8>)
    requires
        x < VARINT_LIMIT,
    ensures
        varint(x).1 is None,
        read_varint(varint(x).0 + rest) == Ok::<(u64, int), DecodeError>(
            (x, varint(x).0.len() as int),
        ),
{
    reveal_with_fuel(power, 8);
    varint_len(x);
    let b = varint(x).0;
    let all = b + rest;
    let (t, n): (int, nat) = if x < 0x40 {
        (0, 1)
    } else if x < 0x4000 {
        (0x40, 2)
    } else if x < 0x4000_0000 {
        (0x80, 4)
    } else {
        (0xc0, 8)
    };
    lemma_highest_byte(x as int, t, n);
    lemma_be_round_trip(x as int, n);
    assert(b == be_bytes(x + t * power((n - 1) as nat), n));
    let low = be_bytes(x as int, n);
    assert(all[0] == b[0]);
    assert(b[0] == low[0] + t);
    assert(following(b[0]) == n - 1);
    assert(all.take(n as int) == b);
    assert(b.update(0, (b[0] % 0x40) as u8) == low);
}

/// What has been read of a number stands, whatever follows.
pub proof fn varint_is_steady(b: Seq<u8>, more: Seq<u8>)
    ensures
        steady(read_varint(b), read_varint(b + more), b.len() as int, more.len() as int),
{
    if b.len() > 0 {
        assert((b + more)[0] == b[0]);
        let n = 1 + following(b[0]);
        if b.len() >= n {
            assert((b + more).take(n) == b.take(n));
        }
    }
}

impl Decode for u64 {
    open spec fn decoding(b: Seq<u8>) -> Decoding<u64> {
        read_varint(b)
    }

    fn decode(c: &mut Cursor<'_>) -> (r: Result<Self, DecodeError>) {
        let ghost b = c.rest();
        let have: usize = c.remaining();
        if have == 0 {
            return Err(DecodeError::More(1));
        }
        let first: u8 = c.peek(0);
        let n: usize = if first < 0x40 {
            0
        } else if first < 0x80 {
            1
        } else if first < 0xc0 {
            3
        } else {
            7
        };
        if have < 1 + n {
            return Err(DecodeError::More(1 + n - have));
        }
        let mut x: u64 = (first % 0x40) as u64;
        let mut i: usize = 1;
        let ghost s = b.take(1 + n).update(0, (b[0] % 0x40) as u8);
        proof {
            lemma_be_value_bound(s);
            assert(s.take(1).drop_last() == Seq::<u8>::empty());
            assert(be_value(Seq::<u8>::empty()) == 0);
        }
        while i < 1 + n
            invariant
                c.wf(),
                *c == *old(c),
                b == c.rest(),
                1 <= i <= 1 + n,
                n <= 7,
                1 + n <= b.len(),
                s == b.take(1 + n).update(0, (b[0] % 0x40) as u8),
                x == be_value(s.take(i as int)),
            decreases 1 + n - i,
        {
            proof {
                lemma_be_value_bound(s.take(i as int));
                assert(s.take(i + 1).drop_last() == s.take(i as int));
            }
            x = x * 256 + c.peek(i) as u64;
            i = i + 1;
        }
        assert(s.take(1 + n) == s);
        c.skip(1 + n);
        Ok(x)
    }
}

impl Encode for u64 {
    open spec fn encoding(v: u64) -> Encoding {
        varint(v)
    }

    fn encode(&self, w: &mut bytes::BytesMut) -> (r: Result<(), EncodeError>) {
        let x: u64 = *self;
        let ghost start = buffered(*w);
        proof {
            varint_len(x);
        }
        let (mut y, n): (u64, usize) = if x < 0x40 {
            (x, 1)
        } else if x < 0x4000 {
            (x + 0x4000, 2)
        } else if x < 0x4000_0000 {
            (x + 0x8000_0000, 4)
        } else if x < VARINT_LIMIT {
            (x + 0xc000_0000_0000_0000, 8)
        } else {
            assert(start + varint(x).0 == start);
            return Err(EncodeError::BoundsExceeded);
        };
        let ghost whole = y;
        let mut low: Vec<u8> = Vec::new();
        let mut i: usize = 0;
        assert(be_bytes(whole as int, n as nat) == be_bytes(y as int, n as nat) + low@.reverse());
        while i < n
            invariant
                i <= n <= 8,
                low@.len() == i,
                be_bytes(whole as int, n as nat) == be_bytes(y as int, (n - i) as nat)
                    + low@.reverse(),
            decreases n - i,
        {
            let ghost was = low@;
            let d: u8 = (y % 256) as u8;
            low.push(d);
            proof {
                let m = (n - i) as nat;
                assert(be_bytes(y as int, m) == be_bytes((y / 256) as int, (m - 1) as nat).push(d));
                assert(low@.reverse() == seq![d] + was.reverse());
                assert(be_bytes((y / 256) as int, (m - 1) as nat).push(d) + was.reverse()
                    == be_bytes((y / 256) as int, (m - 1) as nat) + low@.reverse());
            }
            y = y / 256;
            i = i + 1;
        }
        let mut bytes: Vec<u8> = Vec::new();
        let mut j: usize = n;
        while j > 0
            invariant
                j <= n,
                low@.len() == n,
                bytes@.len() == n - j,
                forall|k: int| 0 <= k < n - j ==> bytes@[k] == low@.reverse()[k],
            decreases j,
        {
            j = j - 1;
            bytes.push(low[j]);
        }
        assert(bytes@ == low@.reverse());
        assert(be_bytes(y as int, 0) + low@.reverse() == low@.reverse());
        append(w, bytes.as_slice());
        Ok(())
    }
}

impl SelfDelimited for u64 {
    proof fn reading_is_steady(b: Seq<u8>, more: Seq<u8>) {
        varint_is_steady(b, more);
    }
}

/// A number is written in one, two, four or eight bytes, the fewest that hold it besides
/// the two top bits, which tell how many there are; its highest byte comes first. Beyond
/// 62 bits it is not written.
pub proof fn numbers_are_written_in_the_fewest_bytes(x: u64)
    ensures
        ({
            let b = u64::encoding(x).0;
            &&& x < 64 ==> b == seq![x as u8]
            &&& 64 <= x < 16384 ==> b.len() == 2 && 64 <= b[0] < 128 && x == (b[0] - 64) * 256
                + b[1]
            &&& 16384 <= x < 1073741824 ==> b.len() == 4 && 128 <= b[0] < 192 && x == (((b[0]
                - 128) * 256 + b[1]) * 256 + b[2]) * 256 + b[3]
            &&& 1073741824 <= x < 4611686018427387904 ==> b.len() == 8 && 192 <= b[0] && x
                == (((((((b[0] - 192) * 256 + b[1]) * 256 + b[2]) * 256 + b[3]) * 256 + b[4]) * 256
                + b[5]) * 256 + b[6]) * 256 + b[7]
        }),
        x < 4611686018427387904 ==> u64::encoding(x).1 is None,
        x >= 4611686018427387904 ==> u64::encoding(x) == (
            Seq::<u8>::empty(),
            Some(EncodeError::BoundsExceeded),
        ),
{
    let b = u64::encoding(x).0;
    if x < 64 {
        reveal_with_fuel(be_bytes, 2);
        assert(b =~= seq![x as u8]);
    } else if x < VARINT_LIMIT {
        let n = if x < 16384 {
            2nat
        } else if x < 1073741824 {
            4nat
        } else {
            8nat
        };
        let y = if n == 2 {
            x + 16384
        } else if n == 4 {
            x + 2147483648
        } else {
            x + 13835058055282163712
        };
        assert(b == be_bytes(y, n));
        lemma_be_round_trip(y, n);
        lemma_unroll(b);
    }
}

/// A number is read from as many bytes as the two top bits of the first tell, its highest
/// byte first and without those bits. Where some of them are missing, just those are
/// asked for.
pub proof fn numbers_are_read_as_long_as_the_first_byte_tells(b: Seq<u8>)
    requires
        b.len() > 0,
    ensures
        ({
            let n = if b[0] < 64 {
                1int
            } else if b[0] < 128 {
                2
            } else if b[0] < 192 {
                4
            } else {
                8
            };
            &&& b.len() < n ==> u64::decoding(b) == Err::<(u64, int), DecodeError>(
                DecodeError::More((n - b.len()) as usize),
            )
            &&& b.len() >= n ==> (u64::decoding(b) matches Ok((_, k)) && k == n)
            &&& b.len() >= n && n == 1 ==> u64::decoding(b)->Ok_0.0 == b[0]
            &&& b.len() >= n && n == 2 ==> u64::decoding(b)->Ok_0.0 == (b[0] - 64) * 256 + b[1]
            &&& b.len() >= n && n == 4 ==> u64::decoding(b)->Ok_0.0 == (((b[0] - 128) * 256 + b[1])
                * 256 + b[2]) * 256 + b[3]
            &&& b.len() >= n && n == 8 ==> u64::decoding(b)->Ok_0.0 == (((((((b[0] - 192) * 256
                + b[1]) * 256 + b[2]) * 256 + b[3]) * 256 + b[4]) * 256 + b[5]) * 256 + b[6]) * 256
                + b[7]
        }),
        u64::decoding(Seq::empty()) == Err::<(u64, int), DecodeError>(DecodeError::More(1)),
{
    let n = 1 + following(b[0]);
    if b.len() >= n {
        let s = b.take(n).update(0, (b[0] % 0x40) as u8);
        lemma_be_value_bound(s);
        lemma_unroll(s);
    }
}

proof fn lemma_unroll(s: Seq<u8>)
    requires
        s.len() == 1 || s.len() == 2 || s.len() == 4 || s.len() == 8,
    ensures
        s.len() == 1 ==> be_value(s) == s[0],
        s.len() == 2 ==> be_value(s) == s[0] * 256 + s[1],
        s.len() == 4 ==> be_value(s) == ((s[0] * 256 + s[1]) * 256 + s[2]) * 256 + s[3],
        s.len() == 8 ==> be_value(s) == ((((((s[0] * 256 + s[1]) * 256 + s[2]) * 256 + s[3]) * 256
            + s[4]) * 256 + s[5]) * 256 + s[6]) * 256 + s[7],
{
    reveal_with_fuel(be_value, 9);
}

} // verus!
