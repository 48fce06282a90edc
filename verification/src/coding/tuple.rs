//! Tuples of byte strings: the names of broadcasts.

use crate::buffer::buffered;
use crate::coding::error::{DecodeError, EncodeError};
use crate::coding::field::{
    bytes_are_steady, bytes_round_trip, decode_bytes, encode_bytes, read_bytes, write_bytes,
};
use crate::coding::varint::{
    numbers_are_written_in_the_fewest_bytes, read_varint, varint, varint_is_steady,
    varint_round_trip, VARINT_LIMIT,
};
use crate::coding::wire::{
    chain, moved, skip_more, steady, Cursor, Decode, Decoding, Encode, Encoding, SelfDelimited,
};
use crate::table::Key;
use crate::text::{
    chars_of, fields_come_apart_again, find_char, lemma_split_step, split, with_between,
};
use vstd::prelude::*;
use vstd::utf8::encode_utf8;

verus! {

/// A tuple of byte strings.
#[derive(Debug)]
pub struct Tuple {
    pub fields: Vec<Vec<u8>>,
}

impl View for Tuple {
    type V = Seq<Seq<u8>>;

    open spec fn view(&self) -> Seq<Seq<u8>> {
        self.fields@.map_values(|f: Vec<u8>| f@)
    }
}

/// What writing fields one behind the other does.
pub open spec fn write_fields(v: Seq<Seq<u8>>) -> Encoding
    decreases v.len(),
{
    if v.len() == 0 {
        (Seq::empty(), None)
    } else {
        chain(write_fields(v.drop_last()), write_bytes(v.last()))
    }
}

/// What reading `count` fields gives.
pub open spec fn read_fields(b: Seq<u8>, count: nat) -> Decoding<Seq<Seq<u8>>>
    decreases count,
{
    if count == 0 {
        Ok((Seq::empty(), 0))
    } else {
        match read_fields(b, (count - 1) as nat) {
            Err(e) => Err(e),
            Ok((v, n)) => match read_bytes(b.skip(n)) {
                Err(e) => Err(e),
                Ok((f, m)) => Ok((v.push(f), n + m)),
            },
        }
    }
}

/// What writing a tuple does.
pub open spec fn write_tuple(v: Seq<Seq<u8>>) -> Encoding {
    chain(varint(v.len() as u64), write_fields(v))
}

/// What reading a tuple gives.
pub open spec fn read_tuple(b: Seq<u8>) -> Decoding<Seq<Seq<u8>>> {
    match read_varint(b) {
        Err(e) => Err(e),
        Ok((count, n)) => match read_fields(b.skip(n), count as nat) {
            Err(e) => Err(e),
            Ok((v, m)) => Ok((v, n + m)),
        },
    }
}

/// Once a field cannot be read, none behind it can.
proof fn lemma_read_fields_stops(b: Seq<u8>, few: nat, count: nat)
    requires
        few <= count,
        read_fields(b, few) is Err,
    ensures
        read_fields(b, count) == read_fields(b, few),
    decreases count - few,
{
    if few < count {
        lemma_read_fields_stops(b, few, (count - 1) as nat);
    }
}

/// What has been read of some fields stands, whatever follows.
proof fn lemma_fields_are_steady(b: Seq<u8>, more: Seq<u8>, count: nat)
    ensures
        steady(
            read_fields(b, count),
            read_fields(b + more, count),
            b.len() as int,
            more.len() as int,
        ),
    decreases count,
{
    if count > 0 {
        lemma_fields_are_steady(b, more, (count - 1) as nat);
        match read_fields(b, (count - 1) as nat) {
            Ok((_, n)) => {
                skip_more(b, more, n);
                bytes_are_steady(b.skip(n), more);
            },
            Err(_) => {},
        }
    }
}

/// What has been read of a tuple stands, whatever follows.
pub proof fn tuple_is_steady(b: Seq<u8>, more: Seq<u8>)
    ensures
        steady(read_tuple(b), read_tuple(b + more), b.len() as int, more.len() as int),
{
    varint_is_steady(b, more);
    match read_varint(b) {
        Ok((count, n)) => {
            skip_more(b, more, n);
            lemma_fields_are_steady(b.skip(n), more, count as nat);
        },
        Err(_) => {},
    }
}

/// Once a field cannot be written, none behind it is.
proof fn lemma_write_fields_prefix(v: Seq<Seq<u8>>, k: int)
    requires
        0 <= k <= v.len(),
    ensures
        write_fields(v.take(k)).1 is Some ==> write_fields(v) == write_fields(v.take(k)),
        write_fields(v.take(k)).0.len() <= write_fields(v).0.len(),
    decreases v.len() - k,
{
    if k < v.len() {
        lemma_write_fields_prefix(v, k + 1);
        assert(v.take(k + 1).drop_last() == v.take(k));
    } else {
        assert(v.take(k) == v);
    }
}

impl Decode for Tuple {
    open spec fn decoding(b: Seq<u8>) -> Decoding<Seq<Seq<u8>>> {
        read_tuple(b)
    }

    fn decode(c: &mut Cursor<'_>) -> (r: Result<Self, DecodeError>) {
        let ghost start = *c;
        let count: u64 = match u64::decode(c) {
            Ok(count) => count,
            Err(e) => {
                return Err(e);
            },
        };
        let ghost b = c.rest();
        let ghost middle = *c;
        let ghost n = read_varint(start.rest())->Ok_0.1;
        let mut fields: Vec<Vec<u8>> = Vec::new();
        let mut i: u64 = 0;
        let ghost mut used: int = 0;
        proof {
            assert(b.skip(0) == b);
            assert(fields@.map_values(|f: Vec<u8>| f@) =~= Seq::<Seq<u8>>::empty());
        }
        while i < count
            invariant
                i <= count,
                start == *old(c),
                c.wf(),
                c.data() == start.data(),
                c.data() == middle.data(),
                b == middle.rest(),
                0 <= used <= b.len(),
                c.pos() == middle.pos() + used,
                c.rest() == b.skip(used),
                read_fields(b, i as nat) == Ok::<(Seq<Seq<u8>>, int), DecodeError>(
                    (fields@.map_values(|f: Vec<u8>| f@), used),
                ),
                moved(start, middle, n),
                read_varint(start.rest()) == Ok::<(u64, int), DecodeError>((count, n)),
            decreases count - i,
        {
            let ghost was = fields@.map_values(|f: Vec<u8>| f@);
            match decode_bytes(c) {
                Ok(f) => {
                    proof {
                        let m = read_bytes(b.skip(used))->Ok_0.1;
                        assert(b.skip(used).skip(m) == b.skip(used + m));
                        used = used + m;
                    }
                    let ghost fv = f@;
                    fields.push(f);
                    assert(fields@.map_values(|f: Vec<u8>| f@) == was.push(fv));
                },
                Err(e) => {
                    proof {
                        assert(read_fields(b, (i + 1) as nat) is Err);
                        lemma_read_fields_stops(b, (i + 1) as nat, count as nat);
                    }
                    return Err(e);
                },
            }
            i = i + 1;
        }
        assert(start.rest().skip(n).skip(used) == start.rest().skip(n + used));
        Ok(Tuple { fields })
    }
}

impl Encode for Tuple {
    open spec fn encoding(v: Seq<Seq<u8>>) -> Encoding {
        write_tuple(v)
    }

    fn encode(&self, w: &mut bytes::BytesMut) -> (r: Result<(), EncodeError>) {
        let ghost start = buffered(*w);
        let count: u64 = self.fields.len() as u64;
        let ghost v = self@;
        let ghost head = varint(count).0;
        if let Err(e) = count.encode(w) {
            return Err(e);
        }
        let mut i: usize = 0;
        assert(v.take(0) == Seq::<Seq<u8>>::empty());
        assert(start + head + write_fields(v.take(0)).0 == start + head);
        while i < self.fields.len()
            invariant
                i <= self.fields@.len(),
                v == self@,
                start == buffered(*old(w)),
                varint(v.len() as u64) == (head, None::<EncodeError>),
                start.len() + write_tuple(v).0.len() <= isize::MAX,
                buffered(*w) == start + head + write_fields(v.take(i as int)).0,
                write_fields(v.take(i as int)).1 is None,
            decreases self.fields@.len() - i,
        {
            proof {
                assert(v.take(i + 1).drop_last() == v.take(i as int));
                assert(v[i as int] == self.fields@[i as int]@);
                lemma_write_fields_prefix(v, i + 1);
            }
            let r: Result<(), EncodeError> = encode_bytes(self.fields[i].as_slice(), w);
            assert(buffered(*w) == start + head + write_fields(v.take(i + 1)).0);
            if let Err(e) = r {
                assert(buffered(*w) == start + write_tuple(v).0);
                return Err(e);
            }
            i = i + 1;
        }
        assert(v.take(i as int) == v);
        assert(buffered(*w) == start + write_tuple(v).0);
        Ok(())
    }
}

/// Whether every field is short enough to be written.
pub open spec fn fields_fit(v: Seq<Seq<u8>>) -> bool {
    forall|i: int|
        0 <= i < v.len() ==> (#[trigger] v[i]).len() < VARINT_LIMIT && v[i].len() <= usize::MAX
}

/// Bytes behind the fields do not change how they are read.
proof fn lemma_fields_round_trip(v: Seq<Seq<u8>>, rest: Seq<u8>)
    requires
        fields_fit(v),
    ensures
        write_fields(v).1 is None,
        read_fields(write_fields(v).0 + rest, v.len()) == Ok::<(Seq<Seq<u8>>, int), DecodeError>(
            (v, write_fields(v).0.len() as int),
        ),
    decreases v.len(),
{
    if v.len() > 0 {
        let d = v.drop_last();
        let last = write_bytes(v.last()).0;
        assert(fields_fit(d));
        assert(v.last() == v[v.len() - 1]);
        bytes_round_trip(v.last(), rest);
        lemma_fields_round_trip(d, last + rest);
        let all = write_fields(v).0 + rest;
        assert(all == write_fields(d).0 + (last + rest));
        assert(all.skip(write_fields(d).0.len() as int) == last + rest);
        assert(d.push(v.last()) == v);
    } else {
        assert(v == Seq::<Seq<u8>>::empty());
    }
}

/// A tuple reads back, and takes its bytes and no more.
pub proof fn tuple_round_trip(v: Seq<Seq<u8>>, rest: Seq<u8>)
    requires
        v.len() < VARINT_LIMIT,
        fields_fit(v),
    ensures
        write_tuple(v).1 is None,
        read_tuple(write_tuple(v).0 + rest) == Ok::<(Seq<Seq<u8>>, int), DecodeError>(
            (v, write_tuple(v).0.len() as int),
        ),
{
    let head = varint(v.len() as u64).0;
    lemma_fields_round_trip(v, rest);
    varint_round_trip(v.len() as u64, write_fields(v).0 + rest);
    let all = write_tuple(v).0 + rest;
    assert(all == head + (write_fields(v).0 + rest));
    assert(all.skip(head.len() as int) == write_fields(v).0 + rest);
}

/// Whether two byte strings are the same.
pub fn same_bytes(a: &[u8], b: &[u8]) -> (r: bool)
    ensures
        r == (a@ == b@),
{
    if a.len() != b.len() {
        return false;
    }
    let mut i: usize = 0;
    while i < a.len()
        invariant
            i <= a@.len(),
            a@.len() == b@.len(),
            forall|j: int| 0 <= j < i ==> a@[j] == b@[j],
        decreases a@.len() - i,
    {
        if a[i] != b[i] {
            assert(a@[i as int] != b@[i as int]);
            return false;
        }
        i = i + 1;
    }
    assert(a@ == b@);
    true
}

/// The bytes of each field of a text.
pub open spec fn utf8_fields(parts: Seq<Seq<char>>) -> Seq<Seq<u8>> {
    parts.map_values(|p: Seq<char>| encode_utf8(p))
}

impl Tuple {
    /// A tuple with no fields.
    pub fn new() -> (r: Tuple)
        ensures
            r@ == Seq::<Seq<u8>>::empty(),
    {
        let r = Tuple { fields: Vec::new() };
        assert(r@ == Seq::<Seq<u8>>::empty());
        r
    }

    /// The tuple that a path stands for: one field between every two slashes.
    pub fn from_utf8_path(path: &str) -> (r: Tuple)
        ensures
            r@ == utf8_fields(split(path@, '/')),
    {
        let t: Vec<char> = chars_of(path);
        let mut fields: Vec<Vec<u8>> = Vec::new();
        let mut at: usize = 0;
        let ghost parts = split(path@, '/');
        let ghost mut k: int = 0;
        assert(t@.skip(0) == t@);
        assert(parts.skip(0) == parts);
        loop
            invariant_except_break
                k == fields@.len(),
            invariant
                at <= t@.len(),
                t@ == path@,
                0 <= k < parts.len(),
                parts == split(path@, '/'),
                parts.skip(k) == split(t@.skip(at as int), '/'),
                forall|j: int| 0 <= j < k ==> (#[trigger] fields@[j])@ == encode_utf8(parts[j]),
            ensures
                fields@.len() == parts.len(),
                forall|j: int|
                    0 <= j < parts.len() ==> (#[trigger] fields@[j])@ == encode_utf8(parts[j]),
            decreases t@.len() - at,
        {
            let end: usize = find_char(&t, '/', at);
            proof {
                lemma_split_step(t@, '/', at as int, end as int);
                assert(parts[k] == parts.skip(k)[0]);
                assert(parts[k] == t@.subrange(at as int, end as int));
            }
            let mut field: Vec<u8> = Vec::new();
            field.extend_from_slice(path.substring_char(at, end).as_bytes());
            assert(field@ == encode_utf8(parts[k]));
            fields.push(field);
            if end == t.len() {
                assert(parts.skip(k).len() == 1);
                break;
            }
            proof {
                assert(parts.skip(k).skip(1) == split(t@.skip(end + 1), '/'));
                assert(parts.skip(k + 1) == parts.skip(k).skip(1));
                assert(split(t@.skip(end + 1), '/').len() > 0);
                assert(parts.skip(k + 1).len() > 0);
                k = k + 1;
            }
            at = end + 1;
        }
        let r = Tuple { fields };
        assert(r@ == utf8_fields(parts));
        r
    }

    /// Whether two tuples have the same fields.
    pub fn same(&self, other: &Tuple) -> (r: bool)
        ensures
            r == (self@ == other@),
    {
        if self.fields.len() != other.fields.len() {
            assert(self@.len() != other@.len());
            return false;
        }
        let mut i: usize = 0;
        while i < self.fields.len()
            invariant
                i <= self.fields@.len(),
                self.fields@.len() == other.fields@.len(),
                forall|j: int| 0 <= j < i ==> self@[j] == other@[j],
            decreases self.fields@.len() - i,
        {
            if !same_bytes(self.fields[i].as_slice(), other.fields[i].as_slice()) {
                assert(self@[i as int] != other@[i as int]);
                return false;
            }
            i = i + 1;
        }
        assert(self@ == other@);
        true
    }

    /// Another tuple with the same fields.
    pub fn copy(&self) -> (r: Tuple)
        ensures
            r@ == self@,
    {
        let mut fields: Vec<Vec<u8>> = Vec::new();
        let mut i: usize = 0;
        while i < self.fields.len()
            invariant
                i <= self.fields@.len(),
                fields@.len() == i,
                forall|j: int| 0 <= j < i ==> (#[trigger] fields@[j])@ == self.fields@[j]@,
            decreases self.fields@.len() - i,
        {
            let mut field: Vec<u8> = Vec::new();
            field.extend_from_slice(self.fields[i].as_slice());
            assert(field@ == self.fields@[i as int]@);
            fields.push(field);
            i = i + 1;
        }
        let r = Tuple { fields };
        assert(r@ == self@);
        r
    }
}

impl Key for Tuple {
    fn same_key(&self, other: &Self) -> (r: bool) {
        self.same(other)
    }
}

impl SelfDelimited for Tuple {
    proof fn reading_is_steady(b: Seq<u8>, more: Seq<u8>) {
        tuple_is_steady(b, more);
    }
}

/// A tuple is written as the number of its fields and then each field behind its length,
/// in order: another field comes behind those before.
pub proof fn tuples_are_written_field_by_field(v: Seq<Seq<u8>>, f: Seq<u8>)
    requires
        v.len() + 1 < VARINT_LIMIT,
        fields_fit(v),
        f.len() < VARINT_LIMIT,
        f.len() <= usize::MAX,
    ensures
        Tuple::encoding(Seq::empty()) == (seq![0u8], None::<EncodeError>),
        Tuple::encoding(v).1 is None,
        Tuple::encoding(v.push(f)).1 is None,
        Tuple::encoding(v.push(f)).0.skip(u64::encoding((v.len() + 1) as u64).0.len() as int)
            == Tuple::encoding(v).0.skip(u64::encoding(v.len() as u64).0.len() as int)
            + u64::encoding(f.len() as u64).0 + f,
        Tuple::encoding(v).0.take(u64::encoding(v.len() as u64).0.len() as int) == u64::encoding(
            v.len() as u64,
        ).0,
{
    let w = v.push(f);
    assert forall|i: int| 0 <= i < w.len() implies #[trigger] w[i].len() < VARINT_LIMIT && w[i].len()
        <= usize::MAX by {
        if i < v.len() {
            assert(w[i] == v[i]);
        }
    }
    tuple_round_trip(v, Seq::empty());
    tuple_round_trip(w, Seq::empty());
    varint_round_trip(v.len() as u64, Seq::empty());
    varint_round_trip(w.len() as u64, Seq::empty());
    varint_round_trip(f.len() as u64, Seq::empty());
    assert(w.drop_last() =~= v);
    let a = varint(v.len() as u64).0;
    let c = varint(w.len() as u64).0;
    assert(write_fields(v).1 is None);
    assert(Tuple::encoding(v).0.skip(a.len() as int) =~= write_fields(v).0);
    assert(Tuple::encoding(w).0.skip(c.len() as int) =~= write_fields(w).0);
    assert(write_fields(w).0 =~= write_fields(v).0 + varint(f.len() as u64).0 + f);
    assert(Tuple::encoding(v).0.take(a.len() as int) =~= a);
    numbers_are_written_in_the_fewest_bytes(0);
    assert(Tuple::encoding(Seq::empty()).0 =~= seq![0u8]);
}

/// A path is parted at its slashes: what stands between two of them is a field, in
/// UTF-8.
pub proof fn paths_are_parted_at_their_slashes(path: &str, parts: Seq<Seq<char>>, r: Tuple, k: int)
    requires
        call_ensures(Tuple::from_utf8_path, (path,), r),
        parts.len() > 0,
        forall|i: int, j: int|
            0 <= i < parts.len() && 0 <= j < parts[i].len() ==> #[trigger] parts[i][j] != '/',
        path@ == with_between(parts, '/'),
        0 <= k < parts.len(),
    ensures
        r.fields@.len() == parts.len(),
        r.fields@[k]@ == encode_utf8(parts[k]),
{
    fields_come_apart_again(parts, '/');
    assert(r@ == utf8_fields(parts));
    assert(r@.len() == r.fields@.len());
    assert(r@[k] == r.fields@[k]@);
}

/// Two tuples are the same where they have as many fields and each is the same byte by
/// byte; a copy is the same, and a new one has no fields.
pub proof fn tuples_are_the_same_field_by_field(
    a: Tuple,
    b: Tuple,
    r: bool,
    c: Tuple,
    n: Tuple,
    x: &[u8],
    y: &[u8],
    s: bool,
)
    requires
        call_ensures(Tuple::same, (&a, &b), r),
        call_ensures(Tuple::copy, (&a,), c),
        call_ensures(Tuple::new, (), n),
        call_ensures(same_bytes, (x, y), s),
    ensures
        r ==> a.fields@.len() == b.fields@.len() && forall|i: int|
            0 <= i < a.fields@.len() ==> (#[trigger] a.fields@[i])@ == b.fields@[i]@,
        a.fields@.len() == b.fields@.len() && (forall|i: int|
            0 <= i < a.fields@.len() ==> (#[trigger] a.fields@[i])@ == b.fields@[i]@) ==> r,
        c.fields@.len() == a.fields@.len(),
        forall|i: int| 0 <= i < a.fields@.len() ==> (#[trigger] a.fields@[i])@ == c.fields@[i]@,
        n.fields@.len() == 0,
        s ==> x@ == y@,
        x@ == y@ ==> s,
{
    assert(a@.len() == a.fields@.len() && b@.len() == b.fields@.len() && c@.len()
        == c.fields@.len() && n@.len() == n.fields@.len());
    assert forall|i: int| 0 <= i < a.fields@.len() implies (#[trigger] a.fields@[i])@
        == c.fields@[i]@ by {
        assert(a@[i] == c@[i]);
    }
    if r {
        assert forall|i: int| 0 <= i < a.fields@.len() implies (#[trigger] a.fields@[i])@
            == b.fields@[i]@ by {
            assert(a@[i] == b@[i]);
        }
    }
    if a.fields@.len() == b.fields@.len() && (forall|i: int|
        0 <= i < a.fields@.len() ==> (#[trigger] a.fields@[i])@ == b.fields@[i]@) {
        assert(a@ =~= b@) by {
            assert forall|i: int| 0 <= i < a@.len() implies a@[i] == b@[i] by {
                assert(a.fields@[i]@ == b.fields@[i]@);
            }
        }
    }
}

} // verus!
