//! Optional parameters: byte strings under distinct numbers.

use crate::buffer::{buffered, chunk, new_buffer};
use crate::coding::error::{DecodeError, EncodeError};
use crate::coding::field::{
    bytes_are_steady, bytes_round_trip, decode_bytes, encode_bytes, read_bytes, write_bytes,
};
use crate::coding::varint::{
    numbers_are_written_in_the_fewest_bytes, read_varint, varint, varint_is_steady, varint_len,
    varint_round_trip, VARINT_LIMIT,
};
use crate::coding::wire::{
    chain, moved, skip_more, steady, Cursor, Decode, Decoding, Encode, Encoding, SelfDelimited,
};
use vstd::prelude::*;

verus! {

/// Parameters, in the order in which they are written.
#[derive(Debug)]
pub struct Params {
    pub entries: Vec<(u64, Vec<u8>)>,
}

/// A parameter: its number and its value.
pub type ParamView = (u64, Seq<u8>);

impl View for Params {
    type V = Seq<ParamView>;

    open spec fn view(&self) -> Seq<ParamView> {
        self.entries@.map_values(|e: (u64, Vec<u8>)| (e.0, e.1@))
    }
}

/// Where the parameter `kind` stands; the length where it does not.
pub open spec fn param_index(v: Seq<ParamView>, kind: u64, from: int) -> int
    decreases v.len() - from,
{
    if from >= v.len() {
        v.len() as int
    } else if v[from].0 == kind {
        from
    } else {
        param_index(v, kind, from + 1)
    }
}

/// Whether there is a parameter `kind`.
pub open spec fn has_param(v: Seq<ParamView>, kind: u64) -> bool {
    param_index(v, kind, 0) < v.len()
}

/// No number stands twice.
pub open spec fn distinct(v: Seq<ParamView>) -> bool {
    forall|i: int, j: int| 0 <= i < j < v.len() ==> v[i].0 != v[j].0
}

/// The parameters with `kind` set to `value`: in its place, else at the end.
pub open spec fn with_param(v: Seq<ParamView>, kind: u64, value: Seq<u8>) -> Seq<ParamView> {
    if has_param(v, kind) {
        v.update(param_index(v, kind, 0), (kind, value))
    } else {
        v.push((kind, value))
    }
}

/// The parameters without `kind`.
pub open spec fn without_param(v: Seq<ParamView>, kind: u64) -> Seq<ParamView> {
    if has_param(v, kind) {
        v.remove(param_index(v, kind, 0))
    } else {
        v
    }
}

/// What writing one parameter does.
pub open spec fn write_param(p: ParamView) -> Encoding {
    chain(varint(p.0), write_bytes(p.1))
}

/// What writing parameters one behind the other does.
pub open spec fn write_entries(v: Seq<ParamView>) -> Encoding
    decreases v.len(),
{
    if v.len() == 0 {
        (Seq::empty(), None)
    } else {
        chain(write_entries(v.drop_last()), write_param(v.last()))
    }
}

/// What writing the parameters does.
pub open spec fn write_params(v: Seq<ParamView>) -> Encoding {
    chain(varint(v.len() as u64), write_entries(v))
}

/// What reading `count` parameters gives. None may stand twice.
pub open spec fn read_entries(b: Seq<u8>, count: nat) -> Decoding<Seq<ParamView>>
    decreases count,
{
    if count == 0 {
        Ok((Seq::empty(), 0))
    } else {
        match read_entries(b, (count - 1) as nat) {
            Err(e) => Err(e),
            Ok((v, n)) => match read_varint(b.skip(n)) {
                Err(e) => Err(e),
                Ok((kind, m)) => if has_param(v, kind) {
                    Err(DecodeError::DuplicateParameter)
                } else {
                    match read_bytes(b.skip(n + m)) {
                        Err(e) => Err(e),
                        Ok((value, k)) => Ok((v.push((kind, value)), n + m + k)),
                    }
                },
            },
        }
    }
}

/// What reading parameters gives.
pub open spec fn read_params(b: Seq<u8>) -> Decoding<Seq<ParamView>> {
    match read_varint(b) {
        Err(e) => Err(e),
        Ok((count, n)) => match read_entries(b.skip(n), count as nat) {
            Err(e) => Err(e),
            Ok((v, m)) => Ok((v, n + m)),
        },
    }
}

/// What a parameter that holds a number says.
pub open spec fn param_number(v: Seq<ParamView>, kind: u64) -> Result<Option<u64>, DecodeError> {
    if has_param(v, kind) {
        match read_varint(v[param_index(v, kind, 0)].1) {
            Ok((x, _)) => Ok(Some(x)),
            Err(e) => Err(e),
        }
    } else {
        Ok(None)
    }
}

proof fn lemma_param_index(v: Seq<ParamView>, kind: u64, from: int)
    requires
        0 <= from <= v.len(),
    ensures
        from <= param_index(v, kind, from) <= v.len(),
        param_index(v, kind, from) < v.len() ==> v[param_index(v, kind, from)].0 == kind,
        forall|i: int| from <= i < param_index(v, kind, from) ==> v[i].0 != kind,
    decreases v.len() - from,
{
    if from < v.len() && v[from].0 != kind {
        lemma_param_index(v, kind, from + 1);
    }
}

proof fn lemma_read_entries_stops(b: Seq<u8>, few: nat, count: nat)
    requires
        few <= count,
        read_entries(b, few) is Err,
    ensures
        read_entries(b, count) == read_entries(b, few),
    decreases count - few,
{
    if few < count {
        lemma_read_entries_stops(b, few, (count - 1) as nat);
    }
}

proof fn lemma_write_entries_prefix(v: Seq<ParamView>, k: int)
    requires
        0 <= k <= v.len(),
    ensures
        write_entries(v.take(k)).1 is Some ==> write_entries(v) == write_entries(v.take(k)),
        write_entries(v.take(k)).0.len() <= write_entries(v).0.len(),
    decreases v.len() - k,
{
    if k < v.len() {
        lemma_write_entries_prefix(v, k + 1);
        assert(v.take(k + 1).drop_last() == v.take(k));
    } else {
        assert(v.take(k) == v);
    }
}

/// What has been read of some parameters stands, whatever follows.
proof fn lemma_entries_are_steady(b: Seq<u8>, more: Seq<u8>, count: nat)
    ensures
        steady(
            read_entries(b, count),
            read_entries(b + more, count),
            b.len() as int,
            more.len() as int,
        ),
    decreases count,
{
    if count > 0 {
        lemma_entries_are_steady(b, more, (count - 1) as nat);
        match read_entries(b, (count - 1) as nat) {
            Ok((_, n)) => {
                skip_more(b, more, n);
                varint_is_steady(b.skip(n), more);
                match read_varint(b.skip(n)) {
                    Ok((_, m)) => {
                        skip_more(b, more, n + m);
                        bytes_are_steady(b.skip(n + m), more);
                    },
                    Err(_) => {},
                }
            },
            Err(_) => {},
        }
    }
}

/// What has been read of the parameters stands, whatever follows.
pub proof fn params_are_steady(b: Seq<u8>, more: Seq<u8>)
    ensures
        steady(read_params(b), read_params(b + more), b.len() as int, more.len() as int),
{
    varint_is_steady(b, more);
    match read_varint(b) {
        Ok((count, n)) => {
            skip_more(b, more, n);
            lemma_entries_are_steady(b.skip(n), more, count as nat);
        },
        Err(_) => {},
    }
}

/// Parameters that have been read are distinct.
pub proof fn read_params_are_distinct(b: Seq<u8>, count: nat)
    ensures
        read_entries(b, count) matches Ok((v, _)) ==> distinct(v),
    decreases count,
{
    if count > 0 {
        read_params_are_distinct(b, (count - 1) as nat);
        match read_entries(b, (count - 1) as nat) {
            Ok((v, n)) => match read_varint(b.skip(n)) {
                Ok((kind, m)) => {
                    lemma_param_index(v, kind, 0);
                },
                Err(_) => {},
            },
            Err(_) => {},
        }
    }
}

impl Params {
    /// No parameters.
    pub fn new() -> (r: Params)
        ensures
            r@ == Seq::<ParamView>::empty(),
    {
        let r = Params { entries: Vec::new() };
        assert(r@ == Seq::<ParamView>::empty());
        r
    }

    fn index(&self, kind: u64) -> (r: usize)
        ensures
            r == param_index(self@, kind, 0),
            r <= self.entries@.len(),
    {
        let mut i: usize = 0;
        while i < self.entries.len() && self.entries[i].0 != kind
            invariant
                i <= self.entries@.len(),
                param_index(self@, kind, 0) == param_index(self@, kind, i as int),
            decreases self.entries@.len() - i,
        {
            assert(self@[i as int].0 == self.entries@[i as int].0);
            i = i + 1;
        }
        assert(i < self.entries@.len() ==> self@[i as int].0 == self.entries@[i as int].0);
        i
    }

    /// Whether there is a parameter `kind`.
    pub fn has(&self, kind: u64) -> (r: bool)
        ensures
            r == has_param(self@, kind),
    {
        self.index(kind) < self.entries.len()
    }

    /// Takes out the parameter `kind` and reads it as a number.
    pub fn get(&mut self, kind: u64) -> (r: Result<Option<u64>, DecodeError>)
        ensures
            r == param_number(old(self)@, kind),
            final(self)@ == without_param(old(self)@, kind),
    {
        let i: usize = self.index(kind);
        if i < self.entries.len() {
            assert(self@[i as int] == (self.entries@[i as int].0, self.entries@[i as int].1@));
            let (_, value) = self.entries.remove(i);
            assert(self@ == old(self)@.remove(i as int));
            let mut c: Cursor<'_> = Cursor::new(value.as_slice());
            assert(c.rest() == value@);
            match u64::decode(&mut c) {
                Ok(x) => Ok(Some(x)),
                Err(e) => Err(e),
            }
        } else {
            Ok(None)
        }
    }

    /// Sets the parameter `kind` to a number.
    pub fn set(&mut self, kind: u64, x: u64) -> (r: Result<(), EncodeError>)
        ensures
            match varint(x) {
                (_, Some(e)) => r == Err::<(), EncodeError>(e) && final(self)@ == old(self)@,
                (value, None) => r == Ok::<(), EncodeError>(()) && final(self)@ == with_param(
                    old(self)@,
                    kind,
                    value,
                ),
            },
    {
        let mut w: bytes::BytesMut = new_buffer();
        proof {
            varint_len(x);
        }
        if let Err(e) = x.encode(&mut w) {
            return Err(e);
        }
        let mut value: Vec<u8> = Vec::new();
        value.extend_from_slice(chunk(&w));
        assert(value@ == varint(x).0);
        let i: usize = self.index(kind);
        if i < self.entries.len() {
            self.entries.set(i, (kind, value));
        } else {
            self.entries.push((kind, value));
        }
        assert(self@ == with_param(old(self)@, kind, varint(x).0));
        Ok(())
    }

    /// The same parameters once more.
    pub fn copy(&self) -> (r: Params)
        ensures
            r@ == self@,
    {
        let mut entries: Vec<(u64, Vec<u8>)> = Vec::new();
        let mut i: usize = 0;
        while i < self.entries.len()
            invariant
                i <= self.entries@.len(),
                entries@.len() == i,
                forall|j: int|
                    #![trigger entries@[j]]
                    0 <= j < i ==> entries@[j].0 == self.entries@[j].0 && entries@[j].1@
                        == self.entries@[j].1@,
            decreases self.entries@.len() - i,
        {
            let mut value: Vec<u8> = Vec::new();
            value.extend_from_slice(self.entries[i].1.as_slice());
            assert(value@ == self.entries@[i as int].1@);
            entries.push((self.entries[i].0, value));
            i = i + 1;
        }
        let r = Params { entries };
        assert(r@ == self@);
        r
    }
}

impl Decode for Params {
    open spec fn decoding(b: Seq<u8>) -> Decoding<Seq<ParamView>> {
        read_params(b)
    }

    fn decode(c: &mut Cursor<'_>) -> (r: Result<Self, DecodeError>) {
        let ghost start = *c;
        let count: u64 = match u64::decode(c) {
            Ok(count) => count,
            Err(e) => {
                return Err(e);
            },
        };
        let ghost b = c.rest();
        let ghost middle = *c;
        let ghost n = read_varint(start.rest())->Ok_0.1;
        let mut params: Params = Params::new();
        let mut i: u64 = 0;
        let ghost mut used: int = 0;
        assert(b.skip(0) == b);
        while i < count
            invariant
                i <= count,
                start == *old(c),
                c.wf(),
                c.data() == start.data(),
                c.data() == middle.data(),
                b == middle.rest(),
                0 <= used <= b.len(),
                c.pos() == middle.pos() + used,
                c.rest() == b.skip(used),
                read_entries(b, i as nat) == Ok::<(Seq<ParamView>, int), DecodeError>(
                    (params@, used),
                ),
                moved(start, middle, n),
                read_varint(start.rest()) == Ok::<(u64, int), DecodeError>((count, n)),
            decreases count - i,
        {
            let ghost was = params@;
            let ghost before = used;
            let kind: u64 = match u64::decode(c) {
                Ok(kind) => kind,
                Err(e) => {
                    proof {
                        assert(read_entries(b, (i + 1) as nat) is Err);
                        lemma_read_entries_stops(b, (i + 1) as nat, count as nat);
                    }
                    return Err(e);
                },
            };
            let ghost m = read_varint(b.skip(used))->Ok_0.1;
            assert(b.skip(used).skip(m) == b.skip(used + m));
            if params.has(kind) {
                proof {
                    assert(read_entries(b, (i + 1) as nat) is Err);
                    lemma_read_entries_stops(b, (i + 1) as nat, count as nat);
                }
                return Err(DecodeError::DuplicateParameter);
            }
            match decode_bytes(c) {
                Ok(value) => {
                    proof {
                        let k = read_bytes(b.skip(used + m))->Ok_0.1;
                        assert(b.skip(used + m).skip(k) == b.skip(used + m + k));
                        used = used + m + k;
                    }
                    let ghost vv = value@;
                    params.entries.push((kind, value));
                    assert(params@ == was.push((kind, vv)));
                },
                Err(e) => {
                    proof {
                        assert(read_entries(b, (i + 1) as nat) is Err);
                        lemma_read_entries_stops(b, (i + 1) as nat, count as nat);
                    }
                    return Err(e);
                },
            }
            i = i + 1;
        }
        assert(start.rest().skip(n).skip(used) == start.rest().skip(n + used));
        Ok(params)
    }
}

impl Encode for Params {
    open spec fn encoding(v: Seq<ParamView>) -> Encoding {
        write_params(v)
    }

    fn encode(&self, w: &mut bytes::BytesMut) -> (r: Result<(), EncodeError>) {
        let ghost start = buffered(*w);
        let count: u64 = self.entries.len() as u64;
        let ghost v = self@;
        let ghost head = varint(count).0;
        if let Err(e) = count.encode(w) {
            return Err(e);
        }
        let mut i: usize = 0;
        assert(v.take(0) == Seq::<ParamView>::empty());
        assert(start + head + write_entries(v.take(0)).0 == start + head);
        while i < self.entries.len()
            invariant
                i <= self.entries@.len(),
                v == self@,
                start == buffered(*old(w)),
                varint(v.len() as u64) == (head, None::<EncodeError>),
                start.len() + write_params(v).0.len() <= isize::MAX,
                buffered(*w) == start + head + write_entries(v.take(i as int)).0,
                write_entries(v.take(i as int)).1 is None,
            decreases self.entries@.len() - i,
        {
            let ghost p = v[i as int];
            let ghost so_far = write_entries(v.take(i as int)).0;
            proof {
                assert(v.take(i + 1).drop_last() == v.take(i as int));
                assert(p == (self.entries@[i as int].0, self.entries@[i as int].1@));
                lemma_write_entries_prefix(v, i + 1);
            }
            let kind: u64 = self.entries[i].0;
            if let Err(e) = kind.encode(w) {
                assert(buffered(*w) == start + write_params(v).0);
                return Err(e);
            }
            let r: Result<(), EncodeError> = encode_bytes(self.entries[i].1.as_slice(), w);
            assert(buffered(*w) == start + head + write_entries(v.take(i + 1)).0);
            if let Err(e) = r {
                assert(buffered(*w) == start + write_params(v).0);
                return Err(e);
            }
            i = i + 1;
        }
        assert(v.take(i as int) == v);
        assert(buffered(*w) == start + write_params(v).0);
        Ok(())
    }
}

/// Whether every parameter can be written.
pub open spec fn params_fit(v: Seq<ParamView>) -> bool {
    forall|i: int|
        #![trigger v[i]]
        0 <= i < v.len() ==> v[i].0 < VARINT_LIMIT && v[i].1.len() < VARINT_LIMIT && v[i].1.len()
            <= usize::MAX
}

proof fn lemma_entries_round_trip(v: Seq<ParamView>, rest: Seq<u8>)
    requires
        params_fit(v),
        distinct(v),
    ensures
        write_entries(v).1 is None,
        read_entries(write_entries(v).0 + rest, v.len()) == Ok::<(Seq<ParamView>, int), DecodeError>(
            (v, write_entries(v).0.len() as int),
        ),
    decreases v.len(),
{
    if v.len() > 0 {
        let d = v.drop_last();
        let p = v.last();
        let kind = varint(p.0).0;
        let value = write_bytes(p.1).0;
        assert(params_fit(d));
        assert(p == v[v.len() - 1]);
        varint_round_trip(p.0, value + rest);
        bytes_round_trip(p.1, rest);
        lemma_entries_round_trip(d, write_param(p).0 + rest);
        let all = write_entries(v).0 + rest;
        let n = write_entries(d).0.len() as int;
        assert(all == write_entries(d).0 + (write_param(p).0 + rest));
        assert(all.skip(n) == kind + (value + rest));
        assert(all.skip(n + kind.len()) == value + rest);
        lemma_param_index(d, p.0, 0);
        assert(!has_param(d, p.0)) by {
            if has_param(d, p.0) {
                let i = param_index(d, p.0, 0);
                assert(v[i].0 == v[v.len() - 1].0);
            }
        }
        assert(d.push(p) == v);
    } else {
        assert(v == Seq::<ParamView>::empty());
    }
}

/// Parameters read back, and take their bytes and no more.
pub proof fn params_round_trip(v: Seq<ParamView>, rest: Seq<u8>)
    requires
        v.len() < VARINT_LIMIT,
        params_fit(v),
        distinct(v),
    ensures
        write_params(v).1 is None,
        read_params(write_params(v).0 + rest) == Ok::<(Seq<ParamView>, int), DecodeError>(
            (v, write_params(v).0.len() as int),
        ),
{
    let head = varint(v.len() as u64).0;
    lemma_entries_round_trip(v, rest);
    varint_round_trip(v.len() as u64, write_entries(v).0 + rest);
    let all = write_params(v).0 + rest;
    assert(all == head + (write_entries(v).0 + rest));
    assert(all.skip(head.len() as int) == write_entries(v).0 + rest);
}

/// Setting a number and taking it out again gives the number back and leaves the
/// other parameters as they were.
pub proof fn set_then_get(v: Seq<ParamView>, kind: u64, x: u64)
    requires
        x < VARINT_LIMIT,
    ensures
        ({
            let w = with_param(v, kind, varint(x).0);
            &&& param_number(w, kind) == Ok::<Option<u64>, DecodeError>(Some(x))
            &&& without_param(w, kind) == without_param(v, kind)
        }),
{
    let w = with_param(v, kind, varint(x).0);
    lemma_param_index(v, kind, 0);
    lemma_param_index(w, kind, 0);
    let at = param_index(v, kind, 0);
    let i = param_index(w, kind, 0);
    assert(w[at].0 == kind);
    if i < at {
        assert(v[i] == w[i]);
    }
    assert(i == at);
    varint_round_trip(x, Seq::empty());
    assert(varint(x).0 + Seq::<u8>::empty() == varint(x).0);
    assert(w.remove(i) == without_param(v, kind));
}

/// Setting a parameter keeps the parameters distinct.
pub proof fn set_keeps_distinct(v: Seq<ParamView>, kind: u64, value: Seq<u8>)
    requires
        distinct(v),
    ensures
        distinct(with_param(v, kind, value)),
{
    lemma_param_index(v, kind, 0);
}

/// Setting a parameter adds at most one, and leaves every parameter such that it can
/// be written where the new one can.
pub proof fn set_keeps_fit(v: Seq<ParamView>, kind: u64, value: Seq<u8>)
    requires
        params_fit(v),
        kind < VARINT_LIMIT,
        value.len() < VARINT_LIMIT,
        value.len() <= usize::MAX,
    ensures
        params_fit(with_param(v, kind, value)),
        with_param(v, kind, value).len() <= v.len() + 1,
{
    lemma_param_index(v, kind, 0);
}

impl SelfDelimited for Params {
    proof fn reading_is_steady(b: Seq<u8>, more: Seq<u8>) {
        params_are_steady(b, more);
    }
}

/// Parameters are written as their number and then each one: its kind, and its value
/// behind its length. Another one comes behind those before.
pub proof fn parameters_are_written_one_by_one(v: Seq<ParamView>, kind: u64, value: Seq<u8>)
    requires
        v.len() + 1 < VARINT_LIMIT,
        params_fit(v),
        kind < VARINT_LIMIT,
        value.len() < VARINT_LIMIT,
        value.len() <= usize::MAX,
    ensures
        Params::encoding(Seq::empty()) == (seq![0u8], None::<EncodeError>),
        Params::encoding(v).1 is None,
        Params::encoding(v.push((kind, value))).1 is None,
        Params::encoding(v.push((kind, value))).0.skip(
            u64::encoding((v.len() + 1) as u64).0.len() as int,
        ) == Params::encoding(v).0.skip(u64::encoding(v.len() as u64).0.len() as int)
            + u64::encoding(kind).0 + u64::encoding(value.len() as u64).0 + value,
        Params::encoding(v).0.take(u64::encoding(v.len() as u64).0.len() as int) == u64::encoding(
            v.len() as u64,
        ).0,
{
    let w = v.push((kind, value));
    lemma_entries_fit(v);
    lemma_one_more(v, kind, value);
    lemma_behind_their_number(v);
    lemma_behind_their_number(w);
    numbers_are_written_in_the_fewest_bytes(0);
    lemma_behind_their_number(Seq::empty());
    assert(Params::encoding(Seq::empty()).0 =~= seq![0u8]);
}

/// The parameters are written behind their number.
proof fn lemma_behind_their_number(v: Seq<ParamView>)
    requires
        v.len() < VARINT_LIMIT,
    ensures
        ({
            let a = varint(v.len() as u64).0;
            let e = write_entries(v);
            &&& varint(v.len() as u64).1 is None
            &&& write_params(v) == (a + e.0, e.1)
            &&& (a + e.0).skip(a.len() as int) == e.0
            &&& (a + e.0).take(a.len() as int) == a
        }),
{
    let a = varint(v.len() as u64).0;
    let e = write_entries(v).0;
    varint_len(v.len() as u64);
    assert((a + e).skip(a.len() as int) =~= e);
    assert((a + e).take(a.len() as int) =~= a);
}

/// Another parameter is written behind those before.
proof fn lemma_one_more(v: Seq<ParamView>, kind: u64, value: Seq<u8>)
    requires
        write_entries(v).1 is None,
        kind < VARINT_LIMIT,
        value.len() < VARINT_LIMIT,
        value.len() <= usize::MAX,
    ensures
        write_entries(v.push((kind, value))) == (
            write_entries(v).0 + varint(kind).0 + varint(value.len() as u64).0 + value,
            None::<EncodeError>,
        ),
{
    let w = v.push((kind, value));
    varint_len(kind);
    varint_len(value.len() as u64);
    assert(w.drop_last() =~= v);
    let e = write_entries(v).0;
    let a = varint(kind).0;
    let b = varint(value.len() as u64).0;
    assert(e + (a + (b + value)) =~= e + a + b + value);
}

/// Parameters that fit are written without an error.
proof fn lemma_entries_fit(v: Seq<ParamView>)
    requires
        params_fit(v),
    ensures
        write_entries(v).1 is None,
    decreases v.len(),
{
    if v.len() > 0 {
        let p = v.last();
        assert(params_fit(v.drop_last()));
        lemma_entries_fit(v.drop_last());
        assert(v[v.len() - 1].0 < VARINT_LIMIT);
        varint_round_trip(p.0, Seq::empty());
        varint_round_trip(p.1.len() as u64, Seq::empty());
    }
}

/// A parameter that is set is there and gives its number; setting it again replaces it,
/// and taking it takes it out. The others stay as they were, in their order. A number
/// that cannot be written is not set.
pub proof fn parameters_are_set_and_taken(
    p: &mut Params,
    kind: u64,
    x: u64,
    r: Result<(), EncodeError>,
    q: &mut Params,
    g: Result<Option<u64>, DecodeError>,
    there: bool,
    gone: bool,
    k: int,
)
    requires
        call_ensures(Params::set, (p, kind, x), r),
        *old(q) == *final(p),
        call_ensures(Params::has, (old(q), kind), there),
        call_ensures(Params::get, (q, kind), g),
        call_ensures(Params::has, (final(q), kind), gone),
        distinct(old(p)@),
    ensures
        r is Ok == (x < 4611686018427387904),
        r is Err ==> final(p)@ == old(p)@ && r == Err::<(), EncodeError>(
            EncodeError::BoundsExceeded,
        ),
        r is Ok ==> there && g == Ok::<Option<u64>, DecodeError>(Some(x)),
        r is Ok && old(p)@[k].0 == kind && 0 <= k < old(p)@.len() ==> final(p)@.len()
            == old(p)@.len() && final(p)@[k].0 == kind && forall|i: int|
            0 <= i < old(p)@.len() && i != k ==> #[trigger] final(p)@[i] == old(p)@[i],
        !gone,
        old(p)@[k].0 == kind && 0 <= k < old(p)@.len() ==> final(q)@ == old(p)@.take(k)
            + old(p)@.skip(k + 1),
        forall|i: int| 0 <= i < final(q)@.len() ==> (#[trigger] final(q)@[i]).0 != kind,
        (forall|i: int| 0 <= i < old(p)@.len() ==> (#[trigger] old(p)@[i]).0 != kind) ==> final(q)@
            == old(p)@,
{
    numbers_are_written_in_the_fewest_bytes(x);
    let v = old(p)@;
    lemma_param_index(v, kind, 0);
    lemma_param_index(final(p)@, kind, 0);
    if x < VARINT_LIMIT {
        set_then_get(v, kind, x);
        varint_round_trip(x, Seq::empty());
    }
    let w = final(q)@;
    lemma_param_index(w, kind, 0);
    assert(w == without_param(v, kind));
    if 0 <= k < v.len() && v[k].0 == kind {
        assert(param_index(v, kind, 0) == k);
        assert(w =~= v.take(k) + v.skip(k + 1));
    }
    assert forall|i: int| 0 <= i < w.len() implies (#[trigger] w[i]).0 != kind by {
        let at = param_index(v, kind, 0);
        if at < v.len() {
            if i < at {
                assert(w[i] == v[i]);
            } else {
                assert(w[i] == v[i + 1]);
            }
        } else {
            assert(w[i] == v[i]);
        }
    }
}

/// A new list has no parameters, and a copy has the same.
pub proof fn a_copy_has_the_same_parameters(p: Params, c: Params, n: Params)
    requires
        call_ensures(Params::copy, (&p,), c),
        call_ensures(Params::new, (), n),
    ensures
        c@ == p@,
        n@.len() == 0,
{
}

/// Parameters of which one comes twice are not read.
pub proof fn a_parameter_that_comes_twice_is_an_error(v: Seq<ParamView>, k: int, rest: Seq<u8>)
    requires
        v.len() + 1 < VARINT_LIMIT,
        params_fit(v),
        distinct(v),
        0 <= k < v.len(),
    ensures
        ({
            let entries = Params::encoding(v).0.skip(u64::encoding(v.len() as u64).0.len() as int);
            Params::decoding(
                u64::encoding((v.len() + 1) as u64).0 + entries + u64::encoding(v[k].0).0 + rest,
            ) == Err::<(Seq<ParamView>, int), DecodeError>(DecodeError::DuplicateParameter)
        }),
{
    let c = varint((v.len() + 1) as u64).0;
    let e = write_entries(v).0;
    let f = varint(v[k].0).0 + rest;
    lemma_behind_their_number(v);
    assert(v[k].0 < VARINT_LIMIT);
    varint_round_trip(v[k].0, rest);
    lemma_entries_round_trip(v, f);
    lemma_param_index(v, v[k].0, 0);
    assert((e + f).skip(e.len() as int) =~= f);
    assert(read_entries(e + f, v.len() + 1) == Err::<(Seq<ParamView>, int), DecodeError>(
        DecodeError::DuplicateParameter,
    ));
    let all = c + e + varint(v[k].0).0 + rest;
    assert(all =~= c + (e + f));
    varint_round_trip((v.len() + 1) as u64, e + f);
    assert(all.skip(c.len() as int) =~= e + f);
}

} // verus!
