//! A table of values under distinct keys.

use vstd::prelude::*;

verus! {

/// What values can stand under.
pub trait Key: View {
    /// Whether two keys are the same.
    fn same_key(&self, other: &Self) -> (r: bool)
        ensures
            r == (self@ == other@),
    ;
}

impl Key for String {
    fn same_key(&self, other: &Self) -> (r: bool) {
        *self == *other
    }
}

/// A finite map from keys to values.
#[derive(Debug)]
pub struct Table<K, V> {
    entries: Vec<(K, V)>,
}

/// Where `key` stands among `entries`; the length where it does not.
spec fn place<K: Key, V>(entries: Seq<(K, V)>, key: K::V, from: int) -> int
    decreases entries.len() - from,
{
    if from >= entries.len() {
        entries.len() as int
    } else if entries[from].0@ == key {
        from
    } else {
        place(entries, key, from + 1)
    }
}

proof fn lemma_place<K: Key, V>(entries: Seq<(K, V)>, key: K::V, from: int)
    requires
        0 <= from <= entries.len(),
    ensures
        from <= place(entries, key, from) <= entries.len(),
        place(entries, key, from) < entries.len() ==> entries[place(entries, key, from)].0@ == key,
        forall|i: int| from <= i < place(entries, key, from) ==> entries[i].0@ != key,
    decreases entries.len() - from,
{
    if from < entries.len() && entries[from].0@ != key {
        lemma_place(entries, key, from + 1);
    }
}

impl<K: Key, V> View for Table<K, V> {
    type V = Map<K::V, V>;

    closed spec fn view(&self) -> Map<K::V, V> {
        Map::new(
            |k: K::V| place(self.entries@, k, 0) < self.entries@.len(),
            |k: K::V| self.entries@[place(self.entries@, k, 0)].1,
        )
    }
}

impl<K: Key, V> Table<K, V> {
    /// No key stands twice in the table.
    pub closed spec fn wf(&self) -> bool {
        forall|i: int, j: int|
            0 <= i < j < self.entries@.len() ==> self.entries@[i].0@ != self.entries@[j].0@
    }

    proof fn lemma_entry(&self, i: int)
        requires
            self.wf(),
            0 <= i < self.entries@.len(),
        ensures
            place(self.entries@, self.entries@[i].0@, 0) == i,
            self@.dom().contains(self.entries@[i].0@),
            self@[self.entries@[i].0@] == self.entries@[i].1,
    {
        lemma_place(self.entries@, self.entries@[i].0@, 0);
    }

    /// A table with nothing in it.
    pub fn new() -> (r: Self)
        ensures
            r.wf(),
            r@ == Map::<K::V, V>::empty(),
    {
        let r = Table { entries: Vec::new() };
        assert(r@ == Map::<K::V, V>::empty());
        r
    }

    fn position(&self, key: &K) -> (r: usize)
        ensures
            r == place(self.entries@, key@, 0),
            r <= self.entries@.len(),
    {
        let mut i: usize = 0;
        while i < self.entries.len() && !self.entries[i].0.same_key(key)
            invariant
                i <= self.entries@.len(),
                place(self.entries@, key@, 0) == place(self.entries@, key@, i as int),
            decreases self.entries@.len() - i,
        {
            i = i + 1;
        }
        i
    }

    /// The value under `key`, if there is one.
    pub fn get(&self, key: &K) -> (r: Option<&V>)
        ensures
            r is Some == self@.dom().contains(key@),
            r matches Some(v) ==> *v == self@[key@],
    {
        let i: usize = self.position(key);
        if i < self.entries.len() {
            Some(&self.entries[i].1)
        } else {
            None
        }
    }

    /// Whether there is a value under `key`.
    pub fn contains(&self, key: &K) -> (r: bool)
        ensures
            r == self@.dom().contains(key@),
    {
        self.position(key) < self.entries.len()
    }

    /// Puts `value` under `key` and hands back what stood there.
    pub fn insert(&mut self, key: K, value: V) -> (r: Option<V>)
        requires
            old(self).wf(),
        ensures
            final(self).wf(),
            final(self)@ == old(self)@.insert(key@, value),
            r == (if old(self)@.dom().contains(key@) {
                Some(old(self)@[key@])
            } else {
                None
            }),
    {
        let before: Option<V> = self.remove(&key);
        let ghost mid = *self;
        self.entries.push((key, value));
        proof {
            assert forall|i: int| 0 <= i < mid.entries@.len() implies mid.entries@[i].0@ != key@ by {
                mid.lemma_entry(i);
                assert(!mid@.dom().contains(key@));
            }
            assert(self.wf());
            let want = old(self)@.insert(key@, value);
            let n = mid.entries@.len() as int;
            assert(self.entries@[n] == (key, value));
            assert forall|k: K::V| #[trigger]
                self@.dom().contains(k) == want.dom().contains(k) && (self@.dom().contains(k)
                    ==> self@[k] == want[k]) by {
                lemma_place(self.entries@, k, 0);
                lemma_place(mid.entries@, k, 0);
                let p = place(mid.entries@, k, 0);
                let q = place(self.entries@, k, 0);
                if k == key@ {
                    self.lemma_entry(n);
                } else if p < n {
                    assert(self.entries@[p] == mid.entries@[p]);
                    self.lemma_entry(p);
                    assert(mid@.dom().contains(k));
                    assert(old(self)@.dom().contains(k) && old(self)@[k] == mid@[k]);
                } else {
                    if q < n {
                        assert(mid.entries@[q] == self.entries@[q]);
                    }
                    assert(!mid@.dom().contains(k));
                    assert(!old(self)@.dom().contains(k));
                }
            }
            assert(self@ =~= old(self)@.insert(key@, value));
        }
        before
    }

    /// Takes out what stands under `key`.
    pub fn remove(&mut self, key: &K) -> (r: Option<V>)
        requires
            old(self).wf(),
        ensures
            final(self).wf(),
            final(self)@ == old(self)@.remove(key@),
            r == (if old(self)@.dom().contains(key@) {
                Some(old(self)@[key@])
            } else {
                None
            }),
    {
        let i: usize = self.position(key);
        if i < self.entries.len() {
            let ghost e = self.entries@;
            proof {
                lemma_place(e, key@, 0);
            }
            let (_, v) = self.entries.remove(i);
            proof {
                let f = self.entries@;
                assert(f == e.remove(i as int));
                assert(self.wf());
                let want = old(self)@.remove(key@);
                assert forall|k: K::V| #[trigger]
                    self@.dom().contains(k) == want.dom().contains(k) && (self@.dom().contains(k)
                        ==> self@[k] == want[k]) by {
                    lemma_place(f, k, 0);
                    lemma_place(e, k, 0);
                    let p = place(e, k, 0);
                    let q = place(f, k, 0);
                    if k == key@ {
                        if q < f.len() {
                            let q2 = if q < i { q } else { q + 1 };
                            assert(e[q2] == f[q]);
                            assert(e[i as int].0@ == key@);
                        }
                    } else {
                        if p < e.len() {
                            let p2 = if p < i { p } else { p - 1 };
                            assert(f[p2] == e[p]);
                            self.lemma_entry(p2);
                        } else if q < f.len() {
                            let q2 = if q < i { q } else { q + 1 };
                            assert(e[q2] == f[q]);
                        }
                    }
                }
                assert(self@ =~= old(self)@.remove(key@));
            }
            Some(v)
        } else {
            assert(self@ =~= old(self)@.remove(key@));
            None
        }
    }
}

impl<V> Table<String, V> {
    /// The keys, each once.
    pub fn names(&self) -> (r: Vec<String>)
        requires
            self.wf(),
        ensures
            forall|i: int, j: int|
                0 <= i < j < r@.len() ==> (#[trigger] r@[i])@ != (#[trigger] r@[j])@,
            forall|i: int| 0 <= i < r@.len() ==> self@.dom().contains((#[trigger] r@[i])@),
            forall|k: Seq<char>|
                self@.dom().contains(k) ==> exists|i: int|
                    0 <= i < r@.len() && (#[trigger] r@[i])@ == k,
    {
        let mut out: Vec<String> = Vec::new();
        let mut i: usize = 0;
        while i < self.entries.len()
            invariant
                self.wf(),
                i <= self.entries@.len(),
                out@.len() == i,
                forall|j: int| 0 <= j < i ==> (#[trigger] out@[j])@ == self.entries@[j].0@,
            decreases self.entries@.len() - i,
        {
            out.push(self.entries[i].0.clone());
            i = i + 1;
        }
        proof {
            assert forall|j: int| 0 <= j < out@.len() implies self@.dom().contains(
                (#[trigger] out@[j])@,
            ) by {
                self.lemma_entry(j);
            }
            assert forall|k: Seq<char>| self@.dom().contains(k) implies exists|i: int|
                0 <= i < out@.len() && (#[trigger] out@[i])@ == k by {
                lemma_place(self.entries@, k, 0);
                let p = place(self.entries@, k, 0);
                assert(out@[p]@ == k);
            }
        }
        out
    }
}

/// What is put under a key stands there until it is replaced or taken out, and is handed
/// back then; what stands under another key is untouched. A new table has nothing.
pub proof fn values_stand_under_their_keys<K: Key, V>(
    empty: Table<K, V>,
    t: &mut Table<K, V>,
    key: K,
    a: V,
    ra: Option<V>,
    u: &mut Table<K, V>,
    again: K,
    b: V,
    rb: Option<V>,
    there: bool,
    w: &mut Table<K, V>,
    last: &K,
    rc: Option<V>,
    left: bool,
    other: &K,
    before: bool,
    after: bool,
)
    requires
        call_ensures(Table::<K, V>::new, (), empty),
        call_ensures(Table::<K, V>::insert, (t, key, a), ra),
        *old(u) == *final(t),
        again@ == key@,
        call_ensures(Table::<K, V>::insert, (u, again, b), rb),
        call_ensures(Table::<K, V>::contains, (final(u), last), there),
        *old(w) == *final(u),
        last@ == key@,
        call_ensures(Table::<K, V>::remove, (w, last), rc),
        call_ensures(Table::<K, V>::contains, (final(w), last), left),
        other@ != key@,
        call_ensures(Table::<K, V>::contains, (old(t), other), before),
        call_ensures(Table::<K, V>::contains, (final(w), other), after),
    ensures
        rb == Some(a),
        there,
        rc == Some(b),
        !left,
        after == before,
        before ==> final(w)@[other@] == old(t)@[other@],
        ra is Some == old(t)@.contains_key(key@),
        ra is Some ==> ra == Some(old(t)@[key@]),
        forall|k: K::V| !empty@.contains_key(k),
{
}

/// What is asked for is what was put in.
pub proof fn what_was_put_in_is_found<K: Key, V>(
    t: &mut Table<K, V>,
    key: K,
    v: V,
    r: Option<V>,
    same: &K,
    found: Option<&V>,
)
    requires
        call_ensures(Table::<K, V>::insert, (t, key, v), r),
        same@ == key@,
        call_ensures(Table::<K, V>::get, (final(t), same), found),
    ensures
        found matches Some(w) && *w == v,
{
}

/// A name that is handed out is that of an entry, and is handed out once.
pub proof fn names_are_those_of_the_entries<V>(
    t: &Table<String, V>,
    names: Vec<String>,
    name: &String,
    there: bool,
)
    requires
        call_ensures(Table::<String, V>::names, (t,), names),
        call_ensures(Table::<String, V>::contains, (t, name), there),
    ensures
        forall|i: int| 0 <= i < names@.len() && (#[trigger] names@[i])@ == name@ ==> there,
        forall|i: int, j: int|
            0 <= i < names@.len() && 0 <= j < names@.len() && i != j ==> (#[trigger] names@[i])@ != (
            #[trigger] names@[j])@,
{
    assert forall|i: int, j: int|
        0 <= i < names@.len() && 0 <= j < names@.len() && i != j implies (#[trigger] names@[i])@ != (
    #[trigger] names@[j])@ by {
        if i < j {
            assert(names@[i]@ != names@[j]@);
        } else {
            assert(names@[j]@ != names@[i]@);
        }
    }
}

} // verus!
