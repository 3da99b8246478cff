//! Maps from text to values, kept in the order of their keys.
//!
//! A map is modelled by its entries in order: a sequence of pairs whose keys
//! rise strictly. [`lookup`] and [`inserted`] say what reading and writing do.

use vstd::prelude::*;

use crate::text::text_eq;
use crate::text::text_less;

verus! {

// ---------------------------------------------------------------------------
// Models
// ---------------------------------------------------------------------------

/// The value that the first entry under `key` holds.
pub open spec fn lookup<V>(s: Seq<(Seq<char>, V)>, key: Seq<char>) -> Option<V>
    decreases s.len(),
{
    if s.len() == 0 {
        None
    } else if s[0].0 == key {
        Some(s[0].1)
    } else {
        lookup(s.drop_first(), key)
    }
}

/// The entries after `value` has been stored under `key`: an entry under an
/// equal key is replaced, otherwise a new one takes its place in the order.
pub open spec fn inserted<V>(s: Seq<(Seq<char>, V)>, key: Seq<char>, value: V) -> Seq<
    (Seq<char>, V),
>
    decreases s.len(),
{
    if s.len() == 0 {
        seq![(key, value)]
    } else if s[0].0 == key {
        seq![(key, value)] + s.drop_first()
    } else if crate::text::text_lt(key, s[0].0) {
        seq![(key, value)] + s
    } else {
        seq![s[0]] + inserted(s.drop_first(), key, value)
    }
}

/// The keys of `s` rise strictly.
pub open spec fn keys_rise<V>(s: Seq<(Seq<char>, V)>) -> bool {
    forall|i: int, j: int|
        0 <= i < j < s.len() ==> crate::text::text_lt(#[trigger] s[i].0, #[trigger] s[j].0)
}

/// The entries of a vector of pairs, with each key taken as text.
pub open spec fn pairs<V>(s: Seq<(String, V)>) -> Seq<(Seq<char>, V)> {
    s.map_values(|e: (String, V)| (e.0@, e.1))
}

// ---------------------------------------------------------------------------
// Lemmas
// ---------------------------------------------------------------------------

/// `lookup` finds the entry at `i` where no earlier entry has its key.
pub proof fn lemma_lookup_at<V>(s: Seq<(Seq<char>, V)>, key: Seq<char>, i: int)
    requires
        0 <= i < s.len(),
        s[i].0 == key,
        forall|j: int| 0 <= j < i ==> (#[trigger] s[j]).0 != key,
    ensures
        lookup(s, key) == Some(s[i].1),
    decreases s.len(),
{
    if i > 0 {
        assert(s[0].0 != key);
        assert forall|j: int| 0 <= j < i - 1 implies (#[trigger] s.drop_first()[j]).0 != key by {
            assert(s[j + 1].0 != key);
        }
        lemma_lookup_at(s.drop_first(), key, i - 1);
    }
}

/// `lookup` finds nothing where no entry has the key.
pub proof fn lemma_lookup_none<V>(s: Seq<(Seq<char>, V)>, key: Seq<char>)
    requires
        forall|j: int| 0 <= j < s.len() ==> (#[trigger] s[j]).0 != key,
    ensures
        lookup(s, key) is None,
    decreases s.len(),
{
    if s.len() > 0 {
        assert(s[0].0 != key);
        assert forall|j: int| 0 <= j < s.drop_first().len() implies (
        #[trigger] s.drop_first()[j]).0 != key by {
            assert(s[j + 1].0 != key);
        }
        lemma_lookup_none(s.drop_first(), key);
    }
}

/// What `lookup` finds is an entry; where it finds nothing, no entry has the
/// key.
pub proof fn lemma_lookup<V>(s: Seq<(Seq<char>, V)>, key: Seq<char>)
    ensures
        match lookup(s, key) {
            Some(v) => exists|i: int|
                0 <= i < s.len() && (#[trigger] s[i]).0 == key && s[i].1 == v,
            None => forall|i: int| 0 <= i < s.len() ==> (#[trigger] s[i]).0 != key,
        },
    decreases s.len(),
{
    if s.len() > 0 && s[0].0 != key {
        let t = s.drop_first();
        lemma_lookup(t, key);
        match lookup(t, key) {
            Some(v) => {
                let i = choose|i: int| 0 <= i < t.len() && (#[trigger] t[i]).0 == key && t[i].1 == v;
                assert(s[i + 1].0 == key && s[i + 1].1 == v);
            },
            None => {
                assert forall|i: int| 0 <= i < s.len() implies (#[trigger] s[i]).0 != key by {
                    if i > 0 {
                        assert(t[i - 1].0 != key);
                    }
                }
            },
        }
    }
}

/// In a map whose keys rise, `lookup` under the key of the entry at `i` finds
/// that entry.
pub proof fn lemma_lookup_sorted<V>(s: Seq<(Seq<char>, V)>, i: int)
    requires
        keys_rise(s),
        0 <= i < s.len(),
    ensures
        lookup(s, s[i].0) == Some(s[i].1),
{
    assert forall|j: int| 0 <= j < i implies (#[trigger] s[j]).0 != s[i].0 by {
        crate::text::lemma_text_lt_irreflexive(s[i].0);
        assert(crate::text::text_lt(s[j].0, s[i].0));
    }
    lemma_lookup_at(s, s[i].0, i);
}

/// A stored value is found again under its key, and every other key finds
/// what it found before.
pub proof fn lemma_lookup_inserted<V>(
    s: Seq<(Seq<char>, V)>,
    key: Seq<char>,
    value: V,
    other: Seq<char>,
)
    ensures
        lookup(inserted(s, key, value), other) == if other == key {
            Some(value)
        } else {
            lookup(s, other)
        },
    decreases s.len(),
{
    reveal_with_fuel(lookup, 2);
    let r = inserted(s, key, value);
    if s.len() == 0 {
        assert(r.drop_first() =~= Seq::empty());
    } else if s[0].0 == key {
        assert(r.drop_first() =~= s.drop_first());
    } else if crate::text::text_lt(key, s[0].0) {
        assert(r.drop_first() =~= s);
    } else {
        assert(r.drop_first() =~= inserted(s.drop_first(), key, value));
        lemma_lookup_inserted(s.drop_first(), key, value, other);
    }
}

/// Storing keeps the order of the keys.
pub proof fn lemma_inserted_rises<V>(s: Seq<(Seq<char>, V)>, key: Seq<char>, value: V)
    requires
        keys_rise(s),
    ensures
        keys_rise(inserted(s, key, value)),
        forall|i: int|
            0 <= i < inserted(s, key, value).len() ==> (#[trigger] inserted(s, key, value)[i]).0
                == key || exists|j: int| 0 <= j < s.len() && (#[trigger] s[j]).0 == inserted(
                s,
                key,
                value,
            )[i].0,
    decreases s.len(),
{
    let r = inserted(s, key, value);
    if s.len() == 0 {
    } else {
        let t = s.drop_first();
        assert forall|i: int, j: int| 0 <= i < j < t.len() implies crate::text::text_lt(
            #[trigger] t[i].0,
            #[trigger] t[j].0,
        ) by {
            assert(crate::text::text_lt(s[i + 1].0, s[j + 1].0));
        }
        if s[0].0 == key {
            assert forall|i: int, j: int| 0 <= i < j < r.len() implies crate::text::text_lt(
                #[trigger] r[i].0,
                #[trigger] r[j].0,
            ) by {
                assert(r[i].0 == s[i].0);
                assert(r[j].0 == s[j].0);
            }
            assert forall|i: int| 0 <= i < r.len() implies (#[trigger] r[i]).0 == key || exists|j: int|
                0 <= j < s.len() && (#[trigger] s[j]).0 == r[i].0 by {
                assert(r[i].0 == s[i].0);
            }
        } else if crate::text::text_lt(key, s[0].0) {
            assert forall|i: int, j: int| 0 <= i < j < r.len() implies crate::text::text_lt(
                #[trigger] r[i].0,
                #[trigger] r[j].0,
            ) by {
                assert(r[j] == s[j - 1]);
                if i == 0 {
                    if j > 1 {
                        assert(crate::text::text_lt(s[0].0, s[j - 1].0));
                        crate::text::lemma_text_lt_transitive(key, s[0].0, s[j - 1].0);
                    }
                } else {
                    assert(r[i] == s[i - 1]);
                }
            }
            assert forall|i: int| 0 <= i < r.len() implies (#[trigger] r[i]).0 == key || exists|j: int|
                0 <= j < s.len() && (#[trigger] s[j]).0 == r[i].0 by {
                if i > 0 {
                    assert(r[i] == s[i - 1]);
                }
            }
        } else {
            lemma_inserted_rises(t, key, value);
            let u = inserted(t, key, value);
            crate::text::lemma_text_lt_total(key, s[0].0);
            assert forall|i: int| 0 <= i < u.len() implies (#[trigger] u[i]).0 == key || exists|j: int|
                0 <= j < s.len() && j > 0 && (#[trigger] s[j]).0 == u[i].0 by {
                if u[i].0 != key {
                    let j = choose|j: int| 0 <= j < t.len() && (#[trigger] t[j]).0 == u[i].0;
                    assert(s[j + 1].0 == u[i].0);
                }
            }
            assert forall|i: int, j: int| 0 <= i < j < r.len() implies crate::text::text_lt(
                #[trigger] r[i].0,
                #[trigger] r[j].0,
            ) by {
                assert(r[j] == u[j - 1]);
                if i == 0 {
                    if u[j - 1].0 != key {
                        let k = choose|k: int|
                            0 <= k < s.len() && k > 0 && (#[trigger] s[k]).0 == u[j - 1].0;
                        assert(crate::text::text_lt(s[0].0, s[k].0));
                    }
                } else {
                    assert(r[i] == u[i - 1]);
                }
            }
            assert forall|i: int| 0 <= i < r.len() implies (#[trigger] r[i]).0 == key || exists|j: int|
                0 <= j < s.len() && (#[trigger] s[j]).0 == r[i].0 by {
                if i == 0 {
                    assert(s[0].0 == r[0].0);
                } else {
                    assert(r[i] == u[i - 1]);
                }
            }
        }
    }
}

/// Storing a number below a bound keeps all numbers below it.
pub proof fn lemma_inserted_values(
    s: Seq<(Seq<char>, usize)>,
    key: Seq<char>,
    value: usize,
    bound: nat,
)
    requires
        value < bound,
        forall|i: int| 0 <= i < s.len() ==> (#[trigger] s[i]).1 < bound,
    ensures
        forall|i: int|
            0 <= i < inserted(s, key, value).len() ==> (#[trigger] inserted(s, key, value)[i]).1
                < bound,
    decreases s.len(),
{
    if s.len() > 0 {
        let t = s.drop_first();
        assert forall|i: int| 0 <= i < t.len() implies (#[trigger] t[i]).1 < bound by {
            assert(s[i + 1].1 < bound);
        }
        lemma_inserted_values(t, key, value, bound);
        let r = inserted(s, key, value);
        assert forall|i: int| 0 <= i < r.len() implies (#[trigger] r[i]).1 < bound by {
            if s[0].0 == key {
                if i > 0 {
                    assert(r[i] == t[i - 1]);
                }
            } else if crate::text::text_lt(key, s[0].0) {
                if i > 0 {
                    assert(r[i] == s[i - 1]);
                }
            } else {
                if i > 0 {
                    assert(r[i] == inserted(t, key, value)[i - 1]);
                } else {
                    assert(r[i] == s[0]);
                }
            }
        }
    }
}

/// Storing under a key that stands after all others appends an entry.
pub proof fn lemma_inserted_last<V>(s: Seq<(Seq<char>, V)>, key: Seq<char>, value: V)
    requires
        forall|i: int| 0 <= i < s.len() ==> crate::text::text_lt((#[trigger] s[i]).0, key),
    ensures
        inserted(s, key, value) == s.push((key, value)),
    decreases s.len(),
{
    if s.len() == 0 {
        assert(inserted(s, key, value) =~= s.push((key, value)));
    } else {
        assert(crate::text::text_lt(s[0].0, key));
        crate::text::lemma_text_lt_irreflexive(key);
        if crate::text::text_lt(key, s[0].0) {
            crate::text::lemma_text_lt_transitive(key, s[0].0, key);
        }
        let t = s.drop_first();
        assert forall|i: int| 0 <= i < t.len() implies crate::text::text_lt(
            (#[trigger] t[i]).0,
            key,
        ) by {
            assert(crate::text::text_lt(s[i + 1].0, key));
        }
        lemma_inserted_last(t, key, value);
        assert(inserted(s, key, value) =~= s.push((key, value)));
    }
}

/// Storing under the key of the entry at `i` replaces that entry.
pub proof fn lemma_inserted_at<V>(s: Seq<(Seq<char>, V)>, i: int, value: V)
    requires
        keys_rise(s),
        0 <= i < s.len(),
    ensures
        inserted(s, s[i].0, value) == s.update(i, (s[i].0, value)),
    decreases s.len(),
{
    let key = s[i].0;
    if i == 0 {
        assert(inserted(s, key, value) =~= s.update(i, (key, value)));
    } else {
        let t = s.drop_first();
        assert(crate::text::text_lt(s[0].0, s[i].0));
        crate::text::lemma_text_lt_irreflexive(key);
        if crate::text::text_lt(key, s[0].0) {
            crate::text::lemma_text_lt_transitive(key, s[0].0, key);
        }
        assert forall|j: int, k: int| 0 <= j < k < t.len() implies crate::text::text_lt(
            #[trigger] t[j].0,
            #[trigger] t[k].0,
        ) by {
            assert(crate::text::text_lt(s[j + 1].0, s[k + 1].0));
        }
        lemma_inserted_at(t, i - 1, value);
        assert(inserted(s, key, value) =~= s.update(i, (key, value)));
    }
}

/// Storing under the key of the entry at `i` of a map, after the earlier
/// entries were replaced by others under the same keys, appends an entry.
pub proof fn lemma_inserted_next<V, W>(
    s: Seq<(Seq<char>, V)>,
    out: Seq<(Seq<char>, W)>,
    i: int,
    value: W,
)
    requires
        keys_rise(s),
        0 <= i < s.len(),
        out.len() == i,
        forall|j: int| 0 <= j < i ==> (#[trigger] out[j]).0 == s[j].0,
    ensures
        inserted(out, s[i].0, value) == out.push((s[i].0, value)),
{
    assert forall|j: int| 0 <= j < out.len() implies crate::text::text_lt(
        (#[trigger] out[j]).0,
        s[i].0,
    ) by {
        assert(crate::text::text_lt(s[j].0, s[i].0));
    }
    lemma_inserted_last(out, s[i].0, value);
}

// ---------------------------------------------------------------------------
// Vectors of pairs
// ---------------------------------------------------------------------------

/// The value that the first entry under `key` holds.
pub fn vec_get<'a, V>(v: &'a Vec<(String, V)>, key: &str) -> (r: Option<&'a V>)
    ensures
        match r {
            Some(x) => lookup(pairs(v@), key@) == Some(*x),
            None => lookup(pairs(v@), key@) is None,
        },
        r is Some ==> exists|i: int|
            0 <= i < v@.len() && (#[trigger] v@[i]).0@ == key@ && v@[i].1 == *r->Some_0,
{
    let mut i: usize = 0;
    while i < v.len()
        invariant
            i <= v@.len(),
            forall|j: int| 0 <= j < i ==> (#[trigger] v@[j]).0@ != key@,
        decreases v@.len() - i,
    {
        if text_eq(v[i].0.as_str(), key) {
            proof {
                let s = pairs(v@);
                assert forall|j: int| 0 <= j < i implies (#[trigger] s[j]).0 != key@ by {
                    assert(v@[j].0@ != key@);
                }
                lemma_lookup_at(s, key@, i as int);
                assert(v@[i as int].0@ == key@);
            }
            return Some(&v[i].1);
        }
        i = i + 1;
    }
    proof {
        let s = pairs(v@);
        assert forall|j: int| 0 <= j < s.len() implies (#[trigger] s[j]).0 != key@ by {
            assert(v@[j].0@ != key@);
        }
        lemma_lookup_none(s, key@);
    }
    None
}

/// Stores `value` under `key`.
pub fn vec_insert<V>(v: &mut Vec<(String, V)>, key: String, value: V)
    ensures
        pairs(final(v)@) == inserted(pairs(old(v)@), key@, value),
{
    let mut i: usize = 0;
    let ghost s = pairs(v@);
    assert(s.subrange(0, 0) + inserted(s.subrange(0, s.len() as int), key@, value) =~= inserted(
        s,
        key@,
        value,
    )) by {
        assert(s.subrange(0, s.len() as int) =~= s);
    }
    while i < v.len()
        invariant
            i <= v@.len(),
            v@ == old(v)@,
            s == pairs(v@),
            inserted(s, key@, value) == s.subrange(0, i as int) + inserted(
                s.subrange(i as int, s.len() as int),
                key@,
                value,
            ),
        decreases v@.len() - i,
    {
        let ghost rest = s.subrange(i as int, s.len() as int);
        assert(rest[0] == s[i as int]);
        assert(s[i as int].0 == v@[i as int].0@);
        assert(rest.drop_first() =~= s.subrange(i + 1, s.len() as int));
        if text_eq(v[i].0.as_str(), key.as_str()) {
            v.set(i, (key, value));
            assert(pairs(v@) =~= inserted(s, key@, value));
            return ;
        }
        if text_less(key.as_str(), v[i].0.as_str()) {
            v.insert(i, (key, value));
            assert(pairs(v@) =~= inserted(s, key@, value));
            return ;
        }
        assert(s.subrange(0, i + 1) =~= s.subrange(0, i as int) + seq![s[i as int]]);
        assert(inserted(s, key@, value) =~= s.subrange(0, i + 1) + inserted(
            s.subrange(i + 1, s.len() as int),
            key@,
            value,
        ));
        i = i + 1;
    }
    v.push((key, value));
    assert(s.subrange(i as int, s.len() as int) =~= Seq::empty());
    assert(pairs(v@) =~= inserted(s, key@, value));
}

// ---------------------------------------------------------------------------
// StrMap
// ---------------------------------------------------------------------------

/// A map from text to values of type `V`, in the order of its keys.
#[derive(Debug, PartialEq, Eq)]
pub struct StrMap<V> {
    entries: Vec<(String, V)>,
}

impl<V> View for StrMap<V> {
    type V = Seq<(Seq<char>, V)>;

    closed spec fn view(&self) -> Seq<(Seq<char>, V)> {
        pairs(self.entries@)
    }
}

impl<V> StrMap<V> {
    #[verifier::type_invariant]
    spec fn rises(self) -> bool {
        keys_rise(pairs(self.entries@))
    }

    /// A map without entries.
    pub fn new() -> (r: StrMap<V>)
        ensures
            r@ == Seq::<(Seq<char>, V)>::empty(),
    {
        let entries: Vec<(String, V)> = Vec::new();
        assert(pairs(entries@) =~= Seq::empty());
        StrMap { entries }
    }

    /// Stores `value` under `key`, in place of what that key held.
    pub fn insert(&mut self, key: String, value: V)
        ensures
            final(self)@ == inserted(old(self)@, key@, value),
            keys_rise(final(self)@),
    {
        proof {
            use_type_invariant(&*self);
            lemma_inserted_rises(pairs(self.entries@), key@, value);
        }
        let mut entries: Vec<(String, V)> = Vec::new();
        assert(keys_rise(pairs(entries@)));
        std::mem::swap(&mut entries, &mut self.entries);
        vec_insert(&mut entries, key, value);
        self.entries = entries;
    }

    /// The value under `key`.
    pub fn get(&self, key: &str) -> (r: Option<&V>)
        ensures
            match r {
                Some(x) => lookup(self@, key@) == Some(*x),
                None => lookup(self@, key@) is None,
            },
    {
        vec_get(&self.entries, key)
    }

    /// Whether there is a value under `key`.
    pub fn contains_key(&self, key: &str) -> (r: bool)
        ensures
            r == lookup(self@, key@) is Some,
    {
        vec_get(&self.entries, key).is_some()
    }

    /// The number of entries.
    pub fn len(&self) -> (r: usize)
        ensures
            r == self@.len(),
            keys_rise(self@),
    {
        proof {
            use_type_invariant(self);
        }
        self.entries.len()
    }

    /// The key of the entry at position `i` of the order.
    pub fn key_at(&self, i: usize) -> (r: &String)
        requires
            i < self@.len(),
        ensures
            r@ == self@[i as int].0,
    {
        &self.entries[i].0
    }

    /// The value of the entry at position `i` of the order.
    pub fn value_at(&self, i: usize) -> (r: &V)
        requires
            i < self@.len(),
        ensures
            *r == self@[i as int].1,
    {
        &self.entries[i].1
    }
}

impl<W> StrMap<Vec<W>> {
    /// Appends `value` to the values under `key`.
    pub fn append(&mut self, key: String, value: W)
        ensures
            lookup(final(self)@, key@) is Some,
            final(self)@ == inserted(old(self)@, key@, lookup(final(self)@, key@)->Some_0),
            lookup(final(self)@, key@)->Some_0@ == match lookup(old(self)@, key@) {
                Some(v) => v@.push(value),
                None => seq![value],
            },
    {
        proof {
            use_type_invariant(&*self);
        }
        let ghost s = self@;
        let n: usize = self.entries.len();
        let mut at: usize = 0;
        while at < n && !text_eq(self.entries[at].0.as_str(), key.as_str())
            invariant
                *self == *old(self),
                s == self@,
                at <= n == self.entries@.len(),
                forall|j: int| 0 <= j < at ==> (#[trigger] s[j]).0 != key@,
            decreases n - at,
        {
            assert(s[at as int].0 == self.entries@[at as int].0@);
            at = at + 1;
        }
        let mut entries: Vec<(String, Vec<W>)> = Vec::new();
        assert(keys_rise(pairs(entries@)));
        std::mem::swap(&mut entries, &mut self.entries);
        if at < n {
            let (name, mut values) = entries.remove(at);
            assert(s[at as int] == (name@, values));
            proof {
                lemma_lookup_at(s, key@, at as int);
            }
            values.push(value);
            proof {
                lemma_inserted_at(s, at as int, values);
                lemma_inserted_rises(s, key@, values);
                lemma_lookup_inserted(s, key@, values, key@);
            }
            entries.insert(at, (name, values));
            assert(pairs(entries@) =~= s.update(at as int, (key@, values)));
            self.entries = entries;
        } else {
            proof {
                lemma_lookup_none(s, key@);
            }
            let mut values: Vec<W> = Vec::new();
            values.push(value);
            proof {
                lemma_inserted_rises(s, key@, values);
                lemma_lookup_inserted(s, key@, values, key@);
            }
            vec_insert(&mut entries, key, values);
            self.entries = entries;
            assert(values@ =~= seq![value]);
        }
    }
}

/// The entries with each value replaced by what `f` gives of it.
pub open spec fn mapped<V, W>(s: Seq<(Seq<char>, V)>, f: spec_fn(V) -> W) -> Seq<(Seq<char>, W)> {
    s.map_values(|e: (Seq<char>, V)| (e.0, f(e.1)))
}

/// Reading a mapped map gives what `f` gives of the value read.
pub proof fn lemma_lookup_mapped<V, W>(
    s: Seq<(Seq<char>, V)>,
    f: spec_fn(V) -> W,
    key: Seq<char>,
)
    ensures
        lookup(mapped(s, f), key) == match lookup(s, key) {
            Some(v) => Some(f(v)),
            None => None,
        },
    decreases s.len(),
{
    if s.len() > 0 {
        assert(mapped(s, f).drop_first() =~= mapped(s.drop_first(), f));
        lemma_lookup_mapped(s.drop_first(), f, key);
    }
}

/// Storing and mapping is mapping and storing.
pub proof fn lemma_inserted_mapped<V, W>(
    s: Seq<(Seq<char>, V)>,
    f: spec_fn(V) -> W,
    key: Seq<char>,
    value: V,
)
    ensures
        mapped(inserted(s, key, value), f) == inserted(mapped(s, f), key, f(value)),
    decreases s.len(),
{
    if s.len() > 0 {
        lemma_inserted_mapped(s.drop_first(), f, key, value);
        assert(mapped(s, f).drop_first() =~= mapped(s.drop_first(), f));
    }
    assert(mapped(inserted(s, key, value), f) =~= inserted(mapped(s, f), key, f(value)));
}

/// The texts of a map from text to text.
pub open spec fn text_entries(m: Seq<(Seq<char>, String)>) -> Seq<(Seq<char>, Seq<char>)> {
    mapped(m, |s: String| s@)
}

/// The text under `key`.
pub fn text_get<'a>(m: &'a StrMap<String>, key: &str) -> (r: Option<&'a String>)
    ensures
        match r {
            Some(s) => lookup(text_entries(m@), key@) == Some(s@),
            None => lookup(text_entries(m@), key@) is None,
        },
{
    proof {
        lemma_lookup_mapped(m@, |s: String| s@, key@);
    }
    m.get(key)
}

/// Copies a map from text to text.
pub fn clone_text_map(m: &StrMap<String>) -> (r: StrMap<String>)
    ensures
        text_entries(r@) == text_entries(m@),
{
    let mut out: StrMap<String> = StrMap::new();
    let n: usize = m.len();
    let ghost all = text_entries(m@);
    assert(text_entries(out@) =~= Seq::empty());
    let mut i: usize = 0;
    while i < n
        invariant
            i <= n == m@.len(),
            keys_rise(m@),
            all == text_entries(m@),
            text_entries(out@) == all.subrange(0, i as int),
        decreases n - i,
    {
        let key = m.key_at(i).clone();
        let value = m.value_at(i).clone();
        let ghost before = out@;
        proof {
            let s = all.subrange(0, i as int);
            assert forall|j: int| 0 <= j < s.len() implies crate::text::text_lt(
                (#[trigger] s[j]).0,
                key@,
            ) by {
                assert(s[j].0 == m@[j].0);
                assert(crate::text::text_lt(m@[j].0, m@[i as int].0));
            }
            lemma_inserted_last(s, key@, value@);
            lemma_inserted_mapped(before, |x: String| x@, key@, value);
            assert(all.subrange(0, i + 1) =~= s.push((key@, value@)));
        }
        out.insert(key, value);
        i = i + 1;
    }
    assert(all.subrange(0, n as int) =~= all);
    out
}

} // verus!
