//! A map keyed by strings that keeps its entries in insertion order. Setting a key that is
//! already present replaces its value in place; a new key goes to the end. No key occurs twice.
//! Two maps are equal when they hold the same keys with equal values, whatever their order.
use vstd::prelude::*;
use vstd::std_specs::cmp::{PartialEqSpec, PartialEqSpecImpl};

verus! {

/// No two entries of `s` have the same key.
pub open spec fn distinct_keys<V>(s: Seq<(String, V)>) -> bool {
    forall|i: int, j: int|
        0 <= i < s.len() && 0 <= j < s.len() && i != j ==> #[trigger] s[i].0@ != #[trigger] s[j].0@
}

/// The position of the last entry of `s` whose key is `key`, or -1 when there is none.
pub open spec fn key_position<V>(s: Seq<(String, V)>, key: Seq<char>) -> int
    decreases s.len(),
{
    if s.len() == 0 {
        -1
    } else if s.last().0@ == key {
        s.len() - 1
    } else {
        key_position(s.drop_last(), key)
    }
}

/// The value stored under `key` in `s`.
pub open spec fn lookup<V>(s: Seq<(String, V)>, key: Seq<char>) -> Option<V> {
    let i = key_position(s, key);
    if i >= 0 {
        Some(s[i].1)
    } else {
        None
    }
}

/// The entries after `key` is set to `value`: replaced in place when present, appended otherwise.
pub open spec fn set_entry<V>(s: Seq<(String, V)>, key: String, value: V) -> Seq<(String, V)> {
    let i = key_position(s, key@);
    if i >= 0 {
        s.update(i, (key, value))
    } else {
        s.push((key, value))
    }
}

/// What `key_position` finds.
pub proof fn lemma_key_position<V>(s: Seq<(String, V)>, key: Seq<char>)
    ensures
        -1 <= key_position(s, key) < s.len(),
        key_position(s, key) >= 0 ==> s[key_position(s, key)].0@ == key,
        forall|j: int| key_position(s, key) < j < s.len() ==> s[j].0@ != key,
    decreases s.len(),
{
    if s.len() > 0 && s.last().0@ != key {
        lemma_key_position(s.drop_last(), key);
        assert forall|j: int| key_position(s, key) < j < s.len() implies s[j].0@ != key by {
            if j < s.len() - 1 {
                assert(s.drop_last()[j] == s[j]);
            }
        }
    }
}

/// With distinct keys, an entry holding `key` is the one `key_position` finds.
pub proof fn lemma_key_position_unique<V>(s: Seq<(String, V)>, key: Seq<char>, j: int)
    requires
        distinct_keys(s),
        0 <= j < s.len(),
        s[j].0@ == key,
    ensures
        key_position(s, key) == j,
{
    lemma_key_position(s, key);
    let i = key_position(s, key);
    if i != j {
        assert(s[i].0@ != s[j].0@);
    }
}

/// Setting a key keeps the keys distinct.
pub proof fn lemma_set_entry_distinct<V>(s: Seq<(String, V)>, key: String, value: V)
    requires
        distinct_keys(s),
    ensures
        distinct_keys(set_entry(s, key, value)),
{
    lemma_key_position(s, key@);
    let t = set_entry(s, key, value);
    assert forall|i: int, j: int|
        0 <= i < t.len() && 0 <= j < t.len() && i != j implies #[trigger] t[i].0@ != #[trigger] t[j].0@ by {
        if key_position(s, key@) < 0 {
            if i < s.len() && j < s.len() {
                assert(s[i].0@ != s[j].0@);
            }
        } else {
            assert(s[i].0@ != s[j].0@);
        }
    }
}

/// After `key` is set to `value`, looking `key` up gives `value`, and every other key keeps its value.
pub proof fn lemma_lookup_after_set<V>(s: Seq<(String, V)>, key: String, value: V, other: Seq<char>)
    requires
        distinct_keys(s),
    ensures
        lookup(set_entry(s, key, value), key@) == Some(value),
        other != key@ ==> lookup(set_entry(s, key, value), other) == lookup(s, other),
{
    let t = set_entry(s, key, value);
    lemma_key_position(s, key@);
    lemma_key_position(s, other);
    lemma_set_entry_distinct(s, key, value);
    let i = key_position(s, key@);
    if i >= 0 {
        lemma_key_position_unique(t, key@, i);
    } else {
        lemma_key_position_unique(t, key@, s.len() as int);
    }
    if other != key@ {
        let k = key_position(s, other);
        lemma_key_position(t, other);
        if k >= 0 {
            lemma_key_position_unique(t, other, k);
        } else {
            let m = key_position(t, other);
            if m >= 0 {
                assert(t[m].0@ == other);
                if i < 0 && m == s.len() {
                } else {
                    assert(s[m].0@ == other);
                }
            }
        }
    }
}

/// The entries with their keys as character sequences.
pub open spec fn keyed<V>(s: Seq<(String, V)>) -> Seq<(Seq<char>, V)> {
    s.map_values(|e: (String, V)| (e.0@, e.1))
}

/// Setting a key gives the same keyed entries whichever string of the same characters is the key.
pub proof fn lemma_keyed_set_entry<V>(s: Seq<(String, V)>, k1: String, k2: String, value: V)
    requires
        k1@ == k2@,
    ensures
        keyed(set_entry(s, k1, value)) == keyed(set_entry(s, k2, value)),
{
    lemma_key_position(s, k1@);
    let i = key_position(s, k1@);
    let a = set_entry(s, k1, value);
    let b = set_entry(s, k2, value);
    assert(a.len() == b.len());
    assert forall|j: int| 0 <= j < a.len() implies #[trigger] keyed(a)[j] == keyed(b)[j] by {
        if j == i || (i < 0 && j == s.len() as int) {
            assert(a[j].0@ == k1@);
            assert(b[j].0@ == k2@);
        } else {
            assert(a[j] == s[j]);
            assert(b[j] == s[j]);
        }
    }
    assert(keyed(a) =~= keyed(b));
}

/// The entry `e` is found in `b` under its key, with a value that `==` calls equal to its own.
pub open spec fn found_equal<V: PartialEq>(e: (String, V), b: Seq<(String, V)>) -> bool {
    match lookup(b, e.0@) {
        Some(w) => <V as PartialEqSpec>::eq_spec(&e.1, &w),
        None => false,
    }
}

/// `a` and `b` hold the same number of entries, and each entry of `a` is found in `b` with an
/// equal value; with distinct keys, they hold the same keys with equal values, in any order.
pub open spec fn same_entries<V: PartialEq>(a: Seq<(String, V)>, b: Seq<(String, V)>) -> bool {
    &&& a.len() == b.len()
    &&& forall|i: int| 0 <= i < a.len() ==> found_equal(#[trigger] a[i], b)
}

/// A map from strings to values, in insertion order.
#[derive(Debug)]
pub struct StringMap<V> {
    entries: Vec<(String, V)>,
}

impl<V> StringMap<V> {
    /// The entries, in insertion order.
    pub closed spec fn spec_entries(self) -> Seq<(String, V)> {
        self.entries@
    }

    #[verifier::type_invariant]
    closed spec fn keys_are_distinct(self) -> bool {
        distinct_keys(self.entries@)
    }

    /// No key occurs twice; every map built by this module's operations satisfies it.
    pub open spec fn spec_wf(self) -> bool {
        distinct_keys(self.spec_entries())
    }

    /// The value stored under `key`.
    pub open spec fn spec_get(self, key: Seq<char>) -> Option<V> {
        lookup(self.spec_entries(), key)
    }

    /// An empty map.
    pub fn new() -> (map: Self)
        ensures
            map.spec_entries() == Seq::<(String, V)>::empty(),
            map.spec_wf(),
    {
        StringMap { entries: Vec::new() }
    }

    /// The number of entries.
    pub fn len(&self) -> (n: usize)
        ensures
            n == self.spec_entries().len(),
    {
        self.entries.len()
    }

    /// The entries, in insertion order; no key occurs twice.
    pub fn entries(&self) -> (entries: &Vec<(String, V)>)
        ensures
            entries@ == self.spec_entries(),
            self.spec_wf(),
    {
        proof {
            use_type_invariant(self);
        }
        &self.entries
    }

    /// The entries, in insertion order, taken out of the map; no key occurs twice.
    pub fn into_entries(self) -> (entries: Vec<(String, V)>)
        ensures
            entries@ == self.spec_entries(),
            distinct_keys(entries@),
    {
        proof {
            use_type_invariant(&self);
        }
        self.entries
    }

    /// The value stored under `key`, if any.
    pub fn get(&self, key: &String) -> (value: Option<&V>)
        ensures
            match value {
                Some(v) => self.spec_get(key@) == Some(*v),
                None => self.spec_get(key@) is None,
            },
    {
        proof {
            use_type_invariant(self);
            lemma_key_position(self.entries@, key@);
        }
        let n = self.entries.len();
        let mut i: usize = 0;
        while i < n
            invariant
                n == self.entries@.len(),
                i <= n,
                distinct_keys(self.entries@),
                forall|j: int| 0 <= j < i ==> self.entries@[j].0@ != key@,
            decreases n - i,
        {
            if self.entries[i].0 == *key {
                proof {
                    lemma_key_position_unique(self.entries@, key@, i as int);
                }
                return Some(&self.entries[i].1);
            }
            i = i + 1;
        }
        None
    }

    /// Whether `key` is present.
    pub fn contains_key(&self, key: &String) -> (present: bool)
        ensures
            present == self.spec_get(key@) is Some,
    {
        match self.get(key) {
            Some(_) => true,
            None => false,
        }
    }

    /// Sets `key` to `value`: an entry with that key is replaced in place, otherwise one is appended.
    pub fn insert(&mut self, key: String, value: V)
        ensures
            final(self).spec_entries() == set_entry(old(self).spec_entries(), key, value),
            final(self).spec_wf(),
    {
        proof {
            use_type_invariant(&*self);
        }
        let mut entries: Vec<(String, V)> = Vec::new();
        std::mem::swap(&mut entries, &mut self.entries);
        proof {
            lemma_key_position(entries@, key@);
            lemma_set_entry_distinct(entries@, key, value);
        }
        let ghost before = entries@;
        let n = entries.len();
        let mut i: usize = 0;
        while i < n
            invariant
                n == entries@.len(),
                entries@ == before,
                before == old(self).entries@,
                i <= n,
                distinct_keys(before),
                forall|j: int| 0 <= j < i ==> before[j].0@ != key@,
            decreases n - i,
        {
            if entries[i].0 == key {
                proof {
                    lemma_key_position_unique(before, key@, i as int);
                }
                entries.set(i, (key, value));
                assert(entries@ == set_entry(before, key, value));
                self.entries = entries;
                return;
            }
            i = i + 1;
        }
        entries.push((key, value));
        assert(entries@ =~= set_entry(before, key, value));
        self.entries = entries;
    }
}

impl<V: PartialEq> PartialEq for StringMap<V> {
    /// Whether the two maps hold the same keys with equal values, whatever their order.
    fn eq(&self, other: &Self) -> (equal: bool) {
        proof {
            use_type_invariant(self);
            use_type_invariant(other);
        }
        if self.entries.len() != other.entries.len() {
            return false;
        }
        let n = self.entries.len();
        let mut i: usize = 0;
        while i < n
            invariant
                n == self.entries@.len(),
                n == other.entries@.len(),
                i <= n,
                <V as PartialEqSpec>::obeys_eq_spec() ==> forall|j: int|
                    0 <= j < i ==> found_equal(#[trigger] self.entries@[j], other.entries@),
            decreases n - i,
        {
            match other.get(&self.entries[i].0) {
                Some(w) => {
                    if !(self.entries[i].1 == *w) {
                        return false;
                    }
                },
                None => {
                    return false;
                },
            }
            i = i + 1;
        }
        true
    }
}

impl<V: PartialEq> PartialEqSpecImpl for StringMap<V> {
    open spec fn obeys_eq_spec() -> bool {
        <V as PartialEqSpec>::obeys_eq_spec()
    }

    open spec fn eq_spec(&self, other: &StringMap<V>) -> bool {
        same_entries(self.spec_entries(), other.spec_entries())
    }
}

/// Maps that hold the same keys with the same values are equal, whatever the order of their
/// entries, for values whose equality holds of each value and itself.
pub proof fn law_equal_whatever_order<V: PartialEq>(a: StringMap<V>, b: StringMap<V>)
    requires
        a.spec_wf(),
        b.spec_wf(),
        a.spec_entries().len() == b.spec_entries().len(),
        forall|key: Seq<char>| #[trigger] a.spec_get(key) == b.spec_get(key),
        forall|v: V| #[trigger] <V as PartialEqSpec>::eq_spec(&v, &v),
    ensures
        <StringMap<V> as PartialEqSpec>::eq_spec(&a, &b),
{
    let ea = a.spec_entries();
    assert forall|i: int| 0 <= i < ea.len() implies found_equal(#[trigger] ea[i], b.spec_entries()) by {
        lemma_key_position_unique(ea, ea[i].0@, i);
        assert(a.spec_get(ea[i].0@) == Some(ea[i].1));
        assert(b.spec_get(ea[i].0@) == Some(ea[i].1));
        assert(<V as PartialEqSpec>::eq_spec(&ea[i].1, &ea[i].1));
    }
}

} // verus!
