//! A string-keyed map kept as an insertion-ordered vector of entries.
//!
//! Every key occurs at most once (the type invariant). Lookups compare keys
//! character by character, so the map's behaviour is specified entirely over
//! the keys' character sequences.

use vstd::prelude::*;

use crate::text::{sort_strings, sorted_strings, str_eq};

verus! {

/// No key occurs twice in an entry sequence.
pub open spec fn keys_distinct<V>(s: Seq<(Seq<char>, V)>) -> bool {
    forall|i: int, j: int| 0 <= i < s.len() && 0 <= j < s.len() && i != j ==> s[i].0 != s[j].0
}

/// Position of the last entry with key `k`, or -1 when there is none.
pub open spec fn index_of_key<V>(s: Seq<(Seq<char>, V)>, k: Seq<char>) -> int
    decreases s.len(),
{
    if s.len() == 0 {
        -1
    } else if s.last().0 == k {
        s.len() - 1
    } else {
        index_of_key(s.drop_last(), k)
    }
}

pub open spec fn has_key<V>(s: Seq<(Seq<char>, V)>, k: Seq<char>) -> bool {
    index_of_key(s, k) >= 0
}

pub open spec fn value_at_key<V>(s: Seq<(Seq<char>, V)>, k: Seq<char>) -> V {
    s[index_of_key(s, k)].1
}

/// Optional lookup of a key.
pub open spec fn lookup<V>(s: Seq<(Seq<char>, V)>, k: Seq<char>) -> Option<V> {
    if has_key(s, k) {
        Some(value_at_key(s, k))
    } else {
        None
    }
}

/// The entry sequence after inserting `(k, v)`: an existing key keeps its
/// position and takes the new value, a new key goes to the end.
pub open spec fn insert_entry<V>(s: Seq<(Seq<char>, V)>, k: Seq<char>, v: V) -> Seq<(Seq<char>, V)> {
    if has_key(s, k) {
        s.update(index_of_key(s, k), (k, v))
    } else {
        s.push((k, v))
    }
}

/// The entry sequence after removing key `k` (unchanged when absent).
pub open spec fn remove_entry<V>(s: Seq<(Seq<char>, V)>, k: Seq<char>) -> Seq<(Seq<char>, V)> {
    if has_key(s, k) {
        s.remove(index_of_key(s, k))
    } else {
        s
    }
}

/// The keys of an entry sequence, in order.
pub open spec fn keys_of<V>(s: Seq<(Seq<char>, V)>) -> Seq<Seq<char>> {
    s.map_values(|e: (Seq<char>, V)| e.0)
}

pub broadcast proof fn lemma_index_of_key<V>(s: Seq<(Seq<char>, V)>, k: Seq<char>)
    ensures
        -1 <= #[trigger] index_of_key(s, k) < s.len(),
        index_of_key(s, k) >= 0 ==> s[index_of_key(s, k)].0 == k,
        index_of_key(s, k) == -1 ==> forall|i: int| 0 <= i < s.len() ==> s[i].0 != k,
        keys_distinct(s) ==> forall|i: int| 0 <= i < s.len() && s[i].0 == k ==> index_of_key(s, k) == i,
    decreases s.len(),
{
    if s.len() > 0 {
        lemma_index_of_key(s.drop_last(), k);
        if s.last().0 != k {
            assert forall|i: int| 0 <= i < s.len() - 1 implies s.drop_last()[i] == s[i] by {}
        }
    }
}

pub broadcast group group_strmap {
    lemma_index_of_key,
}

/// Map law of insertion: afterwards `k` maps to `v`, every other key maps to
/// what it mapped to before, and keys stay distinct.
pub proof fn law_insert_then_lookup<V>(s: Seq<(Seq<char>, V)>, k: Seq<char>, v: V)
    requires
        keys_distinct(s),
    ensures
        keys_distinct(insert_entry(s, k, v)),
        lookup(insert_entry(s, k, v), k) == Some(v),
        forall|k2: Seq<char>| k2 != k ==> #[trigger] lookup(insert_entry(s, k, v), k2) == lookup(s, k2),
{
    lemma_index_of_key(s, k);
    let t = insert_entry(s, k, v);
    if has_key(s, k) {
        let i = index_of_key(s, k);
        assert forall|a: int, b: int| 0 <= a < t.len() && 0 <= b < t.len() && a != b implies t[a].0 != t[b].0 by {
            assert(t[a].0 == s[a].0);
            assert(t[b].0 == s[b].0);
        }
        lemma_index_of_key(t, k);
        assert(t[i].0 == k);
    } else {
        assert forall|a: int, b: int| 0 <= a < t.len() && 0 <= b < t.len() && a != b implies t[a].0 != t[b].0 by {
            if a < s.len() && b < s.len() {
                assert(t[a] == s[a] && t[b] == s[b]);
            }
        }
        lemma_index_of_key(t, k);
        assert(t[s.len() as int].0 == k);
    }
    assert forall|k2: Seq<char>| k2 != k implies #[trigger] lookup(insert_entry(s, k, v), k2) == lookup(s, k2) by {
        lemma_index_of_key(s, k2);
        lemma_index_of_key(t, k2);
        if has_key(s, k2) {
            let m = index_of_key(s, k2);
            assert(t[m] == s[m]);
        } else {
            assert forall|j: int| 0 <= j < t.len() implies t[j].0 != k2 by {
                if j < s.len() {
                    assert(t[j].0 == s[j].0);
                }
            }
        }
    }
}

/// Map law of removal: afterwards `k` is absent, every other key maps to
/// what it mapped to before, and keys stay distinct.
pub proof fn law_remove_then_lookup<V>(s: Seq<(Seq<char>, V)>, k: Seq<char>)
    requires
        keys_distinct(s),
    ensures
        keys_distinct(remove_entry(s, k)),
        lookup(remove_entry(s, k), k) is None,
        forall|k2: Seq<char>| k2 != k ==> #[trigger] lookup(remove_entry(s, k), k2) == lookup(s, k2),
{
    lemma_index_of_key(s, k);
    let t = remove_entry(s, k);
    if has_key(s, k) {
        let i = index_of_key(s, k);
        assert forall|j: int| 0 <= j < t.len() implies #[trigger] t[j] == (if j < i { s[j] } else { s[j + 1] }) by {}
        assert forall|a: int, b: int| 0 <= a < t.len() && 0 <= b < t.len() && a != b implies t[a].0 != t[b].0 by {
            let a2 = if a < i { a } else { a + 1 };
            let b2 = if b < i { b } else { b + 1 };
            assert(t[a] == s[a2] && t[b] == s[b2]);
        }
        lemma_index_of_key(t, k);
        assert forall|j: int| 0 <= j < t.len() implies t[j].0 != k by {
            let j2 = if j < i { j } else { j + 1 };
            assert(t[j] == s[j2]);
        }
        assert forall|k2: Seq<char>| k2 != k implies #[trigger] lookup(remove_entry(s, k), k2) == lookup(s, k2) by {
            lemma_index_of_key(s, k2);
            lemma_index_of_key(t, k2);
            if has_key(s, k2) {
                let m = index_of_key(s, k2);
                let m2 = if m < i { m } else { m - 1 };
                assert(t[m2] == s[m]);
            } else {
                assert forall|j: int| 0 <= j < t.len() implies t[j].0 != k2 by {
                    let j2 = if j < i { j } else { j + 1 };
                    assert(t[j] == s[j2]);
                }
            }
        }
    }
}

/// A map from string keys to values, kept in insertion order.
#[derive(Debug)]
pub struct StrMap<V: DeepView> {
    entries: Vec<(String, V)>,
}

impl<V: DeepView> View for StrMap<V> {
    type V = Seq<(Seq<char>, V::V)>;

    closed spec fn view(&self) -> Seq<(Seq<char>, V::V)> {
        self.entries.deep_view()
    }
}

impl<V: DeepView> DeepView for StrMap<V> {
    type V = Seq<(Seq<char>, V::V)>;

    open spec fn deep_view(&self) -> Seq<(Seq<char>, V::V)> {
        self@
    }
}

impl<V: DeepView> StrMap<V> {
    #[verifier::type_invariant]
    closed spec fn inv(self) -> bool {
        keys_distinct(self.entries.deep_view())
    }

    /// An empty map.
    pub fn new() -> (r: Self)
        ensures
            r@ == Seq::<(Seq<char>, V::V)>::empty(),
    {
        let r = StrMap { entries: Vec::new() };
        assert(r.entries.deep_view() =~= Seq::<(Seq<char>, V::V)>::empty());
        r
    }

    /// Number of entries.
    pub fn len(&self) -> (r: usize)
        ensures
            r == self@.len(),
    {
        self.entries.len()
    }

    /// Whether the map has no entries.
    pub fn is_empty(&self) -> (r: bool)
        ensures
            r == (self@.len() == 0),
    {
        self.entries.len() == 0
    }

    /// Position of key `k`, if present.
    fn position(&self, k: &str) -> (r: Option<usize>)
        ensures
            match r {
                Some(i) => i == index_of_key(self@, k@) && i < self@.len(),
                None => !has_key(self@, k@),
            },
    {
        broadcast use group_strmap;
        proof {
            use_type_invariant(self);
        }
        let n = self.entries.len();
        let mut i: usize = 0;
        while i < n
            invariant
                n == self@.len(),
                self@ == self.entries.deep_view(),
                i <= n,
                forall|j: int| 0 <= j < i ==> self@[j].0 != k@,
            decreases n - i,
        {
            if str_eq(self.entries[i].0.as_str(), k) {
                proof {
                    use_type_invariant(self);
                    assert(self@[i as int].0 == k@);
                    lemma_index_of_key(self@, k@);
                }
                return Some(i);
            }
            i = i + 1;
        }
        None
    }

    /// Whether key `k` is present.
    pub fn contains_key(&self, k: &str) -> (r: bool)
        ensures
            r == has_key(self@, k@),
    {
        self.position(k).is_some()
    }

    /// The value stored under key `k`.
    pub fn get(&self, k: &str) -> (r: Option<&V>)
        ensures
            match r {
                Some(v) => has_key(self@, k@) && v.deep_view() == value_at_key(self@, k@),
                None => !has_key(self@, k@),
            },
    {
        match self.position(k) {
            Some(i) => Some(&self.entries[i].1),
            None => None,
        }
    }

    /// The entries in insertion order.
    pub fn entries(&self) -> (r: &Vec<(String, V)>)
        ensures
            r.deep_view() == self@,
            keys_distinct(self@),
    {
        proof {
            use_type_invariant(self);
        }
        &self.entries
    }

    /// Inserts `(k, v)`, replacing the value of an existing key in place.
    pub fn insert(&mut self, k: String, v: V)
        ensures
            final(self)@ == insert_entry(old(self)@, k@, v.deep_view()),
    {
        broadcast use group_strmap;
        proof {
            use_type_invariant(&*self);
        }
        let pos = self.position(k.as_str());
        let ghost old_view = self@;
        let mut entries: Vec<(String, V)> = Vec::new();
        std::mem::swap(&mut entries, &mut self.entries);
        assert(entries.deep_view() == old_view);
        match pos {
            Some(i) => {
                entries.set(i, (k, v));
                assert(entries.deep_view() =~= old_view.update(i as int, (k@, v.deep_view())));
            },
            None => {
                entries.push((k, v));
                assert(entries.deep_view() =~= old_view.push((k@, v.deep_view())));
            },
        }
        self.entries = entries;
    }

    /// Removes key `k` if present.
    pub fn remove(&mut self, k: &str)
        ensures
            final(self)@ == remove_entry(old(self)@, k@),
    {
        broadcast use group_strmap;
        proof {
            use_type_invariant(&*self);
        }
        let pos = self.position(k);
        let ghost old_view = self@;
        match pos {
            Some(i) => {
                let mut entries: Vec<(String, V)> = Vec::new();
                std::mem::swap(&mut entries, &mut self.entries);
                assert(entries.deep_view() == old_view);
                entries.remove(i);
                assert(entries.deep_view() =~= old_view.remove(i as int));
                self.entries = entries;
            },
            None => {},
        }
    }

    /// Removes every entry.
    pub fn clear(&mut self)
        ensures
            final(self)@ == Seq::<(Seq<char>, V::V)>::empty(),
    {
        self.entries = Vec::new();
        assert(self.entries.deep_view() =~= Seq::<(Seq<char>, V::V)>::empty());
    }

    /// The keys in lexicographic order (the order of a sorted map).
    pub fn sorted_keys(&self) -> (r: Vec<String>)
        ensures
            r.deep_view() == sorted_strings(keys_of(self@)),
            forall|i: int| 0 <= i < r.deep_view().len() ==> has_key(self@, #[trigger] r.deep_view()[i]),
    {
        broadcast use group_strmap;
        broadcast use vstd::seq_lib::group_to_multiset_ensures;

        let ghost sv = self@;
        let mut keys: Vec<String> = Vec::new();
        let mut i: usize = 0;
        while i < self.entries.len()
            invariant
                sv == self@,
                sv == self.entries.deep_view(),
                i <= sv.len(),
                keys.deep_view() == keys_of(sv.take(i as int)),
            decreases self.entries.len() - i,
        {
            let ghost before = keys.deep_view();
            let k = self.entries[i].0.clone();
            keys.push(k);
            assert(keys.deep_view() =~= before.push(sv[i as int].0));
            assert(keys_of(sv.take(i + 1)) =~= keys_of(sv.take(i as int)).push(sv[i as int].0));
            i = i + 1;
        }
        assert(sv.take(i as int) =~= sv);
        let ghost ks = keys.deep_view();
        let r = sort_strings(keys);
        proof {
            let rv = r.deep_view();
            assert forall|j: int| 0 <= j < rv.len() implies has_key(sv, #[trigger] rv[j]) by {
                assert(rv.contains(rv[j]));
                assert(rv.to_multiset().count(rv[j]) > 0);
                assert(ks.contains(rv[j]));
                let m = choose|m: int| 0 <= m < ks.len() && ks[m] == rv[j];
                assert(sv[m].0 == rv[j]);
                lemma_index_of_key(sv, rv[j]);
            }
        }
        r
    }
}

} // verus!
