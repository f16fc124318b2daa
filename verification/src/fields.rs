//! Maps from textual keys to values, kept in key order: the metric tags and
//! the fields of a log entry.

use vstd::prelude::*;

use crate::order::{
    compare_keys, key_lt, lemma_key_lt_asymmetric, lemma_key_lt_irreflexive, lemma_key_lt_transitive,
    KeyOrder,
};

verus! {

/// Entries are in strictly increasing key order (so no key occurs twice).
pub open spec fn sorted<V>(s: Seq<(Seq<char>, V)>) -> bool {
    forall|i: int, j: int| 0 <= i < j < s.len() ==> key_lt(#[trigger] s[i].0, #[trigger] s[j].0)
}

/// Some entry has key `k`.
pub open spec fn has_key<V>(s: Seq<(Seq<char>, V)>, k: Seq<char>) -> bool {
    exists|i: int| 0 <= i < s.len() && #[trigger] s[i].0 == k
}

/// The key/value contents of a list of entries.
pub open spec fn as_map<V>(s: Seq<(Seq<char>, V)>) -> Map<Seq<char>, V> {
    Map::new(
        |k: Seq<char>| has_key(s, k),
        |k: Seq<char>| s[choose|i: int| 0 <= i < s.len() && #[trigger] s[i].0 == k].1,
    )
}

/// In a sorted list, the entry at `i` is what the map holds for its key.
pub proof fn lemma_as_map_at<V>(s: Seq<(Seq<char>, V)>, i: int)
    requires
        sorted(s),
        0 <= i < s.len(),
    ensures
        as_map(s).contains_key(s[i].0),
        as_map(s)[s[i].0] == s[i].1,
{
    let k = s[i].0;
    assert(has_key(s, k));
    let j = choose|j: int| 0 <= j < s.len() && #[trigger] s[j].0 == k;
    if j < i {
        lemma_key_lt_irreflexive(k);
        assert(key_lt(s[j].0, s[i].0));
    } else if i < j {
        lemma_key_lt_irreflexive(k);
        assert(key_lt(s[i].0, s[j].0));
    }
}

/// A sorted list holds exactly as many entries as its contents have keys.
pub proof fn lemma_sorted_len<V>(s: Seq<(Seq<char>, V)>)
    requires
        sorted(s),
    ensures
        as_map(s).dom().len() == s.len(),
        as_map(s).dom().finite(),
{
    let keys = s.map_values(|e: (Seq<char>, V)| e.0);
    assert(keys.no_duplicates()) by {
        assert forall|i: int, j: int| 0 <= i < keys.len() && 0 <= j < keys.len() && i != j implies keys[i]
            != keys[j] by {
            if i < j {
                assert(key_lt(s[i].0, s[j].0));
            } else {
                assert(key_lt(s[j].0, s[i].0));
            }
            lemma_key_lt_irreflexive(s[i].0);
        }
    }
    assert(as_map(s).dom() =~= keys.to_set()) by {
        assert forall|k: Seq<char>| as_map(s).dom().contains(k) implies keys.to_set().contains(k) by {
            let i = choose|i: int| 0 <= i < s.len() && #[trigger] s[i].0 == k;
            assert(keys[i] == k);
        }
        assert forall|k: Seq<char>| keys.to_set().contains(k) implies as_map(s).dom().contains(k) by {
            let i = choose|i: int| 0 <= i < keys.len() && keys[i] == k;
            assert(s[i].0 == k);
        }
    }
    keys.unique_seq_to_set();
}

/// Two sorted lists with the same contents are the same list.
pub proof fn lemma_sorted_determined<V>(a: Seq<(Seq<char>, V)>, b: Seq<(Seq<char>, V)>)
    requires
        sorted(a),
        sorted(b),
        as_map(a) == as_map(b),
    ensures
        a == b,
    decreases a.len(),
{
    if a.len() == 0 {
        if b.len() > 0 {
            lemma_as_map_at(b, 0);
        }
        assert(a =~= b);
    } else {
        lemma_as_map_at(a, 0);
        assert(b.len() > 0) by {
            if b.len() == 0 {
                assert(!has_key(b, a[0].0));
            }
        }
        lemma_as_map_at(b, 0);
        let p = choose|p: int| 0 <= p < b.len() && #[trigger] b[p].0 == a[0].0;
        let q = choose|q: int| 0 <= q < a.len() && #[trigger] a[q].0 == b[0].0;
        if p > 0 {
            assert(key_lt(b[0].0, b[p].0));
            if q > 0 {
                assert(key_lt(a[0].0, a[q].0));
                lemma_key_lt_asymmetric(a[0].0, b[0].0);
            } else {
                lemma_key_lt_irreflexive(b[0].0);
            }
        }
        assert(a[0].0 == b[0].0);
        lemma_as_map_at(a, 0);
        assert(a[0] == b[0]);
        let ra = a.drop_first();
        let rb = b.drop_first();
        assert(sorted(ra)) by {
            assert forall|i: int, j: int| 0 <= i < j < ra.len() implies key_lt(#[trigger] ra[i].0, #[trigger] ra[j].0) by {
                assert(ra[i] == a[i + 1] && ra[j] == a[j + 1]);
            }
        }
        assert(sorted(rb)) by {
            assert forall|i: int, j: int| 0 <= i < j < rb.len() implies key_lt(#[trigger] rb[i].0, #[trigger] rb[j].0) by {
                assert(rb[i] == b[i + 1] && rb[j] == b[j + 1]);
            }
        }
        assert(as_map(ra) =~= as_map(rb)) by {
            assert forall|k: Seq<char>| #[trigger] as_map(ra).contains_key(k) implies as_map(rb).contains_key(k)
                && as_map(ra)[k] == as_map(rb)[k] by {
                let i = choose|i: int| 0 <= i < ra.len() && #[trigger] ra[i].0 == k;
                assert(a[i + 1].0 == k);
                lemma_as_map_at(a, i + 1);
                assert(as_map(b).contains_key(k));
                let j = choose|j: int| 0 <= j < b.len() && #[trigger] b[j].0 == k;
                lemma_as_map_at(b, j);
                if j == 0 {
                    assert(key_lt(a[0].0, a[i + 1].0));
                    lemma_key_lt_irreflexive(k);
                }
                assert(rb[j - 1].0 == k);
                lemma_as_map_at(rb, j - 1);
                lemma_as_map_at(ra, i);
            }
            assert forall|k: Seq<char>| #[trigger] as_map(rb).contains_key(k) implies as_map(ra).contains_key(k) by {
                let j = choose|j: int| 0 <= j < rb.len() && #[trigger] rb[j].0 == k;
                assert(b[j + 1].0 == k);
                lemma_as_map_at(b, j + 1);
                assert(as_map(a).contains_key(k));
                let i = choose|i: int| 0 <= i < a.len() && #[trigger] a[i].0 == k;
                if i == 0 {
                    assert(key_lt(b[0].0, b[j + 1].0));
                    lemma_key_lt_irreflexive(k);
                }
                assert(ra[i - 1].0 == k);
            }
        }
        lemma_sorted_determined(ra, rb);
        assert(a =~= seq![a[0]] + ra);
        assert(b =~= seq![b[0]] + rb);
    }
}

/// A map from textual keys to values whose entries are kept in key order.
#[derive(Debug)]
pub struct FieldMap<V> {
    entries: Vec<(String, V)>,
}

impl<V> View for FieldMap<V> {
    type V = Map<Seq<char>, V>;

    /// The key/value contents.
    open spec fn view(&self) -> Map<Seq<char>, V> {
        as_map(self.entries())
    }
}

impl<V> FieldMap<V> {
    /// The entries, in the order they are kept.
    pub closed spec fn entries(&self) -> Seq<(Seq<char>, V)> {
        self.entries@.map_values(|e: (String, V)| (e.0@, e.1))
    }

    /// The entries are in strictly increasing key order; every map keeps
    /// this, and `use_type_invariant` brings it out.
    #[verifier::type_invariant]
    pub open spec fn is_sorted(&self) -> bool {
        sorted(self.entries())
    }

    /// An empty map.
    pub fn new() -> (m: Self)
        ensures
            m.entries().len() == 0,
            m.view() == Map::<Seq<char>, V>::empty(),
            m.is_sorted(),
    {
        let m = FieldMap { entries: Vec::new() };
        assert(m.view() =~= Map::<Seq<char>, V>::empty());
        m
    }

    /// The number of entries.
    pub fn len(&self) -> (n: usize)
        ensures
            n == self.entries().len(),
            self.is_sorted(),
    {
        proof {
            use_type_invariant(self);
        }
        self.entries.len()
    }

    /// The entry at position `i` in key order.
    pub fn entry(&self, i: usize) -> (r: (&String, &V))
        requires
            i < self.entries().len(),
        ensures
            r.0@ == self.entries()[i as int].0,
            *r.1 == self.entries()[i as int].1,
            self.is_sorted(),
    {
        proof {
            use_type_invariant(self);
        }
        let e = &self.entries[i];
        (&e.0, &e.1)
    }

    /// Sets `key` to `value`, replacing any value it had.
    pub fn insert(self, key: String, value: V) -> (m: Self)
        ensures
            m.view() == self.view().insert(key@, value),
            m.is_sorted(),
            m.entries().len() == self.entries().len() + (if self.view().contains_key(key@) { 0int } else { 1int }),
    {
        proof {
            use_type_invariant(&self);
        }
        let ghost old_s = self.entries();
        let FieldMap { entries } = self;
        let mut entries = entries;
        let n = entries.len();
        let mut j: usize = 0;
        let mut found = false;
        while j < n
            invariant_except_break
                !found,
            invariant
                entries@.map_values(|e: (String, V)| (e.0@, e.1)) == old_s,
                n == old_s.len(),
                sorted(old_s),
                j <= n,
                forall|i: int| 0 <= i < j ==> key_lt(#[trigger] old_s[i].0, key@),
            ensures
                j <= n,
                found ==> j < n && old_s[j as int].0 == key@,
                !found && j < n ==> key_lt(key@, old_s[j as int].0),
                forall|i: int| 0 <= i < j ==> key_lt(#[trigger] old_s[i].0, key@),
            decreases n - j,
        {
            match compare_keys(entries[j].0.as_str(), key.as_str()) {
                KeyOrder::Less => {
                    assert(old_s[j as int].0 == entries@[j as int].0@);
                    j = j + 1;
                },
                KeyOrder::Equal => {
                    found = true;
                    break ;
                },
                KeyOrder::Greater => {
                    break ;
                },
            }
        }
        if found {
            let _ = entries.remove(j);
        }
        entries.insert(j, (key, value));
        let ghost new_s = entries@.map_values(|e: (String, V)| (e.0@, e.1));
        let ghost rest = if found { old_s.skip(j + 1) } else { old_s.skip(j as int) };
        assert(new_s =~= old_s.take(j as int).push((key@, value)) + rest);
        proof {
            Self::lemma_insert_sorted(old_s, j as int, found, key@, value);
        }
        FieldMap { entries }
    }

    proof fn lemma_insert_sorted(s: Seq<(Seq<char>, V)>, j: int, found: bool, k: Seq<char>, v: V)
        requires
            sorted(s),
            0 <= j <= s.len(),
            found ==> j < s.len() && s[j].0 == k,
            !found && j < s.len() ==> key_lt(k, s[j].0),
            forall|i: int| 0 <= i < j ==> key_lt(#[trigger] s[i].0, k),
        ensures
            ({
                let rest = if found { s.skip(j + 1) } else { s.skip(j) };
                let t = s.take(j).push((k, v)) + rest;
                sorted(t) && as_map(t) == as_map(s).insert(k, v)
            }),
            found <==> has_key(s, k),
    {
        let rest = if found { s.skip(j + 1) } else { s.skip(j) };
        let t = s.take(j).push((k, v)) + rest;
        let off: int = if found { 1 } else { 0 };
        // t is s with (k, v) placed at j; when k was present, it replaces s[j]
        assert forall|i: int| 0 <= i < j implies #[trigger] t[i] == s[i] by {}
        assert(t[j] == (k, v));
        assert forall|i: int| j < i < t.len() implies #[trigger] t[i] == s[i - 1 + off] by {}
        assert(t.len() == s.len() + 1 - off);
        // k sorts before every entry from j + off on
        assert forall|i: int| j + off <= i < s.len() implies key_lt(k, #[trigger] s[i].0) by {
            if found {
                assert(key_lt(s[j].0, s[i].0));
            } else {
                if i > j {
                    assert(key_lt(s[j].0, s[i].0));
                    lemma_key_lt_transitive(k, s[j].0, s[i].0);
                }
            }
        }
        assert(sorted(t)) by {
            assert forall|a: int, b: int| 0 <= a < b < t.len() implies key_lt(#[trigger] t[a].0, #[trigger] t[b].0) by {
                if b < j {
                } else if b == j {
                } else if a < j {
                    assert(t[b] == s[b - 1 + off]);
                    assert(key_lt(s[a].0, k));
                    lemma_key_lt_transitive(s[a].0, k, s[b - 1 + off].0);
                } else if a == j {
                    assert(t[b] == s[b - 1 + off]);
                } else {
                    assert(t[a] == s[a - 1 + off]);
                    assert(t[b] == s[b - 1 + off]);
                }
            }
        }
        let m = as_map(s).insert(k, v);
        assert forall|q: Seq<char>| #[trigger] as_map(t).contains_key(q) implies m.contains_key(q)
            && as_map(t)[q] == m[q] by {
            let i = choose|i: int| 0 <= i < t.len() && #[trigger] t[i].0 == q;
            lemma_as_map_at(t, i);
            if i < j {
                lemma_as_map_at(s, i);
                lemma_key_lt_irreflexive(k);
            } else if i == j {
            } else {
                lemma_as_map_at(s, i - 1 + off);
                assert(key_lt(k, s[i - 1 + off].0));
                lemma_key_lt_irreflexive(k);
            }
        }
        assert forall|q: Seq<char>| #[trigger] m.contains_key(q) implies as_map(t).contains_key(q) by {
            if q == k {
                assert(t[j].0 == k);
            } else {
                let i = choose|i: int| 0 <= i < s.len() && #[trigger] s[i].0 == q;
                if i < j {
                    assert(t[i].0 == q);
                } else if found && i == j {
                } else {
                    assert(t[i + 1 - off].0 == q);
                }
            }
        }
        assert(as_map(t) =~= m);
        if !found {
            assert forall|i: int| 0 <= i < s.len() implies #[trigger] s[i].0 != k by {
                lemma_key_lt_irreflexive(k);
                if i < j {
                    assert(key_lt(s[i].0, k));
                } else {
                    assert(key_lt(k, s[i].0));
                }
            }
        }
    }
}

} // verus!
