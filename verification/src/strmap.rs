//! An ordered map from strings to strings: the entries are kept sorted by key, with no key
//! twice, so that walking them gives the keys in ascending order.

use vstd::prelude::*;
use crate::text::{compare_keys, KeyOrder, seq_lt, lemma_seq_lt_irreflexive, lemma_seq_lt_total,
    lemma_seq_lt_transitive};

verus! {

/// Abstract entries: (key, value) pairs of character sequences.
pub type Entries = Seq<(Seq<char>, Seq<char>)>;

/// Keys strictly ascend along the sequence (so none occurs twice).
pub open spec fn keys_ascending(s: Entries) -> bool {
    forall|i: int, j: int| 0 <= i < j < s.len() ==> seq_lt(#[trigger] s[i].0, #[trigger] s[j].0)
}

/// Whether `k` is the key of some entry.
pub open spec fn has_key(s: Entries, k: Seq<char>) -> bool {
    exists|i: int| 0 <= i < s.len() && #[trigger] s[i].0 == k
}

/// The map that the entries describe.
pub open spec fn as_map(s: Entries) -> Map<Seq<char>, Seq<char>> {
    Map::new(
        |k: Seq<char>| has_key(s, k),
        |k: Seq<char>| s[choose|i: int| 0 <= i < s.len() && #[trigger] s[i].0 == k].1,
    )
}

/// The keys of the entries, in order.
pub open spec fn keys_of(s: Entries) -> Seq<Seq<char>> {
    s.map_values(|e: (Seq<char>, Seq<char>)| e.0)
}

/// In ascending entries, the entry at `i` is what the map holds for its key.
pub proof fn lemma_as_map_at(s: Entries, i: int)
    requires
        keys_ascending(s),
        0 <= i < s.len(),
    ensures
        as_map(s).contains_key(s[i].0),
        as_map(s)[s[i].0] == s[i].1,
{
    assert(has_key(s, s[i].0));
    let j = choose|j: int| 0 <= j < s.len() && #[trigger] s[j].0 == s[i].0;
    if j < i {
        assert(seq_lt(s[j].0, s[i].0));
        lemma_seq_lt_irreflexive(s[i].0);
    } else if i < j {
        assert(seq_lt(s[i].0, s[j].0));
        lemma_seq_lt_irreflexive(s[i].0);
    }
}

/// A map from strings to strings whose entries are kept in ascending key order.
#[derive(Debug)]
pub struct StrMap {
    entries: Vec<(String, String)>,
}

impl View for StrMap {
    type V = Entries;

    closed spec fn view(&self) -> Entries {
        self.entries@.map_values(|e: (String, String)| (e.0@, e.1@))
    }
}

impl StrMap {
    #[verifier::type_invariant]
    closed spec fn ascending(self) -> bool {
        keys_ascending(self@)
    }

    /// An empty map.
    pub fn new() -> (m: StrMap)
        ensures
            m@ == Seq::<(Seq<char>, Seq<char>)>::empty(),
    {
        let m = StrMap { entries: Vec::new() };
        assert(m@ =~= Seq::<(Seq<char>, Seq<char>)>::empty());
        m
    }

    /// The number of entries.
    pub fn len(&self) -> (n: usize)
        ensures
            n == self@.len(),
    {
        self.entries.len()
    }

    /// Position of the first entry whose key is not below `k`.
    fn lower_bound(&self, k: &str) -> (p: usize)
        ensures
            p <= self@.len(),
            forall|i: int| 0 <= i < p ==> seq_lt(#[trigger] self@[i].0, k@),
            p < self@.len() ==> !seq_lt(self@[p as int].0, k@),
    {
        let n = self.entries.len();
        let mut i: usize = 0;
        while i < n
            invariant
                n == self@.len(),
                i <= n,
                forall|j: int| 0 <= j < i ==> seq_lt(#[trigger] self@[j].0, k@),
            decreases n - i,
        {
            let o = compare_keys(self.entries[i].0.as_str(), k);
            assert(self@[i as int].0 == self.entries@[i as int].0@);
            if o != KeyOrder::Less {
                return i;
            }
            i = i + 1;
        }
        i
    }

    /// Index of the entry with key `k`, if there is one.
    fn find(&self, k: &str) -> (r: Option<usize>)
        ensures
            r matches Some(i) ==> i < self@.len() && self@[i as int].0 == k@,
            r is None ==> !has_key(self@, k@),
    {
        proof {
            use_type_invariant(self);
        }
        let p = self.lower_bound(k);
        if p < self.entries.len() {
            let o = compare_keys(self.entries[p].0.as_str(), k);
            assert(self@[p as int].0 == self.entries@[p as int].0@);
            if o == KeyOrder::Equal {
                return Some(p);
            }
        }
        proof {
            if has_key(self@, k@) {
                let j = choose|j: int| 0 <= j < self@.len() && #[trigger] self@[j].0 == k@;
                lemma_seq_lt_irreflexive(k@);
                if j >= p {
                    lemma_seq_lt_total(self@[p as int].0, k@);
                    if j > p {
                        assert(seq_lt(self@[p as int].0, self@[j].0));
                    }
                }
            }
        }
        None
    }

    /// The value stored for `k`.
    pub fn get(&self, k: &str) -> (r: Option<&str>)
        ensures
            r is Some == as_map(self@).contains_key(k@),
            r matches Some(v) ==> v@ == as_map(self@)[k@],
    {
        proof {
            use_type_invariant(self);
        }
        match self.find(k) {
            Some(i) => {
                proof {
                    lemma_as_map_at(self@, i as int);
                }
                assert(self@[i as int].1 == self.entries@[i as int].1@);
                Some(self.entries[i].1.as_str())
            },
            None => None,
        }
    }

    /// Whether some entry has key `k`.
    pub fn contains_key(&self, k: &str) -> (b: bool)
        ensures
            b == as_map(self@).contains_key(k@),
    {
        match self.find(k) {
            Some(_) => true,
            None => false,
        }
    }

    /// The entries in ascending key order.
    pub fn entries(&self) -> (r: Vec<(String, String)>)
        ensures
            r@.len() == self@.len(),
            forall|i: int| 0 <= i < r@.len() ==> (#[trigger] r@[i]).0@ == self@[i].0 && r@[i].1@ == self@[i].1,
            keys_ascending(self@),
    {
        proof {
            use_type_invariant(self);
        }
        let mut r: Vec<(String, String)> = Vec::new();
        let n = self.entries.len();
        let mut i: usize = 0;
        while i < n
            invariant
                n == self@.len(),
                i <= n,
                r@.len() == i,
                forall|j: int| 0 <= j < i ==> (#[trigger] r@[j]).0@ == self@[j].0 && r@[j].1@ == self@[j].1,
            decreases n - i,
        {
            let e = &self.entries[i];
            assert(self@[i as int] == (e.0@, e.1@));
            r.push((e.0.clone(), e.1.clone()));
            i = i + 1;
        }
        r
    }

    /// Sets the value for `k` to `v`, adding the key if it is new.
    pub fn insert(&mut self, k: String, v: String)
        ensures
            as_map(final(self)@) == as_map(old(self)@).insert(k@, v@),
            keys_ascending(final(self)@),
    {
        proof {
            use_type_invariant(&*self);
        }
        let ghost s = self@;
        let found = self.find(k.as_str());
        let p = self.lower_bound(k.as_str());
        let mut es: Vec<(String, String)> = Vec::new();
        std::mem::swap(&mut es, &mut self.entries);
        assert(es@.map_values(|e: (String, String)| (e.0@, e.1@)) == s);
        match found {
            Some(i) => {
                let ghost kv = (k@, v@);
                es.set(i, (k, v));
                proof {
                    assert(es@.map_values(|e: (String, String)| (e.0@, e.1@)) =~= s.update(i as int, kv));
                    lemma_update_same_key(s, i as int, kv);
                }
            },
            None => {
                proof {
                    lemma_seq_lt_total(s[p as int].0, k@);
                    if p < s.len() {
                        assert(s[p as int].0 != k@);
                    }
                }
                let ghost kv = (k@, v@);
                es.insert(p, (k, v));
                proof {
                    assert(es@.map_values(|e: (String, String)| (e.0@, e.1@)) =~= s.insert(p as int, kv));
                    lemma_insert_new_key(s, p as int, kv);
                }
            },
        }
        self.entries = es;
    }

    /// Removes the entry with key `k`, if there is one.
    pub fn remove(&mut self, k: &str)
        ensures
            as_map(final(self)@) == as_map(old(self)@).remove(k@),
            keys_ascending(final(self)@),
    {
        proof {
            use_type_invariant(&*self);
        }
        let ghost s = self@;
        match self.find(k) {
            Some(i) => {
                let mut es: Vec<(String, String)> = Vec::new();
                std::mem::swap(&mut es, &mut self.entries);
                assert(es@.map_values(|e: (String, String)| (e.0@, e.1@)) == s);
                es.remove(i);
                proof {
                    assert(es@.map_values(|e: (String, String)| (e.0@, e.1@)) =~= s.remove(i as int));
                    lemma_remove_key(s, i as int);
                }
                self.entries = es;
            },
            None => {
                assert(as_map(s).remove(k@) =~= as_map(s));
            },
        }
    }
}


impl StrMap {
    /// Removes every entry whose value is `v`.
    pub fn remove_value(&mut self, v: &str)
        ensures
            forall|x: Seq<char>| #[trigger] as_map(final(self)@).contains_key(x) == (as_map(old(self)@).contains_key(x)
                && as_map(old(self)@)[x] != v@),
            forall|x: Seq<char>| #[trigger] as_map(final(self)@).contains_key(x) ==> as_map(final(self)@)[x]
                == as_map(old(self)@)[x],
            keys_ascending(final(self)@),
    {
        let snap = self.entries();
        let ghost s = self@;
        let ghost m0 = as_map(s);
        let n = snap.len();
        let mut i: usize = 0;
        assert(as_map(self@) =~= m0.remove_keys(keys_valued(s, v@, 0)));
        while i < n
            invariant
                n == s.len(),
                i <= n,
                snap@.len() == n,
                forall|j: int| 0 <= j < n ==> (#[trigger] snap@[j]).0@ == s[j].0 && snap@[j].1@ == s[j].1,
                keys_ascending(s),
                m0 == as_map(s),
                as_map(self@) == m0.remove_keys(keys_valued(s, v@, i as int)),
                keys_ascending(self@),
            decreases n - i,
        {
            let e = &snap[i];
            assert(e.0@ == s[i as int].0 && e.1@ == s[i as int].1);
            if compare_keys(e.1.as_str(), v) == KeyOrder::Equal {
                self.remove(e.0.as_str());
                assert(keys_valued(s, v@, i + 1) =~= keys_valued(s, v@, i as int).insert(s[i as int].0));
                assert(as_map(self@) =~= m0.remove_keys(keys_valued(s, v@, i + 1)));
            } else {
                assert forall|x: Seq<char>| #[trigger] keys_valued(s, v@, i + 1).contains(x) == keys_valued(s, v@, i as int).contains(x) by {
                    if keys_valued(s, v@, i + 1).contains(x) {
                        let j = choose|j: int| 0 <= j < i + 1 && #[trigger] s[j].0 == x && s[j].1 == v@;
                        if j == i {
                            assert(false);
                        }
                    }
                }
                assert(keys_valued(s, v@, i + 1) =~= keys_valued(s, v@, i as int));
            }
            i = i + 1;
        }
        proof {
            assert forall|x: Seq<char>| #[trigger] keys_valued(s, v@, n as int).contains(x) == (m0.contains_key(x) && m0[x] == v@) by {
                if keys_valued(s, v@, n as int).contains(x) {
                    let j = choose|j: int| 0 <= j < n && #[trigger] s[j].0 == x && s[j].1 == v@;
                    lemma_as_map_at(s, j);
                }
                if m0.contains_key(x) && m0[x] == v@ {
                    let j = choose|j: int| 0 <= j < s.len() && #[trigger] s[j].0 == x;
                    lemma_as_map_at(s, j);
                    assert(s[j].0 == x && s[j].1 == v@);
                }
            }
        }
    }
}

/// Keys of the first `i` entries whose value is `v`.
pub open spec fn keys_valued(s: Entries, v: Seq<char>, i: int) -> Set<Seq<char>> {
    Set::new(|x: Seq<char>| exists|j: int| 0 <= j < i && #[trigger] s[j].0 == x && s[j].1 == v)
}

/// Replacing the value of an entry keeps the order and updates the map.
proof fn lemma_update_same_key(s: Entries, i: int, kv: (Seq<char>, Seq<char>))
    requires
        keys_ascending(s),
        0 <= i < s.len(),
        s[i].0 == kv.0,
    ensures
        keys_ascending(s.update(i, kv)),
        as_map(s.update(i, kv)) == as_map(s).insert(kv.0, kv.1),
{
    let t = s.update(i, kv);
    assert(keys_ascending(t)) by {
        assert forall|a: int, b: int| 0 <= a < b < t.len() implies seq_lt(#[trigger] t[a].0, #[trigger] t[b].0) by {
            assert(t[a].0 == s[a].0 && t[b].0 == s[b].0);
        }
    }
    assert forall|x: Seq<char>| #[trigger] has_key(t, x) == (has_key(s, x) || x == kv.0) by {
        if has_key(s, x) {
            let j = choose|j: int| 0 <= j < s.len() && #[trigger] s[j].0 == x;
            assert(t[j].0 == x);
        }
        if has_key(t, x) {
            let j = choose|j: int| 0 <= j < t.len() && #[trigger] t[j].0 == x;
            assert(s[j].0 == x);
        }
    }
    assert forall|x: Seq<char>| has_key(t, x) implies #[trigger] as_map(t)[x] == as_map(s).insert(kv.0, kv.1)[x] by {
        if x == kv.0 {
            lemma_as_map_at(t, i);
        } else {
            let j = choose|j: int| 0 <= j < t.len() && #[trigger] t[j].0 == x;
            lemma_as_map_at(t, j);
            assert(s[j].0 == x);
            lemma_as_map_at(s, j);
        }
    }
    assert(as_map(t) =~= as_map(s).insert(kv.0, kv.1));
}

/// Putting a new key at its place in the order keeps the order and extends the map.
proof fn lemma_insert_new_key(s: Entries, p: int, kv: (Seq<char>, Seq<char>))
    requires
        keys_ascending(s),
        0 <= p <= s.len(),
        forall|i: int| 0 <= i < p ==> seq_lt(#[trigger] s[i].0, kv.0),
        p < s.len() ==> seq_lt(kv.0, s[p].0),
    ensures
        keys_ascending(s.insert(p, kv)),
        as_map(s.insert(p, kv)) == as_map(s).insert(kv.0, kv.1),
{
    let t = s.insert(p, kv);
    assert forall|j: int| p <= j < s.len() implies seq_lt(kv.0, #[trigger] s[j].0) by {
        if j > p {
            assert(seq_lt(s[p].0, s[j].0));
            lemma_seq_lt_transitive(kv.0, s[p].0, s[j].0);
        }
    }
    assert(keys_ascending(t)) by {
        assert forall|a: int, b: int| 0 <= a < b < t.len() implies seq_lt(#[trigger] t[a].0, #[trigger] t[b].0) by {
            if b < p {
                assert(t[a] == s[a] && t[b] == s[b]);
            } else if b == p {
                assert(t[a] == s[a]);
            } else if a < p {
                assert(t[a] == s[a] && t[b] == s[b - 1]);
                lemma_seq_lt_transitive(s[a].0, kv.0, s[b - 1].0);
            } else if a == p {
                assert(t[b] == s[b - 1]);
            } else {
                assert(t[a] == s[a - 1] && t[b] == s[b - 1]);
            }
        }
    }
    assert forall|x: Seq<char>| #[trigger] has_key(t, x) == (has_key(s, x) || x == kv.0) by {
        if has_key(s, x) {
            let j = choose|j: int| 0 <= j < s.len() && #[trigger] s[j].0 == x;
            if j < p {
                assert(t[j].0 == x);
            } else {
                assert(t[j + 1].0 == x);
            }
        }
        if x == kv.0 {
            assert(t[p].0 == x);
        }
        if has_key(t, x) && x != kv.0 {
            let j = choose|j: int| 0 <= j < t.len() && #[trigger] t[j].0 == x;
            if j < p {
                assert(s[j].0 == x);
            } else {
                assert(s[j - 1].0 == x);
            }
        }
    }
    assert forall|x: Seq<char>| has_key(t, x) implies #[trigger] as_map(t)[x] == as_map(s).insert(kv.0, kv.1)[x] by {
        if x == kv.0 {
            lemma_as_map_at(t, p);
        } else {
            let j = choose|j: int| 0 <= j < t.len() && #[trigger] t[j].0 == x;
            lemma_as_map_at(t, j);
            if j < p {
                lemma_as_map_at(s, j);
            } else {
                lemma_as_map_at(s, j - 1);
            }
        }
    }
    assert(as_map(t) =~= as_map(s).insert(kv.0, kv.1));
}

/// Dropping an entry keeps the order and drops its key from the map.
proof fn lemma_remove_key(s: Entries, i: int)
    requires
        keys_ascending(s),
        0 <= i < s.len(),
    ensures
        keys_ascending(s.remove(i)),
        as_map(s.remove(i)) == as_map(s).remove(s[i].0),
{
    let t = s.remove(i);
    let k = s[i].0;
    assert(keys_ascending(t)) by {
        assert forall|a: int, b: int| 0 <= a < b < t.len() implies seq_lt(#[trigger] t[a].0, #[trigger] t[b].0) by {
            if b < i {
                assert(t[a] == s[a] && t[b] == s[b]);
            } else if a < i {
                assert(t[a] == s[a] && t[b] == s[b + 1]);
            } else {
                assert(t[a] == s[a + 1] && t[b] == s[b + 1]);
            }
        }
    }
    assert forall|x: Seq<char>| #[trigger] has_key(t, x) == (has_key(s, x) && x != k) by {
        if has_key(s, x) && x != k {
            let j = choose|j: int| 0 <= j < s.len() && #[trigger] s[j].0 == x;
            if j < i {
                assert(t[j].0 == x);
            } else {
                assert(t[j - 1].0 == x);
            }
        }
        if has_key(t, x) {
            let j = choose|j: int| 0 <= j < t.len() && #[trigger] t[j].0 == x;
            if j < i {
                assert(s[j].0 == x);
                assert(seq_lt(s[j].0, k));
            } else {
                assert(s[j + 1].0 == x);
                assert(seq_lt(k, s[j + 1].0));
            }
            lemma_seq_lt_irreflexive(x);
        }
    }
    assert forall|x: Seq<char>| has_key(t, x) implies #[trigger] as_map(t)[x] == as_map(s)[x] by {
        let j = choose|j: int| 0 <= j < t.len() && #[trigger] t[j].0 == x;
        lemma_as_map_at(t, j);
        if j < i {
            lemma_as_map_at(s, j);
        } else {
            lemma_as_map_at(s, j + 1);
        }
    }
    assert(as_map(t) =~= as_map(s).remove(k));
}

/// Ascending entries are fixed by the map they describe: two ascending entry sequences
/// with the same map are the same sequence, so the order of the entries depends only on
/// what they hold.
pub proof fn lemma_entries_determined(s: Entries, t: Entries)
    requires
        keys_ascending(s),
        keys_ascending(t),
        as_map(s) == as_map(t),
    ensures
        s == t,
    decreases s.len(),
{
    if s.len() == 0 {
        if t.len() > 0 {
            lemma_as_map_at(t, 0);
            assert(!has_key(s, t[0].0));
        }
        assert(s =~= t);
    } else {
        lemma_as_map_at(s, 0);
        assert(as_map(t).contains_key(s[0].0));
        assert(t.len() > 0);
        lemma_as_map_at(t, 0);
        let i = choose|i: int| 0 <= i < t.len() && #[trigger] t[i].0 == s[0].0;
        let j = choose|j: int| 0 <= j < s.len() && #[trigger] s[j].0 == t[0].0;
        if s[0].0 != t[0].0 {
            assert(i > 0);
            assert(j > 0);
            assert(seq_lt(t[0].0, t[i].0));
            assert(seq_lt(s[0].0, s[j].0));
            lemma_seq_lt_total(s[0].0, t[0].0);
        }
        assert(s[0] == t[0]);
        lemma_remove_key(s, 0);
        lemma_remove_key(t, 0);
        lemma_entries_determined(s.remove(0), t.remove(0));
        assert(s =~= seq![s[0]] + s.remove(0));
        assert(t =~= seq![t[0]] + t.remove(0));
    }
}

/// In ascending entries no key occurs twice.
pub proof fn lemma_ascending_no_duplicates(s: Entries, i: int, j: int)
    requires
        keys_ascending(s),
        0 <= i < s.len(),
        0 <= j < s.len(),
        i != j,
    ensures
        s[i].0 != s[j].0,
{
    lemma_seq_lt_irreflexive(s[i].0);
    if i < j {
        assert(seq_lt(s[i].0, s[j].0));
    } else {
        assert(seq_lt(s[j].0, s[i].0));
    }
}

} // verus!
