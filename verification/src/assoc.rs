//! Ordered key-value lists and string sets keyed by account ids or token
//! ids: the in-memory image of the contracts' persistent maps and sets.
//! Entries keep their insertion order and removal moves the last entry
//! into the freed slot, as the persistent unordered collections do; a list
//! may instead be kept sorted by key, as a persistent ordered map is.
use vstd::prelude::*;
use crate::order::{text_lt, text_less, lemma_text_lt_total, lemma_text_lt_transitive};

verus! {

/// No key occurs twice in `s`.
pub open spec fn keys_distinct<V>(s: Seq<(Seq<char>, V)>) -> bool {
    forall|i: int, j: int| 0 <= i < j < s.len() ==> (#[trigger] s[i]).0 != (#[trigger] s[j]).0
}

/// The map that a list of pairs denotes (later pairs win).
pub open spec fn pairs_map<V>(s: Seq<(Seq<char>, V)>) -> Map<Seq<char>, V>
    decreases s.len(),
{
    if s.len() == 0 {
        Map::empty()
    } else {
        pairs_map(s.drop_last()).insert(s.last().0, s.last().1)
    }
}

/// The sequence with entry `i` removed by moving the last entry into its place.
pub open spec fn swap_removed<A>(s: Seq<A>, i: int) -> Seq<A> {
    s.update(i, s.last()).drop_last()
}

/// A key is present in the map of `s` exactly when some pair carries it,
/// and with distinct keys each pair's value is the map's value.
pub proof fn lemma_pairs_map<V>(s: Seq<(Seq<char>, V)>)
    requires
        keys_distinct(s),
    ensures
        forall|k: Seq<char>|
            #![trigger pairs_map(s).dom().contains(k)]
            pairs_map(s).dom().contains(k) <==> exists|i: int| 0 <= i < s.len() && (#[trigger] s[i]).0 == k,
        forall|i: int|
            0 <= i < s.len() ==> pairs_map(s).dom().contains((#[trigger] s[i]).0) && pairs_map(s)[s[i].0]
                == s[i].1,
    decreases s.len(),
{
    if s.len() > 0 {
        let t = s.drop_last();
        assert(keys_distinct(t)) by {
            assert forall|i: int, j: int| 0 <= i < j < t.len() implies (#[trigger] t[i]).0 != (
            #[trigger] t[j]).0 by {
                assert(t[i] == s[i] && t[j] == s[j]);
            }
        }
        lemma_pairs_map(t);
        assert forall|k: Seq<char>|
            #![trigger pairs_map(s).dom().contains(k)]
            pairs_map(s).dom().contains(k) implies exists|i: int|
            0 <= i < s.len() && (#[trigger] s[i]).0 == k by {
            if k != s.last().0 {
                assert(pairs_map(t).dom().contains(k));
                let i = choose|i: int| 0 <= i < t.len() && (#[trigger] t[i]).0 == k;
                assert(s[i] == t[i]);
            } else {
                assert(s[s.len() - 1].0 == k);
            }
        }
        assert forall|k: Seq<char>|
            #![trigger pairs_map(s).dom().contains(k)]
            (exists|i: int| 0 <= i < s.len() && (#[trigger] s[i]).0 == k) implies pairs_map(
            s,
        ).dom().contains(k) by {
            let i = choose|i: int| 0 <= i < s.len() && (#[trigger] s[i]).0 == k;
            if i < s.len() - 1 {
                assert(t[i] == s[i]);
                assert(pairs_map(t).dom().contains(t[i].0));
            }
        }
        assert forall|i: int| 0 <= i < s.len() implies pairs_map(s).dom().contains(
            (#[trigger] s[i]).0,
        ) && pairs_map(s)[s[i].0] == s[i].1 by {
            if i < s.len() - 1 {
                assert(t[i] == s[i]);
                assert(s[i].0 != s[s.len() - 1].0);
                assert(pairs_map(t).dom().contains(t[i].0));
            }
        }
    }
}

/// Overwriting the value of pair `i` overwrites the key's value in the map.
pub proof fn lemma_pairs_map_update<V>(s: Seq<(Seq<char>, V)>, i: int, v: V)
    requires
        keys_distinct(s),
        0 <= i < s.len(),
    ensures
        keys_distinct(s.update(i, (s[i].0, v))),
        pairs_map(s.update(i, (s[i].0, v))) == pairs_map(s).insert(s[i].0, v),
{
    let u = s.update(i, (s[i].0, v));
    assert(keys_distinct(u)) by {
        assert forall|a: int, b: int| 0 <= a < b < u.len() implies (#[trigger] u[a]).0 != (
        #[trigger] u[b]).0 by {
            assert(u[a].0 == s[a].0 && u[b].0 == s[b].0);
        }
    }
    lemma_pairs_map(s);
    lemma_pairs_map(u);
    let m = pairs_map(s).insert(s[i].0, v);
    assert forall|k: Seq<char>| #[trigger] pairs_map(u).dom().contains(k) <==> m.dom().contains(k) by {
        if pairs_map(u).dom().contains(k) {
            let j = choose|j: int| 0 <= j < u.len() && (#[trigger] u[j]).0 == k;
            assert(s[j].0 == k);
        }
        if pairs_map(s).dom().contains(k) {
            let j = choose|j: int| 0 <= j < s.len() && (#[trigger] s[j]).0 == k;
            assert(u[j].0 == k);
        }
        if k == s[i].0 {
            assert(u[i].0 == k);
        }
    }
    assert forall|k: Seq<char>| #[trigger] pairs_map(u).dom().contains(k) implies pairs_map(u)[k]
        == m[k] by {
        let j = choose|j: int| 0 <= j < u.len() && (#[trigger] u[j]).0 == k;
        if j != i {
            assert(u[j] == s[j]);
        }
    }
    assert(pairs_map(u) =~= m);
}

/// Appending a pair with a fresh key adds that key to the map.
pub proof fn lemma_pairs_map_push<V>(s: Seq<(Seq<char>, V)>, k: Seq<char>, v: V)
    requires
        keys_distinct(s),
        !pairs_map(s).dom().contains(k),
    ensures
        keys_distinct(s.push((k, v))),
        pairs_map(s.push((k, v))) == pairs_map(s).insert(k, v),
{
    let u = s.push((k, v));
    lemma_pairs_map(s);
    assert(keys_distinct(u)) by {
        assert forall|a: int, b: int| 0 <= a < b < u.len() implies (#[trigger] u[a]).0 != (
        #[trigger] u[b]).0 by {
            if b == s.len() {
                assert(u[a] == s[a]);
                assert(pairs_map(s).dom().contains(s[a].0));
            } else {
                assert(u[a] == s[a] && u[b] == s[b]);
            }
        }
    }
    assert(u.drop_last() =~= s);
}

/// Moving the last pair into slot `i` and dropping the last slot removes
/// the key of pair `i` from the map.
pub proof fn lemma_pairs_map_swap_remove<V>(s: Seq<(Seq<char>, V)>, i: int)
    requires
        keys_distinct(s),
        0 <= i < s.len(),
    ensures
        keys_distinct(swap_removed(s, i)),
        pairs_map(swap_removed(s, i)) == pairs_map(s).remove(s[i].0),
{
    let u = swap_removed(s, i);
    let n = s.len() - 1;
    assert(keys_distinct(u)) by {
        assert forall|a: int, b: int| 0 <= a < b < u.len() implies (#[trigger] u[a]).0 != (
        #[trigger] u[b]).0 by {
            let a2 = if a == i { n } else { a };
            let b2 = if b == i { n } else { b };
            assert(u[a] == s[a2] && u[b] == s[b2]);
        }
    }
    lemma_pairs_map(s);
    lemma_pairs_map(u);
    let m = pairs_map(s).remove(s[i].0);
    assert forall|k: Seq<char>| #[trigger] pairs_map(u).dom().contains(k) <==> m.dom().contains(k) by {
        if pairs_map(u).dom().contains(k) {
            let j = choose|j: int| 0 <= j < u.len() && (#[trigger] u[j]).0 == k;
            let j2 = if j == i { n } else { j };
            assert(u[j] == s[j2]);
            assert(s[j2].0 != s[i].0);
        }
        if m.dom().contains(k) {
            let j = choose|j: int| 0 <= j < s.len() && (#[trigger] s[j]).0 == k;
            assert(j != i);
            if j == n {
                assert(u[i] == s[n]);
            } else {
                assert(u[j] == s[j]);
            }
        }
    }
    assert forall|k: Seq<char>| #[trigger] pairs_map(u).dom().contains(k) implies pairs_map(u)[k]
        == m[k] by {
        let j = choose|j: int| 0 <= j < u.len() && (#[trigger] u[j]).0 == k;
        let j2 = if j == i { n } else { j };
        assert(u[j] == s[j2]);
    }
    assert(pairs_map(u) =~= m);
}

/// The keys of `s` increase strictly in text order.
pub open spec fn keys_sorted<V>(s: Seq<(Seq<char>, V)>) -> bool {
    forall|i: int, j: int| 0 <= i < j < s.len() ==> text_lt((#[trigger] s[i]).0, (#[trigger] s[j]).0)
}

/// Inserting a pair with a fresh key at any position adds that key to the map.
pub proof fn lemma_pairs_map_insert_at<V>(s: Seq<(Seq<char>, V)>, p: int, k: Seq<char>, v: V)
    requires
        keys_distinct(s),
        !pairs_map(s).dom().contains(k),
        0 <= p <= s.len(),
    ensures
        keys_distinct(s.insert(p, (k, v))),
        pairs_map(s.insert(p, (k, v))) == pairs_map(s).insert(k, v),
{
    let u = s.insert(p, (k, v));
    lemma_pairs_map(s);
    assert forall|a: int| 0 <= a < s.len() implies s[a].0 != k by {
        assert(pairs_map(s).dom().contains(s[a].0));
    }
    assert(keys_distinct(u)) by {
        assert forall|a: int, b: int| 0 <= a < b < u.len() implies (#[trigger] u[a]).0 != (#[trigger] u[b]).0 by {
            let a2 = if a < p { a } else { a - 1 };
            let b2 = if b < p { b } else { b - 1 };
            if a == p {
                assert(u[b] == s[b2]);
            } else if b == p {
                assert(u[a] == s[a2]);
            } else {
                assert(u[a] == s[a2] && u[b] == s[b2]);
            }
        }
    }
    lemma_pairs_map(u);
    let m = pairs_map(s).insert(k, v);
    assert forall|x: Seq<char>| #[trigger] pairs_map(u).dom().contains(x) <==> m.dom().contains(x) by {
        if pairs_map(u).dom().contains(x) {
            let j = choose|j: int| 0 <= j < u.len() && (#[trigger] u[j]).0 == x;
            if j != p {
                let j2 = if j < p { j } else { j - 1 };
                assert(u[j] == s[j2]);
            }
        }
        if pairs_map(s).dom().contains(x) {
            let j = choose|j: int| 0 <= j < s.len() && (#[trigger] s[j]).0 == x;
            let j2 = if j < p { j } else { j + 1 };
            assert(u[j2] == s[j]);
        }
        if x == k {
            assert(u[p].0 == k);
        }
    }
    assert forall|x: Seq<char>| #[trigger] pairs_map(u).dom().contains(x) implies pairs_map(u)[x] == m[x] by {
        let j = choose|j: int| 0 <= j < u.len() && (#[trigger] u[j]).0 == x;
        if j != p {
            let j2 = if j < p { j } else { j - 1 };
            assert(u[j] == s[j2]);
        }
    }
    assert(pairs_map(u) =~= m);
}

/// Removing pair `i` and closing the gap removes its key from the map.
pub proof fn lemma_pairs_map_remove_at<V>(s: Seq<(Seq<char>, V)>, i: int)
    requires
        keys_distinct(s),
        0 <= i < s.len(),
    ensures
        keys_distinct(s.remove(i)),
        pairs_map(s.remove(i)) == pairs_map(s).remove(s[i].0),
{
    let u = s.remove(i);
    assert(keys_distinct(u)) by {
        assert forall|a: int, b: int| 0 <= a < b < u.len() implies (#[trigger] u[a]).0 != (#[trigger] u[b]).0 by {
            let a2 = if a < i { a } else { a + 1 };
            let b2 = if b < i { b } else { b + 1 };
            assert(u[a] == s[a2] && u[b] == s[b2]);
        }
    }
    lemma_pairs_map(s);
    lemma_pairs_map(u);
    let m = pairs_map(s).remove(s[i].0);
    assert forall|x: Seq<char>| #[trigger] pairs_map(u).dom().contains(x) <==> m.dom().contains(x) by {
        if pairs_map(u).dom().contains(x) {
            let j = choose|j: int| 0 <= j < u.len() && (#[trigger] u[j]).0 == x;
            let j2 = if j < i { j } else { j + 1 };
            assert(u[j] == s[j2]);
            assert(s[j2].0 != s[i].0);
        }
        if m.dom().contains(x) {
            let j = choose|j: int| 0 <= j < s.len() && (#[trigger] s[j]).0 == x;
            assert(j != i);
            let j2 = if j < i { j } else { j - 1 };
            assert(u[j2] == s[j]);
        }
    }
    assert forall|x: Seq<char>| #[trigger] pairs_map(u).dom().contains(x) implies pairs_map(u)[x] == m[x] by {
        let j = choose|j: int| 0 <= j < u.len() && (#[trigger] u[j]).0 == x;
        let j2 = if j < i { j } else { j + 1 };
        assert(u[j] == s[j2]);
    }
    assert(pairs_map(u) =~= m);
}

/// Pairs with the same keys, in the same order, whose values agree once
/// converted, denote maps that agree once converted.
pub proof fn lemma_pairs_map_values<A, B, C>(
    s: Seq<(Seq<char>, A)>,
    t: Seq<(Seq<char>, B)>,
    f: spec_fn(A) -> C,
    g: spec_fn(B) -> C,
)
    requires
        s.len() == t.len(),
        forall|i: int| 0 <= i < s.len() ==> (#[trigger] t[i]).0 == s[i].0 && g(t[i].1) == f(s[i].1),
    ensures
        pairs_map(t).map_values(g) == pairs_map(s).map_values(f),
    decreases s.len(),
{
    if s.len() == 0 {
        assert(pairs_map(t).map_values(g) =~= pairs_map(s).map_values(f));
    } else {
        let s2 = s.drop_last();
        let t2 = t.drop_last();
        assert forall|i: int| 0 <= i < s2.len() implies (#[trigger] t2[i]).0 == s2[i].0 && g(t2[i].1) == f(s2[i].1) by {
            assert(t2[i] == t[i] && s2[i] == s[i]);
        }
        lemma_pairs_map_values(s2, t2, f, g);
        assert(t.last() == t[t.len() - 1] && s.last() == s[s.len() - 1]);
        assert(pairs_map(t).map_values(g) =~= pairs_map(t2).map_values(g).insert(t.last().0, g(t.last().1)));
        assert(pairs_map(s).map_values(f) =~= pairs_map(s2).map_values(f).insert(s.last().0, f(s.last().1)));
    }
}

/// Entries with their keys taken by their text.
pub open spec fn entry_views<V>(v: Seq<(String, V)>) -> Seq<(Seq<char>, V)> {
    v.map_values(|e: (String, V)| (e.0@, e.1))
}

/// An insertion-ordered map from text keys to values, with distinct keys.
pub struct AssocList<V> {
    entries: Vec<(String, V)>,
}

impl<V> AssocList<V> {
    /// The entries in order, keys taken by their text.
    pub closed spec fn pairs(&self) -> Seq<(Seq<char>, V)> {
        self.entries@.map_values(|e: (String, V)| (e.0@, e.1))
    }

    /// The map the entries denote.
    pub open spec fn map(&self) -> Map<Seq<char>, V> {
        pairs_map(self.pairs())
    }

    /// The keys in entry order.
    pub open spec fn keys(&self) -> Seq<Seq<char>> {
        self.pairs().map_values(|p: (Seq<char>, V)| p.0)
    }

    /// Keys are distinct.
    pub open spec fn wf(&self) -> bool {
        keys_distinct(self.pairs())
    }

    /// Whether `k` has an entry.
    pub open spec fn has(&self, k: Seq<char>) -> bool {
        self.map().dom().contains(k)
    }

    pub fn new() -> (r: Self)
        ensures
            r.wf(),
            r.pairs() == Seq::<(Seq<char>, V)>::empty(),
            r.map() == Map::<Seq<char>, V>::empty(),
    {
        let r = AssocList { entries: Vec::new() };
        assert(r.pairs() =~= Seq::<(Seq<char>, V)>::empty());
        r
    }

    pub fn len(&self) -> (r: usize)
        ensures
            r == self.pairs().len(),
    {
        self.entries.len()
    }

    /// The key and value of entry `i`.
    pub fn entry(&self, i: usize) -> (r: (&String, &V))
        requires
            i < self.pairs().len(),
        ensures
            r.0@ == self.pairs()[i as int].0,
            *r.1 == self.pairs()[i as int].1,
    {
        let e = &self.entries[i];
        (&e.0, &e.1)
    }

    /// The position of `k`, if it has an entry.
    pub fn find(&self, k: &String) -> (r: Option<usize>)
        requires
            self.wf(),
        ensures
            match r {
                Some(i) => i < self.pairs().len() && self.pairs()[i as int].0 == k@,
                None => !self.has(k@),
            },
            r is Some <==> self.has(k@),
    {
        proof {
            lemma_pairs_map(self.pairs());
        }
        let mut i: usize = 0;
        while i < self.entries.len()
            invariant
                i <= self.entries@.len(),
                self.wf(),
                forall|j: int| 0 <= j < i ==> (#[trigger] self.pairs()[j]).0 != k@,
            decreases self.entries@.len() - i,
        {
            if self.entries[i].0 == *k {
                assert(self.pairs()[i as int].0 == k@);
                proof {
                    lemma_pairs_map(self.pairs());
                }
                return Some(i);
            }
            assert(self.pairs()[i as int].0 != k@);
            i = i + 1;
        }
        None
    }

    /// The value stored under `k`.
    pub fn get(&self, k: &String) -> (r: Option<&V>)
        requires
            self.wf(),
        ensures
            match r {
                Some(v) => self.has(k@) && self.map()[k@] == *v,
                None => !self.has(k@),
            },
    {
        match self.find(k) {
            Some(i) => {
                proof {
                    lemma_pairs_map(self.pairs());
                }
                Some(&self.entries[i].1)
            },
            None => None,
        }
    }

    pub fn contains_key(&self, k: &String) -> (r: bool)
        requires
            self.wf(),
        ensures
            r == self.has(k@),
    {
        self.find(k).is_some()
    }

    /// Stores `v` under `k`: an existing entry keeps its place, a new key
    /// goes last. Returns the entry's position.
    pub fn insert(&mut self, k: String, v: V) -> (r: usize)
        requires
            old(self).wf(),
        ensures
            final(self).wf(),
            final(self).map() == old(self).map().insert(k@, v),
            r < final(self).pairs().len(),
            old(self).has(k@) ==> r < old(self).pairs().len() && old(self).pairs()[r as int].0 == k@
                && final(self).pairs() == old(self).pairs().update(r as int, (k@, v)),
            !old(self).has(k@) ==> r == old(self).pairs().len() && final(self).pairs() == old(
                self,
            ).pairs().push((k@, v)),
    {
        match self.find(&k) {
            Some(i) => {
                let ghost s = self.pairs();
                proof {
                    lemma_pairs_map_update(s, i as int, v);
                }
                self.entries.set(i, (k, v));
                assert(self.pairs() =~= s.update(i as int, (s[i as int].0, v)));
                i
            },
            None => {
                let ghost s = self.pairs();
                let ghost kv = k@;
                proof {
                    lemma_pairs_map_push(s, kv, v);
                }
                let n = self.entries.len();
                self.entries.push((k, v));
                assert(self.pairs() =~= s.push((kv, v)));
                n
            },
        }
    }

    /// Removes the entry of `k`, moving the last entry into its place.
    /// Returns the removed value and the position it had.
    pub fn remove(&mut self, k: &String) -> (r: Option<(V, usize)>)
        requires
            old(self).wf(),
        ensures
            final(self).wf(),
            final(self).map() == old(self).map().remove(k@),
            match r {
                Some((v, i)) => old(self).has(k@) && i < old(self).pairs().len() && old(
                    self,
                ).pairs()[i as int] == (k@, v) && v == old(self).map()[k@] && final(self).pairs()
                    == swap_removed(old(self).pairs(), i as int),
                None => !old(self).has(k@) && *final(self) == *old(self),
            },
    {
        match self.find(k) {
            Some(i) => {
                let ghost s = self.pairs();
                proof {
                    lemma_pairs_map_swap_remove(s, i as int);
                    lemma_pairs_map(s);
                }
                let e = self.entries.swap_remove(i);
                assert(self.pairs() =~= swap_removed(s, i as int));
                Some((e.1, i))
            },
            None => {
                proof {
                    assert(self.map().remove(k@) =~= self.map());
                }
                None
            },
        }
    }

    /// The keys increase strictly in text order.
    pub open spec fn sorted(&self) -> bool {
        keys_sorted(self.pairs())
    }

    /// Whether the keys increase strictly in text order.
    pub fn is_sorted(&self) -> (r: bool)
        ensures
            r == self.sorted(),
    {
        let ghost s = self.pairs();
        let n = self.entries.len();
        if n == 0 {
            return true;
        }
        let mut i: usize = 1;
        while i < n
            invariant
                1 <= i <= n,
                n == s.len(),
                s == self.pairs(),
                keys_sorted(s.take(i as int)),
            decreases n - i,
        {
            assert(s[i - 1].0 == self.entries@[i - 1].0@ && s[i as int].0 == self.entries@[i as int].0@);
            if !text_less(&self.entries[i - 1].0, &self.entries[i].0) {
                assert(!text_lt(s[i - 1].0, s[i as int].0));
                return false;
            }
            let ghost t = s.take(i + 1);
            assert forall|a: int, b: int| 0 <= a < b < t.len() implies text_lt((#[trigger] t[a]).0, (#[trigger] t[b]).0) by {
                assert(t[a] == s[a] && t[b] == s[b]);
                if b == i && a < i - 1 {
                    assert(s.take(i as int)[a] == s[a] && s.take(i as int)[i - 1] == s[i - 1]);
                    lemma_text_lt_transitive(s[a].0, s[i - 1].0, s[b].0);
                } else if b < i {
                    assert(s.take(i as int)[a] == s[a] && s.take(i as int)[b] == s[b]);
                }
            }
            i = i + 1;
        }
        assert(s.take(n as int) =~= s);
        true
    }

    /// Stores `v` under `k` in a list kept sorted by key: an existing entry
    /// is overwritten in place, a new key goes before the first greater one.
    pub fn insert_sorted(&mut self, k: String, v: V)
        requires
            old(self).wf(),
            old(self).sorted(),
        ensures
            final(self).wf(),
            final(self).sorted(),
            final(self).map() == old(self).map().insert(k@, v),
    {
        let ghost s = self.pairs();
        match self.find(&k) {
            Some(i) => {
                proof {
                    lemma_pairs_map_update(s, i as int, v);
                }
                self.entries.set(i, (k, v));
                assert(self.pairs() =~= s.update(i as int, (s[i as int].0, v)));
            },
            None => {
                let n = self.entries.len();
                let mut p: usize = 0;
                while p < n && !text_less(&k, &self.entries[p].0)
                    invariant
                        p <= n,
                        n == self.entries@.len(),
                        s == self.pairs(),
                        forall|j: int| 0 <= j < p ==> !text_lt(k@, (#[trigger] s[j]).0),
                    decreases n - p,
                {
                    assert(s[p as int].0 == self.entries@[p as int].0@);
                    p = p + 1;
                }
                let ghost kv = k@;
                proof {
                    lemma_pairs_map(s);
                    lemma_pairs_map_insert_at(s, p as int, kv, v);
                    assert forall|j: int| 0 <= j < p implies text_lt((#[trigger] s[j]).0, kv) by {
                        assert(pairs_map(s).dom().contains(s[j].0));
                        lemma_text_lt_total(s[j].0, kv);
                    }
                    if p < n {
                        assert(s[p as int].0 == self.entries@[p as int].0@);
                        assert(text_lt(kv, s[p as int].0));
                    }
                }
                self.entries.insert(p, (k, v));
                let ghost u = s.insert(p as int, (kv, v));
                assert(self.pairs() =~= u);
                assert forall|a: int, b: int| 0 <= a < b < u.len() implies text_lt((#[trigger] u[a]).0, (#[trigger] u[b]).0) by {
                    if a < p && b < p {
                        assert(u[a] == s[a] && u[b] == s[b]);
                    } else if a < p && b == p {
                        assert(u[a] == s[a]);
                    } else if a < p {
                        assert(u[a] == s[a] && u[b] == s[b - 1]);
                        lemma_text_lt_transitive(s[a].0, kv, s[p as int].0);
                        if b - 1 > p {
                            lemma_text_lt_transitive(s[a].0, s[p as int].0, s[b - 1].0);
                        }
                    } else if a == p {
                        assert(u[b] == s[b - 1]);
                        if b - 1 > p {
                            lemma_text_lt_transitive(kv, s[p as int].0, s[b - 1].0);
                        }
                    } else {
                        assert(u[a] == s[a - 1] && u[b] == s[b - 1]);
                    }
                }
            },
        }
    }

    /// Removes the entry of `k`, keeping the others in order.
    pub fn remove_sorted(&mut self, k: &String)
        requires
            old(self).wf(),
            old(self).sorted(),
        ensures
            final(self).wf(),
            final(self).sorted(),
            final(self).map() == old(self).map().remove(k@),
    {
        match self.find(k) {
            Some(i) => {
                let ghost s = self.pairs();
                proof {
                    lemma_pairs_map_remove_at(s, i as int);
                }
                self.entries.remove(i);
                let ghost u = s.remove(i as int);
                assert(self.pairs() =~= u);
                assert forall|a: int, b: int| 0 <= a < b < u.len() implies text_lt((#[trigger] u[a]).0, (#[trigger] u[b]).0) by {
                    let a2 = if a < i { a } else { a + 1 };
                    let b2 = if b < i { b } else { b + 1 };
                    assert(u[a] == s[a2] && u[b] == s[b2]);
                }
            },
            None => {
                assert(self.map().remove(k@) =~= self.map());
            },
        }
    }

    /// The entries, in order, given up by the list.
    pub fn into_entries(self) -> (r: Vec<(String, V)>)
        ensures
            entry_views(r@) == self.pairs(),
    {
        self.entries
    }

    /// The list of `entries`, when no key occurs twice.
    pub fn from_entries(entries: Vec<(String, V)>) -> (r: Option<Self>)
        ensures
            r is Some <==> keys_distinct(entry_views(entries@)),
            r matches Some(a) ==> a.wf() && a.pairs() == entry_views(entries@),
    {
        let ghost s = entry_views(entries@);
        let n = entries.len();
        let mut i: usize = 0;
        while i < n
            invariant
                i <= n,
                n == entries@.len(),
                s == entry_views(entries@),
                forall|a: int, b: int| 0 <= a < b < s.len() && a < i ==> (#[trigger] s[a]).0 != (#[trigger] s[b]).0,
            decreases n - i,
        {
            let mut j: usize = i + 1;
            while j < n
                invariant
                    i < n,
                    i + 1 <= j <= n,
                    n == entries@.len(),
                    s == entry_views(entries@),
                    forall|a: int, b: int| 0 <= a < b < s.len() && a < i ==> (#[trigger] s[a]).0 != (#[trigger] s[b]).0,
                    forall|b: int| i < b < j ==> s[i as int].0 != (#[trigger] s[b]).0,
                decreases n - j,
            {
                assert(s[i as int].0 == entries@[i as int].0@ && s[j as int].0 == entries@[j as int].0@);
                if entries[i].0 == entries[j].0 {
                    return None;
                }
                j = j + 1;
            }
            i = i + 1;
        }
        let r = AssocList { entries };
        assert(r.pairs() =~= s);
        Some(r)
    }
}

/// An insertion-ordered set of texts without repetition.
pub struct StrSet {
    items: Vec<String>,
}

impl StrSet {
    /// The members in order.
    pub closed spec fn seq(&self) -> Seq<Seq<char>> {
        self.items@.map_values(|s: String| s@)
    }

    /// Members are distinct.
    pub open spec fn wf(&self) -> bool {
        self.seq().no_duplicates()
    }

    /// The members as a set.
    pub open spec fn set(&self) -> Set<Seq<char>> {
        self.seq().to_set()
    }

    pub fn new() -> (r: Self)
        ensures
            r.wf(),
            r.seq() == Seq::<Seq<char>>::empty(),
    {
        let r = StrSet { items: Vec::new() };
        assert(r.seq() =~= Seq::<Seq<char>>::empty());
        r
    }

    pub fn len(&self) -> (r: usize)
        ensures
            r == self.seq().len(),
    {
        self.items.len()
    }

    /// Member `i`.
    pub fn at(&self, i: usize) -> (r: &String)
        requires
            i < self.seq().len(),
        ensures
            r@ == self.seq()[i as int],
    {
        &self.items[i]
    }

    /// The position of `x`, if it is a member.
    pub fn find(&self, x: &String) -> (r: Option<usize>)
        ensures
            match r {
                Some(i) => i < self.seq().len() && self.seq()[i as int] == x@,
                None => !self.seq().contains(x@),
            },
    {
        let mut i: usize = 0;
        while i < self.items.len()
            invariant
                i <= self.items@.len(),
                forall|j: int| 0 <= j < i ==> self.seq()[j] != x@,
            decreases self.items@.len() - i,
        {
            if self.items[i] == *x {
                return Some(i);
            }
            i = i + 1;
        }
        None
    }

    pub fn contains(&self, x: &String) -> (r: bool)
        ensures
            r == self.seq().contains(x@),
    {
        self.find(x).is_some()
    }

    /// Adds `x` at the end unless it is already a member; returns whether it was added.
    pub fn insert(&mut self, x: String) -> (r: bool)
        requires
            old(self).wf(),
        ensures
            final(self).wf(),
            r == !old(self).seq().contains(x@),
            r ==> final(self).seq() == old(self).seq().push(x@),
            !r ==> final(self).seq() == old(self).seq(),
            final(self).set() == old(self).set().insert(x@),
    {
        if self.contains(&x) {
            proof {
                assert(self.set() =~= self.set().insert(x@));
            }
            false
        } else {
            let ghost s = self.seq();
            let ghost xv = x@;
            self.items.push(x);
            assert(self.seq() =~= s.push(xv));
            proof {
                assert(self.seq().no_duplicates()) by {
                    assert forall|a: int, b: int| 0 <= a < self.seq().len() && 0 <= b < self.seq().len() && a != b
                        implies self.seq()[a] != self.seq()[b] by {
                        if a == s.len() as int {
                            assert(s.contains(s[b]));
                        } else if b == s.len() as int {
                            assert(s.contains(s[a]));
                        }
                    }
                }
                s.lemma_push_to_set_commute(xv);
            }
            true
        }
    }

    /// Removes `x` by moving the last member into its place; returns whether it was a member.
    pub fn remove(&mut self, x: &String) -> (r: bool)
        requires
            old(self).wf(),
        ensures
            final(self).wf(),
            r == old(self).seq().contains(x@),
            final(self).set() == old(self).set().remove(x@),
            match old(self).seq().index_of_first(x@) {
                Some(i) => final(self).seq() == swap_removed(old(self).seq(), i),
                None => final(self).seq() == old(self).seq(),
            },
    {
        match self.find(x) {
            Some(i) => {
                let ghost s = self.seq();
                proof {
                    s.index_of_first_ensures(x@);
                }
                self.items.swap_remove(i);
                assert(self.seq() =~= swap_removed(s, i as int));
                proof {
                    let u = swap_removed(s, i as int);
                    let n = s.len() - 1;
                    assert forall|a: int, b: int| 0 <= a < u.len() && 0 <= b < u.len() && a != b
                        implies u[a] != u[b] by {
                        let a2 = if a == i { n } else { a };
                        let b2 = if b == i { n } else { b };
                        assert(u[a] == s[a2] && u[b] == s[b2]);
                    }
                    assert forall|y: Seq<char>| #[trigger] u.contains(y) <==> s.to_set().remove(x@).contains(y) by {
                        if u.contains(y) {
                            let j = choose|j: int| 0 <= j < u.len() && u[j] == y;
                            let j2 = if j == i { n } else { j };
                            assert(u[j] == s[j2]);
                            assert(j2 != i);
                        }
                        if s.to_set().remove(x@).contains(y) {
                            let j = choose|j: int| 0 <= j < s.len() && s[j] == y;
                            assert(j != i);
                            if j == n {
                                assert(u[i as int] == y);
                            } else {
                                assert(u[j] == y);
                            }
                        }
                    }
                    assert(u.to_set() =~= s.to_set().remove(x@));
                }
                true
            },
            None => {
                proof {
                    self.seq().index_of_first_ensures(x@);
                    assert(self.set() =~= self.set().remove(x@));
                }
                false
            },
        }
    }

    /// A copy with the same members in the same order.
    pub fn duplicate(&self) -> (r: Self)
        ensures
            r.seq() == self.seq(),
    {
        let mut items: Vec<String> = Vec::new();
        let mut i: usize = 0;
        while i < self.items.len()
            invariant
                i <= self.items@.len(),
                items@.len() == i,
                forall|j: int| 0 <= j < i ==> (#[trigger] items@[j])@ == self.items@[j]@,
            decreases self.items@.len() - i,
        {
            let c = self.items[i].clone();
            items.push(c);
            i = i + 1;
        }
        let r = StrSet { items };
        assert(r.seq() =~= self.seq());
        r
    }

    /// The members, in order, given up by the set.
    pub fn into_items(self) -> (r: Vec<String>)
        ensures
            r@.map_values(|s: String| s@) == self.seq(),
    {
        self.items
    }

    /// The set of `items`, when none occurs twice.
    pub fn from_items(items: Vec<String>) -> (r: Option<Self>)
        ensures
            r is Some <==> items@.map_values(|s: String| s@).no_duplicates(),
            r matches Some(a) ==> a.wf() && a.seq() == items@.map_values(|s: String| s@),
    {
        let ghost s = items@.map_values(|x: String| x@);
        let n = items.len();
        let mut i: usize = 0;
        while i < n
            invariant
                i <= n,
                n == items@.len(),
                s == items@.map_values(|x: String| x@),
                forall|a: int, b: int| 0 <= a < s.len() && 0 <= b < s.len() && a != b && (a < i || b < i) ==> s[a] != s[b],
            decreases n - i,
        {
            let mut j: usize = i + 1;
            while j < n
                invariant
                    i < n,
                    i + 1 <= j <= n,
                    n == items@.len(),
                    s == items@.map_values(|x: String| x@),
                    forall|a: int, b: int| 0 <= a < s.len() && 0 <= b < s.len() && a != b && (a < i || b < i) ==> s[a] != s[b],
                    forall|b: int| i < b < j ==> s[i as int] != s[b],
                decreases n - j,
            {
                assert(s[i as int] == items@[i as int]@ && s[j as int] == items@[j as int]@);
                if items[i] == items[j] {
                    return None;
                }
                j = j + 1;
            }
            i = i + 1;
        }
        let r = StrSet { items };
        assert(r.seq() =~= s);
        Some(r)
    }
}

} // verus!
