//! An ordered map from strings to strings: the header and metadata maps of
//! requests, with the key order and overwrite behaviour of a `BTreeMap`.

use vstd::prelude::*;
use crate::text::{ascii_lowercase, to_ascii_lowercase, chars_eq, chars_lt, chars_of, lemma_seq_lt_irreflexive, lemma_seq_lt_total, lemma_seq_lt_transitive, seq_lt};

verus! {

/// The character views of a list of string pairs.
pub open spec fn pair_views(entries: Seq<(String, String)>) -> Seq<(Seq<char>, Seq<char>)> {
    Seq::new(entries.len(), |i: int| (entries[i].0@, entries[i].1@))
}

/// Keys strictly increasing in code point order.
pub open spec fn keys_increasing(pairs: Seq<(Seq<char>, Seq<char>)>) -> bool {
    forall|i: int, j: int| 0 <= i < j < pairs.len() ==> seq_lt(#[trigger] pairs[i].0, #[trigger] pairs[j].0)
}

/// The value of the last pair whose key is `k`.
pub open spec fn lookup(pairs: Seq<(Seq<char>, Seq<char>)>, k: Seq<char>) -> Option<Seq<char>>
    decreases pairs.len(),
{
    if pairs.len() == 0 {
        None
    } else if pairs.last().0 == k {
        Some(pairs.last().1)
    } else {
        lookup(pairs.drop_last(), k)
    }
}

/// The map that a list of pairs with distinct keys denotes.
pub open spec fn pairs_map(pairs: Seq<(Seq<char>, Seq<char>)>) -> Map<Seq<char>, Seq<char>> {
    Map::new(|k: Seq<char>| lookup(pairs, k) is Some, |k: Seq<char>| lookup(pairs, k)->0)
}

proof fn lemma_lookup_absent(pairs: Seq<(Seq<char>, Seq<char>)>, k: Seq<char>)
    requires
        forall|i: int| 0 <= i < pairs.len() ==> pairs[i].0 != k,
    ensures
        lookup(pairs, k) is None,
    decreases pairs.len(),
{
    if pairs.len() > 0 {
        lemma_lookup_absent(pairs.drop_last(), k);
    }
}

proof fn lemma_lookup_at(pairs: Seq<(Seq<char>, Seq<char>)>, k: Seq<char>, i: int)
    requires
        0 <= i < pairs.len(),
        pairs[i].0 == k,
        forall|j: int| i < j < pairs.len() ==> pairs[j].0 != k,
    ensures
        lookup(pairs, k) == Some(pairs[i].1),
    decreases pairs.len(),
{
    if i < pairs.len() - 1 {
        lemma_lookup_at(pairs.drop_last(), k, i);
    }
}

/// In a list with increasing keys, the lookup of a key finds the pair at the
/// position of that key, and nothing for an absent key.
pub proof fn lemma_lookup_sorted(pairs: Seq<(Seq<char>, Seq<char>)>, k: Seq<char>)
    requires
        keys_increasing(pairs),
    ensures
        forall|i: int| 0 <= i < pairs.len() && pairs[i].0 == k ==> lookup(pairs, k) == Some(
            pairs[i].1,
        ),
        (forall|i: int| 0 <= i < pairs.len() ==> pairs[i].0 != k) ==> lookup(pairs, k) is None,
{
    assert forall|i: int| 0 <= i < pairs.len() && pairs[i].0 == k implies lookup(pairs, k) == Some(
        pairs[i].1,
    ) by {
        assert forall|j: int| i < j < pairs.len() implies pairs[j].0 != k by {
            assert(seq_lt(pairs[i].0, pairs[j].0));
            lemma_seq_lt_irreflexive(k);
        }
        lemma_lookup_at(pairs, k, i);
    }
    if forall|i: int| 0 <= i < pairs.len() ==> pairs[i].0 != k {
        lemma_lookup_absent(pairs, k);
    }
}

proof fn lemma_pairs_map_insert(
    old_pairs: Seq<(Seq<char>, Seq<char>)>,
    new_pairs: Seq<(Seq<char>, Seq<char>)>,
    k: Seq<char>,
    v: Seq<char>,
)
    requires
        lookup(new_pairs, k) == Some(v),
        forall|q: Seq<char>| q != k ==> lookup(new_pairs, q) == lookup(old_pairs, q),
    ensures
        pairs_map(new_pairs) == pairs_map(old_pairs).insert(k, v),
{
    let a = pairs_map(new_pairs);
    let b = pairs_map(old_pairs).insert(k, v);
    assert forall|q: Seq<char>| a.dom().contains(q) <==> b.dom().contains(q) by {
        if q != k {
            assert(lookup(new_pairs, q) == lookup(old_pairs, q));
        }
    }
    assert(a.dom() =~= b.dom());
    assert forall|q: Seq<char>| a.dom().contains(q) implies a[q] == b[q] by {
        if q != k {
            assert(lookup(new_pairs, q) == lookup(old_pairs, q));
        }
    }
    assert(a =~= b);
}

/// A list with increasing keys that denotes the one-entry map `{k: v}` is the
/// single pair `(k, v)`.
pub proof fn lemma_single_entry(pairs: Seq<(Seq<char>, Seq<char>)>, k: Seq<char>, v: Seq<char>)
    requires
        keys_increasing(pairs),
        pairs_map(pairs) == Map::<Seq<char>, Seq<char>>::empty().insert(k, v),
    ensures
        pairs == seq![(k, v)],
{
    let m = pairs_map(pairs);
    lemma_lookup_sorted(pairs, k);
    assert forall|i: int| 0 <= i < pairs.len() implies pairs[i].0 == k by {
        lemma_lookup_sorted(pairs, pairs[i].0);
        assert(m.dom().contains(pairs[i].0));
    }
    assert(m.dom().contains(k));
    if pairs.len() == 0 {
        assert(lookup(pairs, k) is None);
    }
    if pairs.len() >= 2 {
        assert(seq_lt(pairs[0].0, pairs[1].0));
        lemma_seq_lt_irreflexive(k);
    }
    assert(pairs.len() == 1);
    assert(pairs[0].0 == k);
    assert(lookup(pairs, k) == Some(pairs[0].1));
    assert(m[k] == v);
    assert(pairs[0].1 == v);
    assert(pairs[0] == (k, v));
    assert(pairs =~= seq![(k, v)]);
}

/// A key that a list of pairs maps to something is the key of one of its
/// pairs.
proof fn lemma_lookup_some(pairs: Seq<(Seq<char>, Seq<char>)>, k: Seq<char>)
    requires
        lookup(pairs, k) is Some,
    ensures
        exists|i: int| 0 <= i < pairs.len() && #[trigger] pairs[i].0 == k,
    decreases pairs.len(),
{
    if pairs.last().0 != k {
        lemma_lookup_some(pairs.drop_last(), k);
        let i = choose|i: int| 0 <= i < pairs.len() - 1 && #[trigger] pairs.drop_last()[i].0 == k;
        assert(pairs[i].0 == k);
    } else {
        assert(pairs[pairs.len() - 1].0 == k);
    }
}

/// The entries of a map are determined by its contents: two lists of pairs
/// with increasing keys that denote the same map are the same list.
pub proof fn law_entries_determined_by_contents(
    p: Seq<(Seq<char>, Seq<char>)>,
    q: Seq<(Seq<char>, Seq<char>)>,
)
    requires
        keys_increasing(p),
        keys_increasing(q),
        pairs_map(p) == pairs_map(q),
    ensures
        p == q,
    decreases p.len() + q.len(),
{
    let m = pairs_map(p);
    if p.len() == 0 || q.len() == 0 {
        if q.len() > 0 {
            lemma_lookup_sorted(q, q[0].0);
            assert(pairs_map(q).dom().contains(q[0].0));
            assert(lookup(p, q[0].0) is None);
        }
        if p.len() > 0 {
            lemma_lookup_sorted(p, p[0].0);
            assert(m.dom().contains(p[0].0));
            assert(lookup(q, p[0].0) is None);
        }
        assert(p =~= q);
    } else {
        let kp = p.last().0;
        let kq = q.last().0;
        lemma_lookup_sorted(p, kp);
        lemma_lookup_sorted(q, kq);
        assert(m.dom().contains(kp));
        assert(pairs_map(q).dom().contains(kq));
        lemma_lookup_some(q, kp);
        lemma_lookup_some(p, kq);
        let j = choose|j: int| 0 <= j < q.len() && #[trigger] q[j].0 == kp;
        let i = choose|i: int| 0 <= i < p.len() && #[trigger] p[i].0 == kq;
        if kp != kq {
            assert(j < q.len() - 1);
            assert(seq_lt(q[j].0, q[q.len() - 1].0));
            assert(i < p.len() - 1);
            assert(seq_lt(p[i].0, p[p.len() - 1].0));
            lemma_seq_lt_transitive(kp, kq, kp);
            lemma_seq_lt_irreflexive(kp);
        }
        let k = kp;
        assert(lookup(p, k) == Some(p.last().1));
        assert(lookup(q, k) == Some(q.last().1));
        assert(m[k] == pairs_map(q)[k]);
        let p1 = p.drop_last();
        let q1 = q.drop_last();
        assert(keys_increasing(p1)) by {
            assert forall|a: int, b: int| 0 <= a < b < p1.len() implies seq_lt(
                #[trigger] p1[a].0,
                #[trigger] p1[b].0,
            ) by {
                assert(seq_lt(p[a].0, p[b].0));
            }
        }
        assert(keys_increasing(q1)) by {
            assert forall|a: int, b: int| 0 <= a < b < q1.len() implies seq_lt(
                #[trigger] q1[a].0,
                #[trigger] q1[b].0,
            ) by {
                assert(seq_lt(q[a].0, q[b].0));
            }
        }
        assert forall|a: int| 0 <= a < p1.len() implies #[trigger] p1[a].0 != k by {
            assert(seq_lt(p[a].0, p[p.len() - 1].0));
            lemma_seq_lt_irreflexive(k);
        }
        assert forall|a: int| 0 <= a < q1.len() implies #[trigger] q1[a].0 != k by {
            assert(seq_lt(q[a].0, q[q.len() - 1].0));
            lemma_seq_lt_irreflexive(k);
        }
        lemma_lookup_absent(p1, k);
        lemma_lookup_absent(q1, k);
        assert forall|x: Seq<char>| #[trigger] lookup(p1, x) == lookup(q1, x) by {
            if x != k {
                assert(lookup(p, x) == lookup(p1, x));
                assert(lookup(q, x) == lookup(q1, x));
                assert(m.dom().contains(x) == pairs_map(q).dom().contains(x));
                if m.dom().contains(x) {
                    assert(m[x] == pairs_map(q)[x]);
                }
            }
        }
        assert(pairs_map(p1) =~= pairs_map(q1)) by {
            assert forall|x: Seq<char>| pairs_map(p1).dom().contains(x) == pairs_map(q1).dom().contains(x) by {
                assert(lookup(p1, x) == lookup(q1, x));
            }
            assert forall|x: Seq<char>| pairs_map(p1).dom().contains(x) implies pairs_map(p1)[x] == pairs_map(q1)[x] by {
                assert(lookup(p1, x) == lookup(q1, x));
            }
        }
        law_entries_determined_by_contents(p1, q1);
        assert(p.last() == q.last());
        assert(p =~= p1.push(p.last()));
        assert(q =~= q1.push(q.last()));
    }
}

/// The value of the last pair whose key, in ASCII lowercase, is `name`.
pub open spec fn last_lowercase_match(pairs: Seq<(Seq<char>, Seq<char>)>, name: Seq<char>) -> Option<
    Seq<char>,
>
    decreases pairs.len(),
{
    if pairs.len() == 0 {
        None
    } else if ascii_lowercase(pairs.last().0) == name {
        Some(pairs.last().1)
    } else {
        last_lowercase_match(pairs.drop_last(), name)
    }
}

/// A map from strings to strings that keeps its keys in increasing order, as
/// a `BTreeMap<String, String>` does.
#[derive(Debug)]
pub struct StringMap {
    entries: Vec<(String, String)>,
}

impl View for StringMap {
    type V = Map<Seq<char>, Seq<char>>;

    open spec fn view(&self) -> Map<Seq<char>, Seq<char>> {
        pairs_map(self.pairs())
    }
}

impl StringMap {
    /// The entries as character views, in increasing key order.
    pub closed spec fn pairs(&self) -> Seq<(Seq<char>, Seq<char>)> {
        pair_views(self.entries@)
    }

    #[verifier::type_invariant]
    spec fn well_ordered(&self) -> bool {
        keys_increasing(self.pairs())
    }

    /// An empty map.
    pub fn new() -> (r: StringMap)
        ensures
            r.pairs().len() == 0,
            r@ == Map::<Seq<char>, Seq<char>>::empty(),
    {
        let r = StringMap { entries: Vec::new() };
        assert(r.pairs().len() == 0);
        assert(r@ =~= Map::<Seq<char>, Seq<char>>::empty());
        r
    }

    /// The number of entries.
    pub fn len(&self) -> (r: usize)
        ensures
            r == self.pairs().len(),
    {
        self.entries.len()
    }

    /// The entries in increasing key order.
    pub fn entries(&self) -> (r: &Vec<(String, String)>)
        ensures
            pair_views(r@) == self.pairs(),
            keys_increasing(self.pairs()),
    {
        proof {
            use_type_invariant(self);
        }
        &self.entries
    }

    /// Sets the value of `key` to `value`, replacing any earlier value.
    pub fn insert(&mut self, key: String, value: String)
        ensures
            final(self)@ == old(self)@.insert(key@, value@),
            keys_increasing(final(self).pairs()),
    {
        proof {
            use_type_invariant(&*self);
        }
        let mut entries: Vec<(String, String)> = Vec::new();
        std::mem::swap(&mut entries, &mut self.entries);
        let kc = chars_of(key.as_str());
        let n = entries.len();
        let mut i: usize = 0;
        while i < n && chars_lt(chars_of(entries[i].0.as_str()).as_slice(), kc.as_slice())
            invariant
                n == entries@.len(),
                i <= n,
                kc@ == key@,
                keys_increasing(pair_views(entries@)),
                forall|j: int| 0 <= j < i ==> seq_lt(#[trigger] entries@[j].0@, key@),
            decreases n - i,
        {
            i = i + 1;
        }
        let ghost old_pairs = pair_views(entries@);
        let ghost k = key@;
        let ghost v = value@;
        let mut same = false;
        if i < n {
            let ec = chars_of(entries[i].0.as_str());
            same = chars_eq(ec.as_slice(), kc.as_slice());
        }
        if same {
            let _ = entries.remove(i);
            entries.insert(i, (key, value));
            proof {
                let new_pairs = pair_views(entries@);
                assert(new_pairs =~= old_pairs.update(i as int, (k, v)));
                assert(keys_increasing(new_pairs)) by {
                    assert forall|a: int, b: int| 0 <= a < b < new_pairs.len() implies seq_lt(
                        #[trigger] new_pairs[a].0,
                        #[trigger] new_pairs[b].0,
                    ) by {
                        assert(seq_lt(old_pairs[a].0, old_pairs[b].0));
                    }
                }
                lemma_lookup_sorted(old_pairs, k);
                lemma_lookup_sorted(new_pairs, k);
                assert(new_pairs[i as int].0 == k);
                assert forall|q: Seq<char>| q != k implies lookup(new_pairs, q) == lookup(
                    old_pairs,
                    q,
                ) by {
                    lemma_lookup_sorted(old_pairs, q);
                    lemma_lookup_sorted(new_pairs, q);
                    if exists|j: int| 0 <= j < old_pairs.len() && old_pairs[j].0 == q {
                        let j = choose|j: int| 0 <= j < old_pairs.len() && old_pairs[j].0 == q;
                        assert(new_pairs[j].0 == q);
                    }
                    if exists|j: int| 0 <= j < new_pairs.len() && new_pairs[j].0 == q {
                        let j = choose|j: int| 0 <= j < new_pairs.len() && new_pairs[j].0 == q;
                        assert(old_pairs[j].0 == q);
                    }
                }
                lemma_pairs_map_insert(old_pairs, new_pairs, k, v);
            }
        } else {
            entries.insert(i, (key, value));
            proof {
                let new_pairs = pair_views(entries@);
                assert(new_pairs =~= old_pairs.insert(i as int, (k, v)));
                if i < n {
                    assert(old_pairs[i as int].0 != k);
                    lemma_seq_lt_total(old_pairs[i as int].0, k);
                    assert(seq_lt(k, old_pairs[i as int].0));
                }
                assert forall|j: int| i <= j < n implies seq_lt(k, #[trigger] old_pairs[j].0) by {
                    if j > i {
                        assert(seq_lt(old_pairs[i as int].0, old_pairs[j].0));
                        lemma_seq_lt_transitive(k, old_pairs[i as int].0, old_pairs[j].0);
                    }
                }
                assert(keys_increasing(new_pairs)) by {
                    assert forall|a: int, b: int| 0 <= a < b < new_pairs.len() implies seq_lt(
                        #[trigger] new_pairs[a].0,
                        #[trigger] new_pairs[b].0,
                    ) by {
                        if a < i && b < i {
                            assert(seq_lt(old_pairs[a].0, old_pairs[b].0));
                        } else if a < i && b == i {
                        } else if a < i && b > i {
                            assert(seq_lt(old_pairs[a].0, old_pairs[b - 1].0));
                        } else if a == i {
                            assert(seq_lt(k, old_pairs[b - 1].0));
                        } else {
                            assert(seq_lt(old_pairs[a - 1].0, old_pairs[b - 1].0));
                        }
                    }
                }
                lemma_lookup_sorted(new_pairs, k);
                assert(new_pairs[i as int].0 == k);
                assert forall|q: Seq<char>| q != k implies lookup(new_pairs, q) == lookup(
                    old_pairs,
                    q,
                ) by {
                    lemma_lookup_sorted(old_pairs, q);
                    lemma_lookup_sorted(new_pairs, q);
                    if exists|j: int| 0 <= j < old_pairs.len() && old_pairs[j].0 == q {
                        let j = choose|j: int| 0 <= j < old_pairs.len() && old_pairs[j].0 == q;
                        if j < i {
                            assert(new_pairs[j].0 == q);
                        } else {
                            assert(new_pairs[j + 1].0 == q);
                        }
                    }
                    if exists|j: int| 0 <= j < new_pairs.len() && new_pairs[j].0 == q {
                        let j = choose|j: int| 0 <= j < new_pairs.len() && new_pairs[j].0 == q;
                        if j < i {
                            assert(old_pairs[j].0 == q);
                        } else {
                            assert(j != i);
                            assert(old_pairs[j - 1].0 == q);
                        }
                    }
                }
                lemma_pairs_map_insert(old_pairs, new_pairs, k, v);
            }
        }
        self.entries = entries;
    }

    /// The value stored under `key`.
    pub fn get(&self, key: &str) -> (r: Option<&String>)
        ensures
            match r {
                Some(v) => self@.contains_key(key@) && self@[key@] == v@,
                None => !self@.contains_key(key@),
            },
    {
        proof {
            use_type_invariant(self);
            lemma_lookup_sorted(self.pairs(), key@);
        }
        let kc = chars_of(key);
        let n = self.entries.len();
        let mut i: usize = 0;
        while i < n
            invariant
                n == self.entries@.len(),
                i <= n,
                kc@ == key@,
                keys_increasing(self.pairs()),
                forall|j: int| 0 <= j < i ==> #[trigger] self.entries@[j].0@ != key@,
            decreases n - i,
        {
            let ec = chars_of(self.entries[i].0.as_str());
            if chars_eq(ec.as_slice(), kc.as_slice()) {
                assert(self.pairs()[i as int].0 == key@);
                proof {
                    lemma_lookup_sorted(self.pairs(), key@);
                }
                return Some(&self.entries[i].1);
            }
            i = i + 1;
        }
        assert(forall|j: int| 0 <= j < self.pairs().len() ==> self.pairs()[j].0 != key@);
        None
    }

    /// Whether `key` has a value.
    pub fn contains_key(&self, key: &str) -> (r: bool)
        ensures
            r == self@.contains_key(key@),
    {
        self.get(key).is_some()
    }

    /// The value of the last entry, in key order, whose key in ASCII lowercase
    /// is `name`; this is the value that `name` has once the keys are
    /// lowercased and collected into a new map in key order.
    pub fn get_lowercase_last(&self, name: &str) -> (r: Option<&String>)
        ensures
            match r {
                Some(v) => last_lowercase_match(self.pairs(), name@) == Some(v@),
                None => last_lowercase_match(self.pairs(), name@) is None,
            },
    {
        let nc = chars_of(name);
        let n = self.entries.len();
        let mut found: Option<&String> = None;
        let mut i: usize = 0;
        assert(self.pairs().take(0).len() == 0);
        while i < n
            invariant
                n == self.entries@.len(),
                i <= n,
                nc@ == name@,
                match found {
                    Some(v) => last_lowercase_match(self.pairs().take(i as int), name@) == Some(v@),
                    None => last_lowercase_match(self.pairs().take(i as int), name@) is None,
                },
            decreases n - i,
        {
            let lower = to_ascii_lowercase(self.entries[i].0.as_str());
            let lc = chars_of(lower.as_str());
            assert(self.pairs().take(i + 1).drop_last() == self.pairs().take(i as int));
            if chars_eq(lc.as_slice(), nc.as_slice()) {
                found = Some(&self.entries[i].1);
            }
            i = i + 1;
        }
        assert(self.pairs().take(n as int) == self.pairs());
        found
    }
}

} // verus!
