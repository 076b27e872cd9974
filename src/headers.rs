//! String-to-string maps for headers and metadata.
use vstd::prelude::*;

verus! {

/// The map that a list of pairs makes when each pair is inserted in turn
/// (a later pair replaces an earlier one with the same key).
pub open spec fn pairs_map(s: Seq<(Seq<char>, Seq<char>)>) -> Map<Seq<char>, Seq<char>>
    decreases s.len(),
{
    if s.len() == 0 {
        Map::empty()
    } else {
        pairs_map(s.drop_last()).insert(s.last().0, s.last().1)
    }
}

/// The keys of a list of pairs are pairwise distinct.
pub open spec fn distinct_keys(s: Seq<(Seq<char>, Seq<char>)>) -> bool {
    forall|i: int, j: int| 0 <= i < j < s.len() ==> s[i].0 != s[j].0
}

/// A key is in the map exactly when some pair has it; with distinct keys, its
/// value is that pair's.
pub proof fn lemma_pairs_map(s: Seq<(Seq<char>, Seq<char>)>)
    ensures
        forall|k: Seq<char>| #[trigger]
            pairs_map(s).contains_key(k) <==> exists|i: int| 0 <= i < s.len() && s[i].0 == k,
        distinct_keys(s) ==> forall|i: int|
            0 <= i < s.len() ==> #[trigger] pairs_map(s)[s[i].0] == s[i].1,
    decreases s.len(),
{
    if s.len() > 0 {
        let t = s.drop_last();
        lemma_pairs_map(t);
        assert forall|k: Seq<char>| #[trigger]
            pairs_map(s).contains_key(k) <==> exists|i: int| 0 <= i < s.len() && s[i].0 == k by {
            if pairs_map(t).contains_key(k) {
                let i = choose|i: int| 0 <= i < t.len() && t[i].0 == k;
                assert(s[i] == t[i]);
            }
            if exists|i: int| 0 <= i < s.len() && s[i].0 == k {
                let i = choose|i: int| 0 <= i < s.len() && s[i].0 == k;
                if i < t.len() {
                    assert(t[i] == s[i]);
                }
            }
        }
        if distinct_keys(s) {
            assert(distinct_keys(t)) by {
                assert forall|a: int, b: int| 0 <= a < b < t.len() implies t[a].0 != t[b].0 by {
                    assert(t[a] == s[a] && t[b] == s[b]);
                }
            }
            assert forall|i: int| 0 <= i < s.len() implies #[trigger] pairs_map(s)[s[i].0]
                == s[i].1 by {
                if i < t.len() {
                    assert(t[i] == s[i]);
                    assert(s[i].0 != s.last().0);
                    assert(pairs_map(t)[t[i].0] == t[i].1);
                }
            }
        }
    }
}

/// A header map: pairs with distinct keys, in no meaningful order.
#[derive(Debug)]
pub struct Headers {
    pairs: Vec<(String, String)>,
}

/// A pair of strings as a pair of character sequences.
pub open spec fn pair_view(p: (String, String)) -> (Seq<char>, Seq<char>) {
    (p.0@, p.1@)
}

impl View for Headers {
    type V = Map<Seq<char>, Seq<char>>;

    closed spec fn view(&self) -> Map<Seq<char>, Seq<char>> {
        pairs_map(self.pair_views())
    }
}

impl Headers {
    spec fn pair_views(&self) -> Seq<(Seq<char>, Seq<char>)> {
        self.pairs@.map_values(|p: (String, String)| pair_view(p))
    }

    #[verifier::type_invariant]
    spec fn keys_distinct(&self) -> bool {
        distinct_keys(self.pair_views())
    }

    pub fn new() -> (r: Headers)
        ensures
            r@ == Map::<Seq<char>, Seq<char>>::empty(),
    {
        let r = Headers { pairs: Vec::new() };
        assert(r.pair_views() =~= seq![]);
        r
    }

    pub fn len(&self) -> (r: usize)
        ensures
            r == self@.len(),
    {
        proof {
            use_type_invariant(self);
            lemma_dom_len_of(self.pair_views());
        }
        self.pairs.len()
    }

    /// The position of the pair with key `key`, if any.
    fn position(&self, key: &String) -> (r: Option<usize>)
        ensures
            match r {
                Some(i) => i < self.pairs@.len() && self.pairs@[i as int].0@ == key@,
                None => !self@.contains_key(key@),
            },
    {
        proof {
            lemma_pairs_map(self.pair_views());
        }
        let mut i: usize = 0;
        while i < self.pairs.len()
            invariant
                i <= self.pairs@.len(),
                forall|j: int| 0 <= j < i ==> self.pairs@[j].0@ != key@,
            decreases self.pairs@.len() - i,
        {
            if self.pairs[i].0 == *key {
                return Some(i);
            }
            i = i + 1;
        }
        proof {
            assert forall|j: int| 0 <= j < self.pair_views().len() implies self.pair_views()[j].0
                != key@ by {
                assert(self.pair_views()[j] == pair_view(self.pairs@[j]));
            }
        }
        None
    }

    pub fn contains_key(&self, key: &String) -> (r: bool)
        ensures
            r == self@.contains_key(key@),
    {
        proof {
            lemma_pairs_map(self.pair_views());
        }
        match self.position(key) {
            Some(i) => {
                proof {
                    assert(self.pair_views()[i as int].0 == key@);
                }
                true
            },
            None => false,
        }
    }

    /// The value stored under `key`.
    pub fn get(&self, key: &String) -> (r: Option<&String>)
        ensures
            match r {
                Some(v) => self@.contains_key(key@) && self@[key@] == v@,
                None => !self@.contains_key(key@),
            },
    {
        proof {
            use_type_invariant(self);
            lemma_pairs_map(self.pair_views());
        }
        match self.position(key) {
            Some(i) => {
                proof {
                    assert(self.pair_views()[i as int] == pair_view(self.pairs@[i as int]));
                }
                Some(&self.pairs[i].1)
            },
            None => None,
        }
    }

    /// Stores `value` under `key`, replacing any earlier value.
    pub fn insert(&mut self, key: String, value: String)
        ensures
            final(self)@ == old(self)@.insert(key@, value@),
    {
        proof {
            use_type_invariant(&*self);
            lemma_pairs_map(self.pair_views());
        }
        let ghost before = self.pair_views();
        let found = self.position(&key);
        let mut taken = Headers::new();
        std::mem::swap(self, &mut taken);
        let mut pairs = taken.pairs;
        match found {
            Some(i) => {
                pairs.set(i, (key, value));
                proof {
                    let after = pairs@.map_values(|p: (String, String)| pair_view(p));
                    assert(after =~= before.update(i as int, (key@, value@)));
                    assert(distinct_keys(after)) by {
                        assert forall|a: int, b: int| 0 <= a < b < after.len() implies after[a].0
                            != after[b].0 by {
                            if a != i && b != i {
                                assert(after[a] == before[a] && after[b] == before[b]);
                            } else if a == i {
                                assert(after[b] == before[b]);
                                assert(before[a].0 == key@);
                            } else {
                                assert(after[a] == before[a]);
                                assert(before[b].0 == key@);
                            }
                        }
                    }
                    lemma_pairs_map(after);
                    assert(pairs_map(after) =~= pairs_map(before).insert(key@, value@)) by {
                        assert forall|k: Seq<char>| #[trigger]
                            pairs_map(after).contains_key(k) implies pairs_map(before).insert(
                            key@,
                            value@,
                        ).contains_key(k) && pairs_map(after)[k] == pairs_map(before).insert(
                            key@,
                            value@,
                        )[k] by {
                            let j = choose|j: int| 0 <= j < after.len() && after[j].0 == k;
                            assert(after[i as int].0 == key@);
                            if j != i {
                                assert(after[j] == before[j]);
                                assert(k != key@);
                            }
                        }
                        assert forall|k: Seq<char>| #[trigger]
                            pairs_map(before).insert(key@, value@).contains_key(
                                k,
                            ) implies pairs_map(after).contains_key(k) by {
                            if k == key@ {
                                assert(after[i as int].0 == k);
                            } else {
                                let j = choose|j: int| 0 <= j < before.len() && before[j].0 == k;
                                assert(after[j] == before[j]);
                            }
                        }
                    }
                }
                *self = Headers { pairs };
            },
            None => {
                pairs.push((key, value));
                proof {
                    let after = pairs@.map_values(|p: (String, String)| pair_view(p));
                    assert(after =~= before.push((key@, value@)));
                    assert(after.drop_last() =~= before);
                    assert(distinct_keys(after)) by {
                        assert forall|a: int, b: int| 0 <= a < b < after.len() implies after[a].0
                            != after[b].0 by {
                            if b < before.len() {
                                assert(after[a] == before[a] && after[b] == before[b]);
                            } else {
                                assert(after[a] == before[a]);
                            }
                        }
                    }
                }
                *self = Headers { pairs };
            },
        }
    }

    /// Adds every pair of `other`, whose keys must all be new: otherwise
    /// nothing changes and `Err` comes back.
    pub fn merge_disjoint(&mut self, other: Headers) -> (r: Result<(), ()>)
        ensures
            r is Ok <==> old(self)@.dom().disjoint(other@.dom()),
            r is Ok ==> final(self)@ == old(self)@.union_prefer_right(other@),
            r is Err ==> final(self)@ == old(self)@,
    {
        proof {
            use_type_invariant(&*self);
            use_type_invariant(&other);
            lemma_pairs_map(self.pair_views());
            lemma_pairs_map(other.pair_views());
        }
        let mut j: usize = 0;
        while j < other.pairs.len()
            invariant
                j <= other.pairs@.len(),
                forall|b: int| 0 <= b < j ==> !self@.contains_key(#[trigger] other.pairs@[b].0@),
            decreases other.pairs@.len() - j,
        {
            if self.contains_key(&other.pairs[j].0) {
                proof {
                    assert(other.pair_views()[j as int].0 == other.pairs@[j as int].0@);
                    lemma_pairs_map(other.pair_views());
                    assert(0 <= j < other.pair_views().len());
                    assert(other@.contains_key(other.pairs@[j as int].0@));
                    assert(self@.contains_key(other.pairs@[j as int].0@));
                }
                return Err(());
            }
            j = j + 1;
        }
        let ghost before = self.pair_views();
        let ghost theirs = other.pair_views();
        proof {
            use_type_invariant(&*self);
            use_type_invariant(&other);
            lemma_pairs_map(before);
            lemma_pairs_map(theirs);
            assert forall|k: Seq<char>|
                self@.contains_key(k) implies !other@.contains_key(k) by {
                if other@.contains_key(k) {
                    let b = choose|b: int| 0 <= b < theirs.len() && theirs[b].0 == k;
                    assert(theirs[b] == pair_view(other.pairs@[b]));
                }
            }
        }
        let mut taken = Headers::new();
        std::mem::swap(self, &mut taken);
        let mut pairs = taken.pairs;
        let mut theirs_pairs = other.pairs;
        pairs.append(&mut theirs_pairs);
        proof {
            let after = pairs@.map_values(|p: (String, String)| pair_view(p));
            assert(after =~= before + theirs);
            assert(distinct_keys(after)) by {
                assert forall|a: int, b: int| 0 <= a < b < after.len() implies after[a].0
                    != after[b].0 by {
                    if b < before.len() {
                        assert(after[a] == before[a] && after[b] == before[b]);
                    } else if a >= before.len() {
                        assert(after[a] == theirs[a - before.len()]);
                        assert(after[b] == theirs[b - before.len()]);
                    } else {
                        assert(after[a] == before[a]);
                        assert(after[b] == theirs[b - before.len()]);
                        assert(pairs_map(before).contains_key(before[a].0));
                        assert(pairs_map(theirs).contains_key(theirs[b - before.len()].0));
                    }
                }
            }
            lemma_pairs_map(after);
            let merged = pairs_map(before).union_prefer_right(pairs_map(theirs));
            assert(pairs_map(after) =~= merged) by {
                assert forall|k: Seq<char>| #[trigger]
                    pairs_map(after).contains_key(k) implies merged.contains_key(k)
                    && pairs_map(after)[k] == merged[k] by {
                    let c = choose|c: int| 0 <= c < after.len() && after[c].0 == k;
                    if c < before.len() {
                        assert(after[c] == before[c]);
                        assert(pairs_map(before).contains_key(k));
                    } else {
                        assert(after[c] == theirs[c - before.len()]);
                        assert(pairs_map(theirs).contains_key(k));
                    }
                }
                assert forall|k: Seq<char>| #[trigger]
                    merged.contains_key(k) implies pairs_map(after).contains_key(k) by {
                    if pairs_map(before).contains_key(k) {
                        let c = choose|c: int| 0 <= c < before.len() && before[c].0 == k;
                        assert(after[c] == before[c]);
                    } else {
                        let c = choose|c: int| 0 <= c < theirs.len() && theirs[c].0 == k;
                        assert(after[c + before.len()] == theirs[c]);
                    }
                }
            }
        }
        *self = Headers { pairs };
        Ok(())
    }

    /// The pairs, in storage order.
    pub fn pairs(&self) -> (r: &Vec<(String, String)>)
        ensures
            pairs_map(r@.map_values(|p: (String, String)| pair_view(p))) == self@,
            distinct_keys(r@.map_values(|p: (String, String)| pair_view(p))),
    {
        proof {
            use_type_invariant(self);
        }
        &self.pairs
    }
}

/// With distinct keys, the map has one key per pair.
proof fn lemma_dom_len_of(s: Seq<(Seq<char>, Seq<char>)>)
    requires
        distinct_keys(s),
    ensures
        pairs_map(s).dom().len() == s.len(),
        pairs_map(s).dom().finite(),
    decreases s.len(),
{
    if s.len() > 0 {
        let t = s.drop_last();
        assert(distinct_keys(t)) by {
            assert forall|a: int, b: int| 0 <= a < b < t.len() implies t[a].0 != t[b].0 by {
                assert(t[a] == s[a] && t[b] == s[b]);
            }
        }
        lemma_dom_len_of(t);
        lemma_pairs_map(t);
        assert(!pairs_map(t).contains_key(s.last().0)) by {
            if pairs_map(t).contains_key(s.last().0) {
                let i = choose|i: int| 0 <= i < t.len() && t[i].0 == s.last().0;
                assert(t[i] == s[i]);
            }
        }
    }
}

} // verus!
