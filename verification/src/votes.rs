//! The per-round vote tally: one boolean vote per node id, last write wins.

use vstd::prelude::*;

verus! {

broadcast use vstd::set::group_set_axioms;

/// The map described by a sequence of (node id, vote) pairs, later pairs
/// overriding earlier ones.
pub open spec fn map_of(s: Seq<(String, bool)>) -> Map<Seq<char>, bool>
    decreases s.len(),
{
    if s.len() == 0 {
        Map::empty()
    } else {
        map_of(s.drop_last()).insert(s.last().0@, s.last().1)
    }
}

/// Pairwise-distinct node ids.
pub open spec fn distinct_keys(s: Seq<(String, bool)>) -> bool {
    forall|i: int, j: int| 0 <= i < j < s.len() ==> (#[trigger] s[i]).0@ != (#[trigger] s[j]).0@
}

/// Some pair in the sequence carries this node id.
pub open spec fn has_key(s: Seq<(String, bool)>, k: Seq<char>) -> bool {
    exists|i: int| 0 <= i < s.len() && (#[trigger] s[i]).0@ == k
}

/// The node ids with a positive vote.
pub open spec fn true_votes(m: Map<Seq<char>, bool>) -> Set<Seq<char>> {
    m.dom().filter(|k: Seq<char>| m[k])
}

/// Some node in the map voted that the proposal is valid.
pub open spec fn any_true(m: Map<Seq<char>, bool>) -> bool {
    exists|k: Seq<char>| #[trigger] m.dom().contains(k) && m[k]
}

/// The domain of the described map is finite and holds exactly the node ids
/// that occur in the sequence.
pub proof fn lemma_map_of_dom(s: Seq<(String, bool)>)
    ensures
        map_of(s).dom().finite(),
        forall|k: Seq<char>| #[trigger] map_of(s).dom().contains(k) <==> has_key(s, k),
    decreases s.len(),
{
    if s.len() == 0 {
    } else {
        lemma_map_of_dom(s.drop_last());
        assert forall|k: Seq<char>| #[trigger] map_of(s).dom().contains(k) <==> has_key(s, k) by {
            if map_of(s).dom().contains(k) {
                if k == s.last().0@ {
                    assert(s[s.len() - 1].0@ == k);
                } else {
                    let i = choose|i: int| 0 <= i < s.drop_last().len() && (#[trigger] s.drop_last()[i]).0@ == k;
                    assert(s[i].0@ == k);
                }
            }
            if has_key(s, k) {
                let i = choose|i: int| 0 <= i < s.len() && (#[trigger] s[i]).0@ == k;
                if i == s.len() - 1 {
                    assert(map_of(s).dom().contains(k));
                } else {
                    assert(s.drop_last()[i].0@ == k);
                    assert(has_key(s.drop_last(), k));
                }
            }
        }
    }
}

/// With distinct node ids, each pair's vote is the described map's value at
/// the pair's node id.
pub proof fn lemma_map_of_index(s: Seq<(String, bool)>, i: int)
    requires
        distinct_keys(s),
        0 <= i < s.len(),
    ensures
        map_of(s).dom().contains(s[i].0@),
        map_of(s)[s[i].0@] == s[i].1,
    decreases s.len(),
{
    if i == s.len() - 1 {
    } else {
        assert(s.drop_last()[i] == s[i]);
        lemma_map_of_index(s.drop_last(), i);
        assert(s[i].0@ != s.last().0@);
    }
}

/// Overriding the vote of one pair in place is, on the described map, an
/// insertion at that pair's node id.
pub proof fn lemma_map_of_update(s: Seq<(String, bool)>, i: int, v: bool)
    requires
        distinct_keys(s),
        0 <= i < s.len(),
    ensures
        map_of(s.update(i, (s[i].0, v))) == map_of(s).insert(s[i].0@, v),
    decreases s.len(),
{
    let t = s.update(i, (s[i].0, v));
    if i == s.len() - 1 {
        assert(t.drop_last() =~= s.drop_last());
        assert(map_of(t) =~= map_of(s).insert(s[i].0@, v));
    } else {
        assert(t.drop_last() =~= s.drop_last().update(i, (s[i].0, v)));
        assert(s.drop_last()[i] == s[i]);
        lemma_map_of_update(s.drop_last(), i, v);
        assert(t.last() == s.last());
        // the updated key differs from the last pair's key, so the two
        // insertions commute
        assert(s[i].0@ != s.last().0@);
        assert(map_of(t) =~= map_of(s).insert(s[i].0@, v));
    }
}

/// The per-round vote tally. Stored as a vector of (node id, vote) pairs
/// with pairwise-distinct node ids; viewed in specifications as a map from
/// node id (as a sequence of characters) to the vote.
pub struct VoteMap {
    entries: Vec<(String, bool)>,
}

impl View for VoteMap {
    type V = Map<Seq<char>, bool>;

    closed spec fn view(&self) -> Map<Seq<char>, bool> {
        map_of(self.entries@)
    }
}

impl VoteMap {
    /// The stored pairs carry pairwise-distinct node ids.
    pub closed spec fn well_formed(&self) -> bool {
        distinct_keys(self.entries@)
    }

    /// An empty tally.
    pub fn new() -> (r: VoteMap)
        ensures
            r.well_formed(),
            r@ == Map::<Seq<char>, bool>::empty(),
    {
        VoteMap { entries: Vec::new() }
    }

    /// Discard every recorded vote.
    pub fn clear(&mut self)
        ensures
            final(self).well_formed(),
            final(self)@ == Map::<Seq<char>, bool>::empty(),
    {
        self.entries = Vec::new();
    }

    /// Record `is_valid` as `node_id`'s vote, overwriting any earlier vote by
    /// the same node.
    pub fn insert(&mut self, node_id: String, is_valid: bool)
        requires
            old(self).well_formed(),
        ensures
            final(self).well_formed(),
            final(self)@ == old(self)@.insert(node_id@, is_valid),
    {
        let n = self.entries.len();
        for i in 0..n
            invariant
                n == self.entries.len(),
                old(self).well_formed(),
                self.entries@ == old(self).entries@,
                forall|j: int| 0 <= j < i ==> (#[trigger] self.entries@[j]).0@ != node_id@,
        {
            if self.entries[i].0 == node_id {
                let key = self.entries[i].0.clone();
                self.entries.set(i, (key, is_valid));
                proof {
                    lemma_map_of_update(old(self).entries@, i as int, is_valid);
                    assert(self.entries@ =~= old(self).entries@.update(i as int, (old(self).entries@[i as int].0, is_valid)));
                    assert forall|a: int, b: int| 0 <= a < b < self.entries@.len()
                        implies (#[trigger] self.entries@[a]).0@ != (#[trigger] self.entries@[b]).0@ by {
                        assert(self.entries@[a].0@ == old(self).entries@[a].0@);
                        assert(self.entries@[b].0@ == old(self).entries@[b].0@);
                    }
                }
                return;
            }
        }
        self.entries.push((node_id, is_valid));
        proof {
            assert(self.entries@.drop_last() =~= old(self).entries@);
            assert(forall|j: int| 0 <= j < old(self).entries@.len()
                ==> (#[trigger] old(self).entries@[j]).0@ != node_id@);
            assert forall|a: int, b: int| 0 <= a < b < self.entries@.len()
                implies (#[trigger] self.entries@[a]).0@ != (#[trigger] self.entries@[b]).0@ by {
                if b == self.entries@.len() - 1 {
                    assert(self.entries@[a] == old(self).entries@[a]);
                } else {
                    assert(self.entries@[a] == old(self).entries@[a]);
                    assert(self.entries@[b] == old(self).entries@[b]);
                }
            }
        }
    }

    /// The recorded vote of `node_id`, if any.
    pub fn get(&self, node_id: &String) -> (r: Option<bool>)
        requires
            self.well_formed(),
        ensures
            r == if self@.dom().contains(node_id@) {
                Some(self@[node_id@])
            } else {
                None::<bool>
            },
    {
        proof {
            lemma_map_of_dom(self.entries@);
        }
        let n = self.entries.len();
        for i in 0..n
            invariant
                n == self.entries.len(),
                self.well_formed(),
                forall|j: int| 0 <= j < i ==> (#[trigger] self.entries@[j]).0@ != node_id@,
        {
            if self.entries[i].0 == *node_id {
                proof {
                    lemma_map_of_index(self.entries@, i as int);
                }
                return Some(self.entries[i].1);
            }
        }
        proof {
            assert(!has_key(self.entries@, node_id@));
        }
        None
    }

    /// Whether no vote has been recorded.
    pub fn is_empty(&self) -> (b: bool)
        ensures
            b == (self@ == Map::<Seq<char>, bool>::empty()),
    {
        proof {
            lemma_map_of_dom(self.entries@);
            if self.entries@.len() == 0 {
                assert(self@ =~= Map::<Seq<char>, bool>::empty());
            } else {
                assert(has_key(self.entries@, self.entries@[0].0@));
                assert(self@.dom().contains(self.entries@[0].0@));
            }
        }
        self.entries.len() == 0
    }

    /// Whether some node voted that the proposal is valid.
    pub fn any_valid(&self) -> (b: bool)
        requires
            self.well_formed(),
        ensures
            b == any_true(self@),
    {
        proof {
            lemma_map_of_dom(self.entries@);
        }
        let n = self.entries.len();
        for i in 0..n
            invariant
                n == self.entries.len(),
                self.well_formed(),
                forall|j: int| 0 <= j < i ==> !(#[trigger] self.entries@[j]).1,
        {
            if self.entries[i].1 {
                proof {
                    lemma_map_of_index(self.entries@, i as int);
                    assert(self@.dom().contains(self.entries@[i as int].0@)
                        && self@[self.entries@[i as int].0@]);
                    assert(any_true(self@));
                }
                return true;
            }
        }
        proof {
            assert forall|k: Seq<char>| self@.dom().contains(k) implies !self@[k] by {
                let i = choose|i: int| 0 <= i < self.entries@.len() && (#[trigger] self.entries@[i]).0@ == k;
                lemma_map_of_index(self.entries@, i);
            }
        }
        false
    }

    /// How many nodes voted that the proposal is valid.
    pub fn count_valid(&self) -> (n: usize)
        requires
            self.well_formed(),
        ensures
            n == true_votes(self@).len(),
    {
        let len = self.entries.len();
        let mut count: usize = 0;
        proof {
            assert(self.entries@.take(0) =~= Seq::<(String, bool)>::empty());
            assert(true_votes(map_of(self.entries@.take(0))) =~= Set::<Seq<char>>::empty());
        }
        for i in 0..len
            invariant
                len == self.entries.len(),
                self.well_formed(),
                count <= i,
                count == true_votes(map_of(self.entries@.take(i as int))).len(),
                true_votes(map_of(self.entries@.take(i as int))).finite(),
        {
            proof {
                let prefix = self.entries@.take(i as int);
                let next = self.entries@.take(i as int + 1);
                let pair = self.entries@[i as int];
                assert(next.drop_last() =~= prefix);
                assert(next.last() == pair);
                lemma_map_of_dom(prefix);
                assert(!has_key(prefix, pair.0@)) by {
                    assert(forall|j: int| 0 <= j < i ==> (#[trigger] prefix[j]).0@ != pair.0@);
                }
                let m = map_of(prefix);
                if pair.1 {
                    assert(true_votes(m.insert(pair.0@, pair.1)) =~= true_votes(m).insert(pair.0@));
                    assert(!true_votes(m).contains(pair.0@));
                } else {
                    assert(true_votes(m.insert(pair.0@, pair.1)) =~= true_votes(m));
                }
            }
            if self.entries[i].1 {
                count = count + 1;
            }
        }
        proof {
            assert(self.entries@.take(len as int) =~= self.entries@);
        }
        count
    }
}

} // verus!
