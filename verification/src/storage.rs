//! The client's stored block shape: grids as numbers, the puzzle alongside.

use vstd::multiset::Multiset;
use vstd::prelude::*;

use crate::clock::{kst_string_of, now_unix_seconds};

verus! {

broadcast use vstd::seq_lib::group_to_multiset_ensures, vstd::multiset::group_multiset_axioms;

/// A 4x4 magic-square puzzle as the client stores and displays it.
#[derive(Debug, Clone, PartialEq)]
pub struct Problem {
    pub matrix: Vec<Vec<u32>>,
}

/// A block as the client's store keeps it: the round's puzzle, the submitted
/// solution, and the previous round's accepted solution as the chain link.
#[derive(Debug, Clone, PartialEq)]
pub struct Block {
    pub index: u64,
    pub timestamp: String,
    pub problem: Problem,
    pub solution: Vec<Vec<u32>>,
    pub prev_solution: Vec<Vec<u32>>,
    pub node_id: String,
    pub data: String,
}

impl Block {
    /// A new block of the given contents, stamped with the creation time
    /// rendered as a calendar date in UTC+9. The timestamp is read at
    /// creation and never rewritten, so nothing exact is promised of it.
    pub fn new(
        index: u64,
        problem: Problem,
        solution: Vec<Vec<u32>>,
        prev_solution: Vec<Vec<u32>>,
        node_id: String,
        data: String,
    ) -> (b: Block)
        ensures
            b.index == index,
            b.problem == problem,
            b.solution == solution,
            b.prev_solution == prev_solution,
            b.node_id == node_id,
            b.data == data,
    {
        let timestamp = kst_string_of(now_unix_seconds());
        Block { index, timestamp, problem, solution, prev_solution, node_id, data }
    }
}

/// The blocks stand in order of their indices.
pub open spec fn sorted_by_index(s: Seq<Block>) -> bool {
    forall|i: int, j: int| 0 <= i < j < s.len() ==> (#[trigger] s[i]).index <= (#[trigger] s[j]).index
}

/// The given blocks rearranged into order of their indices, as the store
/// hands them out.
pub fn sort_blocks_by_index(blocks: Vec<Block>) -> (sorted: Vec<Block>)
    ensures
        sorted@.to_multiset() == blocks@.to_multiset(),
        sorted_by_index(sorted@),
{
    let mut rest = blocks;
    let mut out: Vec<Block> = Vec::new();
    proof {
        assert(out@.to_multiset().add(rest@.to_multiset()) =~= blocks@.to_multiset());
    }
    while rest.len() > 0
        invariant
            out@.to_multiset().add(rest@.to_multiset()) == blocks@.to_multiset(),
            sorted_by_index(out@),
            forall|i: int, j: int|
                0 <= i < out@.len() && 0 <= j < rest@.len() ==> (#[trigger] out@[i]).index <= (
                #[trigger] rest@[j]).index,
        decreases rest.len(),
    {
        // pick the smallest remaining index
        let mut min_i: usize = 0;
        let mut k: usize = 1;
        while k < rest.len()
            invariant
                rest@.len() > 0,
                min_i < rest@.len(),
                k <= rest@.len(),
                forall|x: int| 0 <= x < k ==> rest@[min_i as int].index <= (#[trigger] rest@[x]).index,
            decreases rest@.len() - k,
        {
            if rest[k].index < rest[min_i].index {
                min_i = k;
            }
            k = k + 1;
        }
        let ghost old_out = out@;
        let ghost old_rest = rest@;
        let b = rest.remove(min_i);
        out.push(b);
        proof {
            assert(old_rest.to_multiset().count(b) > 0) by {
                assert(old_rest.contains(b)) by {
                    assert(old_rest[min_i as int] == b);
                }
            }
            assert(out@.to_multiset().add(rest@.to_multiset()) =~= blocks@.to_multiset());
            assert forall|i: int, j: int|
                0 <= i < out@.len() && 0 <= j < rest@.len() implies (#[trigger] out@[i]).index <= (
            #[trigger] rest@[j]).index by {
                assert(rest@[j] == if j < min_i { old_rest[j] } else { old_rest[j + 1] });
                if i < out@.len() - 1 {
                    assert(out@[i] == old_out[i]);
                } else {
                    assert(out@[i] == b);
                }
            }
        }
    }
    proof {
        assert(rest@.to_multiset() =~= Multiset::<Block>::empty()) by {
            assert(rest@ =~= Seq::<Block>::empty());
        }
        assert(out@.to_multiset() =~= blocks@.to_multiset());
    }
    out
}

} // verus!
