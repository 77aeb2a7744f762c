//! The client's locally stored transfers.

use vstd::multiset::Multiset;
use vstd::prelude::*;

verus! {

broadcast use vstd::seq_lib::group_to_multiset_ensures, vstd::multiset::group_multiset_axioms;

/// A transfer as the client's store keeps it, numbered by its position in
/// the store.
#[derive(Debug, Clone, PartialEq)]
pub struct Transaction {
    pub index: u64,
    pub sender: String,
    pub receiver: String,
    pub payment: u64,
}

impl Transaction {
    /// A new transfer record of the given contents.
    pub fn new(index: u64, sender: String, receiver: String, payment: u64) -> (t: Transaction)
        ensures
            t.index == index,
            t.sender == sender,
            t.receiver == receiver,
            t.payment == payment,
    {
        Transaction { index, sender, receiver, payment }
    }
}

/// The transfers stand in order of their indices.
pub open spec fn sorted_by_index(s: Seq<Transaction>) -> bool {
    forall|i: int, j: int| 0 <= i < j < s.len() ==> (#[trigger] s[i]).index <= (#[trigger] s[j]).index
}

/// The given transfers rearranged into order of their indices, as the store
/// hands them out.
pub fn sort_transactions_by_index(transactions: Vec<Transaction>) -> (sorted: Vec<Transaction>)
    ensures
        sorted@.to_multiset() == transactions@.to_multiset(),
        sorted_by_index(sorted@),
{
    let mut rest = transactions;
    let mut out: Vec<Transaction> = Vec::new();
    proof {
        assert(out@.to_multiset().add(rest@.to_multiset()) =~= transactions@.to_multiset());
    }
    while rest.len() > 0
        invariant
            out@.to_multiset().add(rest@.to_multiset()) == transactions@.to_multiset(),
            sorted_by_index(out@),
            forall|i: int, j: int|
                0 <= i < out@.len() && 0 <= j < rest@.len() ==> (#[trigger] out@[i]).index <= (
                #[trigger] rest@[j]).index,
        decreases rest.len(),
    {
        // pick the smallest remaining index
        let mut min_i: usize = 0;
        let mut k: usize = 1;
        while k < rest.len()
            invariant
                rest@.len() > 0,
                min_i < rest@.len(),
                k <= rest@.len(),
                forall|x: int| 0 <= x < k ==> rest@[min_i as int].index <= (#[trigger] rest@[x]).index,
            decreases rest@.len() - k,
        {
            if rest[k].index < rest[min_i].index {
                min_i = k;
            }
            k = k + 1;
        }
        let ghost old_out = out@;
        let ghost old_rest = rest@;
        let t = rest.remove(min_i);
        out.push(t);
        proof {
            assert(old_rest.to_multiset().count(t) > 0) by {
                assert(old_rest.contains(t)) by {
                    assert(old_rest[min_i as int] == t);
                }
            }
            assert(out@.to_multiset().add(rest@.to_multiset()) =~= transactions@.to_multiset());
            assert forall|i: int, j: int|
                0 <= i < out@.len() && 0 <= j < rest@.len() implies (#[trigger] out@[i]).index <= (
            #[trigger] rest@[j]).index by {
                assert(rest@[j] == if j < min_i { old_rest[j] } else { old_rest[j + 1] });
                if i < out@.len() - 1 {
                    assert(out@[i] == old_out[i]);
                } else {
                    assert(out@[i] == t);
                }
            }
        }
    }
    proof {
        assert(rest@.to_multiset() =~= Multiset::<Transaction>::empty()) by {
            assert(rest@ =~= Seq::<Transaction>::empty());
        }
        assert(out@.to_multiset() =~= transactions@.to_multiset());
    }
    out
}

} // verus!
