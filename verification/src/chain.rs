//! An in-memory chain of the client's string-grid blocks.

use vstd::prelude::*;

verus! {

/// A block with the grids kept as entered (strings), as the in-memory chain
/// holds it.
#[derive(Debug, Clone, PartialEq)]
pub struct Block {
    pub index: u64,
    pub timestamp: String,
    pub problem: Vec<Vec<String>>,
    pub solution: Vec<Vec<String>>,
    pub prev_solution: Vec<Vec<String>>,
    pub node_id: String,
    pub data: String,
}

/// An append-only sequence of blocks.
pub struct BlockChain {
    chain: Vec<Block>,
}

impl View for BlockChain {
    type V = Seq<Block>;

    /// The recorded blocks, oldest first.
    closed spec fn view(&self) -> Seq<Block> {
        self.chain@
    }
}

impl BlockChain {
    /// An empty chain.
    pub fn new() -> (c: BlockChain)
        ensures
            c@ == Seq::<Block>::empty(),
    {
        BlockChain { chain: Vec::new() }
    }

    /// Append a block to the chain.
    pub fn push(&mut self, block: Block)
        ensures
            final(self)@ == old(self)@.push(block),
    {
        self.chain.push(block);
    }

    /// How many blocks the chain holds.
    pub fn len(&self) -> (n: usize)
        ensures
            n == self@.len(),
    {
        self.chain.len()
    }

    /// The most recent block, if the chain holds any.
    pub fn latest(&self) -> (b: Option<&Block>)
        ensures
            self@.len() == 0 ==> b is None,
            self@.len() > 0 ==> (b matches Some(x) && *x == self@.last()),
    {
        self.chain.last()
    }
}

} // verus!
