//! The client's local chain records, with grids kept as entered (strings).

use vstd::prelude::*;

use crate::clock::{decimal_string, now_unix_seconds};

verus! {

/// A block as the client's local chain stores it: the grids hold the cells
/// as the user entered them.
#[derive(Debug, Clone, PartialEq)]
pub struct Block {
    pub index: u64,
    pub timestamp: String,
    pub problem: Vec<Vec<String>>,
    pub solution: Vec<Vec<String>>,
    pub prev_solution: Vec<Vec<String>>,
    pub node_id: String,
    pub data: String,
}

impl Block {
    /// A new record of the given contents, stamped with the clock's seconds
    /// since the unix epoch. The timestamp is read at creation and never
    /// rewritten, so nothing exact is promised of it.
    pub fn new(
        index: u64,
        problem: Vec<Vec<String>>,
        solution: Vec<Vec<String>>,
        prev_solution: Vec<Vec<String>>,
        node_id: String,
        data: String,
    ) -> (b: Block)
        ensures
            b.index == index,
            b.problem == problem,
            b.solution == solution,
            b.prev_solution == prev_solution,
            b.node_id == node_id,
            b.data == data,
    {
        let timestamp = decimal_string(now_unix_seconds());
        Block { index, timestamp, problem, solution, prev_solution, node_id, data }
    }
}

} // verus!
