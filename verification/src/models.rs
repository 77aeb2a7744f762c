//! The data shapes the coordinating server stores and broadcasts.

use vstd::prelude::*;

verus! {

/// One round's accepted contribution. `prev_solution` carries the solution
/// accepted in the previous block in place of a cryptographic hash link.
#[derive(Debug, Clone, PartialEq)]
pub struct Block {
    pub index: u64,
    pub timestamp: String,
    pub problem: Problem,
    pub solution: Vec<Vec<u32>>,
    pub prev_solution: Vec<Vec<u32>>,
    pub node_id: String,
    pub data: String,
}

/// A 4x4 magic-square puzzle with blanked cells set to 0.
#[derive(Debug, Clone, PartialEq)]
pub struct Problem {
    pub matrix: Vec<Vec<u32>>,
}

/// A node's verdict on the currently proposed block.
#[derive(Debug, Clone, PartialEq)]
pub struct ValidationResult {
    pub is_valid: bool,
    pub node_id: String,
}

/// A transfer recorded during a transaction window.
#[derive(Debug, Clone, PartialEq)]
pub struct Transaction {
    pub sender_id: String,
    pub receiver_id: String,
    pub amount: u64,
}

/// An event the server pushes to its subscribers.
#[derive(Debug, Clone, PartialEq)]
pub enum ServerMessage {
    Problem(Problem),
    Block(Block),
}

} // verus!
