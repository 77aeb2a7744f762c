//! The shapes the client exchanges with the server.

use vstd::prelude::*;

use crate::storage::{Block, Problem};

verus! {

/// A block as the client submits it to the server's submit endpoint.
#[derive(Debug, Clone, PartialEq)]
pub struct BlockForServer {
    pub index: u64,
    pub timestamp: String,
    pub solution: Vec<Vec<u32>>,
    pub problem: Problem,
    pub prev_solution: Vec<Vec<u32>>,
    pub node_id: String,
    pub data: String,
}

/// An event the client receives over its subscription stream.
#[derive(Debug, Clone, PartialEq)]
pub enum ServerMessage {
    Problem(Problem),
    Block(Block),
}

/// The verdict the client submits after checking a proposed block.
#[derive(Debug, Clone, PartialEq)]
pub struct ValidationResult {
    pub is_valid: bool,
    pub node_id: String,
}

/// A transfer the client submits during a transaction window.
#[derive(Debug, Clone, PartialEq)]
pub struct Transaction {
    pub sender_id: String,
    pub receiver_id: String,
    pub amount: u32,
}

} // verus!
