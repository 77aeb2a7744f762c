//! Fan-out of puzzles and accepted block proposals to subscribers.
//!
//! Delivery rides on tokio's broadcast channels: each published value is
//! queued once for every receiver subscribed at publish time, and a publish
//! with no subscribers is a no-op, never an error.

use vstd::prelude::*;

use crate::models::{Block, Problem};

verus! {

#[verifier::external_type_specification]
#[verifier::external_body]
#[verifier::reject_recursive_types(T)]
pub struct ExSender<T>(tokio::sync::broadcast::Sender<T>);

/// Relies on tokio's `broadcast::Sender::send`: on success it returns the
/// number of receivers subscribed at the time of the call, which is then at
/// least one; when no receiver is subscribed it hands the value back
/// unchanged.
#[verifier::external_body]
fn broadcast_send<T>(tx: &tokio::sync::broadcast::Sender<T>, value: T) -> (r: Result<usize, T>)
    ensures
        r matches Ok(n) ==> n >= 1,
        r matches Err(v) ==> v == value,
{
    match tx.send(value) {
        Ok(n) => Ok(n),
        Err(e) => Err(e.0),
    }
}

/// What became of a published event.
#[derive(Debug, Clone, Copy, PartialEq, Eq, Structural)]
pub enum PublishOutcome {
    /// The event was queued for this many subscribers.
    Delivered(usize),
    /// Nobody was subscribed; the event was dropped.
    NoSubscribers,
}

/// The hub that delivers two independent event streams — new puzzles and
/// accepted block proposals — to all currently attached subscribers.
pub struct BroadcastHub {
    problem_tx: tokio::sync::broadcast::Sender<Problem>,
    block_tx: tokio::sync::broadcast::Sender<Block>,
}

impl BroadcastHub {
    /// Wrap the two channels the server fans out on.
    pub fn new(
        problem_tx: tokio::sync::broadcast::Sender<Problem>,
        block_tx: tokio::sync::broadcast::Sender<Block>,
    ) -> BroadcastHub {
        BroadcastHub { problem_tx, block_tx }
    }

    /// Offer a new puzzle to every subscriber. Zero subscribers is a no-op,
    /// not an error.
    pub fn publish_puzzle(&self, puzzle: Problem) -> (r: PublishOutcome)
        ensures
            r matches PublishOutcome::Delivered(n) ==> n >= 1,
    {
        match broadcast_send(&self.problem_tx, puzzle) {
            Ok(n) => PublishOutcome::Delivered(n),
            Err(_) => PublishOutcome::NoSubscribers,
        }
    }

    /// Offer an accepted block proposal to every subscriber. Zero subscribers
    /// is a no-op, not an error.
    pub fn publish_block(&self, block: Block) -> (r: PublishOutcome)
        ensures
            r matches PublishOutcome::Delivered(n) ==> n >= 1,
    {
        match broadcast_send(&self.block_tx, block) {
            Ok(n) => PublishOutcome::Delivered(n),
            Err(_) => PublishOutcome::NoSubscribers,
        }
    }
}

} // verus!
