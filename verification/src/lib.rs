//! A small educational blockchain platform: a coordinating server hands out
//! partially blanked 4x4 magic-square puzzles, accepts one proposed block per
//! round, collects per-node validation votes, and advances the round once the
//! configured consensus policy is satisfied. Client-side block, transaction
//! and message shapes are included so that clients and the server agree on
//! the data they exchange.

pub mod chain;
pub mod clock;
pub mod coordinator;
pub mod hub;
pub mod ledger;
pub mod models;
pub mod network;
pub mod puzzle;
pub mod storage;
pub mod transaction;
pub mod votes;
