//! The round coordinator: accepts one proposed block per round, tallies
//! per-node validation votes, and advances the round once the configured
//! consensus policy is satisfied — optionally through a transaction window —
//! before offering a new puzzle to subscribers.

use vstd::prelude::*;

use crate::hub::{BroadcastHub, PublishOutcome};
use crate::models::{Block, Problem, ValidationResult};
use crate::puzzle::{blank_count, generate_incomplete_magic_square, grid_of, is_blanked_base};
use crate::votes::{any_true, true_votes, VoteMap};

verus! {

broadcast use vstd::set::group_set_axioms;

/// How many cells each round's puzzle blanks.
pub const PUZZLE_BLANK_CELLS: usize = 4;

/// When a round's votes amount to consensus. The policy is a deliberate
/// configuration choice: the nominal behavior is `AnyPositive`, the smallest
/// viable consensus for this learning system.
#[derive(Debug, Clone, Copy, PartialEq, Eq, Structural)]
pub enum ConsensusPolicy {
    /// At least one node voted that the proposal is valid.
    AnyPositive,
    /// More than half of the expected participants voted that the proposal
    /// is valid.
    StrictMajority,
}

/// How a submitted proposal was received.
#[derive(Debug, Clone, Copy, PartialEq, Eq, Structural)]
pub enum SubmitOutcome {
    /// The proposal is now the round's pending block.
    Accepted,
    /// A proposal is already pending; the submission is acknowledged and
    /// ignored.
    AlreadyPending,
}

/// What a round-advance attempt did.
#[derive(Debug, Clone, PartialEq)]
pub enum AdvanceOutcome {
    /// The round advanced: this puzzle was offered to subscribers with this
    /// outcome, and the state returned to idle.
    Advanced(Problem, PublishOutcome),
    /// The round was finalized and a transaction window opened; the next
    /// puzzle waits for `close_transaction_window`.
    WindowOpened,
    /// No consensus yet, round already finalized, or no pending proposal:
    /// the state is unchanged.
    NotReady,
}

/// The coordinator's state, as contracts speak of it.
#[verifier::ext_equal]
pub ghost struct ServerView {
    /// The round's pending proposal, if one was accepted.
    pub current_block: Option<Block>,
    /// Each node's latest vote on the pending proposal.
    pub votes: Map<Seq<char>, bool>,
    /// The expected participant count, used by the strict-majority policy.
    pub total_nodes: nat,
    /// Whether the round has been finalized.
    pub solved: bool,
    /// The configured consensus policy.
    pub policy: ConsensusPolicy,
    /// Whether rounds pass through a transaction window before the next
    /// puzzle is issued.
    pub uses_window: bool,
    /// Whether the transaction window is open right now.
    pub window_open: bool,
}

/// A fresh coordinator state: idle, with no votes and nothing finalized.
pub open spec fn initial_view(
    total_nodes: nat,
    policy: ConsensusPolicy,
    uses_window: bool,
) -> ServerView {
    ServerView {
        current_block: None,
        votes: Map::empty(),
        total_nodes: total_nodes,
        solved: false,
        policy: policy,
        uses_window: uses_window,
        window_open: false,
    }
}

/// The round's votes amount to consensus under the configured policy.
pub open spec fn consensus_holds(s: ServerView) -> bool {
    match s.policy {
        ConsensusPolicy::AnyPositive => any_true(s.votes),
        ConsensusPolicy::StrictMajority => true_votes(s.votes).len() > s.total_nodes / 2,
    }
}

/// Back to idle: no pending proposal, no votes, nothing finalized, window
/// closed.
pub open spec fn reset_view(s: ServerView) -> ServerView {
    ServerView {
        current_block: None,
        votes: Map::empty(),
        solved: false,
        window_open: false,
        ..s
    }
}

/// What submitting a proposal does to the state: an idle round accepts it
/// and starts tallying afresh; a round with a pending proposal is unchanged.
pub open spec fn submit_view(s: ServerView, block: Block) -> ServerView {
    if s.current_block is Some {
        s
    } else {
        ServerView { current_block: Some(block), votes: Map::empty(), solved: false, ..s }
    }
}

/// What the submitter is told: accepted on an idle round, already-pending
/// otherwise.
pub open spec fn submit_outcome_view(s: ServerView) -> SubmitOutcome {
    if s.current_block is Some {
        SubmitOutcome::AlreadyPending
    } else {
        SubmitOutcome::Accepted
    }
}

/// What recording a vote does to the state: the node's previous vote, if
/// any, is overwritten.
pub open spec fn vote_view(s: ServerView, node: Seq<char>, is_valid: bool) -> ServerView {
    ServerView { votes: s.votes.insert(node, is_valid), ..s }
}

/// A round can advance when consensus holds, the round has not been
/// finalized yet, and a proposal is pending.
pub open spec fn can_advance(s: ServerView) -> bool {
    consensus_holds(s) && !s.solved && s.current_block is Some
}

/// What advancing does to the state: nothing unless the round can advance;
/// otherwise the round is finalized and either a transaction window opens or
/// the state returns to idle.
pub open spec fn advance_view(s: ServerView) -> ServerView {
    if !can_advance(s) {
        s
    } else if s.uses_window {
        ServerView { solved: true, window_open: true, ..s }
    } else {
        reset_view(s)
    }
}

/// What closing the transaction window does to the state: back to idle if
/// the window was open, nothing otherwise.
pub open spec fn close_window_view(s: ServerView) -> ServerView {
    if s.window_open {
        reset_view(s)
    } else {
        s
    }
}

/// The server-side consensus coordinator. One proposal per round; one vote
/// per node, last write wins; rounds advance only through `advance_round`
/// and `close_transaction_window`.
pub struct Server {
    current_block: Option<Block>,
    votes: VoteMap,
    total_nodes: usize,
    is_problem_solved: bool,
    policy: ConsensusPolicy,
    uses_transaction_window: bool,
    is_transaction_window_open: bool,
}

impl View for Server {
    type V = ServerView;

    closed spec fn view(&self) -> ServerView {
        ServerView {
            current_block: self.current_block,
            votes: self.votes@,
            total_nodes: self.total_nodes as nat,
            solved: self.is_problem_solved,
            policy: self.policy,
            uses_window: self.uses_transaction_window,
            window_open: self.is_transaction_window_open,
        }
    }
}

impl Server {
    /// The vote tally is stored in good shape.
    pub closed spec fn well_formed(&self) -> bool {
        self.votes.well_formed()
    }

    /// A coordinator with the nominal configuration: any-positive consensus
    /// and no transaction window.
    pub fn new(total_nodes: usize) -> (s: Server)
        ensures
            s.well_formed(),
            s@ == initial_view(total_nodes as nat, ConsensusPolicy::AnyPositive, false),
    {
        Server::with_policy(total_nodes, ConsensusPolicy::AnyPositive, false)
    }

    /// A coordinator with an explicit consensus policy and transaction
    /// window choice.
    pub fn with_policy(
        total_nodes: usize,
        policy: ConsensusPolicy,
        uses_transaction_window: bool,
    ) -> (s: Server)
        ensures
            s.well_formed(),
            s@ == initial_view(total_nodes as nat, policy, uses_transaction_window),
    {
        let s = Server {
            current_block: None,
            votes: VoteMap::new(),
            total_nodes,
            is_problem_solved: false,
            policy,
            uses_transaction_window,
            is_transaction_window_open: false,
        };
        proof {
            assert(s@ =~= initial_view(total_nodes as nat, policy, uses_transaction_window));
        }
        s
    }

    /// Make `block` the round's pending proposal and start tallying afresh.
    pub fn set_new_block(&mut self, block: Block)
        requires
            old(self).well_formed(),
        ensures
            final(self).well_formed(),
            final(self)@ == (ServerView {
                current_block: Some(block),
                votes: Map::empty(),
                solved: false,
                ..old(self)@
            }),
    {
        self.current_block = Some(block);
        self.votes.clear();
        self.is_problem_solved = false;
    }

    /// Accept `block` as the round's proposal if none is pending; a round
    /// with a pending proposal acknowledges and ignores the submission, and
    /// never fails it.
    pub fn submit_block(&mut self, block: Block) -> (r: SubmitOutcome)
        requires
            old(self).well_formed(),
        ensures
            final(self).well_formed(),
            final(self)@ == submit_view(old(self)@, block),
            r == submit_outcome_view(old(self)@),
    {
        if self.current_block.is_some() {
            SubmitOutcome::AlreadyPending
        } else {
            self.set_new_block(block);
            SubmitOutcome::Accepted
        }
    }

    /// Record `is_valid` as `node_id`'s vote on the pending proposal,
    /// overwriting any earlier vote by the same node.
    pub fn add_vote(&mut self, node_id: String, is_valid: bool)
        requires
            old(self).well_formed(),
        ensures
            final(self).well_formed(),
            final(self)@ == vote_view(old(self)@, node_id@, is_valid),
    {
        self.votes.insert(node_id, is_valid);
        proof {
            assert(self@ =~= vote_view(old(self)@, node_id@, is_valid));
        }
    }

    /// Whether the round's votes amount to consensus under the configured
    /// policy.
    pub fn check_consensus(&self) -> (r: bool)
        requires
            self.well_formed(),
        ensures
            r == consensus_holds(self@),
    {
        match self.policy {
            ConsensusPolicy::AnyPositive => self.votes.any_valid(),
            ConsensusPolicy::StrictMajority => self.votes.count_valid() > self.total_nodes / 2,
        }
    }

    /// Finalize the round.
    pub fn mark_problem_as_solved(&mut self)
        requires
            old(self).well_formed(),
        ensures
            final(self).well_formed(),
            final(self)@ == (ServerView { solved: true, ..old(self)@ }),
    {
        self.is_problem_solved = true;
    }

    /// Whether the round has been finalized.
    pub fn problem_solved(&self) -> (r: bool)
        ensures
            r == self@.solved,
    {
        self.is_problem_solved
    }

    /// The round's pending proposal, if one was accepted.
    pub fn current_block(&self) -> (b: &Option<Block>)
        ensures
            *b == self@.current_block,
    {
        &self.current_block
    }

    /// The recorded vote of `node_id`, if any.
    pub fn get_vote(&self, node_id: &String) -> (r: Option<bool>)
        requires
            self.well_formed(),
        ensures
            r == if self@.votes.dom().contains(node_id@) {
                Some(self@.votes[node_id@])
            } else {
                None::<bool>
            },
    {
        self.votes.get(node_id)
    }

    /// Whether no vote has been recorded this round.
    pub fn votes_is_empty(&self) -> (b: bool)
        ensures
            b == (self@.votes == Map::<Seq<char>, bool>::empty()),
    {
        self.votes.is_empty()
    }

    /// Whether a transaction may be recorded right now: only while the
    /// transaction window is open.
    pub fn transaction_permitted(&self) -> (b: bool)
        ensures
            b == self@.window_open,
    {
        self.is_transaction_window_open
    }

    /// Generate the next round's puzzle, offer it to subscribers, and return
    /// the state to idle.
    fn issue_next_puzzle(&mut self, hub: &BroadcastHub) -> (r: (Problem, PublishOutcome))
        requires
            old(self).well_formed(),
        ensures
            final(self).well_formed(),
            final(self)@ == reset_view(old(self)@),
            is_blanked_base(grid_of(r.0.matrix), blank_count(PUZZLE_BLANK_CELLS)),
            r.1 matches PublishOutcome::Delivered(n) ==> n >= 1,
    {
        let matrix = generate_incomplete_magic_square(PUZZLE_BLANK_CELLS);
        let problem = Problem { matrix };
        let outcome = hub.publish_puzzle(problem.clone());
        self.current_block = None;
        self.votes.clear();
        self.is_problem_solved = false;
        self.is_transaction_window_open = false;
        proof {
            assert(self@ =~= reset_view(old(self)@));
        }
        (problem, outcome)
    }

    /// Advance the round if consensus holds, it has not been finalized yet,
    /// and a proposal is pending; otherwise a recoverable no-op. On advance
    /// the round is finalized, then either a transaction window opens or a
    /// new puzzle is issued and the state returns to idle. A publish with no
    /// subscribers never aborts the advance.
    pub fn advance_round(&mut self, hub: &BroadcastHub) -> (r: AdvanceOutcome)
        requires
            old(self).well_formed(),
        ensures
            final(self).well_formed(),
            final(self)@ == advance_view(old(self)@),
            r is NotReady <==> !can_advance(old(self)@),
            r is WindowOpened <==> can_advance(old(self)@) && old(self)@.uses_window,
            r is Advanced <==> can_advance(old(self)@) && !old(self)@.uses_window,
            r matches AdvanceOutcome::Advanced(p, po) ==> is_blanked_base(
                grid_of(p.matrix),
                blank_count(PUZZLE_BLANK_CELLS),
            ) && (po matches PublishOutcome::Delivered(n) ==> n >= 1),
    {
        let ready = self.check_consensus() && !self.is_problem_solved
            && self.current_block.is_some();
        if !ready {
            return AdvanceOutcome::NotReady;
        }
        self.mark_problem_as_solved();
        if self.uses_transaction_window {
            self.is_transaction_window_open = true;
            proof {
                assert(self@ =~= advance_view(old(self)@));
            }
            return AdvanceOutcome::WindowOpened;
        }
        let (problem, outcome) = self.issue_next_puzzle(hub);
        proof {
            assert(self@ =~= advance_view(old(self)@));
        }
        AdvanceOutcome::Advanced(problem, outcome)
    }

    /// Close the transaction window: issue the next round's puzzle and
    /// return to idle, handing back the puzzle and its publish outcome. A
    /// closed window is a recoverable no-op.
    pub fn close_transaction_window(&mut self, hub: &BroadcastHub) -> (r: Option<
        (Problem, PublishOutcome),
    >)
        requires
            old(self).well_formed(),
        ensures
            final(self).well_formed(),
            final(self)@ == close_window_view(old(self)@),
            r is Some <==> old(self)@.window_open,
            r matches Some(pr) ==> is_blanked_base(
                grid_of(pr.0.matrix),
                blank_count(PUZZLE_BLANK_CELLS),
            ) && (pr.1 matches PublishOutcome::Delivered(n) ==> n >= 1),
    {
        if self.is_transaction_window_open {
            Some(self.issue_next_puzzle(hub))
        } else {
            None
        }
    }

    /// Record a node's validation verdict, then advance the round if the
    /// tally now amounts to consensus.
    pub fn process_consensus(
        &mut self,
        validation_result: ValidationResult,
        hub: &BroadcastHub,
    ) -> (r: AdvanceOutcome)
        requires
            old(self).well_formed(),
        ensures
            final(self).well_formed(),
            final(self)@ == advance_view(
                vote_view(old(self)@, validation_result.node_id@, validation_result.is_valid),
            ),
            r is NotReady <==> !can_advance(
                vote_view(old(self)@, validation_result.node_id@, validation_result.is_valid),
            ),
            r matches AdvanceOutcome::Advanced(p, po) ==> is_blanked_base(
                grid_of(p.matrix),
                blank_count(PUZZLE_BLANK_CELLS),
            ) && (po matches PublishOutcome::Delivered(n) ==> n >= 1),
    {
        let ValidationResult { is_valid, node_id } = validation_result;
        self.add_vote(node_id, is_valid);
        self.advance_round(hub)
    }
}

/// Generate a puzzle outside the round cycle and offer it to subscribers:
/// the manual broadcast hook.
pub fn broadcast_problem(hub: &BroadcastHub) -> (r: (Problem, PublishOutcome))
    ensures
        is_blanked_base(grid_of(r.0.matrix), blank_count(PUZZLE_BLANK_CELLS)),
        r.1 matches PublishOutcome::Delivered(n) ==> n >= 1,
{
    let matrix = generate_incomplete_magic_square(PUZZLE_BLANK_CELLS);
    let problem = Problem { matrix };
    let outcome = hub.publish_puzzle(problem.clone());
    (problem, outcome)
}

/// A state whose tally is empty cannot have consensus under either policy.
proof fn lemma_empty_votes_no_consensus(s: ServerView)
    requires
        s.votes == Map::<Seq<char>, bool>::empty(),
    ensures
        !consensus_holds(s),
{
    match s.policy {
        ConsensusPolicy::AnyPositive => {
        }
        ConsensusPolicy::StrictMajority => {
            assert(true_votes(s.votes) =~= Set::<Seq<char>>::empty());
        }
    }
}

/// A second proposal submitted while one is pending is told the round is
/// already taken and leaves the round unchanged: the first submission stays
/// the round's pending block.
pub proof fn lemma_duplicate_submission_ignored(s: ServerView, b1: Block, b2: Block)
    requires
        s.current_block is None,
    ensures
        submit_outcome_view(s) == SubmitOutcome::Accepted,
        submit_view(s, b1).current_block == Some(b1),
        submit_outcome_view(submit_view(s, b1)) == SubmitOutcome::AlreadyPending,
        submit_view(submit_view(s, b1), b2) == submit_view(s, b1),
{
}

/// Only a node's most recent vote counts: voting twice is the same as voting
/// once with the later verdict.
pub proof fn lemma_last_vote_wins(s: ServerView, node: Seq<char>, first: bool, second: bool)
    ensures
        vote_view(vote_view(s, node, first), node, second) == vote_view(s, node, second),
{
    assert(s.votes.insert(node, first).insert(node, second) =~= s.votes.insert(node, second));
    assert(vote_view(vote_view(s, node, first), node, second) =~= vote_view(s, node, second));
}

/// Advancing a round is idempotent: a second advance with no new
/// submissions or votes in between observes an idle or finalized round and
/// changes nothing.
pub proof fn lemma_advance_round_idempotent(s: ServerView)
    ensures
        advance_view(advance_view(s)) == advance_view(s),
{
    if can_advance(s) {
        if s.uses_window {
            // the round is finalized, so it cannot advance again
            assert(!can_advance(advance_view(s)));
        } else {
            // back to idle: with the tally cleared there is no consensus
            lemma_empty_votes_no_consensus(reset_view(s));
        }
    }
}

/// Two proposals racing against an idle round: whichever the lock serializes
/// first is accepted, the other is told the round is taken; no order leaves
/// two proposals pending.
pub proof fn lemma_submission_race_single_winner(s: ServerView, b1: Block, b2: Block)
    requires
        s.current_block is None,
    ensures
        submit_outcome_view(s) == SubmitOutcome::Accepted,
        submit_view(s, b1).current_block == Some(b1),
        submit_view(s, b2).current_block == Some(b2),
        submit_outcome_view(submit_view(s, b1)) == SubmitOutcome::AlreadyPending,
        submit_outcome_view(submit_view(s, b2)) == SubmitOutcome::AlreadyPending,
{
}

} // verus!
