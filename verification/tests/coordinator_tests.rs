use blockchain_learning_platform::coordinator::{
    AdvanceOutcome, ConsensusPolicy, Server, SubmitOutcome,
};
use blockchain_learning_platform::hub::{BroadcastHub, PublishOutcome};
use blockchain_learning_platform::models::{Block, Problem, ServerMessage, ValidationResult};

fn sample_problem() -> Problem {
    Problem {
        matrix: vec![
            vec![16, 2, 3, 13],
            vec![5, 11, 10, 8],
            vec![9, 7, 6, 12],
            vec![4, 14, 15, 1],
        ],
    }
}

fn sample_block(index: u64, node_id: &str) -> Block {
    Block {
        index,
        timestamp: String::from("2026-01-01 00:00:00"),
        problem: sample_problem(),
        solution: vec![
            vec![16, 2, 3, 13],
            vec![5, 11, 10, 8],
            vec![9, 7, 6, 12],
            vec![4, 14, 15, 1],
        ],
        prev_solution: vec![],
        node_id: String::from(node_id),
        data: String::from("test data"),
    }
}

fn fresh_hub() -> (
    BroadcastHub,
    tokio::sync::broadcast::Receiver<Problem>,
    tokio::sync::broadcast::Receiver<Block>,
) {
    let (problem_tx, problem_rx) = tokio::sync::broadcast::channel(16);
    let (block_tx, block_rx) = tokio::sync::broadcast::channel(16);
    (BroadcastHub::new(problem_tx, block_tx), problem_rx, block_rx)
}

#[test]
fn second_submission_is_ignored() {
    let mut server = Server::new(2);
    let b1 = sample_block(1, "n1");
    let b2 = sample_block(2, "n2");
    assert_eq!(server.submit_block(b1.clone()), SubmitOutcome::Accepted);
    assert_eq!(server.submit_block(b2), SubmitOutcome::AlreadyPending);
    // the first submission is still the round's pending block
    assert_eq!(server.current_block().as_ref(), Some(&b1));
}

#[test]
fn last_vote_wins() {
    let mut server = Server::new(2);
    server.set_new_block(sample_block(1, "n1"));
    server.add_vote(String::from("A"), true);
    server.add_vote(String::from("A"), false);
    assert_eq!(server.get_vote(&String::from("A")), Some(false));
    // one node, one vote: the earlier verdict is gone
    assert!(!server.check_consensus());
}

#[test]
fn any_positive_reaches_consensus_with_one_true_vote() {
    let mut server = Server::new(2);
    server.add_vote(String::from("A"), false);
    server.add_vote(String::from("B"), true);
    assert!(server.check_consensus());
}

#[test]
fn any_positive_needs_a_true_vote() {
    let mut server = Server::new(2);
    server.add_vote(String::from("A"), false);
    assert!(!server.check_consensus());
}

#[test]
fn strict_majority_counts_true_votes() {
    let mut server = Server::with_policy(3, ConsensusPolicy::StrictMajority, false);
    server.add_vote(String::from("A"), true);
    assert!(!server.check_consensus());
    server.add_vote(String::from("B"), true);
    assert!(server.check_consensus());
}

#[test]
fn strict_majority_ignores_false_votes() {
    let mut server = Server::with_policy(3, ConsensusPolicy::StrictMajority, false);
    server.add_vote(String::from("A"), false);
    server.add_vote(String::from("B"), false);
    server.add_vote(String::from("C"), true);
    assert!(!server.check_consensus());
}

#[test]
fn advance_round_is_idempotent() {
    let (hub, mut problem_rx, _block_rx) = fresh_hub();
    let mut server = Server::new(2);
    server.set_new_block(sample_block(1, "n1"));
    server.add_vote(String::from("n1"), true);

    let first = server.advance_round(&hub);
    assert!(matches!(first, AdvanceOutcome::Advanced(_, PublishOutcome::Delivered(1))));
    // a second advance with nothing new observes an idle round and is a no-op
    let second = server.advance_round(&hub);
    assert_eq!(second, AdvanceOutcome::NotReady);

    // exactly one puzzle was emitted
    assert!(problem_rx.try_recv().is_ok());
    assert!(problem_rx.try_recv().is_err());
    assert_eq!(server.current_block(), &None);
    assert!(server.votes_is_empty());
}

#[test]
fn round_end_to_end() {
    let (hub, mut problem_rx, _block_rx) = fresh_hub();
    let mut server = Server::new(1);

    let block = sample_block(1, "n1");
    assert_eq!(server.submit_block(block), SubmitOutcome::Accepted);

    let vote = ValidationResult { is_valid: true, node_id: String::from("n1") };
    let outcome = server.process_consensus(vote, &hub);

    match outcome {
        AdvanceOutcome::Advanced(puzzle, publish) => {
            assert_eq!(publish, PublishOutcome::Delivered(1));
            let received = problem_rx.try_recv().expect("one puzzle should be broadcast");
            assert_eq!(received, puzzle);
        }
        other => panic!("expected the round to advance, got {:?}", other),
    }
    // exactly one broadcast, and the round is reset
    assert!(problem_rx.try_recv().is_err());
    assert_eq!(server.current_block(), &None);
    assert!(server.votes_is_empty());
    assert!(!server.problem_solved());
}

#[test]
fn a_false_vote_does_not_advance_the_round() {
    let (hub, mut problem_rx, _block_rx) = fresh_hub();
    let mut server = Server::new(1);
    server.set_new_block(sample_block(1, "n1"));

    let vote = ValidationResult { is_valid: false, node_id: String::from("n1") };
    let outcome = server.process_consensus(vote, &hub);
    assert_eq!(outcome, AdvanceOutcome::NotReady);
    assert!(problem_rx.try_recv().is_err());
    assert_eq!(server.get_vote(&String::from("n1")), Some(false));
    assert!(server.current_block().is_some());
}

#[test]
fn submissions_racing_for_an_idle_round_have_one_winner() {
    // the coordinator's lock serializes racing submissions; whichever order
    // the lock picks, exactly one is accepted
    for flipped in [false, true] {
        let mut server = Server::new(2);
        let (first, second) = if flipped {
            (sample_block(2, "n2"), sample_block(1, "n1"))
        } else {
            (sample_block(1, "n1"), sample_block(2, "n2"))
        };
        let r1 = server.submit_block(first.clone());
        let r2 = server.submit_block(second);
        assert_eq!(r1, SubmitOutcome::Accepted);
        assert_eq!(r2, SubmitOutcome::AlreadyPending);
        assert_eq!(server.current_block().as_ref(), Some(&first));
    }
}

#[test]
fn transaction_window_opens_and_closes() {
    let (hub, mut problem_rx, _block_rx) = fresh_hub();
    let mut server = Server::with_policy(2, ConsensusPolicy::AnyPositive, true);
    assert!(!server.transaction_permitted());

    server.set_new_block(sample_block(1, "n1"));
    server.add_vote(String::from("n1"), true);
    assert_eq!(server.advance_round(&hub), AdvanceOutcome::WindowOpened);
    assert!(server.transaction_permitted());
    assert!(server.problem_solved());
    // no puzzle yet: it waits for the window to close
    assert!(problem_rx.try_recv().is_err());

    let closed = server.close_transaction_window(&hub);
    assert!(closed.is_some());
    assert!(problem_rx.try_recv().is_ok());
    assert!(!server.transaction_permitted());
    assert_eq!(server.current_block(), &None);
    assert!(!server.problem_solved());

    // closing an already-closed window is a no-op
    assert!(server.close_transaction_window(&hub).is_none());
    assert!(problem_rx.try_recv().is_err());
}

#[test]
fn broadcast_problem_emits_a_puzzle() {
    let (hub, mut problem_rx, _block_rx) = fresh_hub();
    let (puzzle, outcome) =
        blockchain_learning_platform::coordinator::broadcast_problem(&hub);
    assert_eq!(outcome, PublishOutcome::Delivered(1));
    let received = problem_rx.try_recv().expect("the puzzle should be broadcast");
    assert_eq!(received, puzzle);
    let zeros: usize =
        puzzle.matrix.iter().map(|r| r.iter().filter(|&&v| v == 0).count()).sum();
    assert_eq!(zeros, 4);
}

#[test]
fn server_messages_carry_their_payloads() {
    let p = sample_problem();
    let b = sample_block(1, "n1");
    assert_eq!(ServerMessage::Problem(p.clone()), ServerMessage::Problem(p));
    assert_ne!(
        ServerMessage::Block(b.clone()),
        ServerMessage::Block(sample_block(2, "n2"))
    );
    assert_eq!(ServerMessage::Block(b.clone()), ServerMessage::Block(b));
}
