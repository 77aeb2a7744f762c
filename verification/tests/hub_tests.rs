use blockchain_learning_platform::hub::{BroadcastHub, PublishOutcome};
use blockchain_learning_platform::models::{Block, Problem};

fn sample_problem(seed: u32) -> Problem {
    Problem { matrix: vec![vec![seed; 4]; 4] }
}

fn sample_block(index: u64) -> Block {
    Block {
        index,
        timestamp: String::from("2026-01-01 00:00:00"),
        problem: sample_problem(0),
        solution: vec![],
        prev_solution: vec![],
        node_id: String::from("n1"),
        data: String::new(),
    }
}

#[test]
fn publish_with_no_subscribers_is_a_noop() {
    let (problem_tx, problem_rx) = tokio::sync::broadcast::channel::<Problem>(16);
    let (block_tx, block_rx) = tokio::sync::broadcast::channel::<Block>(16);
    drop(problem_rx);
    drop(block_rx);
    let hub = BroadcastHub::new(problem_tx, block_tx);
    assert_eq!(hub.publish_puzzle(sample_problem(1)), PublishOutcome::NoSubscribers);
    assert_eq!(hub.publish_block(sample_block(1)), PublishOutcome::NoSubscribers);
}

#[test]
fn publish_counts_subscribers_and_delivers_the_event() {
    let (problem_tx, mut rx1) = tokio::sync::broadcast::channel::<Problem>(16);
    let mut rx2 = problem_tx.subscribe();
    let (block_tx, mut block_rx) = tokio::sync::broadcast::channel::<Block>(16);
    let hub = BroadcastHub::new(problem_tx, block_tx);

    let puzzle = sample_problem(7);
    assert_eq!(hub.publish_puzzle(puzzle.clone()), PublishOutcome::Delivered(2));
    assert_eq!(rx1.try_recv().unwrap(), puzzle);
    assert_eq!(rx2.try_recv().unwrap(), puzzle);

    let block = sample_block(3);
    assert_eq!(hub.publish_block(block.clone()), PublishOutcome::Delivered(1));
    assert_eq!(block_rx.try_recv().unwrap(), block);
}

#[test]
fn events_arrive_in_publish_order() {
    let (problem_tx, mut rx) = tokio::sync::broadcast::channel::<Problem>(16);
    let (block_tx, _block_rx) = tokio::sync::broadcast::channel::<Block>(16);
    let hub = BroadcastHub::new(problem_tx, block_tx);

    let first = sample_problem(1);
    let second = sample_problem(2);
    hub.publish_puzzle(first.clone());
    hub.publish_puzzle(second.clone());
    assert_eq!(rx.try_recv().unwrap(), first);
    assert_eq!(rx.try_recv().unwrap(), second);
}
