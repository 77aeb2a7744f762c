use blockchain_learning_platform::chain::{Block as ChainBlock, BlockChain};
use blockchain_learning_platform::clock::current_timestamp;
use blockchain_learning_platform::ledger;
use blockchain_learning_platform::storage;
use blockchain_learning_platform::transaction::{sort_transactions_by_index, Transaction};

fn string_grid() -> Vec<Vec<String>> {
    vec![vec![String::from("1"), String::from("2")], vec![String::from("3")]]
}

#[test]
fn ledger_block_new_records_its_arguments() {
    let b = ledger::Block::new(
        7,
        string_grid(),
        string_grid(),
        vec![],
        String::from("node-1"),
        String::from("payload"),
    );
    assert_eq!(b.index, 7);
    assert_eq!(b.problem, string_grid());
    assert_eq!(b.solution, string_grid());
    assert_eq!(b.prev_solution, Vec::<Vec<String>>::new());
    assert_eq!(b.node_id, "node-1");
    assert_eq!(b.data, "payload");
    // the timestamp is the clock's seconds since the epoch in decimal
    assert!(b.timestamp.parse::<u64>().is_ok());
}

#[test]
fn storage_block_new_records_its_arguments() {
    let problem = storage::Problem { matrix: vec![vec![1, 2], vec![3, 4]] };
    let b = storage::Block::new(
        3,
        problem.clone(),
        vec![vec![5, 6]],
        vec![vec![7, 8]],
        String::from("node-2"),
        String::from("data"),
    );
    assert_eq!(b.index, 3);
    assert_eq!(b.problem, problem);
    assert_eq!(b.solution, vec![vec![5, 6]]);
    assert_eq!(b.prev_solution, vec![vec![7, 8]]);
    assert_eq!(b.node_id, "node-2");
    assert_eq!(b.data, "data");
    // a calendar timestamp in the shape YYYY-MM-DD HH:MM:SS
    assert_eq!(b.timestamp.len(), 19);
    assert_eq!(b.timestamp.as_bytes()[4], b'-');
    assert_eq!(b.timestamp.as_bytes()[10], b' ');
    assert_eq!(b.timestamp.as_bytes()[13], b':');
}

#[test]
fn transaction_new_records_its_arguments() {
    let t = Transaction::new(2, String::from("alice"), String::from("bob"), 250);
    assert_eq!(t.index, 2);
    assert_eq!(t.sender, "alice");
    assert_eq!(t.receiver, "bob");
    assert_eq!(t.payment, 250);
}

#[test]
fn blocks_sort_by_index() {
    let mk = |index: u64| storage::Block {
        index,
        timestamp: String::from("t"),
        problem: storage::Problem { matrix: vec![] },
        solution: vec![],
        prev_solution: vec![],
        node_id: format!("node-{}", index),
        data: String::new(),
    };
    let blocks = vec![mk(3), mk(0), mk(2), mk(1)];
    let sorted = storage::sort_blocks_by_index(blocks);
    let indices: Vec<u64> = sorted.iter().map(|b| b.index).collect();
    assert_eq!(indices, vec![0, 1, 2, 3]);
    assert_eq!(sorted[2].node_id, "node-2");
}

#[test]
fn transactions_sort_by_index() {
    let mk = |index: u64| Transaction::new(index, format!("s{}", index), format!("r{}", index), index * 10);
    let txs = vec![mk(5), mk(1), mk(4), mk(1)];
    let sorted = sort_transactions_by_index(txs);
    let indices: Vec<u64> = sorted.iter().map(|t| t.index).collect();
    assert_eq!(indices, vec![1, 1, 4, 5]);
    assert_eq!(sorted[3].payment, 50);
}

#[test]
fn current_timestamp_is_rfc3339_shaped() {
    let s = current_timestamp();
    assert!(s.len() >= 19);
    assert!(s.contains('T'));
}

#[test]
fn blockchain_appends_and_reports_the_latest_block() {
    let mut chain = BlockChain::new();
    assert_eq!(chain.len(), 0);
    assert!(chain.latest().is_none());

    let b1 = ChainBlock {
        index: 0,
        timestamp: String::from("0"),
        problem: vec![],
        solution: vec![],
        prev_solution: vec![],
        node_id: String::from("GenesisNode"),
        data: String::from("Genesis Block"),
    };
    let mut b2 = b1.clone();
    b2.index = 1;
    chain.push(b1);
    chain.push(b2.clone());
    assert_eq!(chain.len(), 2);
    assert_eq!(chain.latest(), Some(&b2));
}
