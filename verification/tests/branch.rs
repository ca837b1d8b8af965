use chain_indexer::classifier::{find_fork_depth, ingest_branch, Classification};
use chain_indexer::indexer::{
    replacement_len, take_segment, BitcoinChainEvent, Indexer, IndexerConfig, IndexerError,
    StacksChainEvent,
};
use chain_indexer::types::{
    BitcoinBlockData, BlockIdentifier, StacksBlockData, StacksBlockMetadata,
};
use chain_indexer::window::ChainWindow;

fn settings() -> IndexerConfig {
    IndexerConfig {
        stacks_node_rpc_url: String::from("http://localhost:20443"),
        bitcoin_node_rpc_url: String::from("http://localhost:18443"),
        bitcoin_node_rpc_username: String::from("devnet"),
        bitcoin_node_rpc_password: String::from("devnet"),
    }
}

fn canonical(h: u64) -> [u8; 32] {
    [h as u8; 32]
}

fn rival(h: u64) -> [u8; 32] {
    [(h as u8) | 0x80; 32]
}

fn block(index: u64, hash: [u8; 32], parent: [u8; 32]) -> BitcoinBlockData {
    BitcoinBlockData {
        block_identifier: BlockIdentifier::new(index, hash),
        parent_block_identifier: BlockIdentifier::new(index.saturating_sub(1), parent),
        timestamp: 0,
        transactions: Vec::new(),
    }
}

fn anchored(index: u64, hash: [u8; 32], parent: [u8; 32], position: u32) -> StacksBlockData {
    StacksBlockData {
        block_identifier: BlockIdentifier::new(index, hash),
        parent_block_identifier: BlockIdentifier::new(index.saturating_sub(1), parent),
        timestamp: 0,
        transactions: Vec::new(),
        metadata: StacksBlockMetadata {
            bitcoin_anchor_block_identifier: BlockIdentifier::new(1, [1; 32]),
            pox_cycle_index: 0,
            pox_cycle_position: position,
            pox_cycle_length: 5,
        },
    }
}

fn indexer_through(last: u64) -> Indexer {
    let mut indexer = Indexer::new(settings());
    let mut h: u64 = 1;
    while h <= last {
        indexer.handle_bitcoin_block(Ok(block(h, canonical(h), canonical(h - 1)))).unwrap();
        h += 1;
    }
    indexer
}

fn held(indexer: &Indexer) -> Vec<(u64, [u8; 32])> {
    let window = indexer.bitcoin_window();
    let mut out = Vec::new();
    let mut i = 0;
    while i < window.len() {
        let entry = window.get(i).unwrap();
        out.push((entry.0.index, entry.0.hash));
        i += 1;
    }
    out
}

#[test]
fn branch_of_two_blocks_replaces_the_segment_above_the_fork() {
    let mut indexer = indexer_through(10);
    let eight = block(8, rival(8), canonical(7));
    let nine = block(9, rival(9), rival(8));
    let outcome = indexer.handle_bitcoin_branch(vec![eight.clone()], nine.clone());
    assert_eq!(outcome, Ok(BitcoinChainEvent::ChainUpdatedWithReorg(vec![eight, nine])));
    assert_eq!(
        held(&indexer),
        vec![
            (4, canonical(4)),
            (5, canonical(5)),
            (6, canonical(6)),
            (7, canonical(7)),
            (8, rival(8)),
            (9, rival(9))
        ]
    );
}

#[test]
fn branch_reaching_the_tip_height_replaces_as_many_entries() {
    let mut indexer = indexer_through(3);
    let two = block(2, rival(2), canonical(1));
    let three = block(3, rival(3), rival(2));
    let outcome = indexer.handle_bitcoin_branch(vec![two.clone()], three.clone());
    assert_eq!(outcome, Ok(BitcoinChainEvent::ChainUpdatedWithReorg(vec![two, three])));
    assert_eq!(held(&indexer), vec![(1, canonical(1)), (2, rival(2)), (3, rival(3))]);
}

#[test]
fn branch_from_the_oldest_entry_replaces_six_heights() {
    let mut indexer = indexer_through(10);
    let mut ancestors = Vec::new();
    let mut h: u64 = 5;
    while h < 10 {
        let parent = if h == 5 { canonical(4) } else { rival(h - 1) };
        ancestors.push(block(h, rival(h), parent));
        h += 1;
    }
    let ten = block(10, rival(10), rival(9));
    let mut expected = ancestors.clone();
    expected.push(ten.clone());
    let outcome = indexer.handle_bitcoin_branch(ancestors, ten);
    assert_eq!(outcome, Ok(BitcoinChainEvent::ChainUpdatedWithReorg(expected)));
    assert_eq!(
        held(&indexer),
        vec![
            (4, canonical(4)),
            (5, rival(5)),
            (6, rival(6)),
            (7, rival(7)),
            (8, rival(8)),
            (9, rival(9)),
            (10, rival(10))
        ]
    );
}

#[test]
fn ancestors_at_or_below_the_fork_point_are_not_applied_again() {
    let mut indexer = indexer_through(10);
    let seven = block(7, canonical(7), canonical(6));
    let eight = block(8, rival(8), canonical(7));
    let nine = block(9, rival(9), rival(8));
    let outcome = indexer.handle_bitcoin_branch(vec![seven, eight.clone()], nine.clone());
    assert_eq!(outcome, Ok(BitcoinChainEvent::ChainUpdatedWithReorg(vec![eight, nine])));
    assert_eq!(indexer.bitcoin_window().len(), 6);
    assert_eq!(indexer.bitcoin_window().tip(), Some(BlockIdentifier::new(9, rival(9))));
}

#[test]
fn branch_forking_below_the_window_is_refused() {
    let mut indexer = indexer_through(10);
    let before = held(&indexer);
    let mut ancestors = Vec::new();
    let mut h: u64 = 4;
    while h < 9 {
        let parent = if h == 4 { canonical(3) } else { rival(h - 1) };
        ancestors.push(block(h, rival(h), parent));
        h += 1;
    }
    let outcome = indexer.handle_bitcoin_branch(ancestors, block(9, rival(9), rival(8)));
    assert_eq!(outcome, Err(IndexerError::ReorgBeyondWindow));
    assert_eq!(held(&indexer), before);
}

#[test]
fn branch_with_a_broken_link_is_refused() {
    let mut indexer = indexer_through(10);
    let before = held(&indexer);
    let eight = block(8, rival(8), canonical(7));
    let nine = block(9, rival(9), [0xEE; 32]);
    let outcome = indexer.handle_bitcoin_branch(vec![eight], nine);
    assert_eq!(outcome, Err(IndexerError::ReorgBeyondWindow));
    assert_eq!(held(&indexer), before);
    let skipped = block(7, rival(8), canonical(6));
    let nine = block(9, rival(9), rival(8));
    let outcome = indexer.handle_bitcoin_branch(vec![skipped], nine);
    assert_eq!(outcome, Err(IndexerError::ReorgBeyondWindow));
    assert_eq!(held(&indexer), before);
}

#[test]
fn branch_whose_block_extends_the_tip_applies_that_block_alone() {
    let mut indexer = indexer_through(10);
    let ten = block(10, canonical(10), canonical(9));
    let eleven = block(11, canonical(11), canonical(10));
    let outcome = indexer.handle_bitcoin_branch(vec![ten], eleven.clone());
    assert_eq!(outcome, Ok(BitcoinChainEvent::ChainUpdatedWithBlock(eleven)));
    assert_eq!(indexer.bitcoin_window().len(), 7);
    assert_eq!(indexer.bitcoin_window().tip(), Some(BlockIdentifier::new(11, canonical(11))));
}

#[test]
fn branch_whose_block_is_alone_resolvable_is_handled_as_the_block_alone() {
    let mut indexer = indexer_through(10);
    let eight = block(8, canonical(8), canonical(7));
    let nine = block(9, rival(9), canonical(8));
    let outcome = indexer.handle_bitcoin_branch(vec![eight], nine.clone());
    assert_eq!(outcome, Ok(BitcoinChainEvent::ChainUpdatedWithReorg(vec![nine.clone()])));
    assert_eq!(indexer.bitcoin_window().tip(), Some(BlockIdentifier::new(9, rival(9))));
    let ten = block(10, rival(10), canonical(9));
    let outcome = indexer.handle_bitcoin_branch(Vec::new(), ten.clone());
    assert_eq!(outcome, Err(IndexerError::UnresolvedParent));
    let far = block(12, rival(12), rival(11));
    let outcome = indexer.handle_bitcoin_branch(vec![block(11, rival(11), rival(10))], far);
    assert_eq!(outcome, Err(IndexerError::MissingAncestors(10)));
    let again = indexer.handle_bitcoin_branch(Vec::new(), nine.clone());
    assert_eq!(again, Ok(BitcoinChainEvent::ChainUpdatedWithBlock(nine)));
}

#[test]
fn first_branch_seeds_the_window_with_its_block() {
    let mut indexer = Indexer::new(settings());
    let five = block(5, canonical(5), canonical(4));
    let six = block(6, canonical(6), canonical(5));
    let outcome = indexer.handle_bitcoin_branch(vec![five], six.clone());
    assert_eq!(outcome, Ok(BitcoinChainEvent::ChainUpdatedWithBlock(six)));
    assert_eq!(held(&indexer), vec![(6, canonical(6))]);
}

#[test]
fn stacks_branch_keeps_the_metadata_of_each_applied_block() {
    let mut indexer = Indexer::new(settings());
    let mut h: u64 = 1;
    while h <= 4 {
        indexer
            .handle_stacks_block(Ok(anchored(h, canonical(h), canonical(h - 1), h as u32)))
            .unwrap();
        h += 1;
    }
    let three = anchored(3, rival(3), canonical(2), 30);
    let four = anchored(4, rival(4), rival(3), 40);
    let outcome = indexer.handle_stacks_branch(vec![three.clone()], four.clone());
    assert_eq!(outcome, Ok(StacksChainEvent::ChainUpdatedWithReorg(vec![three, four])));
    let window = indexer.stacks_window();
    assert_eq!(window.len(), 4);
    assert_eq!(window.get(1).unwrap().0, BlockIdentifier::new(2, canonical(2)));
    assert_eq!(window.get(1).unwrap().1.pox_cycle_position, 2);
    assert_eq!(window.get(2).unwrap().0, BlockIdentifier::new(3, rival(3)));
    assert_eq!(window.get(2).unwrap().1.pox_cycle_position, 30);
    assert_eq!(window.get(3).unwrap().0, BlockIdentifier::new(4, rival(4)));
    assert_eq!(window.get(3).unwrap().1.pox_cycle_position, 40);
    assert!(indexer.bitcoin_window().is_empty());
    let outcome = indexer.handle_stacks_branch(
        vec![anchored(1, rival(1), canonical(0), 0)],
        anchored(2, rival(2), rival(1), 0),
    );
    assert_eq!(outcome, Err(IndexerError::ReorgBeyondWindow));
    assert_eq!(indexer.stacks_window().len(), 4);
}

#[test]
fn fork_depth_counts_the_blocks_below_the_announced_one() {
    let mut window: ChainWindow<u8> = ChainWindow::new();
    let mut h: u64 = 1;
    while h <= 5 {
        window.push(BlockIdentifier::new(h, canonical(h)), 0);
        h += 1;
    }
    let single = vec![(BlockIdentifier::new(4, rival(4)), canonical(3), 0u8)];
    assert_eq!(find_fork_depth(&window, &single), Some(0));
    let double = vec![
        (BlockIdentifier::new(3, rival(3)), canonical(2), 0u8),
        (BlockIdentifier::new(4, rival(4)), rival(3), 0u8),
    ];
    assert_eq!(find_fork_depth(&window, &double), Some(1));
    let lost = vec![
        (BlockIdentifier::new(3, rival(3)), rival(2), 0u8),
        (BlockIdentifier::new(4, rival(4)), rival(3), 0u8),
    ];
    assert_eq!(find_fork_depth(&window, &lost), None);
    let bottom = vec![(BlockIdentifier::new(0, rival(0)), canonical(0), 0u8)];
    assert_eq!(find_fork_depth(&window, &bottom), None);
    let below = vec![(BlockIdentifier::new(1, rival(1)), canonical(0), 0u8)];
    assert_eq!(find_fork_depth(&window, &below), None);
}

#[test]
fn ingest_branch_reports_the_fork_height() {
    let mut window: ChainWindow<u8> = ChainWindow::new();
    let mut h: u64 = 1;
    while h <= 5 {
        window.push(BlockIdentifier::new(h, canonical(h)), h as u8);
        h += 1;
    }
    let branch = vec![
        (BlockIdentifier::new(3, rival(3)), canonical(2), 33u8),
        (BlockIdentifier::new(4, rival(4)), rival(3), 44u8),
    ];
    assert_eq!(ingest_branch(&mut window, &branch), Classification::DeepReorg { fork_height: 2 });
    assert_eq!(window.len(), 4);
    assert_eq!(*window.get(2).unwrap(), (BlockIdentifier::new(3, rival(3)), 33u8));
    assert_eq!(*window.get(3).unwrap(), (BlockIdentifier::new(4, rival(4)), 44u8));
    assert_eq!(window.entry_at(2), Some(BlockIdentifier::new(2, canonical(2))));
}

#[test]
fn segment_is_the_tail_of_the_branch() {
    assert_eq!(take_segment(vec![1, 2, 3], 4, 1), vec![4]);
    assert_eq!(take_segment(vec![1, 2, 3], 4, 3), vec![2, 3, 4]);
    assert_eq!(take_segment(vec![1, 2, 3], 4, 4), vec![1, 2, 3, 4]);
    assert_eq!(take_segment(Vec::new(), 4, 1), vec![4]);
}

#[test]
fn replacement_length_is_the_distance_to_the_fork_point() {
    assert_eq!(replacement_len(Classification::ShallowReorg, 9), 1);
    assert_eq!(replacement_len(Classification::DeepReorg { fork_height: 5 }, 9), 4);
    assert_eq!(replacement_len(Classification::Extension, 9), 0);
}
