//! Block-level behaviour: the state transition, atomic commits, the chain
//! index, fork choice, and the block producer.

use chaincore::assembler::produce_block;
use chaincore::chain::Node;
use chaincore::codec::{compute_state_root, compute_tx_root, sign_transaction};
use chaincore::store::AccountStore;
use chaincore::transition::{apply_block, update_state, validate_block};
use chaincore::types::{
    Account, Block, BlockError, BlockHeader, ConsensusError, Transaction, ValidationError,
};

const ALICE: u64 = 1;
const BOB: u64 = 2;

fn signed_tx(from: u64, to: u64, nonce: u64, value: u64, gas_limit: u64, gas_price: u64, data: Vec<u8>) -> Transaction {
    let mut tx = Transaction {
        from,
        to,
        nonce,
        value,
        gas_limit,
        gas_price,
        data,
        sig: Vec::new(),
    };
    sign_transaction(&mut tx);
    tx
}

fn account(nonce: u64, balance: u64) -> Account {
    Account { nonce, balance, code_hash: 0, storage_root: 0 }
}

fn genesis_node(balances: Vec<(u64, u64)>) -> Node {
    let mut store = AccountStore::new();
    for (addr, bal) in balances {
        store.set(addr, account(0, bal));
    }
    Node::genesis(store, 0)
}

/// A block on the node's head carrying the given transactions and header
/// claims; the transaction root is computed honestly so that deeper checks
/// are reachable.
fn block_on_head(node: &Node, txs: Vec<Transaction>, gas_limit: u64, gas_used: u64, state_root: u64) -> Block {
    let head = &node.entries[node.head];
    let tx_root = compute_tx_root(&txs);
    let header = BlockHeader {
        parent_hash: head.hash,
        number: head.block.header.number + 1,
        state_root,
        tx_root,
        timestamp: head.block.header.timestamp,
        beneficiary: 0,
        gas_limit,
        gas_used,
        extra_data: Vec::new(),
    };
    Block { header, transactions: txs, receipts: Vec::new() }
}

#[test]
fn produced_block_commits_transfer() {
    // Scenario: genesis holds alice at 100; a signed transfer of 30 with
    // gas price 1 consumes the base gas of 11, leaving alice at 59.
    let mut node = genesis_node(vec![(ALICE, 100)]);
    let tx = signed_tx(ALICE, BOB, 0, 30, 10, 1, vec![]);
    let block = produce_block(&node, &vec![tx], 7, 1000, 5);
    assert_eq!(block.header.gas_used, 11);
    assert_eq!(block.transactions.len(), 1);
    assert!(block.receipts.is_empty());
    let verdict = node.consensus_mechanism(&block);
    assert_eq!(verdict, Ok(true));
    assert_eq!(node.get_account(ALICE).balance, 59);
    assert_eq!(node.get_account(ALICE).nonce, 1);
    assert_eq!(node.get_account(BOB).balance, 30);
    assert_eq!(node.current_head().number, 1);
}

#[test]
fn stored_block_carries_receipts() {
    let mut node = genesis_node(vec![(ALICE, 100)]);
    let tx = signed_tx(ALICE, BOB, 0, 30, 10, 1, vec![]);
    let block = produce_block(&node, &vec![tx], 7, 1000, 5);
    node.consensus_mechanism(&block).unwrap();
    let hash = node.entries[node.head].hash;
    let stored = node.query_blockchain(hash).unwrap();
    assert_eq!(stored.receipts.len(), 1);
    assert!(stored.receipts[0].status);
    assert_eq!(stored.receipts[0].gas_used, 11);
}

#[test]
fn nonce_mismatch_rejects_whole_block() {
    // Scenario: a transaction with nonce 5 against a sender at nonce 0 makes
    // the block invalid as a whole; no balance changes.
    let mut node = genesis_node(vec![(ALICE, 100)]);
    let tx = signed_tx(ALICE, BOB, 5, 30, 10, 1, vec![]);
    let block = block_on_head(&node, vec![tx], 1000, 11, 0);
    let verdict = node.consensus_mechanism(&block);
    assert_eq!(
        verdict,
        Err(ConsensusError::InvalidBlock(BlockError::InvalidTransaction(
            0,
            ValidationError::NonceMismatch
        )))
    );
    assert_eq!(node.get_account(ALICE).balance, 100);
    assert_eq!(node.get_account(ALICE).nonce, 0);
    assert_eq!(node.get_account(BOB).balance, 0);
    assert_eq!(node.current_head().number, 0);
}

#[test]
fn gas_accounting_mismatch_rejects_block() {
    // Scenario: the header claims 100 gas but the receipts sum to 80
    // (two transfers costing 11 + 2*14 = 39 and 11 + 2*15 = 41).
    let mut node = genesis_node(vec![(ALICE, 1000)]);
    let t1 = signed_tx(ALICE, BOB, 0, 10, 100, 1, vec![0; 14]);
    let t2 = signed_tx(ALICE, BOB, 1, 10, 100, 1, vec![0; 15]);
    let block = block_on_head(&node, vec![t1, t2], 1000, 100, 0);
    let verdict = node.consensus_mechanism(&block);
    assert_eq!(
        verdict,
        Err(ConsensusError::InvalidBlock(BlockError::GasAccountingMismatch))
    );
    assert_eq!(node.get_account(ALICE).balance, 1000);
    assert_eq!(node.current_head().number, 0);
}

#[test]
fn state_root_mismatch_rejects_block() {
    let mut node = genesis_node(vec![(ALICE, 100)]);
    let tx = signed_tx(ALICE, BOB, 0, 30, 10, 1, vec![]);
    // gas claim is honest (11), state root claim is not.
    let block = block_on_head(&node, vec![tx], 1000, 11, 12345);
    let verdict = node.consensus_mechanism(&block);
    assert_eq!(
        verdict,
        Err(ConsensusError::InvalidBlock(BlockError::StateRootMismatch))
    );
    assert_eq!(node.get_account(ALICE).balance, 100);
}

#[test]
fn block_gas_limit_overrun_rejects_block() {
    let mut node = genesis_node(vec![(ALICE, 100)]);
    let tx = signed_tx(ALICE, BOB, 0, 30, 10, 1, vec![]);
    // the transaction costs 11 gas but the block only allows 10.
    let block = block_on_head(&node, vec![tx], 10, 11, 0);
    let verdict = node.consensus_mechanism(&block);
    assert_eq!(
        verdict,
        Err(ConsensusError::InvalidBlock(BlockError::BlockGasOverrun))
    );
}

#[test]
fn bad_parent_rejected() {
    let node = genesis_node(vec![(ALICE, 100)]);
    let mut block = block_on_head(&node, vec![], 0, 0, 0);
    block.header.number = 5;
    let head = &node.entries[0];
    let mut store = head.state.snapshot();
    let verdict = apply_block(&block, &head.block.header, head.hash, &mut store);
    assert_eq!(verdict.unwrap_err(), BlockError::BadParent);
}

#[test]
fn non_monotonic_timestamp_rejected() {
    let mut store = AccountStore::new();
    store.set(ALICE, account(0, 100));
    let node = Node::genesis(store, 50);
    let mut block = block_on_head(&node, vec![], 0, 0, 0);
    block.header.timestamp = 49;
    let head = &node.entries[0];
    let mut working = head.state.snapshot();
    let verdict = apply_block(&block, &head.block.header, head.hash, &mut working);
    assert_eq!(verdict.unwrap_err(), BlockError::NonMonotonicTimestamp);
}

#[test]
fn tx_root_mismatch_rejected() {
    let node = genesis_node(vec![(ALICE, 100)]);
    let tx = signed_tx(ALICE, BOB, 0, 30, 10, 1, vec![]);
    let mut block = block_on_head(&node, vec![tx], 1000, 11, 0);
    block.header.tx_root = block.header.tx_root.wrapping_add(1);
    let head = &node.entries[0];
    let mut working = head.state.snapshot();
    let verdict = apply_block(&block, &head.block.header, head.hash, &mut working);
    assert_eq!(verdict.unwrap_err(), BlockError::TxRootMismatch);
}

#[test]
fn rejection_is_idempotent() {
    // Re-submitting an already-rejected block produces the identical error
    // and still changes nothing.
    let mut node = genesis_node(vec![(ALICE, 100)]);
    let tx = signed_tx(ALICE, BOB, 5, 30, 10, 1, vec![]);
    let block = block_on_head(&node, vec![tx], 1000, 11, 0);
    let first = node.consensus_mechanism(&block);
    let second = node.consensus_mechanism(&block);
    assert_eq!(first, second);
    assert_eq!(node.get_account(ALICE).balance, 100);
}

#[test]
fn duplicate_block_is_stale() {
    let mut node = genesis_node(vec![(ALICE, 100)]);
    let block = produce_block(&node, &vec![], 0, 0, 0);
    assert_eq!(node.consensus_mechanism(&block), Ok(true));
    assert_eq!(node.consensus_mechanism(&block), Err(ConsensusError::StaleBlock));
}

#[test]
fn unknown_parent_is_retained_as_orphan() {
    let mut node = genesis_node(vec![(ALICE, 100)]);
    let mut block = block_on_head(&node, vec![], 0, 0, 0);
    block.header.parent_hash = 0xdead;
    assert_eq!(node.consensus_mechanism(&block), Err(ConsensusError::UnknownParent));
    assert_eq!(node.orphans.len(), 1);
    assert_eq!(node.current_head().number, 0);
}

#[test]
fn application_is_deterministic() {
    // Applying one block to two independent copies of the same state yields
    // identical states and receipts.
    let node = genesis_node(vec![(ALICE, 100)]);
    let tx = signed_tx(ALICE, BOB, 0, 30, 10, 1, vec![4, 5]);
    let block = produce_block(&node, &vec![tx], 0, 1000, 0);
    let head = &node.entries[0];
    let mut s1 = head.state.snapshot();
    let mut s2 = head.state.snapshot();
    let r1 = apply_block(&block, &head.block.header, head.hash, &mut s1).unwrap();
    let r2 = apply_block(&block, &head.block.header, head.hash, &mut s2).unwrap();
    assert_eq!(r1.len(), r2.len());
    for i in 0..r1.len() {
        assert_eq!(r1[i].status, r2[i].status);
        assert_eq!(r1[i].gas_used, r2[i].gas_used);
    }
    assert_eq!(s1.account(ALICE), s2.account(ALICE));
    assert_eq!(s1.account(BOB), s2.account(BOB));
    assert_eq!(compute_state_root(&s1), compute_state_root(&s2));
}

#[test]
fn conservation_of_value() {
    // Total balance before equals total balance after plus the gas burned.
    let mut node = genesis_node(vec![(ALICE, 100), (BOB, 50)]);
    let tx = signed_tx(ALICE, BOB, 0, 30, 20, 1, vec![]);
    let block = produce_block(&node, &vec![tx], 0, 1000, 0);
    node.consensus_mechanism(&block).unwrap();
    let total_after = node.get_account(ALICE).balance + node.get_account(BOB).balance;
    assert_eq!(total_after + 11, 150);
}

#[test]
fn fork_choice_keeps_exactly_one_canonical_head() {
    // Scenario: two candidates cite the same parent. Exactly one becomes
    // canonical; the other is retained as a fork, and extending the fork to
    // a greater height promotes it.
    let mut node = genesis_node(vec![(ALICE, 100)]);
    let block_a = produce_block(&node, &vec![], 10, 0, 0);
    let block_b = produce_block(&node, &vec![], 20, 0, 0);
    let first = node.consensus_mechanism(&block_a).unwrap();
    assert!(first);
    let second = node.consensus_mechanism(&block_b).unwrap();
    // both are indexed, exactly one is the head
    assert_eq!(node.entries.len(), 3);
    assert_eq!(node.current_head().number, 1);
    let head_beneficiary = node.current_head().beneficiary;
    assert!(head_beneficiary == 10 || head_beneficiary == 20);
    let (loser_idx, loser_beneficiary) = if second {
        assert_eq!(head_beneficiary, 20);
        (1, 10)
    } else {
        assert_eq!(head_beneficiary, 10);
        (2, 20)
    };
    assert_eq!(node.entries[loser_idx].block.header.beneficiary, loser_beneficiary);

    // extend the losing fork: an empty block on top of it
    let fork = &node.entries[loser_idx];
    let txs: Vec<Transaction> = Vec::new();
    let header = BlockHeader {
        parent_hash: fork.hash,
        number: 2,
        state_root: compute_state_root(&fork.state),
        tx_root: compute_tx_root(&txs),
        timestamp: fork.block.header.timestamp,
        beneficiary: 0,
        gas_limit: 0,
        gas_used: 0,
        extra_data: Vec::new(),
    };
    let child = Block { header, transactions: txs, receipts: Vec::new() };
    let promoted = node.consensus_mechanism(&child).unwrap();
    assert!(promoted);
    assert_eq!(node.current_head().number, 2);
}

#[test]
fn producer_skips_invalid_and_unaffordable_transactions() {
    let node = genesis_node(vec![(ALICE, 100)]);
    let bad_nonce = signed_tx(ALICE, BOB, 7, 10, 10, 1, vec![]);
    let good = signed_tx(ALICE, BOB, 0, 30, 10, 1, vec![]);
    let too_poor = signed_tx(BOB, ALICE, 0, 500, 10, 1, vec![]);
    let block = produce_block(&node, &vec![bad_nonce, good, too_poor], 0, 1000, 0);
    assert_eq!(block.transactions.len(), 1);
    assert_eq!(block.transactions[0].value, 30);
    assert_eq!(block.header.gas_used, 11);
}

#[test]
fn producer_respects_gas_budget() {
    let node = genesis_node(vec![(ALICE, 1000)]);
    let t1 = signed_tx(ALICE, BOB, 0, 10, 100, 1, vec![0; 14]); // 39 gas
    let t2 = signed_tx(ALICE, BOB, 1, 10, 100, 1, vec![0; 15]); // 41 gas
    let block = produce_block(&node, &vec![t1, t2], 0, 50, 0);
    assert_eq!(block.transactions.len(), 1);
    assert_eq!(block.header.gas_used, 39);
}

#[test]
fn validate_block_leaves_store_untouched() {
    // validation works on a snapshot; only update_state commits it.
    let node = genesis_node(vec![(ALICE, 100)]);
    let tx = signed_tx(ALICE, BOB, 0, 30, 10, 1, vec![]);
    let block = produce_block(&node, &vec![tx], 0, 1000, 0);
    let head = &node.entries[0];
    let mut store = head.state.snapshot();
    let (receipts, snapshot) =
        validate_block(&block, &head.block.header, head.hash, &store).unwrap();
    assert_eq!(receipts.len(), 1);
    assert_eq!(store.account(ALICE).balance, 100);
    update_state(&mut store, snapshot);
    assert_eq!(store.account(ALICE).balance, 59);
}

#[test]
fn nonce_counts_transactions_across_blocks() {
    // Across two committed blocks, the sender's nonce equals the number of
    // its transactions in history.
    let mut node = genesis_node(vec![(ALICE, 1000)]);
    let t0 = signed_tx(ALICE, BOB, 0, 10, 20, 1, vec![]);
    let first = produce_block(&node, &vec![t0], 0, 1000, 0);
    assert_eq!(node.consensus_mechanism(&first), Ok(true));
    let t1 = signed_tx(ALICE, BOB, 1, 10, 20, 1, vec![]);
    let t2 = signed_tx(ALICE, BOB, 2, 10, 20, 1, vec![]);
    let second = produce_block(&node, &vec![t1, t2], 0, 1000, 0);
    assert_eq!(node.consensus_mechanism(&second), Ok(true));
    assert_eq!(node.get_account(ALICE).nonce, 3);
    assert_eq!(node.get_account(BOB).nonce, 0);
    assert_eq!(node.get_account(BOB).balance, 30);
    assert_eq!(node.current_head().number, 2);
}

#[test]
fn query_by_number_walks_canonical_chain() {
    let mut node = genesis_node(vec![(ALICE, 100)]);
    let tx = signed_tx(ALICE, BOB, 0, 30, 10, 1, vec![]);
    let first = produce_block(&node, &vec![tx], 10, 1000, 0);
    assert_eq!(node.consensus_mechanism(&first), Ok(true));
    let second = produce_block(&node, &vec![], 11, 0, 0);
    assert_eq!(node.consensus_mechanism(&second), Ok(true));
    assert_eq!(node.query_block_by_number(0).unwrap().header.number, 0);
    let at_one = node.query_block_by_number(1).unwrap();
    assert_eq!(at_one.header.beneficiary, 10);
    assert_eq!(at_one.transactions.len(), 1);
    assert_eq!(node.query_block_by_number(2).unwrap().header.beneficiary, 11);
    assert!(node.query_block_by_number(3).is_none());
}

#[test]
fn query_by_number_ignores_forks() {
    // A retained fork at the same height is not on the canonical path, so
    // the by-number walk never returns it.
    let mut node = genesis_node(vec![(ALICE, 100)]);
    let canonical_one = produce_block(&node, &vec![], 10, 0, 0);
    assert_eq!(node.consensus_mechanism(&canonical_one), Ok(true));
    let canonical_two = produce_block(&node, &vec![], 11, 0, 0);
    assert_eq!(node.consensus_mechanism(&canonical_two), Ok(true));
    // a late competitor at height 1, citing genesis
    let genesis = &node.entries[0];
    let txs: Vec<Transaction> = Vec::new();
    let header = BlockHeader {
        parent_hash: genesis.hash,
        number: 1,
        state_root: compute_state_root(&genesis.state),
        tx_root: compute_tx_root(&txs),
        timestamp: 0,
        beneficiary: 20,
        gas_limit: 0,
        gas_used: 0,
        extra_data: Vec::new(),
    };
    let fork = Block { header, transactions: txs, receipts: Vec::new() };
    assert_eq!(node.consensus_mechanism(&fork), Ok(false));
    assert_eq!(node.query_block_by_number(1).unwrap().header.beneficiary, 10);
}

#[test]
fn query_unknown_hash_is_none() {
    let node = genesis_node(vec![]);
    assert!(node.query_blockchain(0xabc).is_none());
    let genesis_hash = node.entries[0].hash;
    assert!(node.query_blockchain(genesis_hash).is_some());
}
