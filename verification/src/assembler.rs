//! The block producer: select pending transactions under a gas budget,
//! respecting per-sender nonce order by validating each candidate against
//! the state its predecessors left, execute them on a working snapshot, and
//! publish a candidate block whose header already carries the roots and gas
//! total the validator will recompute — so a self-produced block is
//! guaranteed to pass the full state transition against the head it was
//! built on.

use vstd::prelude::*;

use crate::chain::Node;
use crate::codec::{compute_state_root, compute_tx_root};
use crate::engine::{
    execute_tx_spec, execute_transaction, gas_used_of, validate_transaction, validate_tx_spec,
};
use crate::store::AccountStore;
use crate::transition::{
    apply_block_spec, apply_txs_spec, lemma_apply_txs_snoc, sum_gas, txs_view,
};
use crate::types::{Account, Block, BlockHeader, ReceiptV, Transaction, TransactionV};

verus! {

/// The producer's selection, as a function: walk `pending` in order and
/// take each transaction that fits the remaining gas budget and validates
/// against the state the taken ones left; skip every other and continue —
/// a skipped candidate is never fatal to assembly. The result is therefore
/// a subsequence of `pending` in its original order. Opaque: the proofs
/// unfold it one step at a time.
#[verifier::opaque]
pub open spec fn select_txs_spec(
    pending: Seq<TransactionV>,
    s: Seq<(u64, Account)>,
    gas_acc: int,
    gas_limit: u64,
) -> Seq<TransactionV>
    decreases pending.len(),
{
    if pending.len() == 0 {
        Seq::empty()
    } else {
        let t = pending[0];
        if gas_acc + gas_used_of(t) <= gas_limit && validate_tx_spec(t, s) is Ok {
            seq![t] + select_txs_spec(
                pending.drop_first(),
                execute_tx_spec(t, s).1,
                gas_acc + gas_used_of(t),
                gas_limit,
            )
        } else {
            select_txs_spec(pending.drop_first(), s, gas_acc, gas_limit)
        }
    }
}

/// Build a candidate block on the current head: a subset of `pending`, in
/// order, each transaction valid against the effects of those before it and
/// fitting the gas budget; invalid or unaffordable candidates are skipped,
/// never block-fatal here. The receipt list is left empty — receipts are
/// the validator's to attach — but the header's claims are exactly what the
/// replay will find, so applying the result to the head state succeeds.
#[verifier::rlimit(100)]
pub fn produce_block(
    node: &Node,
    pending: &Vec<Transaction>,
    beneficiary: u64,
    gas_limit: u64,
    timestamp: u64,
) -> (b: Block)
    requires
        node.wf(),
        timestamp >= node.head_header().timestamp,
        node.head_header().number < u64::MAX,
    ensures
        apply_block_spec(b@, node.head_header(), node.head_hash(), node.head_state()) is Ok,
        b@.transactions == select_txs_spec(txs_view(*pending), node.head_state(), 0, gas_limit),
        b@.receipts.len() == 0,
        b@.header.parent_hash == node.head_hash(),
        b@.header.number == node.head_header().number + 1,
        b@.header.timestamp == timestamp,
        b@.header.beneficiary == beneficiary,
        b@.header.gas_limit == gas_limit,
{
    let ghost s0 = node.head_state();
    let ghost pv = txs_view(*pending);
    let mut working: AccountStore = node.entries[node.head].state.snapshot();
    let mut selected: Vec<Transaction> = Vec::new();
    let mut gas_acc: u64 = 0;
    let ghost mut rv = Seq::<ReceiptV>::empty();
    let mut i: usize = 0;
    proof {
        reveal(select_txs_spec);
        assert(txs_view(selected) =~= Seq::<crate::types::TransactionV>::empty());
        assert(pv.skip(0) =~= pv);
        assert(Seq::<TransactionV>::empty() + select_txs_spec(pv, s0, 0, gas_limit)
            =~= select_txs_spec(pv, s0, 0, gas_limit));
    }
    while i < pending.len()
        invariant
            i <= pending.len(),
            working.wf(),
            gas_acc <= gas_limit,
            gas_acc == sum_gas(rv),
            apply_txs_spec(txs_view(selected), s0, 0, 0, gas_limit) == Ok::<
                _,
                crate::types::BlockError,
            >((rv, working@)),
            pv == txs_view(*pending),
            select_txs_spec(pv, s0, 0, gas_limit) == txs_view(selected) + select_txs_spec(
                pv.skip(i as int),
                working@,
                gas_acc as int,
                gas_limit,
            ),
        decreases pending.len() - i,
    {
        proof {
            assert(pv.skip(i as int)[0] == pv[i as int]);
            assert(pv.skip(i as int).drop_first() =~= pv.skip(i + 1));
            assert(pv[i as int] == pending@[i as int]@);
        }
        let tx = &pending[i];
        let g = crate::engine::compute_gas_used(tx);
        if g <= gas_limit - gas_acc {
            match validate_transaction(tx, &working) {
                Err(_) => {},
                Ok(()) => {
                    let ghost s_before = working@;
                    let ghost prefix = txs_view(selected);
                    let receipt = execute_transaction(tx, &mut working);
                    proof {
                        reveal(execute_tx_spec);
                        assert(receipt@.gas_used == gas_used_of(tx@));
                        lemma_apply_txs_snoc(
                            prefix,
                            s0,
                            0,
                            0,
                            gas_limit,
                            rv,
                            s_before,
                            tx@,
                        );
                        let rv_old = rv;
                        rv = rv.push(receipt@);
                        assert(rv.drop_last() =~= rv_old);
                        assert(rv.last() == receipt@);
                        assert(sum_gas(rv) == sum_gas(rv_old) + receipt@.gas_used);
                    }
                    gas_acc = gas_acc + receipt.gas_used;
                    selected.push(tx.duplicate());
                    proof {
                        reveal(select_txs_spec);
                        assert(txs_view(selected) =~= prefix.push(tx@));
                        let rest = select_txs_spec(
                            pv.skip(i + 1),
                            working@,
                            gas_acc as int,
                            gas_limit,
                        );
                        assert(select_txs_spec(pv.skip(i as int), s_before, (gas_acc
                            - receipt.gas_used) as int, gas_limit) == seq![tx@] + rest);
                        assert(prefix + (seq![tx@] + rest) =~= prefix.push(tx@) + rest);
                    }
                },
            }
        }
        proof {
            reveal(select_txs_spec);
            assert(select_txs_spec(pv, s0, 0, gas_limit) == txs_view(selected)
                + select_txs_spec(pv.skip(i + 1), working@, gas_acc as int, gas_limit));
        }
        i = i + 1;
    }
    proof {
        reveal(select_txs_spec);
        assert(pv.skip(pv.len() as int) =~= Seq::<TransactionV>::empty());
        assert(select_txs_spec(pv.skip(pv.len() as int), working@, gas_acc as int, gas_limit)
            =~= Seq::<TransactionV>::empty());
        assert(txs_view(selected) + Seq::<TransactionV>::empty() =~= txs_view(selected));
    }
    let state_root = compute_state_root(&working);
    let tx_root = compute_tx_root(&selected);
    let head = node.current_head();
    let parent_hash = node.entries[node.head].hash;
    let header = BlockHeader {
        parent_hash,
        number: head.number + 1,
        state_root,
        tx_root,
        timestamp,
        beneficiary,
        gas_limit,
        gas_used: gas_acc,
        extra_data: Vec::new(),
    };
    let b = Block { header, transactions: selected, receipts: Vec::new() };
    proof {
        assert(b@.transactions =~= txs_view(b.transactions));
        assert(b@.receipts =~= Seq::<ReceiptV>::empty());
        assert(apply_block_spec(b@, node.head_header(), node.head_hash(), node.head_state())
            == Ok::<_, crate::types::BlockError>((rv, working@)));
    }
    b
}

} // verus!
