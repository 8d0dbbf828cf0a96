//! Block validation and the atomic state transition: replay a block's
//! transactions against a working snapshot, hold the result to the header's
//! claims, and either merge the snapshot into the canonical store in one
//! step or discard it. The whole transition is specified as a total
//! function of the block, the head it claims to extend, and the state.

use vstd::prelude::*;

use crate::codec::{compute_state_root, compute_tx_root, state_root_of, tx_root_of};
use crate::engine::{execute_transaction, execute_tx_spec, validate_transaction, validate_tx_spec};
use crate::store::AccountStore;
use crate::types::{
    Account, Block, BlockError, BlockHeader, BlockHeaderV, BlockV, Receipt, ReceiptV, Transaction,
    TransactionV,
};

verus! {

/// Total gas the receipts report.
pub open spec fn sum_gas(rs: Seq<ReceiptV>) -> int
    decreases rs.len(),
{
    if rs.len() == 0 {
        0
    } else {
        sum_gas(rs.drop_last()) + rs.last().gas_used
    }
}

/// Replay a transaction list, front to back, against a state: each
/// transaction is validated against the state its predecessors left (a
/// validation failure is block-fatal and names the position), executed, and
/// its gas added to the running total, which may never pass the block's own
/// gas limit. `idx` and `gas_acc` carry the position and the gas consumed
/// by the transactions already replayed.
pub open spec fn apply_txs_spec(
    txs: Seq<TransactionV>,
    s: Seq<(u64, Account)>,
    idx: int,
    gas_acc: int,
    block_gas_limit: u64,
) -> Result<(Seq<ReceiptV>, Seq<(u64, Account)>), BlockError>
    decreases txs.len(),
{
    if txs.len() == 0 {
        Ok((Seq::empty(), s))
    } else {
        match validate_tx_spec(txs[0], s) {
            Err(e) => Err(BlockError::InvalidTransaction(idx as u64, e)),
            Ok(()) => {
                let (r, s1) = execute_tx_spec(txs[0], s);
                if gas_acc + r.gas_used > block_gas_limit {
                    Err(BlockError::BlockGasOverrun)
                } else {
                    match apply_txs_spec(
                        txs.drop_first(),
                        s1,
                        idx + 1,
                        gas_acc + r.gas_used,
                        block_gas_limit,
                    ) {
                        Err(e) => Err(e),
                        Ok((rs, s2)) => Ok((seq![r] + rs, s2)),
                    }
                }
            },
        }
    }
}

/// The whole state transition a block asks for, as a function: structural
/// checks against the head it extends, the replay of its transactions, and
/// the comparison of the header's gas and state claims with what the replay
/// produced. `Ok` carries the receipts and the state the block commits to.
pub open spec fn apply_block_spec(
    b: BlockV,
    head: BlockHeaderV,
    head_hash: u64,
    s: Seq<(u64, Account)>,
) -> Result<(Seq<ReceiptV>, Seq<(u64, Account)>), BlockError> {
    if b.header.parent_hash != head_hash || b.header.number != head.number + 1 {
        Err(BlockError::BadParent)
    } else if b.header.timestamp < head.timestamp {
        Err(BlockError::NonMonotonicTimestamp)
    } else if tx_root_of(b.transactions) != b.header.tx_root {
        Err(BlockError::TxRootMismatch)
    } else {
        match apply_txs_spec(b.transactions, s, 0, 0, b.header.gas_limit) {
            Err(e) => Err(e),
            Ok((rs, s2)) => {
                if sum_gas(rs) != b.header.gas_used {
                    Err(BlockError::GasAccountingMismatch)
                } else if state_root_of(s2) != b.header.state_root {
                    Err(BlockError::StateRootMismatch)
                } else {
                    Ok((rs, s2))
                }
            },
        }
    }
}

/// Ghost view of a receipt vector.
pub open spec fn receipts_view(rs: Vec<Receipt>) -> Seq<ReceiptV> {
    rs@.map_values(|r: Receipt| r@)
}

/// Ghost view of a transaction vector.
pub open spec fn txs_view(ts: Vec<Transaction>) -> Seq<TransactionV> {
    ts@.map_values(|t: Transaction| t@)
}

/// Compose a prefix of receipts with the outcome of replaying the rest.
spec fn compose_receipts(
    prefix: Seq<ReceiptV>,
    rest: Result<(Seq<ReceiptV>, Seq<(u64, Account)>), BlockError>,
) -> Result<(Seq<ReceiptV>, Seq<(u64, Account)>), BlockError> {
    match rest {
        Err(e) => Err(e),
        Ok((rs, s)) => Ok((prefix + rs, s)),
    }
}

/// Splitting the gas total at the front receipt.
pub proof fn lemma_sum_gas_cons(r: ReceiptV, rs: Seq<ReceiptV>)
    ensures
        sum_gas(seq![r] + rs) == r.gas_used + sum_gas(rs),
    decreases rs.len(),
{
    let c = seq![r] + rs;
    if rs.len() == 0 {
        assert(c =~= seq![r]);
        assert(c.drop_last() =~= Seq::<ReceiptV>::empty());
        assert(c.last() == r);
        assert(sum_gas(c.drop_last()) == 0);
        assert(sum_gas(c) == sum_gas(c.drop_last()) + c.last().gas_used);
        assert(sum_gas(rs) == 0);
    } else {
        assert(c.len() == 1 + rs.len());
        assert(c.drop_last() =~= seq![r] + rs.drop_last());
        assert(c.last() == rs.last());
        lemma_sum_gas_cons(r, rs.drop_last());
        assert(sum_gas(c) == sum_gas(c.drop_last()) + c.last().gas_used);
        assert(sum_gas(rs) == sum_gas(rs.drop_last()) + rs.last().gas_used);
    }
}

/// A successful replay extends by one more transaction that validates
/// against its final state and fits the gas budget: the receipt joins the
/// end and the state advances by that execution.
pub proof fn lemma_apply_txs_snoc(
    ts: Seq<TransactionV>,
    s0: Seq<(u64, Account)>,
    idx: int,
    g0: int,
    lim: u64,
    rs: Seq<ReceiptV>,
    s: Seq<(u64, Account)>,
    t: TransactionV,
)
    requires
        apply_txs_spec(ts, s0, idx, g0, lim) == Ok::<_, BlockError>((rs, s)),
        validate_tx_spec(t, s) is Ok,
        g0 + sum_gas(rs) + execute_tx_spec(t, s).0.gas_used <= lim,
    ensures
        apply_txs_spec(ts.push(t), s0, idx, g0, lim) == Ok::<_, BlockError>(
            (rs.push(execute_tx_spec(t, s).0), execute_tx_spec(t, s).1),
        ),
    decreases ts.len(),
{
    let r_t = execute_tx_spec(t, s).0;
    let s_t = execute_tx_spec(t, s).1;
    if ts.len() == 0 {
        assert(rs =~= Seq::<ReceiptV>::empty());
        assert(s == s0);
        let one = ts.push(t);
        assert(one[0] == t);
        assert(one.drop_first() =~= Seq::<TransactionV>::empty());
        assert(apply_txs_spec(one.drop_first(), s_t, idx + 1, g0 + r_t.gas_used, lim) == Ok::<
            _,
            BlockError,
        >((Seq::<ReceiptV>::empty(), s_t)));
        assert(seq![r_t] + Seq::<ReceiptV>::empty() =~= rs.push(r_t));
    } else {
        let t0 = ts[0];
        let r0 = execute_tx_spec(t0, s0).0;
        let s1 = execute_tx_spec(t0, s0).1;
        let inner = apply_txs_spec(ts.drop_first(), s1, idx + 1, g0 + r0.gas_used, lim);
        match inner {
            Err(_) => {
                assert(false);
            },
            Ok((rs_i, s_i)) => {
                assert(rs == seq![r0] + rs_i);
                assert(s == s_i);
                lemma_sum_gas_cons(r0, rs_i);
                lemma_apply_txs_snoc(
                    ts.drop_first(),
                    s1,
                    idx + 1,
                    g0 + r0.gas_used,
                    lim,
                    rs_i,
                    s,
                    t,
                );
                let ext = ts.push(t);
                assert(ext[0] == t0);
                assert(ext.drop_first() =~= ts.drop_first().push(t));
                assert(seq![r0] + rs_i.push(r_t) =~= rs.push(r_t));
            },
        }
    }
}

/// The replay invariant survives one failed validation: the whole run fails
/// with the position and reason of the offending transaction.
proof fn lemma_replay_fail_validate(
    txs: Seq<TransactionV>,
    s0: Seq<(u64, Account)>,
    limit: u64,
    i: int,
    prefix: Seq<ReceiptV>,
    s_cur: Seq<(u64, Account)>,
    gas: u64,
    e: crate::types::ValidationError,
)
    requires
        0 <= i < txs.len(),
        apply_txs_spec(txs, s0, 0, 0, limit) == compose_receipts(
            prefix,
            apply_txs_spec(txs.skip(i), s_cur, i, gas as int, limit),
        ),
        validate_tx_spec(txs[i], s_cur) == Err::<(), _>(e),
    ensures
        apply_txs_spec(txs, s0, 0, 0, limit) == Err::<
            (Seq<ReceiptV>, Seq<(u64, Account)>),
            _,
        >(BlockError::InvalidTransaction(i as u64, e)),
{
    let rest = txs.skip(i);
    assert(rest[0] == txs[i]);
    assert(apply_txs_spec(rest, s_cur, i, gas as int, limit) == Err::<
        (Seq<ReceiptV>, Seq<(u64, Account)>),
        _,
    >(BlockError::InvalidTransaction(i as u64, e)));
}

/// The replay invariant survives a mid-block gas overrun: the whole run
/// fails with the overrun verdict.
proof fn lemma_replay_fail_gas(
    txs: Seq<TransactionV>,
    s0: Seq<(u64, Account)>,
    limit: u64,
    i: int,
    prefix: Seq<ReceiptV>,
    s_cur: Seq<(u64, Account)>,
    gas: u64,
)
    requires
        0 <= i < txs.len(),
        apply_txs_spec(txs, s0, 0, 0, limit) == compose_receipts(
            prefix,
            apply_txs_spec(txs.skip(i), s_cur, i, gas as int, limit),
        ),
        validate_tx_spec(txs[i], s_cur) is Ok,
        gas + execute_tx_spec(txs[i], s_cur).0.gas_used > limit,
    ensures
        apply_txs_spec(txs, s0, 0, 0, limit) == Err::<
            (Seq<ReceiptV>, Seq<(u64, Account)>),
            _,
        >(BlockError::BlockGasOverrun),
{
    let rest = txs.skip(i);
    assert(rest[0] == txs[i]);
    assert(apply_txs_spec(rest, s_cur, i, gas as int, limit) == Err::<
        (Seq<ReceiptV>, Seq<(u64, Account)>),
        _,
    >(BlockError::BlockGasOverrun));
}

/// The replay invariant advances one transaction: its receipt joins the
/// prefix and the replay continues from the state it left.
proof fn lemma_replay_step(
    txs: Seq<TransactionV>,
    s0: Seq<(u64, Account)>,
    limit: u64,
    i: int,
    prefix: Seq<ReceiptV>,
    s_cur: Seq<(u64, Account)>,
    gas: u64,
)
    requires
        0 <= i < txs.len(),
        gas == sum_gas(prefix),
        apply_txs_spec(txs, s0, 0, 0, limit) == compose_receipts(
            prefix,
            apply_txs_spec(txs.skip(i), s_cur, i, gas as int, limit),
        ),
        validate_tx_spec(txs[i], s_cur) is Ok,
        gas + execute_tx_spec(txs[i], s_cur).0.gas_used <= limit,
    ensures
        apply_txs_spec(txs, s0, 0, 0, limit) == compose_receipts(
            prefix.push(execute_tx_spec(txs[i], s_cur).0),
            apply_txs_spec(
                txs.skip(i + 1),
                execute_tx_spec(txs[i], s_cur).1,
                i + 1,
                gas + execute_tx_spec(txs[i], s_cur).0.gas_used,
                limit,
            ),
        ),
        sum_gas(prefix.push(execute_tx_spec(txs[i], s_cur).0)) == gas + execute_tx_spec(
            txs[i],
            s_cur,
        ).0.gas_used,
{
    let rest = txs.skip(i);
    let r = execute_tx_spec(txs[i], s_cur).0;
    let s1 = execute_tx_spec(txs[i], s_cur).1;
    assert(rest[0] == txs[i]);
    assert(rest.drop_first() =~= txs.skip(i + 1));
    let after = apply_txs_spec(txs.skip(i + 1), s1, i + 1, gas + r.gas_used, limit);
    assert(apply_txs_spec(rest, s_cur, i, gas as int, limit) == compose_receipts(
        seq![r],
        after,
    ));
    match after {
        Err(_) => {},
        Ok((rs, s2)) => {
            assert(prefix + (seq![r] + rs) =~= prefix.push(r) + rs);
        },
    }
    assert(prefix.push(r).drop_last() =~= prefix);
    assert(prefix.push(r).last() == r);
}

/// Run a block's checks and replay without touching the canonical store:
/// steps one to six of the transition. `Ok` returns the receipts and the
/// fully-executed working snapshot, ready to be merged; any failure returns
/// the exact verdict of the transition function.
#[verifier::rlimit(100)]
pub fn validate_block(
    block: &Block,
    head: &BlockHeader,
    head_hash: u64,
    store: &AccountStore,
) -> (r: Result<(Vec<Receipt>, AccountStore), BlockError>)
    requires
        store.wf(),
    ensures
        match r {
            Ok((rs, snap)) => apply_block_spec(block@, head@, head_hash, store@) == Ok::<
                _,
                BlockError,
            >((receipts_view(rs), snap@)) && snap.wf(),
            Err(e) => apply_block_spec(block@, head@, head_hash, store@) == Err::<
                (Seq<ReceiptV>, Seq<(u64, Account)>),
                _,
            >(e),
        },
{
    let ghost bv = block@;
    let ghost s0 = store@;
    if block.header.parent_hash != head_hash {
        return Err(BlockError::BadParent);
    }
    if head.number == u64::MAX || block.header.number != head.number + 1 {
        return Err(BlockError::BadParent);
    }
    if block.header.timestamp < head.timestamp {
        return Err(BlockError::NonMonotonicTimestamp);
    }
    let tx_root = compute_tx_root(&block.transactions);
    if tx_root != block.header.tx_root {
        return Err(BlockError::TxRootMismatch);
    }
    let mut snap = store.snapshot();
    let mut receipts: Vec<Receipt> = Vec::new();
    let mut gas_acc: u64 = 0;
    let limit = block.header.gas_limit;
    let mut i: usize = 0;
    proof {
        assert(bv.transactions.skip(0) =~= bv.transactions);
        assert(receipts_view(receipts) =~= Seq::<ReceiptV>::empty());
    }
    while i < block.transactions.len()
        invariant
            i <= block.transactions.len(),
            bv == block@,
            s0 == store@,
            limit == bv.header.gas_limit,
            bv.header.parent_hash == head_hash,
            head@.number < u64::MAX,
            bv.header.number == head@.number + 1,
            bv.header.timestamp >= head@.timestamp,
            tx_root_of(bv.transactions) == bv.header.tx_root,
            snap.wf(),
            gas_acc == sum_gas(receipts_view(receipts)),
            gas_acc <= limit,
            apply_txs_spec(bv.transactions, s0, 0, 0, limit) == compose_receipts(
                receipts_view(receipts),
                apply_txs_spec(
                    bv.transactions.skip(i as int),
                    snap@,
                    i as int,
                    gas_acc as int,
                    limit,
                ),
            ),
        decreases block.transactions.len() - i,
    {
        proof {
            assert(bv.transactions[i as int] == block.transactions@[i as int]@);
        }
        let tx = &block.transactions[i];
        match validate_transaction(tx, &snap) {
            Err(e) => {
                proof {
                    lemma_replay_fail_validate(
                        bv.transactions,
                        s0,
                        limit,
                        i as int,
                        receipts_view(receipts),
                        snap@,
                        gas_acc,
                        e,
                    );
                }
                return Err(BlockError::InvalidTransaction(i as u64, e));
            },
            Ok(()) => {},
        }
        let ghost snap_before = snap@;
        let ghost gas_before = gas_acc;
        let ghost prefix = receipts_view(receipts);
        let receipt = execute_transaction(tx, &mut snap);
        if receipt.gas_used > limit - gas_acc {
            // gas_acc + receipt.gas_used > limit, without overflow
            proof {
                lemma_replay_fail_gas(
                    bv.transactions,
                    s0,
                    limit,
                    i as int,
                    prefix,
                    snap_before,
                    gas_before,
                );
            }
            return Err(BlockError::BlockGasOverrun);
        }
        gas_acc = gas_acc + receipt.gas_used;
        receipts.push(receipt);
        proof {
            lemma_replay_step(
                bv.transactions,
                s0,
                limit,
                i as int,
                prefix,
                snap_before,
                gas_before,
            );
            assert(receipts_view(receipts) =~= prefix.push(execute_tx_spec(
                bv.transactions[i as int],
                snap_before,
            ).0));
        }
        i = i + 1;
    }
    proof {
        assert(bv.transactions.skip(bv.transactions.len() as int) =~= Seq::<TransactionV>::empty());
        assert(apply_txs_spec(
            bv.transactions.skip(bv.transactions.len() as int),
            snap@,
            bv.transactions.len() as int,
            gas_acc as int,
            limit,
        ) == Ok::<_, BlockError>((Seq::<ReceiptV>::empty(), snap@)));
        assert(receipts_view(receipts) + Seq::<ReceiptV>::empty() =~= receipts_view(receipts));
    }
    if gas_acc != block.header.gas_used {
        return Err(BlockError::GasAccountingMismatch);
    }
    let root = compute_state_root(&snap);
    if root != block.header.state_root {
        return Err(BlockError::StateRootMismatch);
    }
    Ok((receipts, snap))
}

/// The commit point: merge a fully-executed working snapshot into the
/// canonical store in a single step. Nothing between all and none of a
/// block's effects is ever observable.
pub fn update_state(store: &mut AccountStore, snapshot: AccountStore)
    requires
        snapshot.wf(),
    ensures
        final(store).wf(),
        final(store)@ == snapshot@,
{
    *store = snapshot;
}

/// The full state transition: validate a block against the head it claims
/// to extend and, only on full success, commit its effects to the store
/// atomically. On any rejection the store is left exactly as it was, and
/// the verdict is the transition function's, so re-submitting the same
/// block against the same state yields the identical error.
pub fn apply_block(
    block: &Block,
    head: &BlockHeader,
    head_hash: u64,
    store: &mut AccountStore,
) -> (r: Result<Vec<Receipt>, BlockError>)
    requires
        old(store).wf(),
    ensures
        final(store).wf(),
        match r {
            Ok(rs) => apply_block_spec(block@, head@, head_hash, old(store)@) == Ok::<
                _,
                BlockError,
            >((receipts_view(rs), final(store)@)),
            Err(e) => apply_block_spec(block@, head@, head_hash, old(store)@) == Err::<
                (Seq<ReceiptV>, Seq<(u64, Account)>),
                _,
            >(e) && final(store)@ == old(store)@,
        },
{
    match validate_block(block, head, head_hash, store) {
        Ok((receipts, snapshot)) => {
            update_state(store, snapshot);
            Ok(receipts)
        },
        Err(e) => Err(e),
    }
}

} // verus!
