//! The crate-level laws: determinism of block application, idempotence of
//! rejection, nonce monotonicity, and conservation of value. Each is stated
//! over the same spec functions the executable contracts use, so together
//! with those contracts the laws hold of the running code.

use vstd::prelude::*;

use crate::engine::{bump_nonce, charged_of, execute_tx_spec, validate_tx_spec};
use crate::store::{
    account_at, distinct_addrs, lemma_lookup_upsert, lemma_sum_upsert, lemma_upsert_distinct,
    sum_balances, upsert_seq,
};
use crate::transition::{apply_block_spec, apply_txs_spec};
use crate::types::{Account, BlockError, BlockHeaderV, BlockV, ReceiptV, TransactionV};

verus! {

/// How many of the listed transactions the given address sends.
pub open spec fn count_from(ts: Seq<TransactionV>, a: u64) -> int
    decreases ts.len(),
{
    if ts.len() == 0 {
        0
    } else {
        (if ts[0].from == a {
            1int
        } else {
            0int
        }) + count_from(ts.drop_first(), a)
    }
}

/// A word-valued sum saturated at the largest word.
pub open spec fn sat_add(n: u64, c: int) -> u64 {
    if n + c > u64::MAX {
        u64::MAX
    } else {
        (n + c) as u64
    }
}

/// Gas payments collected across a replayed transaction list, each judged
/// against the state its predecessors left.
pub open spec fn total_charged(ts: Seq<TransactionV>, s: Seq<(u64, Account)>) -> int
    decreases ts.len(),
{
    if ts.len() == 0 {
        0
    } else {
        charged_of(ts[0], s) + total_charged(ts.drop_first(), execute_tx_spec(ts[0], s).1)
    }
}

/// A count of senders is never negative.
pub proof fn lemma_count_nonneg(ts: Seq<TransactionV>, a: u64)
    ensures
        count_from(ts, a) >= 0,
    decreases ts.len(),
{
    if ts.len() > 0 {
        lemma_count_nonneg(ts.drop_first(), a);
    }
}

/// Executing one transaction advances exactly the sender's nonce, by one
/// (saturated), and no other account's.
pub proof fn lemma_execute_nonce(t: TransactionV, s: Seq<(u64, Account)>, a: u64)
    ensures
        account_at(execute_tx_spec(t, s).1, a).nonce == if a == t.from {
            bump_nonce(account_at(s, a).nonce)
        } else {
            account_at(s, a).nonce
        },
{
    reveal(execute_tx_spec);
    let sender = account_at(s, t.from);
    if crate::engine::can_transfer(t, s) {
        let debited = Account {
            nonce: bump_nonce(sender.nonce),
            balance: (sender.balance - t.value - crate::engine::fee_of(t)) as u64,
            ..sender
        };
        let s1 = upsert_seq(s, t.from, debited);
        let rec = account_at(s1, t.to);
        let credited = Account { balance: (rec.balance + t.value) as u64, ..rec };
        lemma_lookup_upsert(s, t.from, debited, a);
        lemma_lookup_upsert(s1, t.to, credited, a);
        lemma_lookup_upsert(s, t.from, debited, t.to);
    } else {
        let debited = Account {
            nonce: bump_nonce(sender.nonce),
            balance: (sender.balance - charged_of(t, s)) as u64,
            ..sender
        };
        lemma_lookup_upsert(s, t.from, debited, a);
    }
}

/// Executing one transaction moves the total balance down by exactly the
/// gas payment collected, and keeps addresses distinct.
pub proof fn lemma_execute_sum(t: TransactionV, s: Seq<(u64, Account)>)
    requires
        distinct_addrs(s),
    ensures
        distinct_addrs(execute_tx_spec(t, s).1),
        sum_balances(execute_tx_spec(t, s).1) == sum_balances(s) - charged_of(t, s),
{
    reveal(execute_tx_spec);
    let sender = account_at(s, t.from);
    if crate::engine::can_transfer(t, s) {
        let debited = Account {
            nonce: bump_nonce(sender.nonce),
            balance: (sender.balance - t.value - crate::engine::fee_of(t)) as u64,
            ..sender
        };
        let s1 = upsert_seq(s, t.from, debited);
        let rec = account_at(s1, t.to);
        let credited = Account { balance: (rec.balance + t.value) as u64, ..rec };
        lemma_sum_upsert(s, t.from, debited);
        lemma_upsert_distinct(s, t.from, debited);
        lemma_sum_upsert(s1, t.to, credited);
        lemma_upsert_distinct(s1, t.to, credited);
        lemma_lookup_upsert(s, t.from, debited, t.to);
    } else {
        let debited = Account {
            nonce: bump_nonce(sender.nonce),
            balance: (sender.balance - charged_of(t, s)) as u64,
            ..sender
        };
        lemma_sum_upsert(s, t.from, debited);
        lemma_upsert_distinct(s, t.from, debited);
    }
}

/// Nonce monotonicity across a replayed list: on success, every account's
/// nonce ends at its starting nonce plus the number of its transactions in
/// the list (saturated at the largest word). Transactions that fail
/// validation never appear in a successful replay, and a transaction whose
/// execution failed closed still advances its sender's nonce.
pub proof fn lemma_nonce_monotonic(
    ts: Seq<TransactionV>,
    s: Seq<(u64, Account)>,
    idx: int,
    gas: int,
    lim: u64,
    rs: Seq<ReceiptV>,
    s2: Seq<(u64, Account)>,
    a: u64,
)
    requires
        apply_txs_spec(ts, s, idx, gas, lim) == Ok::<_, BlockError>((rs, s2)),
    ensures
        account_at(s2, a).nonce == sat_add(account_at(s, a).nonce, count_from(ts, a)),
    decreases ts.len(),
{
    if ts.len() == 0 {
        assert(s2 == s);
    } else {
        let t0 = ts[0];
        let s1 = execute_tx_spec(t0, s).1;
        let r0 = execute_tx_spec(t0, s).0;
        let inner = apply_txs_spec(ts.drop_first(), s1, idx + 1, gas + r0.gas_used, lim);
        match inner {
            Err(_) => {
                assert(false);
            },
            Ok((rs_i, s_i)) => {
                assert(s2 == s_i);
                lemma_execute_nonce(t0, s, a);
                lemma_nonce_monotonic(
                    ts.drop_first(),
                    s1,
                    idx + 1,
                    gas + r0.gas_used,
                    lim,
                    rs_i,
                    s2,
                    a,
                );
                lemma_count_nonneg(ts.drop_first(), a);
                let n = account_at(s, a).nonce;
                let c_rest = count_from(ts.drop_first(), a);
                if a == t0.from {
                    assert(count_from(ts, a) == 1 + c_rest);
                    if n < u64::MAX {
                        assert(account_at(s1, a).nonce == n + 1);
                        assert(sat_add((n + 1) as u64, c_rest) == sat_add(n, 1 + c_rest));
                    } else {
                        assert(account_at(s1, a).nonce == u64::MAX);
                        assert(sat_add(u64::MAX as u64, c_rest) == u64::MAX);
                        assert(sat_add(n, 1 + c_rest) == u64::MAX);
                    }
                } else {
                    assert(count_from(ts, a) == c_rest);
                }
            },
        }
    }
}

/// Conservation of value across a replayed list: on success, the old total
/// balance equals the new total plus every gas payment collected. No value
/// is created or destroyed by any other path.
pub proof fn lemma_conservation(
    ts: Seq<TransactionV>,
    s: Seq<(u64, Account)>,
    idx: int,
    gas: int,
    lim: u64,
    rs: Seq<ReceiptV>,
    s2: Seq<(u64, Account)>,
)
    requires
        distinct_addrs(s),
        apply_txs_spec(ts, s, idx, gas, lim) == Ok::<_, BlockError>((rs, s2)),
    ensures
        distinct_addrs(s2),
        sum_balances(s2) + total_charged(ts, s) == sum_balances(s),
    decreases ts.len(),
{
    if ts.len() == 0 {
        assert(s2 == s);
    } else {
        let t0 = ts[0];
        let s1 = execute_tx_spec(t0, s).1;
        let r0 = execute_tx_spec(t0, s).0;
        lemma_execute_sum(t0, s);
        let inner = apply_txs_spec(ts.drop_first(), s1, idx + 1, gas + r0.gas_used, lim);
        match inner {
            Err(_) => {
                assert(false);
            },
            Ok((rs_i, s_i)) => {
                assert(s2 == s_i);
                lemma_conservation(ts.drop_first(), s1, idx + 1, gas + r0.gas_used, lim, rs_i, s2);
            },
        }
    }
}

/// Conservation at block granularity: a committed block's state keeps every
/// unit of value except the gas payments its transactions made.
pub proof fn lemma_block_conservation(
    b: BlockV,
    head: BlockHeaderV,
    head_hash: u64,
    s: Seq<(u64, Account)>,
    rs: Seq<ReceiptV>,
    s2: Seq<(u64, Account)>,
)
    requires
        distinct_addrs(s),
        apply_block_spec(b, head, head_hash, s) == Ok::<_, BlockError>((rs, s2)),
    ensures
        sum_balances(s2) + total_charged(b.transactions, s) == sum_balances(s),
{
    match apply_txs_spec(b.transactions, s, 0, 0, b.header.gas_limit) {
        Err(_) => {
            assert(false);
        },
        Ok((rs_i, s_i)) => {
            lemma_conservation(b.transactions, s, 0, 0, b.header.gas_limit, rs_i, s_i);
        },
    }
}

/// Nonce monotonicity at block granularity: after a committed block, every
/// account's nonce equals its nonce before plus the number of transactions
/// it sent in the block (saturated at the largest word).
pub proof fn lemma_block_nonce_monotonic(
    b: BlockV,
    head: BlockHeaderV,
    head_hash: u64,
    s: Seq<(u64, Account)>,
    rs: Seq<ReceiptV>,
    s2: Seq<(u64, Account)>,
    a: u64,
)
    requires
        apply_block_spec(b, head, head_hash, s) == Ok::<_, BlockError>((rs, s2)),
    ensures
        account_at(s2, a).nonce == sat_add(account_at(s, a).nonce, count_from(b.transactions, a)),
{
    match apply_txs_spec(b.transactions, s, 0, 0, b.header.gas_limit) {
        Err(_) => {
            assert(false);
        },
        Ok((rs_i, s_i)) => {
            lemma_nonce_monotonic(b.transactions, s, 0, 0, b.header.gas_limit, rs_i, s_i, a);
        },
    }
}

/// Saturated addition composes.
pub proof fn lemma_sat_add_compose(n: u64, c1: int, c2: int)
    requires
        c1 >= 0,
        c2 >= 0,
    ensures
        sat_add(sat_add(n, c1), c2) == sat_add(n, c1 + c2),
{
}

/// Nonce monotonicity across history: over two consecutively committed
/// blocks, an account's nonce grows by exactly the number of transactions
/// it sent in both, saturated at the largest word — and so on along any
/// committed chain, by repetition.
pub proof fn lemma_nonce_across_blocks(
    b1: BlockV,
    h0: BlockHeaderV,
    hash0: u64,
    s0: Seq<(u64, Account)>,
    r1: Seq<ReceiptV>,
    s1: Seq<(u64, Account)>,
    b2: BlockV,
    h1: BlockHeaderV,
    hash1: u64,
    r2: Seq<ReceiptV>,
    s2: Seq<(u64, Account)>,
    a: u64,
)
    requires
        apply_block_spec(b1, h0, hash0, s0) == Ok::<_, BlockError>((r1, s1)),
        apply_block_spec(b2, h1, hash1, s1) == Ok::<_, BlockError>((r2, s2)),
    ensures
        account_at(s2, a).nonce == sat_add(
            account_at(s0, a).nonce,
            count_from(b1.transactions, a) + count_from(b2.transactions, a),
        ),
{
    lemma_block_nonce_monotonic(b1, h0, hash0, s0, r1, s1, a);
    lemma_block_nonce_monotonic(b2, h1, hash1, s1, r2, s2, a);
    lemma_count_nonneg(b1.transactions, a);
    lemma_count_nonneg(b2.transactions, a);
    lemma_sat_add_compose(
        account_at(s0, a).nonce,
        count_from(b1.transactions, a),
        count_from(b2.transactions, a),
    );
}

/// Determinism: block application is a function of the block, the head it
/// extends, and the state — two runs over equal copies of the state agree
/// bit for bit. The executable `apply_block` is pinned to this function by
/// its contract, so two calls on independent equal stores return equal
/// receipts and leave equal states.
pub proof fn lemma_apply_block_deterministic(
    b: BlockV,
    head: BlockHeaderV,
    head_hash: u64,
    s1: Seq<(u64, Account)>,
    s2: Seq<(u64, Account)>,
)
    requires
        s1 == s2,
    ensures
        apply_block_spec(b, head, head_hash, s1) == apply_block_spec(b, head, head_hash, s2),
{
}

/// Idempotent rejection: a rejected block leaves the store untouched (the
/// executable `apply_block` guarantees it), so submitting the same block
/// again, against the state the rejection left, yields the identical error.
pub proof fn lemma_rejection_idempotent(
    b: BlockV,
    head: BlockHeaderV,
    head_hash: u64,
    s_first: Seq<(u64, Account)>,
    s_second: Seq<(u64, Account)>,
    e: BlockError,
)
    requires
        apply_block_spec(b, head, head_hash, s_first) == Err::<
            (Seq<ReceiptV>, Seq<(u64, Account)>),
            _,
        >(e),
        s_second == s_first,
    ensures
        apply_block_spec(b, head, head_hash, s_second) == Err::<
            (Seq<ReceiptV>, Seq<(u64, Account)>),
            _,
        >(e),
{
}

} // verus!
