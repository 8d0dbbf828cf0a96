//! Per-transaction logic: the stateless-plus-stateful validator and the
//! executor that applies one transaction to a working state and produces
//! its receipt. Both are specified as total functions of the transaction
//! view and the state sequence, and the executable code is proved to
//! realise those functions exactly.

use vstd::prelude::*;

use crate::codec::{check_signature, signature_valid};
use crate::store::{account_at, upsert_seq, AccountStore};
use crate::types::{Account, Receipt, ReceiptV, Transaction, TransactionV, ValidationError};
use crate::{BASE_GAS_COST, DATA_BYTE_GAS_COST, TX_GAS_CEILING};

verus! {

/// Mathematical gas cost of a transaction: the base cost plus a per-byte
/// cost of the payload. Unbounded; `gas_used_of` clips it to a word.
pub open spec fn tx_gas_cost(t: TransactionV) -> int {
    BASE_GAS_COST + t.data.len() * DATA_BYTE_GAS_COST
}

/// Gas a transaction consumes, saturated at the largest word.
pub open spec fn gas_used_of(t: TransactionV) -> u64 {
    if tx_gas_cost(t) > u64::MAX {
        u64::MAX
    } else {
        tx_gas_cost(t) as u64
    }
}

/// The fee the sender owes for consumed gas.
pub open spec fn fee_of(t: TransactionV) -> int {
    gas_used_of(t) * t.gas_price
}

/// What the validator demands the sender be able to cover: the value moved
/// plus the worst-case gas bill the transaction declares.
pub open spec fn upfront_cost(t: TransactionV) -> int {
    t.value + t.gas_limit * t.gas_price
}

/// The validator's verdict, checks in order: signature, nonce, funds, gas
/// limit. Pure function of the transaction and the state it is judged
/// against. Opaque: block-level proofs treat the verdict as a black box.
#[verifier::opaque]
pub open spec fn validate_tx_spec(t: TransactionV, s: Seq<(u64, Account)>) -> Result<
    (),
    ValidationError,
> {
    let sender = account_at(s, t.from);
    if !signature_valid(t) {
        Err(ValidationError::InvalidSignature)
    } else if t.nonce != sender.nonce {
        Err(ValidationError::NonceMismatch)
    } else if (sender.balance as int) < upfront_cost(t) {
        Err(ValidationError::InsufficientFunds)
    } else if !(t.gas_limit > 0 && t.gas_limit <= TX_GAS_CEILING) {
        Err(ValidationError::GasLimitExceeded)
    } else {
        Ok(())
    }
}

/// Nonce increment; saturates at the largest word so that execution is
/// total (a sender can never reach that count in practice).
pub open spec fn bump_nonce(n: u64) -> u64 {
    if n < u64::MAX {
        (n + 1) as u64
    } else {
        n
    }
}

/// Whether the transfer itself can go through: the sender covers value plus
/// the actual fee, and crediting the recipient cannot overflow.
pub open spec fn can_transfer(t: TransactionV, s: Seq<(u64, Account)>) -> bool {
    let sender = account_at(s, t.from);
    t.value + fee_of(t) <= sender.balance && (t.to == t.from || account_at(s, t.to).balance
        + t.value <= u64::MAX)
}

/// Gas payment actually collected from the sender: the full fee on a
/// successful transfer, and on a failed one as much of the fee as the
/// sender's balance covers. Failed execution still consumes gas.
pub open spec fn charged_of(t: TransactionV, s: Seq<(u64, Account)>) -> int {
    let sender = account_at(s, t.from);
    if can_transfer(t, s) {
        fee_of(t)
    } else if fee_of(t) <= sender.balance {
        fee_of(t)
    } else {
        sender.balance as int
    }
}

/// Effect of executing one transaction against a state: the receipt and the
/// new state. Total: when the transfer cannot go through, execution fails
/// closed — gas is still charged and the sender's nonce still advances, but
/// no value moves. Opaque: block-level proofs treat the effect as a black
/// box.
#[verifier::opaque]
pub open spec fn execute_tx_spec(t: TransactionV, s: Seq<(u64, Account)>) -> (
    ReceiptV,
    Seq<(u64, Account)>,
) {
    let g = gas_used_of(t);
    let sender = account_at(s, t.from);
    if can_transfer(t, s) {
        let s1 = upsert_seq(
            s,
            t.from,
            Account {
                nonce: bump_nonce(sender.nonce),
                balance: (sender.balance - t.value - fee_of(t)) as u64,
                ..sender
            },
        );
        let rec = account_at(s1, t.to);
        let s2 = upsert_seq(
            s1,
            t.to,
            Account { balance: (rec.balance + t.value) as u64, ..rec },
        );
        (ReceiptV { status: true, gas_used: g, logs: Seq::empty() }, s2)
    } else {
        let s1 = upsert_seq(
            s,
            t.from,
            Account {
                nonce: bump_nonce(sender.nonce),
                balance: (sender.balance - charged_of(t, s)) as u64,
                ..sender
            },
        );
        (ReceiptV { status: false, gas_used: g, logs: Seq::empty() }, s1)
    }
}

/// Gas a transaction consumes, executable.
pub fn compute_gas_used(tx: &Transaction) -> (g: u64)
    ensures
        g == gas_used_of(tx@),
{
    let len128: u128 = tx.data.len() as u128;
    proof {
        assert(len128 * (DATA_BYTE_GAS_COST as u128) <= (u64::MAX as u128) * (DATA_BYTE_GAS_COST
            as u128)) by (nonlinear_arith)
            requires
                len128 <= u64::MAX as u128,
        ;
    }
    let raw: u128 = (BASE_GAS_COST as u128) + len128 * (DATA_BYTE_GAS_COST as u128);
    if raw > u64::MAX as u128 {
        u64::MAX
    } else {
        raw as u64
    }
}

/// Validate one transaction against a snapshot of account state: signature
/// over the canonical encoding, exact nonce match, funds covering value
/// plus declared gas, and a positive gas limit within the ceiling. Checks
/// run in that order and stop at the first violation. No side effects.
pub fn validate_transaction(tx: &Transaction, store: &AccountStore) -> (r: Result<
    (),
    ValidationError,
>)
    ensures
        r == validate_tx_spec(tx@, store@),
{
    proof {
        reveal(validate_tx_spec);
    }
    let sender = store.account(tx.from);
    if !check_signature(tx) {
        return Err(ValidationError::InvalidSignature);
    }
    if tx.nonce != sender.nonce {
        return Err(ValidationError::NonceMismatch);
    }
    proof {
        lemma_u64_mul_bound(tx.gas_limit, tx.gas_price);
    }
    let declared: u128 = (tx.value as u128) + (tx.gas_limit as u128) * (tx.gas_price as u128);
    if (sender.balance as u128) < declared {
        return Err(ValidationError::InsufficientFunds);
    }
    if !(tx.gas_limit > 0 && tx.gas_limit <= TX_GAS_CEILING) {
        return Err(ValidationError::GasLimitExceeded);
    }
    Ok(())
}

/// The product of two words fits in a double word.
proof fn lemma_u64_mul_bound(a: u64, b: u64)
    ensures
        a * b <= u64::MAX * u64::MAX,
        a * b >= 0,
{
    assert(a * b <= u64::MAX * u64::MAX && a * b >= 0) by (nonlinear_arith)
        requires
            a <= u64::MAX,
            b <= u64::MAX,
    ;
}

/// Execute one transaction against the working state, in place, and produce
/// its receipt: debit the sender by value plus the gas fee, credit the
/// recipient, advance the sender's nonce. When the sender cannot cover the
/// total or the credit would overflow, execution fails closed: the receipt
/// reports failure, gas is still charged as far as the balance reaches, and
/// the nonce still advances. Deterministic in `(tx, state)`.
pub fn execute_transaction(tx: &Transaction, store: &mut AccountStore) -> (r: Receipt)
    requires
        old(store).wf(),
    ensures
        final(store).wf(),
        r@ == execute_tx_spec(tx@, old(store)@).0,
        final(store)@ == execute_tx_spec(tx@, old(store)@).1,
{
    proof {
        reveal(execute_tx_spec);
    }
    let ghost s0 = store@;
    let g = compute_gas_used(tx);
    let sender = store.account(tx.from);
    proof {
        lemma_u64_mul_bound(g, tx.gas_price);
    }
    let fee: u128 = (g as u128) * (tx.gas_price as u128);
    let total: u128 = (tx.value as u128) + fee;
    let new_nonce = if sender.nonce < u64::MAX {
        sender.nonce + 1
    } else {
        sender.nonce
    };
    let recipient_before = store.account(tx.to);
    let transferable = total <= sender.balance as u128 && (tx.to == tx.from
        || recipient_before.balance as u128 + tx.value as u128 <= u64::MAX as u128);
    if transferable {
        let debited = Account {
            nonce: new_nonce,
            balance: sender.balance - (total as u64),
            ..sender
        };
        store.set(tx.from, debited);
        proof {
            crate::store::lemma_lookup_upsert(s0, tx@.from, debited, tx@.to);
        }
        let rec = store.account(tx.to);
        let credited = Account { balance: rec.balance + tx.value, ..rec };
        store.set(tx.to, credited);
        let mut r = Receipt { status: true, gas_used: g, logs: Vec::new() };
        proof {
            assert(r@.logs =~= Seq::<u64>::empty());
        }
        r
    } else {
        let paid: u64 = if fee <= sender.balance as u128 {
            fee as u64
        } else {
            sender.balance
        };
        let debited = Account { nonce: new_nonce, balance: sender.balance - paid, ..sender };
        store.set(tx.from, debited);
        let r = Receipt { status: false, gas_used: g, logs: Vec::new() };
        proof {
            assert(r@.logs =~= Seq::<u64>::empty());
        }
        r
    }
}

} // verus!
