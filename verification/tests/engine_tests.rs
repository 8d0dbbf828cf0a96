//! Transaction-level behaviour: signing, validation verdicts, execution
//! effects, and gas accounting.

use chaincore::codec::{check_signature, encode_transaction, sign_transaction, transaction_digest};
use chaincore::engine::{compute_gas_used, execute_transaction, validate_transaction};
use chaincore::store::AccountStore;
use chaincore::types::{Account, Transaction, ValidationError};

const ALICE: u64 = 1;
const BOB: u64 = 2;

fn signed_tx(from: u64, to: u64, nonce: u64, value: u64, gas_limit: u64, gas_price: u64, data: Vec<u8>) -> Transaction {
    let mut tx = Transaction {
        from,
        to,
        nonce,
        value,
        gas_limit,
        gas_price,
        data,
        sig: Vec::new(),
    };
    sign_transaction(&mut tx);
    tx
}

fn store_with(entries: Vec<(u64, Account)>) -> AccountStore {
    let mut store = AccountStore::new();
    for (addr, acct) in entries {
        store.set(addr, acct);
    }
    store
}

fn account(nonce: u64, balance: u64) -> Account {
    Account { nonce, balance, code_hash: 0, storage_root: 0 }
}

#[test]
fn signature_roundtrip() {
    let tx = signed_tx(ALICE, BOB, 0, 30, 10, 1, vec![1, 2, 3]);
    assert!(check_signature(&tx));
}

#[test]
fn tampered_signature_rejected() {
    let mut tx = signed_tx(ALICE, BOB, 0, 30, 10, 1, vec![]);
    tx.value = 31;
    let store = store_with(vec![(ALICE, account(0, 100))]);
    assert_eq!(
        validate_transaction(&tx, &store),
        Err(ValidationError::InvalidSignature)
    );
}

#[test]
fn encoding_starts_with_sender_word() {
    let tx = signed_tx(ALICE, BOB, 0, 30, 10, 1, vec![]);
    let enc = encode_transaction(&tx);
    assert_eq!(enc.len(), 48);
    assert_eq!(enc[0], 1);
    assert_eq!(enc[8], 2);
    assert_eq!(tx.sig, enc);
}

#[test]
fn base_gas_charged_on_empty_payload() {
    let tx = signed_tx(ALICE, BOB, 0, 30, 10, 1, vec![]);
    assert_eq!(compute_gas_used(&tx), 11);
}

#[test]
fn payload_bytes_charged() {
    let tx = signed_tx(ALICE, BOB, 0, 30, 10, 1, vec![7, 7, 7]);
    assert_eq!(compute_gas_used(&tx), 11 + 2 * 3);
}

#[test]
fn valid_transfer_executes() {
    // A correctly signed transfer of 30 at gas price 1 consumes the base
    // gas of 11: the sender ends at 100 - 30 - 11 = 59.
    let mut store = store_with(vec![(ALICE, account(0, 100))]);
    let tx = signed_tx(ALICE, BOB, 0, 30, 10, 1, vec![]);
    assert_eq!(validate_transaction(&tx, &store), Ok(()));
    let receipt = execute_transaction(&tx, &mut store);
    assert!(receipt.status);
    assert_eq!(receipt.gas_used, 11);
    assert_eq!(store.account(ALICE).balance, 59);
    assert_eq!(store.account(ALICE).nonce, 1);
    assert_eq!(store.account(BOB).balance, 30);
    assert_eq!(store.account(BOB).nonce, 0);
}

#[test]
fn nonce_mismatch_detected() {
    let store = store_with(vec![(ALICE, account(0, 100))]);
    let tx = signed_tx(ALICE, BOB, 5, 30, 10, 1, vec![]);
    assert_eq!(
        validate_transaction(&tx, &store),
        Err(ValidationError::NonceMismatch)
    );
}

#[test]
fn insufficient_funds_detected() {
    let store = store_with(vec![(ALICE, account(0, 39))]);
    // value 30 plus declared gas 10 * 1 = 40 exceeds the balance of 39.
    let tx = signed_tx(ALICE, BOB, 0, 30, 10, 1, vec![]);
    assert_eq!(
        validate_transaction(&tx, &store),
        Err(ValidationError::InsufficientFunds)
    );
}

#[test]
fn zero_gas_limit_rejected() {
    let store = store_with(vec![(ALICE, account(0, 100))]);
    let tx = signed_tx(ALICE, BOB, 0, 30, 0, 1, vec![]);
    assert_eq!(
        validate_transaction(&tx, &store),
        Err(ValidationError::GasLimitExceeded)
    );
}

#[test]
fn gas_ceiling_enforced() {
    let store = store_with(vec![(ALICE, account(0, u64::MAX))]);
    let tx = signed_tx(ALICE, BOB, 0, 0, 1_000_001, 0, vec![]);
    assert_eq!(
        validate_transaction(&tx, &store),
        Err(ValidationError::GasLimitExceeded)
    );
}

#[test]
fn unknown_sender_reads_as_empty_account() {
    let store = store_with(vec![]);
    let tx = signed_tx(ALICE, BOB, 0, 1, 10, 1, vec![]);
    assert_eq!(
        validate_transaction(&tx, &store),
        Err(ValidationError::InsufficientFunds)
    );
}

#[test]
fn failed_execution_still_charges_gas_and_nonce() {
    // The validator approves against the declared gas bill of 10, but the
    // actual fee is the base gas of 11, so execution fails closed: gas is
    // charged, the nonce advances, and no value moves.
    let mut store = store_with(vec![(ALICE, account(0, 40))]);
    let tx = signed_tx(ALICE, BOB, 0, 30, 10, 1, vec![]);
    assert_eq!(validate_transaction(&tx, &store), Ok(()));
    let receipt = execute_transaction(&tx, &mut store);
    assert!(!receipt.status);
    assert_eq!(receipt.gas_used, 11);
    assert_eq!(store.account(ALICE).balance, 29);
    assert_eq!(store.account(ALICE).nonce, 1);
    assert_eq!(store.account(BOB).balance, 0);
}

#[test]
fn self_transfer_pays_only_gas() {
    let mut store = store_with(vec![(ALICE, account(0, 100))]);
    let tx = signed_tx(ALICE, ALICE, 0, 30, 20, 1, vec![]);
    let receipt = execute_transaction(&tx, &mut store);
    assert!(receipt.status);
    assert_eq!(store.account(ALICE).balance, 89);
    assert_eq!(store.account(ALICE).nonce, 1);
}

#[test]
fn execution_is_deterministic() {
    let tx = signed_tx(ALICE, BOB, 0, 30, 10, 1, vec![9, 9]);
    let mut s1 = store_with(vec![(ALICE, account(0, 100))]);
    let mut s2 = store_with(vec![(ALICE, account(0, 100))]);
    let r1 = execute_transaction(&tx, &mut s1);
    let r2 = execute_transaction(&tx, &mut s2);
    assert_eq!(r1.status, r2.status);
    assert_eq!(r1.gas_used, r2.gas_used);
    assert_eq!(s1.account(ALICE), s2.account(ALICE));
    assert_eq!(s1.account(BOB), s2.account(BOB));
}

#[test]
fn deploy_contract_preserves_funds() {
    let mut store = store_with(vec![(ALICE, account(3, 77))]);
    store.deploy_smart_contract(ALICE, 0xc0de, 0xbeef);
    let a = store.account(ALICE);
    assert_eq!(a.code_hash, 0xc0de);
    assert_eq!(a.storage_root, 0xbeef);
    assert_eq!(a.balance, 77);
    assert_eq!(a.nonce, 3);
}

#[test]
fn recipient_credit_overflow_fails_closed() {
    // Crediting the recipient would overflow its balance, so execution
    // fails closed: gas only is charged and the nonce still advances.
    let mut store = store_with(vec![
        (ALICE, account(0, 100)),
        (BOB, account(0, u64::MAX)),
    ]);
    let tx = signed_tx(ALICE, BOB, 0, 30, 50, 1, vec![]);
    assert_eq!(validate_transaction(&tx, &store), Ok(()));
    let receipt = execute_transaction(&tx, &mut store);
    assert!(!receipt.status);
    assert_eq!(store.account(ALICE).balance, 100 - 11);
    assert_eq!(store.account(ALICE).nonce, 1);
    assert_eq!(store.account(BOB).balance, u64::MAX);
}

#[test]
fn gas_charge_capped_by_balance() {
    // A failed execution collects the fee only as far as the balance
    // reaches: fee is 3 * 11 = 33 but only 32 is there.
    let mut store = store_with(vec![(ALICE, account(0, 32))]);
    let tx = signed_tx(ALICE, BOB, 0, 30, 1, 3, vec![]);
    let receipt = execute_transaction(&tx, &mut store);
    assert!(!receipt.status);
    assert_eq!(store.account(ALICE).balance, 0);
    assert_eq!(store.account(ALICE).nonce, 1);
}

#[test]
fn nonce_saturates_at_largest_word() {
    let mut store = store_with(vec![(ALICE, account(u64::MAX, 100))]);
    let tx = signed_tx(ALICE, BOB, u64::MAX, 10, 20, 1, vec![]);
    assert_eq!(validate_transaction(&tx, &store), Ok(()));
    let receipt = execute_transaction(&tx, &mut store);
    assert!(receipt.status);
    assert_eq!(store.account(ALICE).nonce, u64::MAX);
    assert_eq!(store.account(BOB).balance, 10);
}

#[test]
fn digests_are_deterministic() {
    let t1 = signed_tx(ALICE, BOB, 0, 30, 10, 1, vec![1, 2]);
    let t2 = signed_tx(ALICE, BOB, 0, 30, 10, 1, vec![1, 2]);
    let t3 = signed_tx(ALICE, BOB, 0, 30, 10, 1, vec![1, 3]);
    assert_eq!(transaction_digest(&t1), transaction_digest(&t2));
    assert_ne!(transaction_digest(&t1), transaction_digest(&t3));
}

#[test]
fn store_get_and_set() {
    let mut store = AccountStore::new();
    assert_eq!(store.get(ALICE), None);
    store.set(ALICE, account(0, 5));
    store.set(BOB, account(0, 6));
    store.set(ALICE, account(1, 7));
    assert_eq!(store.get(ALICE), Some(account(1, 7)));
    assert_eq!(store.get(BOB), Some(account(0, 6)));
    assert_eq!(store.account(99), account(0, 0));
}
