//! Canonical byte encoding of transactions, the signature scheme over that
//! encoding, and the rolling-digest commitments: the transaction root, the
//! state root, and the header hash that names a block in the chain index.
//!
//! The digest is a 64-bit multiply-accumulate chain. Nothing cryptographic
//! is claimed of it; the crate needs only that it is a deterministic
//! function of the committed contents.

use vstd::prelude::*;

use crate::store::AccountStore;
use crate::types::{Account, BlockHeader, BlockHeaderV, Transaction, TransactionV};

verus! {

/// Multiplier of the digest chain.
pub const DIGEST_FACTOR: u64 = 1_099_511_628_211;

/// Seed of every digest chain.
pub const DIGEST_SEED: u64 = 14_695_981_039_346_656_037;

/// One digest step: absorb one 64-bit word.
pub open spec fn mix(h: u64, x: u64) -> u64 {
    h.wrapping_mul(DIGEST_FACTOR).wrapping_add(x)
}

/// Absorb a byte sequence, first byte first.
pub open spec fn mix_bytes(h: u64, bs: Seq<u8>) -> u64
    decreases bs.len(),
{
    if bs.len() == 0 {
        h
    } else {
        mix(mix_bytes(h, bs.drop_last()), bs.last() as u64)
    }
}

/// The little-endian bytes of a 64-bit word.
pub open spec fn le_bytes(x: u64) -> Seq<u8> {
    seq![
        (x & 0xff) as u8,
        ((x >> 8) & 0xff) as u8,
        ((x >> 16) & 0xff) as u8,
        ((x >> 24) & 0xff) as u8,
        ((x >> 32) & 0xff) as u8,
        ((x >> 40) & 0xff) as u8,
        ((x >> 48) & 0xff) as u8,
        ((x >> 56) & 0xff) as u8,
    ]
}

/// Canonical encoding of a transaction's signed fields: every field except
/// the signature itself, fixed-width fields first, payload last. Opaque:
/// revealed only where the bytes themselves are built.
#[verifier::opaque]
pub open spec fn canonical_encoding(t: TransactionV) -> Seq<u8> {
    le_bytes(t.from) + le_bytes(t.to) + le_bytes(t.nonce) + le_bytes(t.value) + le_bytes(
        t.gas_limit,
    ) + le_bytes(t.gas_price) + t.data
}

/// A signature is valid exactly when it equals the canonical encoding of
/// the other fields; changing any signed field invalidates it. Opaque: the
/// block-level proofs treat validity as a black box.
#[verifier::opaque]
pub open spec fn signature_valid(t: TransactionV) -> bool {
    t.sig == canonical_encoding(t)
}

/// Digest of one transaction, as committed by the transaction root.
/// Opaque: block-level proofs treat it as a black box.
#[verifier::opaque]
pub open spec fn tx_digest(t: TransactionV) -> u64 {
    mix_bytes(mix_bytes(DIGEST_SEED, canonical_encoding(t)), t.sig)
}

/// Commitment to an ordered transaction list.
pub open spec fn tx_root_of(txs: Seq<TransactionV>) -> u64
    decreases txs.len(),
{
    if txs.len() == 0 {
        DIGEST_SEED
    } else {
        mix(tx_root_of(txs.drop_last()), tx_digest(txs.last()))
    }
}

/// Digest of one account-store entry.
pub open spec fn entry_digest(e: (u64, Account)) -> u64 {
    mix(mix(mix(mix(mix(DIGEST_SEED, e.0), e.1.nonce), e.1.balance), e.1.code_hash), e.1.storage_root)
}

/// Commitment to the full account state, entry order included.
pub open spec fn state_root_of(s: Seq<(u64, Account)>) -> u64
    decreases s.len(),
{
    if s.len() == 0 {
        DIGEST_SEED
    } else {
        mix(state_root_of(s.drop_last()), entry_digest(s.last()))
    }
}

/// Hash of a block header: the name a block goes by in the chain index.
pub open spec fn header_hash_of(h: BlockHeaderV) -> u64 {
    mix_bytes(
        mix(
            mix(
                mix(
                    mix(
                        mix(mix(mix(mix(DIGEST_SEED, h.parent_hash), h.number), h.state_root), h.tx_root),
                        h.timestamp,
                    ),
                    h.beneficiary,
                ),
                h.gas_limit,
            ),
            h.gas_used,
        ),
        h.extra_data,
    )
}

/// One digest step, executable.
pub fn mix_word(h: u64, x: u64) -> (r: u64)
    ensures
        r == mix(h, x),
{
    h.wrapping_mul(DIGEST_FACTOR).wrapping_add(x)
}

/// Absorb a byte slice into a digest.
pub fn mix_byte_vec(h0: u64, bs: &Vec<u8>) -> (r: u64)
    ensures
        r == mix_bytes(h0, bs@),
{
    let mut h = h0;
    let mut i: usize = 0;
    while i < bs.len()
        invariant
            i <= bs.len(),
            h == mix_bytes(h0, bs@.take(i as int)),
        decreases bs.len() - i,
    {
        proof {
            assert(bs@.take(i + 1).drop_last() =~= bs@.take(i as int));
            assert(bs@.take(i + 1).last() == bs@[i as int]);
        }
        h = mix_word(h, bs[i] as u64);
        i = i + 1;
    }
    proof {
        assert(bs@.take(bs@.len() as int) =~= bs@);
    }
    h
}

/// Extend a byte vector with the little-endian bytes of a word.
pub fn push_le_bytes(v: &mut Vec<u8>, x: u64)
    ensures
        final(v)@ == old(v)@ + le_bytes(x),
{
    proof {
        lemma_byte_masks(x);
    }
    v.push((x & 0xff) as u8);
    v.push(((x >> 8) & 0xff) as u8);
    v.push(((x >> 16) & 0xff) as u8);
    v.push(((x >> 24) & 0xff) as u8);
    v.push(((x >> 32) & 0xff) as u8);
    v.push(((x >> 40) & 0xff) as u8);
    v.push(((x >> 48) & 0xff) as u8);
    v.push(((x >> 56) & 0xff) as u8);
    proof {
        assert(v@ =~= old(v)@ + le_bytes(x));
    }
}

/// Every masked byte of a word fits in eight bits.
proof fn lemma_byte_masks(x: u64)
    ensures
        x & 0xff <= 0xff,
        (x >> 8) & 0xff <= 0xff,
        (x >> 16) & 0xff <= 0xff,
        (x >> 24) & 0xff <= 0xff,
        (x >> 32) & 0xff <= 0xff,
        (x >> 40) & 0xff <= 0xff,
        (x >> 48) & 0xff <= 0xff,
        (x >> 56) & 0xff <= 0xff,
{
    assert(x & 0xff <= 0xff && (x >> 8) & 0xff <= 0xff && (x >> 16) & 0xff <= 0xff && (x >> 24)
        & 0xff <= 0xff && (x >> 32) & 0xff <= 0xff && (x >> 40) & 0xff <= 0xff && (x >> 48) & 0xff
        <= 0xff && (x >> 56) & 0xff <= 0xff) by (bit_vector);
}

/// Build the canonical encoding of a transaction's signed fields. Signing a
/// transaction means attaching exactly these bytes as its signature.
pub fn encode_transaction(tx: &Transaction) -> (r: Vec<u8>)
    ensures
        r@ == canonical_encoding(tx@),
{
    proof {
        reveal(canonical_encoding);
    }
    let mut v: Vec<u8> = Vec::new();
    push_le_bytes(&mut v, tx.from);
    push_le_bytes(&mut v, tx.to);
    push_le_bytes(&mut v, tx.nonce);
    push_le_bytes(&mut v, tx.value);
    push_le_bytes(&mut v, tx.gas_limit);
    push_le_bytes(&mut v, tx.gas_price);
    let mut i: usize = 0;
    let ghost prefix = v@;
    while i < tx.data.len()
        invariant
            i <= tx.data.len(),
            v@ =~= prefix + tx.data@.take(i as int),
        decreases tx.data.len() - i,
    {
        v.push(tx.data[i]);
        i = i + 1;
    }
    proof {
        assert(v@ =~= canonical_encoding(tx@));
    }
    v
}

/// Byte-for-byte equality of two byte vectors.
pub fn bytes_eq(a: &Vec<u8>, b: &Vec<u8>) -> (r: bool)
    ensures
        r == (a@ == b@),
{
    if a.len() != b.len() {
        proof {
            assert(a@.len() != b@.len());
        }
        return false;
    }
    let mut i: usize = 0;
    while i < a.len()
        invariant
            i <= a.len(),
            a@.len() == b@.len(),
            forall|j: int| 0 <= j < i ==> a@[j] == b@[j],
        decreases a.len() - i,
    {
        if a[i] != b[i] {
            return false;
        }
        i = i + 1;
    }
    proof {
        assert(a@ =~= b@);
    }
    true
}

/// Sign a transaction in place: attach the canonical encoding of its other
/// fields as its signature, leaving every other field untouched.
pub fn sign_transaction(tx: &mut Transaction)
    ensures
        signature_valid(final(tx)@),
        final(tx)@.from == old(tx)@.from,
        final(tx)@.to == old(tx)@.to,
        final(tx)@.nonce == old(tx)@.nonce,
        final(tx)@.value == old(tx)@.value,
        final(tx)@.gas_limit == old(tx)@.gas_limit,
        final(tx)@.gas_price == old(tx)@.gas_price,
        final(tx)@.data == old(tx)@.data,
{
    let enc = encode_transaction(tx);
    tx.sig = enc;
    proof {
        reveal(signature_valid);
        reveal(canonical_encoding);
        assert(canonical_encoding(tx@) =~= canonical_encoding(old(tx)@));
    }
}

/// Check a transaction's signature against the canonical encoding of its
/// other fields.
pub fn check_signature(tx: &Transaction) -> (r: bool)
    ensures
        r == signature_valid(tx@),
{
    proof {
        reveal(signature_valid);
    }
    let enc = encode_transaction(tx);
    bytes_eq(&tx.sig, &enc)
}

/// Digest of one transaction, executable.
pub fn transaction_digest(tx: &Transaction) -> (r: u64)
    ensures
        r == tx_digest(tx@),
{
    proof {
        reveal(tx_digest);
    }
    let enc = encode_transaction(tx);
    let h = mix_byte_vec(DIGEST_SEED, &enc);
    mix_byte_vec(h, &tx.sig)
}

/// Commitment to an ordered transaction list, executable.
pub fn compute_tx_root(txs: &Vec<Transaction>) -> (r: u64)
    ensures
        r == tx_root_of(txs@.map_values(|t: Transaction| t@)),
{
    let ghost view = txs@.map_values(|t: Transaction| t@);
    let mut h = DIGEST_SEED;
    let mut i: usize = 0;
    while i < txs.len()
        invariant
            i <= txs.len(),
            view == txs@.map_values(|t: Transaction| t@),
            h == tx_root_of(view.take(i as int)),
        decreases txs.len() - i,
    {
        proof {
            assert(view.take(i + 1).drop_last() =~= view.take(i as int));
            assert(view.take(i + 1).last() == view[i as int]);
        }
        let d = transaction_digest(&txs[i]);
        h = mix_word(h, d);
        i = i + 1;
    }
    proof {
        assert(view.take(view.len() as int) =~= view);
    }
    h
}

/// Commitment to the whole account state, executable.
pub fn compute_state_root(store: &AccountStore) -> (r: u64)
    ensures
        r == state_root_of(store@),
{
    let mut h = DIGEST_SEED;
    let mut i: usize = 0;
    while i < store.entries.len()
        invariant
            i <= store.entries.len(),
            h == state_root_of(store@.take(i as int)),
        decreases store.entries.len() - i,
    {
        proof {
            assert(store@.take(i + 1).drop_last() =~= store@.take(i as int));
            assert(store@.take(i + 1).last() == store@[i as int]);
        }
        let e = store.entries[i];
        let d = mix_word(
            mix_word(
                mix_word(mix_word(mix_word(DIGEST_SEED, e.0), e.1.nonce), e.1.balance),
                e.1.code_hash,
            ),
            e.1.storage_root,
        );
        h = mix_word(h, d);
        i = i + 1;
    }
    proof {
        assert(store@.take(store@.len() as int) =~= store@);
    }
    h
}

/// Hash of a block header, executable.
pub fn header_hash(h: &BlockHeader) -> (r: u64)
    ensures
        r == header_hash_of(h@),
{
    let w = mix_word(
        mix_word(
            mix_word(
                mix_word(
                    mix_word(
                        mix_word(
                            mix_word(mix_word(DIGEST_SEED, h.parent_hash), h.number),
                            h.state_root,
                        ),
                        h.tx_root,
                    ),
                    h.timestamp,
                ),
                h.beneficiary,
            ),
            h.gas_limit,
        ),
        h.gas_used,
    );
    mix_byte_vec(w, &h.extra_data)
}

} // verus!
