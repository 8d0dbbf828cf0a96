//! Data model: transactions, receipts, accounts, block headers and blocks,
//! together with their ghost views and the error taxonomy.

use vstd::prelude::*;

verus! {

/// One account: replay counter, funds, and the contract hook fields.
/// A `code_hash` of 0 means the address holds no contract code.
#[derive(Clone, Copy, PartialEq, Eq, Structural, Debug)]
pub struct Account {
    pub nonce: u64,
    pub balance: u64,
    pub code_hash: u64,
    pub storage_root: u64,
}

impl Account {
    /// The account an address has before it is ever credited.
    pub fn empty() -> (r: Account)
        ensures
            r == Account::empty_spec(),
    {
        Account { nonce: 0, balance: 0, code_hash: 0, storage_root: 0 }
    }

    pub open spec fn empty_spec() -> Account {
        Account { nonce: 0, balance: 0, code_hash: 0, storage_root: 0 }
    }
}

/// A signed transfer. Immutable once signed: the signature covers every
/// other field, so any change invalidates it.
pub struct Transaction {
    pub from: u64,
    pub to: u64,
    pub nonce: u64,
    pub value: u64,
    pub gas_limit: u64,
    pub gas_price: u64,
    pub data: Vec<u8>,
    pub sig: Vec<u8>,
}

/// Ghost view of a transaction.
pub ghost struct TransactionV {
    pub from: u64,
    pub to: u64,
    pub nonce: u64,
    pub value: u64,
    pub gas_limit: u64,
    pub gas_price: u64,
    pub data: Seq<u8>,
    pub sig: Seq<u8>,
}

impl View for Transaction {
    type V = TransactionV;

    open spec fn view(&self) -> TransactionV {
        TransactionV {
            from: self.from,
            to: self.to,
            nonce: self.nonce,
            value: self.value,
            gas_limit: self.gas_limit,
            gas_price: self.gas_price,
            data: self.data@,
            sig: self.sig@,
        }
    }
}

/// Outcome of executing one transaction, created exactly once per executed
/// transaction, in the position matching the transaction's in the block.
#[derive(Debug)]
pub struct Receipt {
    pub status: bool,
    pub gas_used: u64,
    pub logs: Vec<u64>,
}

/// Ghost view of a receipt.
pub ghost struct ReceiptV {
    pub status: bool,
    pub gas_used: u64,
    pub logs: Seq<u64>,
}

impl View for Receipt {
    type V = ReceiptV;

    open spec fn view(&self) -> ReceiptV {
        ReceiptV { status: self.status, gas_used: self.gas_used, logs: self.logs@ }
    }
}

/// Header of a block: chain linkage, commitments to state and transactions,
/// and the gas accounting the block claims for itself.
pub struct BlockHeader {
    pub parent_hash: u64,
    pub number: u64,
    pub state_root: u64,
    pub tx_root: u64,
    pub timestamp: u64,
    pub beneficiary: u64,
    pub gas_limit: u64,
    pub gas_used: u64,
    pub extra_data: Vec<u8>,
}

/// Ghost view of a header.
pub ghost struct BlockHeaderV {
    pub parent_hash: u64,
    pub number: u64,
    pub state_root: u64,
    pub tx_root: u64,
    pub timestamp: u64,
    pub beneficiary: u64,
    pub gas_limit: u64,
    pub gas_used: u64,
    pub extra_data: Seq<u8>,
}

impl View for BlockHeader {
    type V = BlockHeaderV;

    open spec fn view(&self) -> BlockHeaderV {
        BlockHeaderV {
            parent_hash: self.parent_hash,
            number: self.number,
            state_root: self.state_root,
            tx_root: self.tx_root,
            timestamp: self.timestamp,
            beneficiary: self.beneficiary,
            gas_limit: self.gas_limit,
            gas_used: self.gas_used,
            extra_data: self.extra_data@,
        }
    }
}

/// A block: header, ordered transactions, and the parallel receipt list.
/// A candidate from a producer carries an empty receipt list; receipts are
/// attached only by successful validation.
pub struct Block {
    pub header: BlockHeader,
    pub transactions: Vec<Transaction>,
    pub receipts: Vec<Receipt>,
}

/// Ghost view of a block.
pub ghost struct BlockV {
    pub header: BlockHeaderV,
    pub transactions: Seq<TransactionV>,
    pub receipts: Seq<ReceiptV>,
}

impl View for Block {
    type V = BlockV;

    open spec fn view(&self) -> BlockV {
        BlockV {
            header: self.header@,
            transactions: self.transactions@.map_values(|t: Transaction| t@),
            receipts: self.receipts@.map_values(|r: Receipt| r@),
        }
    }
}

/// An element-for-element copy of a byte vector.
pub fn copy_bytes(v: &Vec<u8>) -> (r: Vec<u8>)
    ensures
        r@ == v@,
{
    let mut out: Vec<u8> = Vec::new();
    let mut i: usize = 0;
    while i < v.len()
        invariant
            i <= v.len(),
            out@ =~= v@.take(i as int),
        decreases v.len() - i,
    {
        out.push(v[i]);
        i = i + 1;
    }
    proof {
        assert(out@ =~= v@);
    }
    out
}

/// An element-for-element copy of a word vector.
pub fn copy_words(v: &Vec<u64>) -> (r: Vec<u64>)
    ensures
        r@ == v@,
{
    let mut out: Vec<u64> = Vec::new();
    let mut i: usize = 0;
    while i < v.len()
        invariant
            i <= v.len(),
            out@ =~= v@.take(i as int),
        decreases v.len() - i,
    {
        out.push(v[i]);
        i = i + 1;
    }
    proof {
        assert(out@ =~= v@);
    }
    out
}

impl Transaction {
    /// A copy with the same view.
    pub fn duplicate(&self) -> (r: Transaction)
        ensures
            r@ == self@,
    {
        Transaction {
            from: self.from,
            to: self.to,
            nonce: self.nonce,
            value: self.value,
            gas_limit: self.gas_limit,
            gas_price: self.gas_price,
            data: copy_bytes(&self.data),
            sig: copy_bytes(&self.sig),
        }
    }
}

impl Receipt {
    /// A copy with the same view.
    pub fn duplicate(&self) -> (r: Receipt)
        ensures
            r@ == self@,
    {
        Receipt { status: self.status, gas_used: self.gas_used, logs: copy_words(&self.logs) }
    }
}

impl BlockHeader {
    /// A copy with the same view.
    pub fn duplicate(&self) -> (r: BlockHeader)
        ensures
            r@ == self@,
    {
        BlockHeader {
            parent_hash: self.parent_hash,
            number: self.number,
            state_root: self.state_root,
            tx_root: self.tx_root,
            timestamp: self.timestamp,
            beneficiary: self.beneficiary,
            gas_limit: self.gas_limit,
            gas_used: self.gas_used,
            extra_data: copy_bytes(&self.extra_data),
        }
    }
}

/// An element-for-element copy of a transaction list.
pub fn copy_transactions(v: &Vec<Transaction>) -> (r: Vec<Transaction>)
    ensures
        r@.map_values(|t: Transaction| t@) == v@.map_values(|t: Transaction| t@),
        r@.len() == v@.len(),
{
    let mut out: Vec<Transaction> = Vec::new();
    let mut i: usize = 0;
    while i < v.len()
        invariant
            i <= v.len(),
            out@.map_values(|t: Transaction| t@) =~= v@.map_values(|t: Transaction| t@).take(
                i as int,
            ),
            out@.len() == i,
        decreases v.len() - i,
    {
        out.push(v[i].duplicate());
        i = i + 1;
    }
    proof {
        assert(out@.map_values(|t: Transaction| t@) =~= v@.map_values(|t: Transaction| t@));
    }
    out
}

impl Block {
    /// A copy with the same view.
    pub fn duplicate(&self) -> (r: Block)
        ensures
            r@ == self@,
    {
        let mut receipts: Vec<Receipt> = Vec::new();
        let mut i: usize = 0;
        while i < self.receipts.len()
            invariant
                i <= self.receipts.len(),
                receipts@.len() == i,
                receipts@.map_values(|x: Receipt| x@) =~= self.receipts@.map_values(
                    |x: Receipt| x@,
                ).take(i as int),
            decreases self.receipts.len() - i,
        {
            receipts.push(self.receipts[i].duplicate());
            i = i + 1;
        }
        proof {
            assert(receipts@.map_values(|x: Receipt| x@) =~= self.receipts@.map_values(
                |x: Receipt| x@,
            ));
        }
        Block {
            header: self.header.duplicate(),
            transactions: copy_transactions(&self.transactions),
            receipts,
        }
    }
}

/// Why a single transaction is rejected.
#[derive(Clone, Copy, PartialEq, Eq, Structural, Debug)]
pub enum ValidationError {
    NonceMismatch,
    InsufficientFunds,
    InvalidSignature,
    GasLimitExceeded,
}

/// Why a whole block is rejected; no state change is observable afterwards.
#[derive(Clone, Copy, PartialEq, Eq, Structural, Debug)]
pub enum BlockError {
    /// Transaction at the given position failed validation.
    InvalidTransaction(u64, ValidationError),
    StateRootMismatch,
    GasAccountingMismatch,
    /// Cumulative receipt gas passed the header's own gas limit mid-block.
    BlockGasOverrun,
    BadParent,
    NonMonotonicTimestamp,
    /// The transaction list does not hash to the header's `tx_root`.
    TxRootMismatch,
}

/// Why the consensus arbiter declines a candidate; the candidate is retained
/// (as an orphan or a fork), never silently destroyed.
#[derive(Clone, Copy, PartialEq, Eq, Structural, Debug)]
pub enum ConsensusError {
    UnknownParent,
    StaleBlock,
    InvalidBlock(BlockError),
}

} // verus!
