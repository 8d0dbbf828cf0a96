//! The chain index and the consensus arbiter: every validated block is
//! kept, keyed by its header hash and paired with the state it commits
//! to; a head pointer names the canonical tip. Commits are serialized and
//! forks resolved deterministically — highest block number wins, ties go to
//! the lowest header hash — so a losing candidate is retained as a fork and
//! can still be promoted by a longer valid extension.

use vstd::prelude::*;

use crate::codec::{header_hash, header_hash_of, state_root_of};
use crate::store::{account_at, AccountStore};
use crate::transition::{apply_block_spec, receipts_view, validate_block};
use crate::types::{Account, Block, BlockHeader, BlockHeaderV, BlockV, ConsensusError};

verus! {

/// One indexed block: its header hash, the block itself (receipts
/// populated), and the account state it commits to.
pub struct ChainEntry {
    pub hash: u64,
    pub block: Block,
    pub state: AccountStore,
}

/// A node's chain state: the block index, the canonical head, and the
/// orphans whose parents have not been seen yet.
pub struct Node {
    pub entries: Vec<ChainEntry>,
    pub head: usize,
    pub orphans: Vec<Block>,
}

/// The deterministic fork-choice rule: a candidate displaces the head when
/// it sits higher, or at equal height when its hash is lower.
pub open spec fn prefers(number: u64, hash: u64, head_number: u64, head_hash: u64) -> bool {
    number > head_number || (number == head_number && hash < head_hash)
}

/// A fork extended beyond the canonical head's height is always promoted:
/// the fork-choice rule prefers greater height regardless of hashes.
pub proof fn lemma_extension_promotes(number: u64, hash: u64, head_number: u64, head_hash: u64)
    requires
        number > head_number,
    ensures
        prefers(number, hash, head_number, head_hash),
{
}

/// Position of the first entry carrying the given hash.
pub open spec fn first_hash_index(s: Seq<ChainEntry>, hash: u64) -> Option<int>
    decreases s.len(),
{
    if s.len() == 0 {
        None
    } else if s[0].hash == hash {
        Some(0int)
    } else {
        match first_hash_index(s.drop_first(), hash) {
            Some(j) => Some(1 + j),
            None => None,
        }
    }
}

/// Walk the parent links back from the entry at `idx` until a block of the
/// given height is met; `fuel` bounds the walk, and a missing parent or
/// exhausted fuel ends it empty-handed.
pub open spec fn walk_back(s: Seq<ChainEntry>, idx: int, number: u64, fuel: nat) -> Option<int>
    decreases fuel,
{
    if !(0 <= idx < s.len()) {
        None
    } else if s[idx].block@.header.number == number {
        Some(idx)
    } else if fuel == 0 {
        None
    } else {
        match first_hash_index(s, s[idx].block@.header.parent_hash) {
            None => None,
            Some(p) => walk_back(s, p, number, (fuel - 1) as nat),
        }
    }
}

impl Node {
    /// Well-formedness: a genesis entry exists, the head points into the
    /// index, and every indexed entry is coherent — its state is well
    /// formed, its hash is its header's hash, and its state realises the
    /// state root its header claims.
    pub open spec fn wf(&self) -> bool {
        &&& self.entries@.len() >= 1
        &&& (self.head as int) < self.entries@.len()
        &&& forall|i: int| 0 <= i < self.entries@.len() ==> (#[trigger] self.entries@[i]).state.wf()
        &&& forall|i: int|
            0 <= i < self.entries@.len() ==> (#[trigger] self.entries@[i]).hash == header_hash_of(
                self.entries@[i].block@.header,
            )
        &&& forall|i: int|
            0 <= i < self.entries@.len() ==> state_root_of(
                (#[trigger] self.entries@[i]).state@,
            ) == self.entries@[i].block@.header.state_root
    }

    /// Hash of the canonical head block.
    pub open spec fn head_hash(&self) -> u64 {
        self.entries@[self.head as int].hash
    }

    /// Header of the canonical head block.
    pub open spec fn head_header(&self) -> BlockHeaderV {
        self.entries@[self.head as int].block@.header
    }

    /// The canonical account state.
    pub open spec fn head_state(&self) -> Seq<(u64, Account)> {
        self.entries@[self.head as int].state@
    }

    /// Bootstrap a node from a well-known genesis state: a single block
    /// with no transactions whose state root commits to `initial`.
    pub fn genesis(initial: AccountStore, timestamp: u64) -> (node: Node)
        requires
            initial.wf(),
        ensures
            node.wf(),
            node.entries@.len() == 1,
            node.head == 0usize,
            node.head_state() == initial@,
            node.head_header().number == 0,
            node.head_header().parent_hash == 0,
            node.head_header().timestamp == timestamp,
            node.head_hash() == crate::codec::header_hash_of(node.head_header()),
            node.entries@[0].block@.transactions.len() == 0,
            node.entries@[0].block@.receipts.len() == 0,
            node.orphans@.len() == 0,
    {
        let state_root = crate::codec::compute_state_root(&initial);
        let transactions: Vec<crate::types::Transaction> = Vec::new();
        let tx_root = crate::codec::compute_tx_root(&transactions);
        let header = BlockHeader {
            parent_hash: 0,
            number: 0,
            state_root,
            tx_root,
            timestamp,
            beneficiary: 0,
            gas_limit: 0,
            gas_used: 0,
            extra_data: Vec::new(),
        };
        let hash = header_hash(&header);
        let block = Block { header, transactions, receipts: Vec::new() };
        let entry = ChainEntry { hash, block, state: initial };
        let mut entries: Vec<ChainEntry> = Vec::new();
        entries.push(entry);
        Node { entries, head: 0, orphans: Vec::new() }
    }

    /// The canonical head's header, for readers.
    pub fn current_head(&self) -> (h: &BlockHeader)
        requires
            self.wf(),
        ensures
            h@ == self.head_header(),
    {
        &self.entries[self.head].block.header
    }

    /// Read one account out of the canonical state; a never-credited
    /// address reads as the empty account.
    pub fn get_account(&self, addr: u64) -> (a: Account)
        requires
            self.wf(),
        ensures
            a == account_at(self.head_state(), addr),
    {
        self.entries[self.head].state.account(addr)
    }

    /// Position of the first entry with the given block hash in the index.
    fn find_index(&self, hash: u64) -> (r: Option<usize>)
        ensures
            match r {
                Some(i) => (i as int) < self.entries@.len() && self.entries@[i as int].hash
                    == hash && first_hash_index(self.entries@, hash) == Some(i as int),
                None => first_hash_index(self.entries@, hash) is None && forall|i: int|
                    0 <= i < self.entries@.len() ==> (#[trigger] self.entries@[i]).hash != hash,
            },
    {
        let mut i: usize = 0;
        proof {
            assert(self.entries@.skip(0) =~= self.entries@);
        }
        while i < self.entries.len()
            invariant
                i <= self.entries.len(),
                forall|j: int| 0 <= j < i ==> (#[trigger] self.entries@[j]).hash != hash,
                first_hash_index(self.entries@, hash) == (match first_hash_index(
                    self.entries@.skip(i as int),
                    hash,
                ) {
                    Some(j) => Some(i + j),
                    None => None,
                }),
            decreases self.entries.len() - i,
        {
            proof {
                assert(self.entries@.skip(i as int)[0] == self.entries@[i as int]);
                assert(self.entries@.skip(i as int).drop_first() =~= self.entries@.skip(i + 1));
            }
            if self.entries[i].hash == hash {
                return Some(i);
            }
            i = i + 1;
        }
        proof {
            assert(self.entries@.skip(self.entries@.len() as int) =~= Seq::<ChainEntry>::empty());
        }
        None
    }

    /// Fetch a block by its header hash, for readers.
    pub fn query_blockchain(&self, hash: u64) -> (r: Option<&Block>)
        ensures
            match r {
                Some(b) => exists|i: int|
                    0 <= i < self.entries@.len() && (#[trigger] self.entries@[i]).hash == hash
                        && b@ == self.entries@[i].block@,
                None => forall|i: int|
                    0 <= i < self.entries@.len() ==> (#[trigger] self.entries@[i]).hash != hash,
            },
    {
        match self.find_index(hash) {
            Some(i) => Some(&self.entries[i].block),
            None => None,
        }
    }

    /// The block of the given height on the canonical chain, found by
    /// walking parent links back from the head; nothing when the canonical
    /// chain has no block of that height.
    pub open spec fn canonical_block_at(&self, number: u64) -> Option<BlockV> {
        match walk_back(self.entries@, self.head as int, number, self.entries@.len() as nat) {
            Some(i) => Some(self.entries@[i].block@),
            None => None,
        }
    }

    /// Fetch the canonical chain's block of the given height, for readers:
    /// the walk from the head along parent links, exactly as
    /// `canonical_block_at` describes it.
    pub fn query_block_by_number(&self, number: u64) -> (r: Option<&Block>)
        requires
            self.wf(),
        ensures
            match r {
                Some(b) => self.canonical_block_at(number) == Some(b@) && b@.header.number
                    == number,
                None => self.canonical_block_at(number) is None,
            },
    {
        let mut idx: usize = self.head;
        let mut fuel: usize = self.entries.len();
        loop
            invariant
                self.wf(),
                (idx as int) < self.entries@.len(),
                fuel <= self.entries@.len(),
                walk_back(
                    self.entries@,
                    self.head as int,
                    number,
                    self.entries@.len() as nat,
                ) == walk_back(self.entries@, idx as int, number, fuel as nat),
            decreases fuel,
        {
            if self.entries[idx].block.header.number == number {
                return Some(&self.entries[idx].block);
            }
            if fuel == 0 {
                return None;
            }
            match self.find_index(self.entries[idx].block.header.parent_hash) {
                None => {
                    return None;
                },
                Some(p) => {
                    idx = p;
                    fuel = fuel - 1;
                },
            }
        }
    }

    /// Append one validated block, with the state it commits to, to the
    /// index. The head pointer is untouched: commitment to canonicality is
    /// the consensus decision, not storage's.
    pub fn store_block(&mut self, hash: u64, block: Block, state: AccountStore)
        requires
            old(self).wf(),
            state.wf(),
            hash == header_hash_of(block@.header),
            state_root_of(state@) == block@.header.state_root,
        ensures
            final(self).wf(),
            final(self).entries@ == old(self).entries@.push(
                ChainEntry { hash, block, state },
            ),
            final(self).head == old(self).head,
            final(self).orphans@ == old(self).orphans@,
    {
        self.entries.push(ChainEntry { hash, block, state });
    }

    /// The consensus arbiter: take one candidate block (receipts not yet
    /// attached), validate it against its parent's indexed state, and
    /// serialize the commit. A candidate whose parent is unknown is kept as
    /// an orphan; one already indexed is stale; an invalid one changes
    /// nothing. A valid candidate is stored with its receipts and state,
    /// and becomes canonical exactly when the fork-choice rule prefers it
    /// over the current head. Returns whether the candidate is now the
    /// canonical head.
    pub fn consensus_mechanism(&mut self, block: &Block) -> (r: Result<bool, ConsensusError>)
        requires
            old(self).wf(),
        ensures
            final(self).wf(),
            match r {
                Err(e) => final(self).entries@ == old(self).entries@ && final(self).head == old(
                    self,
                ).head && match e {
                    ConsensusError::StaleBlock => final(self).orphans@ == old(self).orphans@
                        && exists|i: int|
                        0 <= i < old(self).entries@.len() && (#[trigger] old(
                            self,
                        ).entries@[i]).hash == crate::codec::header_hash_of(block@.header),
                    ConsensusError::UnknownParent => final(self).orphans@.map_values(
                        |b: Block| b@,
                    ) == old(self).orphans@.map_values(|b: Block| b@).push(block@) && forall|
                        i: int,
                    |
                        0 <= i < old(self).entries@.len() ==> (#[trigger] old(
                            self,
                        ).entries@[i]).hash != block@.header.parent_hash,
                    ConsensusError::InvalidBlock(inner) => final(self).orphans@ == old(
                        self,
                    ).orphans@ && exists|p: int|
                        0 <= p < old(self).entries@.len() && (#[trigger] old(
                            self,
                        ).entries@[p]).hash == block@.header.parent_hash && apply_block_spec(
                            block@,
                            old(self).entries@[p].block@.header,
                            old(self).entries@[p].hash,
                            old(self).entries@[p].state@,
                        ) == Err::<(Seq<crate::types::ReceiptV>, Seq<(u64, Account)>), _>(inner),
                },
                Ok(canonical) => ({
                    let new_idx = old(self).entries@.len() as int;
                    let stored = final(self).entries@[new_idx].block;
                    &&& forall|i: int|
                        0 <= i < old(self).entries@.len() ==> (#[trigger] old(
                            self,
                        ).entries@[i]).hash != crate::codec::header_hash_of(block@.header)
                    &&& final(self).entries@.len() == old(self).entries@.len() + 1
                    &&& forall|i: int|
                        0 <= i < old(self).entries@.len() ==> final(self).entries@[i] == old(
                            self,
                        ).entries@[i]
                    &&& final(self).orphans@ == old(self).orphans@
                    &&& exists|p: int|
                        0 <= p < old(self).entries@.len() && (#[trigger] old(
                            self,
                        ).entries@[p]).hash == block@.header.parent_hash && apply_block_spec(
                            block@,
                            old(self).entries@[p].block@.header,
                            old(self).entries@[p].hash,
                            old(self).entries@[p].state@,
                        ) == Ok::<_, crate::types::BlockError>(
                            (stored@.receipts, final(self).entries@[new_idx].state@),
                        )
                    &&& stored@.header == block@.header
                    &&& stored@.transactions == block@.transactions
                    &&& final(self).entries@[new_idx].hash == crate::codec::header_hash_of(
                        block@.header,
                    )
                    &&& canonical == prefers(
                        block@.header.number,
                        crate::codec::header_hash_of(block@.header),
                        old(self).head_header().number,
                        old(self).head_hash(),
                    )
                    &&& final(self).head == if canonical {
                        new_idx as usize
                    } else {
                        old(self).head
                    }
                }),
            },
    {
        let h = header_hash(&block.header);
        match self.find_index(h) {
            Some(_) => {
                return Err(ConsensusError::StaleBlock);
            },
            None => {},
        }
        let parent = self.find_index(block.header.parent_hash);
        match parent {
            None => {
                let ghost before = self.orphans@.map_values(|b: Block| b@);
                let copy = block.duplicate();
                self.orphans.push(copy);
                proof {
                    assert(self.orphans@.map_values(|b: Block| b@) =~= before.push(block@));
                }
                return Err(ConsensusError::UnknownParent);
            },
            Some(p) => {
                let parent_hash = self.entries[p].hash;
                let outcome = validate_block(
                    block,
                    &self.entries[p].block.header,
                    parent_hash,
                    &self.entries[p].state,
                );
                match outcome {
                    Err(e) => Err(ConsensusError::InvalidBlock(e)),
                    Ok((receipts, snap)) => {
                        let ghost rv = receipts_view(receipts);
                        let stored = Block {
                            header: block.header.duplicate(),
                            transactions: crate::types::copy_transactions(&block.transactions),
                            receipts,
                        };
                        proof {
                            assert(stored@.header == block@.header);
                            assert(stored@.transactions =~= block@.transactions);
                            assert(stored@.receipts == rv);
                        }
                        let head_number = self.entries[self.head].block.header.number;
                        let head_hash_now = self.entries[self.head].hash;
                        let canonical = block.header.number > head_number || (block.header.number
                            == head_number && h < head_hash_now);
                        let new_idx = self.entries.len();
                        self.store_block(h, stored, snap);
                        if canonical {
                            self.head = new_idx;
                        }
                        Ok(canonical)
                    },
                }
            },
        }
    }
}

} // verus!
