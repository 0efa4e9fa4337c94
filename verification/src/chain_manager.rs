//! The chain-state orchestrator: block ingestion, candidate arbitration,
//! epoch consolidation, mempool maintenance and the synchronization cadence.
//!
//! The orchestrator owns the authoritative state and returns the side
//! effects it wants performed — persists, broadcasts, block requests — as
//! values, in commit order; a thin driver performs them.
use vstd::prelude::*;

use crate::chain::{
    Block, BlockV, CheckpointBeacon, Dup, Epoch, InventoryEntry, InventoryEntryV, InventoryItem,
    InventoryItemV, lex_lt, OutputPointer, OutputPointerV, OutputV, Transaction, TransactionV,
};
use crate::chain_state::ChainState;
use crate::data_request::{DataRequestEntryV, DataRequestInfo, DataRequestPool, spec_update_stages};
use crate::hashing::{block_hash, spec_block_hash, spec_merkle_root, spec_tx_hash, tx_hash,
    validate_merkle_tree};
use crate::mempool::TransactionsPool;
use crate::utxo::UnspentOutputsPool;
use crate::validations::{
    block_outputs_bounded, spec_apply_block, spec_block_valid, spec_process_block_requests,
    spec_valid_tx, validate_transactions,
};

verus! {

/// Possible errors when interacting with the chain manager.
#[derive(Clone, Debug, PartialEq, Eq)]
pub enum ChainManagerError {
    /// A block being processed was already known to this node.
    BlockAlreadyExists,
    /// A block does not exist.
    BlockDoesNotExist,
    /// The storage collaborator failed.
    StorageError(String),
}

impl From<String> for ChainManagerError {
    /// A storage collaborator's failure, carried as its message.
    fn from(x: String) -> (r: ChainManagerError) {
        ChainManagerError::StorageError(x)
    }
}

impl vstd::std_specs::convert::FromSpecImpl<String> for ChainManagerError {
    open spec fn obeys_from_spec() -> bool {
        true
    }

    open spec fn from_spec(x: String) -> ChainManagerError {
        ChainManagerError::StorageError(x)
    }
}

/// A side effect the orchestrator wants performed, in commit order.
#[derive(Clone, Debug, PartialEq, Eq)]
pub enum Action {
    /// Persist the chain state under its well-known key.
    PersistChainState,
    /// Hand an item to the inventory store.
    PersistItem(InventoryItem),
    /// Persist a finished data request under its pointer.
    PersistDataRequest(OutputPointer, DataRequestInfo),
    /// Broadcast an item to all peers.
    Broadcast(InventoryItem),
    /// Ask one peer for a missing block.
    RequestBlock(InventoryEntry),
    /// Ask one peer for an inventory exchange.
    InventoryExchange,
}

pub enum ActionV {
    PersistChainState,
    PersistItem(InventoryItemV),
    PersistDataRequest(OutputPointerV, crate::data_request::DataRequestInfoV),
    Broadcast(InventoryItemV),
    RequestBlock(InventoryEntryV),
    InventoryExchange,
}

impl View for Action {
    type V = ActionV;

    open spec fn view(&self) -> ActionV {
        match self {
            Action::PersistChainState => ActionV::PersistChainState,
            Action::PersistItem(i) => ActionV::PersistItem(i@),
            Action::PersistDataRequest(p, r) => ActionV::PersistDataRequest(p@, r@),
            Action::Broadcast(i) => ActionV::Broadcast(i@),
            Action::RequestBlock(e) => ActionV::RequestBlock(e@),
            Action::InventoryExchange => ActionV::InventoryExchange,
        }
    }
}

impl DeepView for Action {
    type V = ActionV;

    open spec fn deep_view(&self) -> ActionV {
        self@
    }
}

/// A block candidate and the shadow state produced by dry-running it.
pub struct Candidate {
    pub block: Block,
    pub utxo_set: UnspentOutputsPool,
    pub data_request_pool: DataRequestPool,
}

/// The abstract value of a candidate: the block and the shadow state.
pub struct CandAbs {
    pub block: BlockV,
    pub utxo: Map<OutputPointerV, OutputV>,
    pub requests: Seq<DataRequestEntryV>,
    pub to_be_stored: Seq<DataRequestEntryV>,
}

impl Candidate {
    /// The candidate's abstract value.
    pub open spec fn abs(&self) -> CandAbs {
        CandAbs {
            block: self.block@,
            utxo: self.utxo_set.as_map(),
            requests: self.data_request_pool@.requests,
            to_be_stored: self.data_request_pool@.to_be_stored,
        }
    }
}

/// The abstract state the orchestrator's contracts speak of.
pub struct MgrState {
    pub chain_info: Option<crate::chain::ChainInfoV>,
    pub utxo: Map<OutputPointerV, OutputV>,
    pub requests: Seq<DataRequestEntryV>,
    pub to_be_stored: Seq<DataRequestEntryV>,
    pub block_chain: Seq<(Epoch, Seq<u8>)>,
    pub mempool: Map<Seq<u8>, TransactionV>,
    pub current_epoch: Option<Epoch>,
    pub candidate: Option<CandAbs>,
    pub parked: Option<BlockV>,
    pub genesis: Seq<u8>,
    pub synced: bool,
    pub mine: bool,
}

/// The chain manager actor's state.
pub struct ChainManager {
    /// The authoritative, persisted chain state.
    pub chain_state: ChainState,
    /// Blocks received during synchronization, not yet validated, by hash.
    pub blocks_to_validate: Vec<(crate::chain::Hash, Block)>,
    /// A parked block whose predecessor has not arrived yet.
    pub candidate_to_validate: Option<Block>,
    /// The current epoch, once the epoch clock has spoken.
    pub current_epoch: Option<Epoch>,
    /// The mempool.
    pub transactions_pool: TransactionsPool,
    /// The best candidate seen for the current epoch.
    pub best_candidate: Option<Candidate>,
    /// The heaviest block the consensus accepts.
    pub max_block_weight: u32,
    /// Whether mining was switched on at all.
    pub mining_enabled: bool,
    /// The hash of the genesis block.
    pub genesis_block_hash: crate::chain::Hash,
    /// Whether the node considers itself synchronized with its peers.
    pub synced: bool,
    /// Whether two consecutive synced ticks have been observed.
    pub mine: bool,
    /// The tick period while catching up, in milliseconds.
    pub synchronizing_period_millis: u64,
    /// The tick period once synced, in milliseconds.
    pub synced_period_millis: u64,
    /// Whether the peer layer is ready.
    pub network_ready: bool,
}

impl ChainManager {
    /// The abstract value of the orchestrator's state.
    pub open spec fn abs(&self) -> MgrState {
        MgrState {
            chain_info: self.chain_state@.chain_info,
            utxo: self.chain_state.unspent_outputs_pool.as_map(),
            requests: self.chain_state@.data_request_pool.requests,
            to_be_stored: self.chain_state@.data_request_pool.to_be_stored,
            block_chain: self.chain_state@.block_chain,
            mempool: self.transactions_pool.as_map(),
            current_epoch: self.current_epoch,
            candidate: match &self.best_candidate {
                Some(c) => Some(c.abs()),
                None => None,
            },
            parked: match &self.candidate_to_validate {
                Some(b) => Some(b@),
                None => None,
            },
            genesis: self.genesis_block_hash@,
            synced: self.synced,
            mine: self.mine,
        }
    }

    /// Structural well-formedness: pools hold no key twice, the index is
    /// strictly increasing, a candidate never sits below the consolidated
    /// tip, and any parked block can still be validated.
    pub open spec fn wf(&self) -> bool {
        &&& self.chain_state.wf()
        &&& self.transactions_pool.wf()
        &&& (self.best_candidate matches Some(c) ==> c.utxo_set.wf()
            && c.data_request_pool.wf() && self.current_epoch == Some(
            c.block@.block_header.beacon.checkpoint,
        ))
        &&& (match (self.best_candidate, self.chain_state.chain_info) {
            (Some(c), Some(ci)) => c.block@.block_header.beacon.checkpoint
                >= ci@.highest_block_checkpoint.checkpoint,
            _ => true,
        })
        &&& (self.candidate_to_validate matches Some(b) ==> block_outputs_bounded(b@.txns))
    }

    /// A fresh orchestrator around a chain state, typically rehydrated from
    /// the blob store or built from genesis defaults.
    pub fn new(
        chain_state: ChainState,
        genesis_block_hash: crate::chain::Hash,
        max_block_weight: u32,
        mining_enabled: bool,
        synchronizing_period_millis: u64,
        synced_period_millis: u64,
    ) -> (r: ChainManager)
        requires
            chain_state.wf(),
        ensures
            r.wf(),
            r.abs().utxo == chain_state.unspent_outputs_pool.as_map(),
            r.abs().chain_info == chain_state@.chain_info,
            r.abs().block_chain == chain_state@.block_chain,
            r.abs().mempool == Map::<Seq<u8>, TransactionV>::empty(),
            r.abs().current_epoch is None,
            r.abs().candidate is None,
            r.abs().parked is None,
            r.abs().genesis == genesis_block_hash@,
            !r.synced,
            !r.mine,
    {
        ChainManager {
            chain_state,
            blocks_to_validate: Vec::new(),
            candidate_to_validate: None,
            current_epoch: None,
            transactions_pool: TransactionsPool::new(),
            best_candidate: None,
            max_block_weight,
            mining_enabled,
            genesis_block_hash,
            synced: false,
            mine: false,
            synchronizing_period_millis,
            synced_period_millis,
            network_ready: false,
        }
    }

    /// The tip marker for the peer handshake.
    pub fn get_tip_beacon(&self) -> (r: Option<CheckpointBeacon>)
        ensures
            match self.abs().chain_info {
                Some(ci) => r matches Some(b) && b@ == ci.highest_block_checkpoint,
                None => r is None,
            },
    {
        match &self.chain_state.chain_info {
            Some(ci) => Some(ci.highest_block_checkpoint.dup()),
            None => None,
        }
    }

    /// The hash consolidated at an epoch, resolvable through the inventory
    /// store.
    pub fn get_block_hash_by_epoch(&self, epoch: Epoch) -> (r: Option<crate::chain::Hash>)
        ensures
            r matches Some(h) ==> exists|i: int|
                0 <= i < self.abs().block_chain.len() && self.abs().block_chain[i] == (
                epoch,
                h@,
                ),
            r is None ==> !crate::chain_state::block_chain_has(self.abs().block_chain, epoch),
    {
        let r = self.chain_state.get_hash_by_epoch(epoch);
        match r {
            Some(h) => {
                proof {
                    let i = choose|i: int|
                        0 <= i < self.chain_state@.block_chain.len()
                            && self.chain_state@.block_chain[i] == (epoch, h@);
                    assert(self.abs().block_chain[i] == (epoch, h@));
                }
                Some(h)
            },
            None => None,
        }
    }
}

/// The mempool after dropping the hashes of the given transactions.
pub open spec fn spec_prune_mempool(
    mp: Map<Seq<u8>, TransactionV>,
    txs: Seq<TransactionV>,
    i: int,
) -> Map<Seq<u8>, TransactionV>
    decreases txs.len() - i,
{
    if i < 0 || i >= txs.len() {
        mp
    } else {
        spec_prune_mempool(mp.remove(spec_tx_hash(txs[i])), txs, i + 1)
    }
}

impl ChainManager {
    /// Removes every transaction embedded in a consolidated block from the
    /// mempool.
    pub fn update_transaction_pool(&mut self, transactions: &Vec<Transaction>)
        requires
            old(self).wf(),
        ensures
            final(self).wf(),
            final(self).transactions_pool.as_map() == spec_prune_mempool(
                old(self).transactions_pool.as_map(),
                transactions.deep_view(),
                0,
            ),
            final(self).chain_state == old(self).chain_state,
            final(self).best_candidate == old(self).best_candidate,
            final(self).candidate_to_validate == old(self).candidate_to_validate,
            final(self).current_epoch == old(self).current_epoch,
            final(self).synced == old(self).synced,
            final(self).mine == old(self).mine,
            final(self).genesis_block_hash == old(self).genesis_block_hash,
            final(self).blocks_to_validate == old(self).blocks_to_validate,
    {
        let ghost dv = transactions.deep_view();
        let ghost mp0 = self.transactions_pool.as_map();
        let n = transactions.len();
        let mut i: usize = 0;
        while i < n
            invariant
                self.wf(),
                n == transactions.len(),
                i <= n,
                dv == transactions.deep_view(),
                dv.len() == n,
                spec_prune_mempool(mp0, dv, 0) == spec_prune_mempool(
                    self.transactions_pool.as_map(),
                    dv,
                    i as int,
                ),
                self.chain_state == old(self).chain_state,
                self.best_candidate == old(self).best_candidate,
                self.candidate_to_validate == old(self).candidate_to_validate,
                self.current_epoch == old(self).current_epoch,
                self.synced == old(self).synced,
                self.mine == old(self).mine,
                self.genesis_block_hash == old(self).genesis_block_hash,
                self.blocks_to_validate == old(self).blocks_to_validate,
                mp0 == old(self).transactions_pool.as_map(),
            decreases n - i,
        {
            let h = tx_hash(&transactions[i]);
            proof {
                assert(dv[i as int] == transactions@[i as int]@);
            }
            self.transactions_pool.remove(&h);
            i += 1;
        }
    }

    /// The entries whose hash the pending-block buffer does not hold;
    /// peers are asked only for those.
    pub fn discard_existing_inventory_entries(&self, inv_entries: Vec<InventoryEntry>) -> (r: Vec<
        InventoryEntry,
    >)
        ensures
            r.deep_view() == spec_missing_entries(
                inv_entries.deep_view(),
                self.blocks_to_validate.deep_view(),
                0,
            ),
    {
        let ghost dv = inv_entries.deep_view();
        let ghost keys = self.blocks_to_validate.deep_view();
        let mut missing: Vec<InventoryEntry> = Vec::new();
        let n = inv_entries.len();
        let mut i: usize = 0;
        proof {
            assert(spec_missing_entries(dv, keys, 0) =~= missing.deep_view()
                + spec_missing_entries(dv, keys, 0));
        }
        while i < n
            invariant
                n == inv_entries.len(),
                i <= n,
                dv == inv_entries.deep_view(),
                keys == self.blocks_to_validate.deep_view(),
                dv.len() == n,
                spec_missing_entries(dv, keys, 0) == missing.deep_view()
                    + spec_missing_entries(dv, keys, i as int),
            decreases n - i,
        {
            let e = &inv_entries[i];
            proof {
                assert(dv[i as int] == inv_entries@[i as int]@);
            }
            let known = self.block_to_validate_known(e.hash());
            if !known {
                let ghost pre = missing.deep_view();
                missing.push(e.dup());
                proof {
                    assert(missing.deep_view() =~= pre.push(dv[i as int]));
                    assert(pre + (seq![dv[i as int]] + spec_missing_entries(
                        dv,
                        keys,
                        i as int + 1,
                    )) =~= pre.push(dv[i as int]) + spec_missing_entries(dv, keys, i as int + 1));
                }
            }
            i += 1;
        }
        proof {
            assert(spec_missing_entries(dv, keys, n as int) =~= Seq::<InventoryEntryV>::empty());
            assert(missing.deep_view() + Seq::<InventoryEntryV>::empty() =~= missing.deep_view());
        }
        missing
    }

    /// Whether the pending-block buffer holds a block with this hash.
    fn block_to_validate_known(&self, h: &crate::chain::Hash) -> (r: bool)
        ensures
            r == spec_known_hash(self.blocks_to_validate.deep_view(), h@),
    {
        let n = self.blocks_to_validate.len();
        let mut i: usize = 0;
        while i < n
            invariant
                n == self.blocks_to_validate.len(),
                i <= n,
                forall|j: int| 0 <= j < i ==> self.blocks_to_validate.deep_view()[j].0 != h@,
            decreases n - i,
        {
            if self.blocks_to_validate[i].0.eq_hash(h) {
                proof {
                    assert(self.blocks_to_validate.deep_view()[i as int].0 == h@);
                }
                return true;
            }
            i += 1;
        }
        false
    }

    /// The mine flag and the next cadence of the synchronization driver:
    /// an inventory exchange is requested every tick, the node mines only
    /// after two consecutive ticks at the synced cadence.
    pub fn sync_tick(&mut self, interval_millis: u64) -> (r: (Vec<Action>, u64))
        requires
            old(self).wf(),
        ensures
            final(self).wf(),
            r.0.deep_view() =~= seq![ActionV::InventoryExchange],
            final(self).mine == (old(self).synced && interval_millis == old(
                self,
            ).synced_period_millis),
            r.1 == if old(self).synced {
                old(self).synced_period_millis
            } else {
                old(self).synchronizing_period_millis
            },
            final(self).chain_state == old(self).chain_state,
            final(self).transactions_pool == old(self).transactions_pool,
            final(self).best_candidate == old(self).best_candidate,
            final(self).candidate_to_validate == old(self).candidate_to_validate,
            final(self).current_epoch == old(self).current_epoch,
            final(self).synced == old(self).synced,
    {
        let mut acts: Vec<Action> = Vec::new();
        acts.push(Action::InventoryExchange);
        if self.synced {
            self.mine = interval_millis == self.synced_period_millis;
            (acts, self.synced_period_millis)
        } else {
            self.mine = false;
            (acts, self.synchronizing_period_millis)
        }
    }

    /// Validates one incoming transaction against the live unspent-output
    /// set and pools it when valid; live state is otherwise untouched.
    pub fn add_transaction(&mut self, tx: Transaction) -> (r: bool)
        requires
            old(self).wf(),
        ensures
            final(self).wf(),
            r == spec_valid_tx(old(self).abs().utxo, tx@),
            r ==> final(self).transactions_pool.as_map() == old(
                self,
            ).transactions_pool.as_map().insert(spec_tx_hash(tx@), tx@),
            !r ==> final(self).transactions_pool == old(self).transactions_pool,
            final(self).chain_state == old(self).chain_state,
            final(self).best_candidate == old(self).best_candidate,
            final(self).candidate_to_validate == old(self).candidate_to_validate,
            final(self).current_epoch == old(self).current_epoch,
    {
        let mut shadow = self.chain_state.unspent_outputs_pool.dup();
        proof {
            assert(shadow.as_map() == self.chain_state.unspent_outputs_pool.as_map());
            assert(shadow.wf());
        }
        let valid = crate::validations::validate_transaction(&mut shadow, &tx);
        if valid {
            let h = tx_hash(&tx);
            self.transactions_pool.insert(h, tx);
            true
        } else {
            false
        }
    }
}

/// What one incoming block does to the orchestrator: the candidate
/// arbitration and rejection rules, the pending-block buffer, and direct
/// consolidation of valid past blocks.
pub open spec fn spec_process_one(s: MgrState, b: BlockV) -> (MgrState, Seq<ActionV>) {
    match s.current_epoch {
        None => (s, Seq::empty()),
        Some(ce) => {
            let e = b.block_header.beacon.checkpoint;
            let prev = b.block_header.beacon.hash_prev_block;
            let bh = spec_block_hash(b);
            if b.block_header.hash_merkle_root != spec_merkle_root(b.txns) {
                (s, Seq::empty())
            } else if e > ce {
                (s, Seq::empty())
            } else if (match s.chain_info {
                Some(ci) => ci.highest_block_checkpoint.checkpoint > e,
                None => false,
            }) {
                (s, Seq::empty())
            } else if e == ce && (match s.candidate {
                Some(c) => !lex_lt(bh, spec_block_hash(c.block)),
                None => false,
            }) {
                (s, Seq::empty())
            } else if prev != s.genesis && (match s.chain_info {
                Some(ci) => ci.highest_block_checkpoint.hash_prev_block != prev,
                None => false,
            }) {
                if e == ce && s.synced {
                    (
                        MgrState { parked: Some(b), ..s },
                        seq![ActionV::RequestBlock(InventoryEntryV::Block(prev))],
                    )
                } else {
                    (s, Seq::empty())
                }
            } else {
                spec_poe_response(s, b)
            }
        },
    }
}

/// What a block that passed the structural checks and the eligibility
/// hook does: nothing when its transactions do not validate, else it
/// becomes the candidate or is consolidated.
pub open spec fn spec_poe_response(s: MgrState, b: BlockV) -> (MgrState, Seq<ActionV>)
    recommends
        s.current_epoch is Some,
{
    let ce = s.current_epoch->Some_0;
    let e = b.block_header.beacon.checkpoint;
    if !spec_block_valid(s.utxo, e, b.txns) {
        (s, Seq::empty())
    } else {
        spec_consolidate_or_candidate(s, b, e, ce)
    }
}

/// A valid block at the current epoch becomes the best candidate and is
/// broadcast; a valid past block is consolidated into the live state at
/// once.
pub open spec fn spec_consolidate_or_candidate(s: MgrState, b: BlockV, e: Epoch, ce: Epoch) -> (
    MgrState,
    Seq<ActionV>,
) {
    let bh = spec_block_hash(b);
    let utxo2 = spec_apply_block(s.utxo, b.txns);
    let reqs2 = spec_process_block_requests(s.requests, e, b.txns, 0);
    if e == ce {
        (
            MgrState {
                candidate: Some(
                    CandAbs {
                        block: b,
                        utxo: utxo2,
                        requests: reqs2,
                        to_be_stored: s.to_be_stored,
                    },
                ),
                ..s
            },
            seq![ActionV::Broadcast(InventoryItemV::Block(b))],
        )
    } else {
        let st = spec_update_stages(reqs2, e);
        let drained = s.to_be_stored + st.1;
        (
            MgrState {
                utxo: utxo2,
                requests: st.0,
                to_be_stored: Seq::empty(),
                mempool: spec_prune_mempool(s.mempool, b.txns, 0),
                chain_info: spec_tip_updated(s.chain_info, e, bh),
                block_chain: if s.chain_info is Some {
                    crate::chain_state::spec_index_insert(s.block_chain, e, bh)
                } else {
                    s.block_chain
                },
                ..s
            },
            seq![ActionV::PersistItem(InventoryItemV::Block(b))] + drained.map(
                |i: int, d: DataRequestEntryV| ActionV::PersistDataRequest(d.0, d.1),
            ),
        )
    }
}

/// The chain identity after the beacon moved to a newly consolidated
/// block.
pub open spec fn spec_tip_updated(
    ci: Option<crate::chain::ChainInfoV>,
    e: Epoch,
    bh: Seq<u8>,
) -> Option<crate::chain::ChainInfoV> {
    match ci {
        Some(c) => Some(
            crate::chain::ChainInfoV {
                highest_block_checkpoint: crate::chain::CheckpointBeaconV {
                    checkpoint: e,
                    hash_prev_block: bh,
                },
                ..c
            },
        ),
        None => None,
    }
}

/// What an incoming block does, the pending-block buffer included: after
/// the block is handled, a parked block whose predecessor it is gets
/// re-fed.
pub open spec fn spec_add_block(s: MgrState, b: BlockV) -> (MgrState, Seq<ActionV>) {
    let r1 = spec_process_one(s, b);
    match r1.0.parked {
        Some(p) => if p.block_header.beacon.hash_prev_block == spec_block_hash(b) {
            let r2 = spec_process_one(MgrState { parked: None, ..r1.0 }, p);
            (r2.0, r1.1 + r2.1)
        } else {
            r1
        },
        None => r1,
    }
}

/// What an epoch transition does when no candidate is promoted: the epoch
/// advances, a stale candidate is dropped, and a parked block whose
/// predecessor is not the tip is evicted. Nothing is persisted and nothing
/// is broadcast.
pub open spec fn spec_epoch_no_promote(s: MgrState, e: Epoch) -> MgrState {
    MgrState {
        current_epoch: Some(e),
        candidate: None,
        parked: match (s.parked, s.chain_info) {
            (Some(p), Some(ci)) => if p.block_header.beacon.hash_prev_block
                == ci.highest_block_checkpoint.hash_prev_block {
                Some(p)
            } else {
                None
            },
            (Some(_), None) => None,
            _ => s.parked,
        },
        ..s
    }
}

/// What an epoch transition does: when the best candidate sits exactly one
/// epoch behind the new epoch it is promoted — its shadow state becomes
/// live, finished data requests drain, the beacon and the index record the
/// block, the mempool drops the block's transactions — and the block is
/// persisted, the state persisted, the reports persisted and the block
/// broadcast, in that order.
pub open spec fn spec_set_epoch(s: MgrState, e: Epoch) -> (MgrState, Seq<ActionV>) {
    match s.candidate {
        Some(c) => if e >= 1 && c.block.block_header.beacon.checkpoint == e - 1 {
            let ep = (e - 1) as Epoch;
            let bh = spec_block_hash(c.block);
            let st = spec_update_stages(c.requests, ep);
            let drained = c.to_be_stored + st.1;
            (
                MgrState {
                    current_epoch: Some(e),
                    utxo: c.utxo,
                    requests: st.0,
                    to_be_stored: Seq::empty(),
                    mempool: spec_prune_mempool(s.mempool, c.block.txns, 0),
                    chain_info: spec_tip_updated(s.chain_info, ep, bh),
                    block_chain: if s.chain_info is Some {
                        crate::chain_state::spec_index_insert(s.block_chain, ep, bh)
                    } else {
                        s.block_chain
                    },
                    candidate: None,
                    parked: match s.parked {
                        Some(p) => if p.block_header.beacon.hash_prev_block == bh {
                            Some(p)
                        } else {
                            None
                        },
                        None => None,
                    },
                    ..s
                },
                seq![
                    ActionV::PersistItem(InventoryItemV::Block(c.block)),
                    ActionV::PersistChainState,
                ] + drained.map(|i: int, d: DataRequestEntryV| ActionV::PersistDataRequest(
                    d.0,
                    d.1,
                )) + seq![ActionV::Broadcast(InventoryItemV::Block(c.block))],
            )
        } else {
            (spec_epoch_no_promote(s, e), Seq::empty())
        },
        None => (spec_epoch_no_promote(s, e), Seq::empty()),
    }
}

impl ChainManager {
    /// Routes one incoming block through arbitration, the pending-block
    /// buffer, validation and — for past blocks — direct consolidation.
    fn process_one(&mut self, block: Block) -> (r: Vec<Action>)
        requires
            old(self).wf(),
            block_outputs_bounded(block@.txns),
        ensures
            final(self).wf(),
            final(self).abs() == spec_process_one(old(self).abs(), block@).0,
            r.deep_view() == spec_process_one(old(self).abs(), block@).1,
    {
        let ghost s0 = self.abs();
        let ghost bv = block@;
        let mut acts: Vec<Action> = Vec::new();
        proof {
            assert(acts.deep_view() =~= Seq::<ActionV>::empty());
        }
        let ce = match self.current_epoch {
            Some(e) => e,
            None => {
                return acts;
            },
        };
        let e = block.block_header.beacon.checkpoint;
        if !validate_merkle_tree(&block) {
            return acts;
        }
        if e > ce {
            return acts;
        }
        let tip_newer = match &self.chain_state.chain_info {
            Some(ci) => ci.highest_block_checkpoint.checkpoint > e,
            None => false,
        };
        if tip_newer {
            return acts;
        }
        let bh = block_hash(&block);
        let cand_better = if e == ce {
            match &self.best_candidate {
                Some(c) => {
                    let ch = block_hash(&c.block);
                    !bh.lt_hash(&ch)
                },
                None => false,
            }
        } else {
            false
        };
        if cand_better {
            return acts;
        }
        let prev_mismatch = if block.block_header.beacon.hash_prev_block.eq_hash(
            &self.genesis_block_hash,
        ) {
            false
        } else {
            match &self.chain_state.chain_info {
                Some(ci) => !ci.highest_block_checkpoint.hash_prev_block.eq_hash(
                    &block.block_header.beacon.hash_prev_block,
                ),
                None => false,
            }
        };
        if prev_mismatch {
            if e == ce && self.synced {
                let prev = block.block_header.beacon.hash_prev_block.dup();
                self.candidate_to_validate = Some(block);
                acts.push(Action::RequestBlock(InventoryEntry::Block(prev)));
                proof {
                    assert(acts.deep_view() =~= seq![
                        ActionV::RequestBlock(InventoryEntryV::Block(
                            bv.block_header.beacon.hash_prev_block,
                        )),
                    ]);
                }
                return acts;
            } else {
                return acts;
            }
        }
        self.process_poe_validation_response(block)
    }

    /// Dry-runs the block's transactions on shadow copies of the live
    /// state; a valid block at the current epoch becomes the best
    /// candidate and is broadcast, a valid past block is consolidated at
    /// once, and an invalid block changes nothing. The caller has already
    /// filtered by epoch, predecessor and merkle root; the
    /// proof-of-eligibility hook is not yet defined and admits every
    /// block.
    pub fn process_poe_validation_response(&mut self, block: Block) -> (r: Vec<Action>)
        requires
            old(self).wf(),
            block_outputs_bounded(block@.txns),
            old(self).current_epoch is Some,
            match old(self).chain_state@.chain_info {
                Some(ci) => ci.highest_block_checkpoint.checkpoint
                    <= block@.block_header.beacon.checkpoint,
                None => true,
            },
            block@.block_header.beacon.checkpoint <= old(self).current_epoch->Some_0,
        ensures
            final(self).wf(),
            final(self).abs() == spec_poe_response(old(self).abs(), block@).0,
            r.deep_view() == spec_poe_response(old(self).abs(), block@).1,
    {
        let ghost s0 = self.abs();
        let ghost bv = block@;
        let mut acts: Vec<Action> = Vec::new();
        proof {
            assert(acts.deep_view() =~= Seq::<ActionV>::empty());
        }
        let ce = match self.current_epoch {
            Some(x) => x,
            None => {
                proof {
                    assert(false);
                }
                return acts;
            },
        };
        let e = block.block_header.beacon.checkpoint;
        let bh = block_hash(&block);
        let mut shadow_utxo = self.chain_state.unspent_outputs_pool.dup();
        let mut shadow_dr = self.chain_state.data_request_pool.dup();
        proof {
            assert(shadow_utxo.wf());
            assert(shadow_utxo.as_map() == self.chain_state.unspent_outputs_pool.as_map());
            assert(shadow_dr.wf());
        }
        let valid = validate_transactions(
            &mut shadow_utxo,
            &self.transactions_pool,
            &mut shadow_dr,
            &block,
        );
        if !valid {
            return acts;
        }
        if e == ce {
            acts.push(Action::Broadcast(InventoryItem::Block(block.dup())));
            self.best_candidate = Some(
                Candidate { block, utxo_set: shadow_utxo, data_request_pool: shadow_dr },
            );
            proof {
                assert(acts.deep_view() =~= seq![ActionV::Broadcast(InventoryItemV::Block(bv))]);
            }
            return acts;
        }
        acts.push(Action::PersistItem(InventoryItem::Block(block.dup())));
        self.chain_state.unspent_outputs_pool = shadow_utxo;
        self.chain_state.data_request_pool = shadow_dr;
        self.chain_state.data_request_pool.update_data_request_stages(e);
        let drained = self.chain_state.data_request_pool.finished_data_requests();
        self.update_transaction_pool(&block.txns);
        self.chain_state.record_tip(e, &bh);
        proof {
            assert(self.chain_state@.data_request_pool.to_be_stored =~= Seq::<
                DataRequestEntryV,
            >::empty());
            let target = spec_consolidate_or_candidate(s0, bv, e, ce);
            assert(self.abs().utxo == target.0.utxo);
            assert(self.abs().requests == target.0.requests);
            assert(self.abs().to_be_stored == target.0.to_be_stored);
            assert(self.abs().mempool == target.0.mempool);
            assert(self.abs().chain_info == target.0.chain_info);
            assert(self.abs().block_chain == target.0.block_chain);
            assert(self.abs() == target.0);
            assert(spec_poe_response(s0, bv).0 == target.0);
        }
        let n = drained.len();
        let mut i: usize = 0;
        let ghost drained_v = drained.deep_view();
        let ghost persist_acts = drained_v.map(
            |j: int, d: DataRequestEntryV| ActionV::PersistDataRequest(d.0, d.1),
        );
        let ghost base_acts = acts.deep_view();
        proof {
            assert(base_acts =~= seq![ActionV::PersistItem(InventoryItemV::Block(bv))]);
        }
        while i < n
            invariant
                n == drained.len(),
                i <= n,
                drained_v == drained.deep_view(),
                drained_v.len() == n,
                persist_acts == drained_v.map(
                    |j: int, d: DataRequestEntryV| ActionV::PersistDataRequest(d.0, d.1),
                ),
                acts.deep_view() == base_acts + persist_acts.take(i as int),
            decreases n - i,
        {
            let d = &drained[i];
            let ghost pre = acts.deep_view();
            acts.push(Action::PersistDataRequest(d.0.dup(), d.1.dup()));
            proof {
                assert(drained_v[i as int] == drained@[i as int]@);
                assert(acts.deep_view() =~= pre.push(
                    ActionV::PersistDataRequest(drained_v[i as int].0, drained_v[i as int].1),
                ));
                assert(acts.deep_view() =~= base_acts + persist_acts.take(i as int + 1));
            }
            i += 1;
        }
        proof {
            assert(persist_acts.take(n as int) =~= persist_acts);
        }
        acts
    }

    /// Routes one incoming block, then re-feeds a parked block whose
    /// missing predecessor it was.
    pub fn process_block(&mut self, block: Block) -> (r: Vec<Action>)
        requires
            old(self).wf(),
            block_outputs_bounded(block@.txns),
        ensures
            final(self).wf(),
            final(self).abs() == spec_add_block(old(self).abs(), block@).0,
            r.deep_view() == spec_add_block(old(self).abs(), block@).1,
    {
        let ghost s0 = self.abs();
        let ghost bv = block@;
        let bh = block_hash(&block);
        let mut acts = self.process_one(block);
        let refeed = match &self.candidate_to_validate {
            Some(p) => p.block_header.beacon.hash_prev_block.eq_hash(&bh),
            None => false,
        };
        if refeed {
            let ghost s1 = self.abs();
            let mut parked_opt: Option<Block> = None;
            core::mem::swap(&mut self.candidate_to_validate, &mut parked_opt);
            proof {
                assert(self.abs() == (MgrState { parked: None, ..s1 }));
            }
            match parked_opt {
                Some(parked) => {
                    let mut acts2 = self.process_one(parked);
                    let ghost a1 = acts.deep_view();
                    let ghost a2 = acts2.deep_view();
                    acts.append(&mut acts2);
                    proof {
                        assert(acts.deep_view() =~= a1 + a2);
                    }
                },
                None => {
                },
            }
        }
        acts
    }

    /// Moves to a new epoch. A best candidate sitting exactly one epoch
    /// behind is promoted: its shadow state becomes live, finished data
    /// requests drain, the beacon and the index record the block, the
    /// mempool drops the block's transactions, and the effects come back
    /// in commit order. Without a candidate nothing is persisted and
    /// nothing is broadcast.
    #[verifier::spinoff_prover]
    #[verifier::rlimit(100)]
    pub fn set_epoch(&mut self, epoch: Epoch) -> (r: Vec<Action>)
        requires
            old(self).wf(),
        ensures
            final(self).wf(),
            final(self).abs() == spec_set_epoch(old(self).abs(), epoch).0,
            r.deep_view() == spec_set_epoch(old(self).abs(), epoch).1,
            match (old(self).abs().chain_info, final(self).abs().chain_info) {
                (Some(a), Some(b)) => b.highest_block_checkpoint.checkpoint
                    >= a.highest_block_checkpoint.checkpoint,
                (Some(_), None) => false,
                _ => true,
            },
    {
        let ghost s0 = self.abs();
        self.current_epoch = Some(epoch);
        let mut cand_opt: Option<Candidate> = None;
        core::mem::swap(&mut self.best_candidate, &mut cand_opt);
        let mut acts: Vec<Action> = Vec::new();
        proof {
            assert(acts.deep_view() =~= Seq::<ActionV>::empty());
        }
        match cand_opt {
            Some(cand) => {
                if epoch >= 1 && cand.block.block_header.beacon.checkpoint == epoch - 1 {
                    let Candidate { block, utxo_set, data_request_pool } = cand;
                    let ep = epoch - 1;
                    let bh = block_hash(&block);
                    self.chain_state.unspent_outputs_pool = utxo_set;
                    self.chain_state.data_request_pool = data_request_pool;
                    self.chain_state.data_request_pool.update_data_request_stages(ep);
                    let drained = self.chain_state.data_request_pool.finished_data_requests();
                    self.update_transaction_pool(&block.txns);
                    self.chain_state.record_tip(ep, &bh);
                    let keep_parked = match &self.candidate_to_validate {
                        Some(p) => p.block_header.beacon.hash_prev_block.eq_hash(&bh),
                        None => false,
                    };
                    if !keep_parked {
                        self.candidate_to_validate = None;
                    }
                    proof {
                        assert(self.chain_state@.data_request_pool.to_be_stored =~= Seq::<
                            DataRequestEntryV,
                        >::empty());
                        let target = spec_set_epoch(s0, epoch).0;
                        assert(self.abs().utxo == target.utxo);
                        assert(self.abs().requests == target.requests);
                        assert(self.abs().to_be_stored == target.to_be_stored);
                        assert(self.abs().mempool == target.mempool);
                        assert(self.abs().chain_info == target.chain_info);
                        assert(self.abs().block_chain == target.block_chain);
                        assert(self.abs().parked == target.parked);
                        assert(self.abs().candidate == target.candidate);
                        assert(self.abs() == target);
                    }
                    acts.push(Action::PersistItem(InventoryItem::Block(block.dup())));
                    acts.push(Action::PersistChainState);
                    let n = drained.len();
                    let mut i: usize = 0;
                    let ghost drained_v = drained.deep_view();
                    let ghost persist_acts = drained_v.map(
                        |j: int, d: DataRequestEntryV| ActionV::PersistDataRequest(d.0, d.1),
                    );
                    let ghost base_acts = acts.deep_view();
                    proof {
                        assert(base_acts =~= seq![
                            ActionV::PersistItem(InventoryItemV::Block(block@)),
                            ActionV::PersistChainState,
                        ]);
                    }
                    while i < n
                        invariant
                            n == drained.len(),
                            i <= n,
                            drained_v == drained.deep_view(),
                            drained_v.len() == n,
                            persist_acts == drained_v.map(
                                |j: int, d: DataRequestEntryV| ActionV::PersistDataRequest(
                                    d.0,
                                    d.1,
                                ),
                            ),
                            acts.deep_view() == base_acts + persist_acts.take(i as int),
                        decreases n - i,
                    {
                        let d = &drained[i];
                        let ghost pre = acts.deep_view();
                        acts.push(Action::PersistDataRequest(d.0.dup(), d.1.dup()));
                        proof {
                            assert(drained_v[i as int] == drained@[i as int]@);
                            assert(acts.deep_view() =~= pre.push(
                                ActionV::PersistDataRequest(
                                    drained_v[i as int].0,
                                    drained_v[i as int].1,
                                ),
                            ));
                            assert(acts.deep_view() =~= base_acts + persist_acts.take(
                                i as int + 1,
                            ));
                        }
                        i += 1;
                    }
                    proof {
                        assert(persist_acts.take(n as int) =~= persist_acts);
                    }
                    let ghost pre = acts.deep_view();
                    acts.push(Action::Broadcast(InventoryItem::Block(block)));
                    proof {
                        assert(acts.deep_view() =~= pre + seq![
                            ActionV::Broadcast(InventoryItemV::Block(bv_of_promoted(s0))),
                        ]);
                    }
                } else {
                    let keep_parked = self.parked_matches_tip();
                    if !keep_parked {
                        self.candidate_to_validate = None;
                    }
                }
            },
            None => {
                let keep_parked = self.parked_matches_tip();
                if !keep_parked {
                    self.candidate_to_validate = None;
                }
            },
        }
        acts
    }

    /// Whether the parked block extends the current tip.
    fn parked_matches_tip(&self) -> (r: bool)
        ensures
            r == (match (self.abs().parked, self.abs().chain_info) {
                (Some(p), Some(ci)) => p.block_header.beacon.hash_prev_block
                    == ci.highest_block_checkpoint.hash_prev_block,
                _ => false,
            }),
    {
        match (&self.candidate_to_validate, &self.chain_state.chain_info) {
            (Some(p), Some(ci)) => p.block_header.beacon.hash_prev_block.eq_hash(
                &ci.highest_block_checkpoint.hash_prev_block,
            ),
            _ => false,
        }
    }
}

/// The block of the candidate a state holds.
pub open spec fn bv_of_promoted(s: MgrState) -> BlockV
    recommends
        s.candidate is Some,
{
    s.candidate->Some_0.block
}

/// Pruning drops exactly the named hashes: every transaction of the list
/// is gone, and nothing else appears.
pub proof fn lemma_prune_mempool_removes(
    mp: Map<Seq<u8>, TransactionV>,
    txs: Seq<TransactionV>,
    i: int,
)
    requires
        0 <= i,
    ensures
        forall|j: int|
            i <= j < txs.len() ==> !spec_prune_mempool(mp, txs, i).dom().contains(
                spec_tx_hash(#[trigger] txs[j]),
            ),
        forall|k: Seq<u8>|
            #[trigger] spec_prune_mempool(mp, txs, i).dom().contains(k) ==> mp.dom().contains(k),
    decreases txs.len() - i,
{
    if i < 0 || i >= txs.len() {
    } else {
        let h = spec_tx_hash(txs[i]);
        let mp2 = mp.remove(h);
        lemma_prune_mempool_removes(mp2, txs, i + 1);
        assert(spec_prune_mempool(mp, txs, i) == spec_prune_mempool(mp2, txs, i + 1));
        assert forall|k: Seq<u8>|
            #[trigger] spec_prune_mempool(mp, txs, i).dom().contains(k) implies mp.dom().contains(
            k,
        ) by {
            assert(mp2.dom().contains(k));
        }
        assert forall|j: int|
            i <= j < txs.len() implies !spec_prune_mempool(mp, txs, i).dom().contains(
            spec_tx_hash(#[trigger] txs[j]),
        ) by {
            if j == i {
                if spec_prune_mempool(mp, txs, i).dom().contains(h) {
                    assert(mp2.dom().contains(h));
                    assert(false);
                }
            } else {
                assert(!spec_prune_mempool(mp2, txs, i + 1).dom().contains(
                    spec_tx_hash(txs[j]),
                ));
            }
        }
    }
}

/// Mempool disjointness at a commit: right after a candidate is promoted,
/// no transaction of the promoted block is pooled any more.
pub proof fn lemma_mempool_disjoint_after_commit(s: MgrState, e: Epoch)
    requires
        s.candidate is Some,
        e >= 1,
        bv_of_promoted(s).block_header.beacon.checkpoint == e - 1,
    ensures
        forall|j: int|
            0 <= j < bv_of_promoted(s).txns.len() ==> !spec_set_epoch(
                s,
                e,
            ).0.mempool.dom().contains(spec_tx_hash(#[trigger] bv_of_promoted(s).txns[j])),
{
    lemma_prune_mempool_removes(s.mempool, bv_of_promoted(s).txns, 0);
}

/// Candidate isolation while arbitrating: a block arriving for the
/// current epoch never touches the live unspent-output set, the mempool,
/// the chain identity or the index — whether it becomes the candidate, is
/// parked, or is rejected.
pub proof fn lemma_candidate_isolation_on_arrival(s: MgrState, b: BlockV)
    requires
        s.current_epoch == Some(b.block_header.beacon.checkpoint),
    ensures
        spec_process_one(s, b).0.utxo == s.utxo,
        spec_process_one(s, b).0.mempool == s.mempool,
        spec_process_one(s, b).0.chain_info == s.chain_info,
        spec_process_one(s, b).0.block_chain == s.block_chain,
{
}

/// Candidate isolation at the epoch boundary: when no candidate is
/// promoted — none exists, or it sits at the wrong epoch — the live state
/// is exactly what it was before the candidate was created, and nothing
/// is persisted or broadcast.
pub proof fn lemma_discarded_candidate_isolation(s: MgrState, e: Epoch)
    requires
        !(s.candidate is Some && e >= 1 && bv_of_promoted(s).block_header.beacon.checkpoint == e
            - 1),
    ensures
        spec_set_epoch(s, e).0.utxo == s.utxo,
        spec_set_epoch(s, e).0.mempool == s.mempool,
        spec_set_epoch(s, e).0.chain_info == s.chain_info,
        spec_set_epoch(s, e).0.block_chain == s.block_chain,
        spec_set_epoch(s, e).0.requests == s.requests,
        spec_set_epoch(s, e).0.to_be_stored == s.to_be_stored,
        spec_set_epoch(s, e).1 == Seq::<ActionV>::empty(),
{
}

/// Index density at a commit: promoting a candidate onto a tip that does
/// not sit past it leaves the index ending exactly at the consolidated
/// epoch, in agreement with the beacon; with strictly increasing epochs
/// below it.
pub proof fn lemma_index_records_commit(s: MgrState, e: Epoch)
    requires
        s.candidate is Some,
        e >= 1,
        bv_of_promoted(s).block_header.beacon.checkpoint == e - 1,
        s.chain_info is Some,
        s.block_chain.len() == 0 || s.block_chain.last().0 <= e - 1,
    ensures
        spec_set_epoch(s, e).0.block_chain.len() > 0,
        spec_set_epoch(s, e).0.block_chain.last() == (
            (e - 1) as Epoch,
            spec_block_hash(bv_of_promoted(s)),
        ),
        crate::chain_state::block_chain_has(spec_set_epoch(s, e).0.block_chain, (e - 1) as Epoch),
        spec_set_epoch(s, e).0.chain_info matches Some(ci)
            && ci.highest_block_checkpoint.checkpoint == e - 1
            && ci.highest_block_checkpoint.hash_prev_block == spec_block_hash(bv_of_promoted(s)),
{
    let ep = (e - 1) as Epoch;
    let bh = spec_block_hash(bv_of_promoted(s));
    let bc = spec_set_epoch(s, e).0.block_chain;
    assert(bc == crate::chain_state::spec_index_insert(s.block_chain, ep, bh));
    if s.block_chain.len() == 0 || s.block_chain.last().0 < ep {
        assert(bc.last() == (ep, bh));
        assert(bc[bc.len() - 1].0 == ep);
    } else {
        assert(s.block_chain.last().0 == ep);
        assert(bc.last() == (ep, bh));
        assert(bc[bc.len() - 1].0 == ep);
    }
}

/// Whether some buffered block carries the hash.
pub open spec fn spec_known_hash(s: Seq<(Seq<u8>, BlockV)>, h: Seq<u8>) -> bool {
    exists|i: int| 0 <= i < s.len() && s[i].0 == h
}

/// The inventory entries, from position `i` on, whose hash the buffer does
/// not hold.
pub open spec fn spec_missing_entries(
    entries: Seq<InventoryEntryV>,
    keys: Seq<(Seq<u8>, BlockV)>,
    i: int,
) -> Seq<InventoryEntryV>
    decreases entries.len() - i,
{
    if i < 0 || i >= entries.len() {
        Seq::empty()
    } else {
        let rest = spec_missing_entries(entries, keys, i + 1);
        if spec_known_hash(keys, entries[i].hash()) {
            rest
        } else {
            seq![entries[i]] + rest
        }
    }
}

} // verus!
