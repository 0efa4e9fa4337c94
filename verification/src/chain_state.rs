//! The single persisted root: chain identity, the unspent-output set, the
//! active data-request pool and the canonical block index.
use vstd::prelude::*;

use crate::chain::{ChainInfo, ChainInfoV, Dup, Epoch};
use crate::data_request::DataRequestPool;
use crate::utxo::UnspentOutputsPool;
use vstd::pervasive::VecAdditionalExecFns;

verus! {

/// The index after recording that `epoch` consolidated `hash`: appended
/// past the end, overwritten at the end, and left alone anywhere below.
pub open spec fn spec_index_insert(
    s: Seq<(Epoch, Seq<u8>)>,
    epoch: Epoch,
    hash: Seq<u8>,
) -> Seq<(Epoch, Seq<u8>)> {
    if s.len() == 0 || s.last().0 < epoch {
        s.push((epoch, hash))
    } else if s.last().0 == epoch {
        s.update(s.len() - 1, (epoch, hash))
    } else {
        s
    }
}

/// One consolidated epoch and the hash of its block.
pub type BlockChainEntryV = (Epoch, Seq<u8>);

/// Epochs strictly increase along the index.
pub open spec fn block_chain_wf(s: Seq<BlockChainEntryV>) -> bool {
    forall|i: int, j: int| 0 <= i < j < s.len() ==> s[i].0 < s[j].0
}

/// Some entry carries the epoch.
pub open spec fn block_chain_has(s: Seq<BlockChainEntryV>, e: Epoch) -> bool {
    exists|i: int| 0 <= i < s.len() && s[i].0 == e
}

/// The blockchain state managed and persisted by the chain manager.
#[derive(Clone, Debug, PartialEq, Eq)]
pub struct ChainState {
    pub chain_info: Option<ChainInfo>,
    pub unspent_outputs_pool: UnspentOutputsPool,
    pub data_request_pool: DataRequestPool,
    pub block_chain: Vec<(Epoch, crate::chain::Hash)>,
}

pub struct ChainStateV {
    pub chain_info: Option<ChainInfoV>,
    pub unspent_outputs_pool: <UnspentOutputsPool as View>::V,
    pub data_request_pool: <DataRequestPool as View>::V,
    pub block_chain: Seq<BlockChainEntryV>,
}

impl View for ChainState {
    type V = ChainStateV;

    open spec fn view(&self) -> ChainStateV {
        ChainStateV {
            chain_info: self.chain_info.deep_view(),
            unspent_outputs_pool: self.unspent_outputs_pool@,
            data_request_pool: self.data_request_pool@,
            block_chain: self.block_chain.deep_view(),
        }
    }
}

impl DeepView for ChainState {
    type V = ChainStateV;

    open spec fn deep_view(&self) -> ChainStateV {
        self@
    }
}

impl ChainState {
    /// Pools well formed, index strictly increasing.
    pub open spec fn wf(&self) -> bool {
        &&& self.unspent_outputs_pool.wf()
        &&& self.data_request_pool.wf()
        &&& block_chain_wf(self@.block_chain)
    }

    /// The state a node boots from when the store holds nothing: no chain
    /// identity, empty pools, empty index.
    pub fn genesis() -> (r: ChainState)
        ensures
            r.wf(),
            r@.chain_info is None,
            r@.unspent_outputs_pool.len() == 0,
            r@.data_request_pool.requests.len() == 0,
            r@.data_request_pool.to_be_stored.len() == 0,
            r@.block_chain.len() == 0,
    {
        ChainState {
            chain_info: None,
            unspent_outputs_pool: UnspentOutputsPool::new(),
            data_request_pool: DataRequestPool::new(),
            block_chain: Vec::new(),
        }
    }

    /// Records that the block with this hash was consolidated at this
    /// epoch: the beacon moves there, and the index learns the entry. A
    /// state without chain identity keeps none of it.
    pub fn record_tip(&mut self, epoch: Epoch, hash: &crate::chain::Hash)
        requires
            old(self).wf(),
        ensures
            final(self).wf(),
            final(self)@.unspent_outputs_pool == old(self)@.unspent_outputs_pool,
            final(self).unspent_outputs_pool == old(self).unspent_outputs_pool,
            final(self)@.data_request_pool == old(self)@.data_request_pool,
            final(self).data_request_pool == old(self).data_request_pool,
            match old(self)@.chain_info {
                Some(ci) => final(self)@.chain_info == Some(
                    crate::chain::ChainInfoV {
                        highest_block_checkpoint: crate::chain::CheckpointBeaconV {
                            checkpoint: epoch,
                            hash_prev_block: hash@,
                        },
                        ..ci
                    },
                ) && final(self)@.block_chain == spec_index_insert(
                    old(self)@.block_chain,
                    epoch,
                    hash@,
                ),
                None => final(self)@.chain_info is None && final(self)@.block_chain == old(
                    self,
                )@.block_chain,
            },
    {
        let mut info: Option<ChainInfo> = None;
        core::mem::swap(&mut self.chain_info, &mut info);
        match info {
            Some(ci) => {
                let ChainInfo { environment, consensus_constants, highest_block_checkpoint: _ } =
                    ci;
                self.chain_info = Some(
                    ChainInfo {
                        environment,
                        consensus_constants,
                        highest_block_checkpoint: crate::chain::CheckpointBeacon {
                            checkpoint: epoch,
                            hash_prev_block: hash.dup(),
                        },
                    },
                );
                let n = self.block_chain.len();
                let ghost pre = self@.block_chain;
                if n == 0 {
                    self.block_chain.push((epoch, hash.dup()));
                    proof {
                        assert(self@.block_chain =~= pre.push((epoch, hash@)));
                    }
                } else {
                    let last_epoch = self.block_chain[n - 1].0;
                    if last_epoch < epoch {
                        self.block_chain.push((epoch, hash.dup()));
                        proof {
                            assert(self@.block_chain =~= pre.push((epoch, hash@)));
                            assert forall|i: int, j: int|
                                0 <= i < j < self@.block_chain.len() implies self@.block_chain[i].0
                                < self@.block_chain[j].0 by {
                                if j < self@.block_chain.len() - 1 {
                                    assert(pre[i].0 < pre[j].0);
                                } else if i < self@.block_chain.len() - 1 {
                                    if i < pre.len() - 1 {
                                        assert(pre[i].0 < pre[pre.len() - 1].0);
                                    }
                                }
                            }
                        }
                    } else if last_epoch == epoch {
                        self.block_chain.set(n - 1, (epoch, hash.dup()));
                        proof {
                            assert(self@.block_chain =~= pre.update(
                                pre.len() - 1,
                                (epoch, hash@),
                            ));
                            assert forall|i: int, j: int|
                                0 <= i < j < self@.block_chain.len() implies self@.block_chain[i].0
                                < self@.block_chain[j].0 by {
                                assert(pre[i].0 < pre[j].0);
                            }
                        }
                    } else {
                    }
                }
            },
            None => {
            },
        }
    }

    /// The hash consolidated at the epoch, if the index holds that epoch.
    pub fn get_hash_by_epoch(&self, epoch: Epoch) -> (r: Option<crate::chain::Hash>)
        ensures
            r matches Some(h) ==> exists|i: int|
                0 <= i < self@.block_chain.len() && self@.block_chain[i] == (epoch, h@),
            r is None ==> !block_chain_has(self@.block_chain, epoch),
    {
        let n = self.block_chain.len();
        let mut i: usize = 0;
        while i < n
            invariant
                n == self.block_chain.len(),
                i <= n,
                forall|j: int| 0 <= j < i ==> self@.block_chain[j].0 != epoch,
            decreases n - i,
        {
            if self.block_chain[i].0 == epoch {
                let h = self.block_chain[i].1.dup();
                proof {
                    assert(self@.block_chain[i as int] == (epoch, h@));
                }
                return Some(h);
            }
            i += 1;
        }
        None
    }
}

} // verus!
