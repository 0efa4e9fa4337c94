//! End-to-end scenarios for the chain manager: tie-breaking, orphan
//! resolution, double-spend rejection, mempool cleanup, the data-request
//! lifecycle and cold boot.
use chain_manager::chain::{
    Block, BlockHeader, CheckpointBeacon, ChainInfo, CommitOutput, ConsensusConstants, Environment,
    Input, InputKind, InventoryEntry, LeadershipProof, Output, OutputPointer, RevealOutput,
    TallyOutput, Transaction, ValueTransferOutput, DataRequestOutput,
};
use chain_manager::chain_manager::{Action, ChainManager};
use chain_manager::chain_state::ChainState;
use chain_manager::data_request::{DataRequestPool, DataRequestStage};
use chain_manager::hashing::{block_hash, merkle_root, tx_hash};
use chain_manager::utxo::UnspentOutputsPool;

fn hash_of(bytes: Vec<u8>) -> chain_manager::chain::Hash {
    chain_manager::chain::Hash { bytes }
}

fn vt_output(value: u64) -> Output {
    Output::ValueTransfer(ValueTransferOutput { pkh: vec![7; 20], value })
}

fn mint(value: u64) -> Transaction {
    Transaction { version: 0, inputs: Vec::new(), outputs: vec![vt_output(value)], signatures: Vec::new() }
}

fn vt_input(txid: chain_manager::chain::Hash, index: u32) -> Input {
    Input { kind: InputKind::ValueTransfer, transaction_id: txid, output_index: index }
}

fn make_block(epoch: u32, prev: chain_manager::chain::Hash, txns: Vec<Transaction>) -> Block {
    let root = merkle_root(&txns);
    Block {
        block_header: BlockHeader {
            version: 1,
            beacon: CheckpointBeacon { checkpoint: epoch, hash_prev_block: prev },
            hash_merkle_root: root,
        },
        proof: LeadershipProof { block_sig: None, influence: 0 },
        txns,
    }
}

fn chain_info_at(epoch: u32, tip: chain_manager::chain::Hash) -> ChainInfo {
    ChainInfo {
        environment: Environment::Mainnet,
        consensus_constants: ConsensusConstants {
            checkpoint_zero_timestamp: 0,
            checkpoints_period: 45,
            genesis_hash: hash_of(vec![9; 32]),
            max_block_weight: 10000,
        },
        highest_block_checkpoint: CheckpointBeacon { checkpoint: epoch, hash_prev_block: tip },
    }
}

fn manager_with_tip(epoch: u32, tip: chain_manager::chain::Hash) -> ChainManager {
    let cs = ChainState {
        chain_info: Some(chain_info_at(epoch, tip)),
        unspent_outputs_pool: UnspentOutputsPool::new(),
        data_request_pool: DataRequestPool::new(),
        block_chain: Vec::new(),
    };
    ChainManager::new(cs, hash_of(vec![9; 32]), 10000, false, 100, 1000)
}

fn tip_of(mgr: &ChainManager) -> CheckpointBeacon {
    mgr.get_tip_beacon().expect("the chain identity is set")
}

#[test]
fn tie_break_promotes_the_lower_hash() {
    let tip = hash_of(vec![5; 32]);
    let mut mgr = manager_with_tip(6, tip.clone());
    mgr.set_epoch(7);
    let b1 = make_block(7, tip.clone(), vec![mint(1)]);
    let b2 = make_block(7, tip.clone(), vec![mint(2)]);
    let h1 = block_hash(&b1);
    let h2 = block_hash(&b2);
    let expected = if h1.lt_hash(&h2) { h1.clone() } else { h2.clone() };
    mgr.process_block(b1);
    mgr.process_block(b2);
    let winner = block_hash(&mgr.best_candidate.as_ref().expect("one candidate won").block);
    assert_eq!(winner, expected);
    let acts = mgr.set_epoch(8);
    let beacon = tip_of(&mgr);
    assert_eq!(beacon.checkpoint, 7);
    assert_eq!(beacon.hash_prev_block, expected);
    assert!(acts.iter().any(|a| matches!(a, Action::PersistChainState)));
    assert!(acts.iter().any(|a| matches!(a, Action::Broadcast(_))));
}

#[test]
fn orphan_is_parked_then_refed() {
    let h5 = hash_of(vec![5; 32]);
    let mut mgr = manager_with_tip(5, h5.clone());
    mgr.synced = true;
    mgr.set_epoch(7);
    let b6 = make_block(6, h5.clone(), vec![mint(1)]);
    let h6 = block_hash(&b6);
    let b7 = make_block(7, h6.clone(), vec![mint(2)]);
    let h7 = block_hash(&b7);

    let acts = mgr.process_block(b7);
    assert!(mgr.candidate_to_validate.is_some());
    assert!(mgr.best_candidate.is_none());
    assert!(acts.iter().any(|a| match a {
        Action::RequestBlock(InventoryEntry::Block(h)) => h.eq_hash(&h6),
        _ => false,
    }));

    mgr.process_block(b6);
    assert_eq!(tip_of(&mgr).checkpoint, 6);
    assert_eq!(tip_of(&mgr).hash_prev_block, h6);
    let refed = mgr.best_candidate.as_ref().expect("the parked block was re-fed");
    assert_eq!(block_hash(&refed.block), h7);
    assert!(mgr.candidate_to_validate.is_none());

    mgr.set_epoch(8);
    assert_eq!(tip_of(&mgr).checkpoint, 7);
    assert_eq!(tip_of(&mgr).hash_prev_block, h7);
}

#[test]
fn double_spend_in_one_block_is_rejected() {
    let tip = hash_of(vec![5; 32]);
    let mut mgr = manager_with_tip(0, tip.clone());
    let funding = hash_of(vec![8; 32]);
    let pointer = OutputPointer { transaction_id: funding.clone(), output_index: 0 };
    mgr.chain_state.unspent_outputs_pool.insert(pointer, vt_output(100));
    mgr.set_epoch(1);
    let spend1 = Transaction {
        version: 0,
        inputs: vec![vt_input(funding.clone(), 0)],
        outputs: vec![vt_output(40)],
        signatures: Vec::new(),
    };
    let spend2 = Transaction {
        version: 1,
        inputs: vec![vt_input(funding.clone(), 0)],
        outputs: vec![vt_output(30)],
        signatures: Vec::new(),
    };
    let block = make_block(1, tip, vec![mint(1), spend1, spend2]);
    let acts = mgr.process_block(block);
    assert!(mgr.best_candidate.is_none());
    assert!(acts.is_empty());
    assert_eq!(mgr.chain_state.unspent_outputs_pool.len(), 1);
}

#[test]
fn promoted_block_cleans_the_mempool() {
    let tip = hash_of(vec![5; 32]);
    let mut mgr = manager_with_tip(0, tip.clone());
    let funding = hash_of(vec![8; 32]);
    mgr.chain_state.unspent_outputs_pool.insert(
        OutputPointer { transaction_id: funding.clone(), output_index: 0 },
        vt_output(100),
    );
    mgr.set_epoch(1);
    let ta = Transaction { version: 10, inputs: Vec::new(), outputs: vec![vt_output(1)], signatures: Vec::new() };
    let tb = Transaction {
        version: 11,
        inputs: vec![vt_input(funding.clone(), 0)],
        outputs: vec![vt_output(90)],
        signatures: Vec::new(),
    };
    let tc = Transaction { version: 12, inputs: Vec::new(), outputs: vec![vt_output(3)], signatures: Vec::new() };
    let (ha, hb, hc) = (tx_hash(&ta), tx_hash(&tb), tx_hash(&tc));
    mgr.transactions_pool.insert(ha.clone(), ta);
    mgr.transactions_pool.insert(hb.clone(), tb.clone());
    mgr.transactions_pool.insert(hc.clone(), tc);
    assert_eq!(mgr.transactions_pool.len(), 3);

    let block = make_block(1, tip, vec![mint(1), tb]);
    mgr.process_block(block);
    assert!(mgr.best_candidate.is_some());
    mgr.set_epoch(2);
    assert!(mgr.transactions_pool.contains(&ha));
    assert!(!mgr.transactions_pool.contains(&hb));
    assert!(mgr.transactions_pool.contains(&hc));
    assert_eq!(mgr.transactions_pool.len(), 2);
}

#[test]
fn data_request_lifecycle_reaches_the_drain() {
    let mut pool = DataRequestPool::new();
    let dr_out = DataRequestOutput {
        pkh: vec![1; 20],
        value: 10,
        witnesses: 2,
        backup_witnesses: 0,
        commit_deadline: 12,
        reveal_deadline: 14,
        tally_deadline: 15,
    };
    let create = Transaction {
        version: 0,
        inputs: Vec::new(),
        outputs: vec![Output::DataRequest(dr_out)],
        signatures: Vec::new(),
    };
    let create_hash = tx_hash(&create);
    pool.process_transaction(&create, &create_hash, 10);
    assert_eq!(pool.requests.len(), 1);
    assert_eq!(pool.requests[0].1.stage, DataRequestStage::WaitingCommits);

    let commit_a = Transaction {
        version: 1,
        inputs: vec![Input {
            kind: InputKind::DataRequest,
            transaction_id: create_hash.clone(),
            output_index: 0,
        }],
        outputs: vec![Output::Commit(CommitOutput { commitment: hash_of(vec![3; 32]), value: 1 })],
        signatures: Vec::new(),
    };
    let commit_a_hash = tx_hash(&commit_a);
    pool.process_transaction(&commit_a, &commit_a_hash, 11);
    let commit_b = Transaction {
        version: 2,
        inputs: vec![Input {
            kind: InputKind::DataRequest,
            transaction_id: create_hash.clone(),
            output_index: 0,
        }],
        outputs: vec![Output::Commit(CommitOutput { commitment: hash_of(vec![4; 32]), value: 1 })],
        signatures: Vec::new(),
    };
    let commit_b_hash = tx_hash(&commit_b);
    pool.process_transaction(&commit_b, &commit_b_hash, 11);
    assert_eq!(pool.requests[0].1.commits.len(), 2);

    assert_eq!(pool.data_requests_by_epoch(12).len(), 1);
    assert!(pool.data_requests_by_epoch(13).is_empty());
    assert!(pool.waiting_for_reveal(&pool.requests[0].0.clone()).is_none());

    pool.update_data_request_stages(12);
    assert_eq!(pool.requests[0].1.stage, DataRequestStage::WaitingReveals);
    let expected_revealers = pool
        .waiting_for_reveal(&pool.requests[0].0.clone())
        .expect("a request collecting reveals lists its commits");
    assert_eq!(expected_revealers.len(), 2);
    assert_eq!(expected_revealers[0].transaction_id, commit_a_hash);
    assert_eq!(pool.data_requests_by_epoch(14).len(), 1);

    let reveal = Transaction {
        version: 3,
        inputs: vec![Input {
            kind: InputKind::Commit,
            transaction_id: commit_a_hash.clone(),
            output_index: 0,
        }],
        outputs: vec![Output::Reveal(RevealOutput { pkh: vec![2; 20], reveal: vec![42], value: 1 })],
        signatures: Vec::new(),
    };
    let reveal_hash = tx_hash(&reveal);
    pool.process_transaction(&reveal, &reveal_hash, 13);
    assert_eq!(pool.requests[0].1.reveals.len(), 1);

    let resolved = pool
        .dr_pointer_of_commit(&OutputPointer {
            transaction_id: commit_a_hash.clone(),
            output_index: 0,
        })
        .expect("a commit resolves to its request");
    assert_eq!(resolved.transaction_id, create_hash);

    pool.update_data_request_stages(14);
    assert_eq!(pool.requests[0].1.stage, DataRequestStage::WaitingTally);

    let tally = Transaction {
        version: 4,
        inputs: vec![Input {
            kind: InputKind::Reveal,
            transaction_id: reveal_hash.clone(),
            output_index: 0,
        }],
        outputs: vec![Output::Tally(TallyOutput { pkh: vec![2; 20], result: vec![42], value: 1 })],
        signatures: Vec::new(),
    };
    let tally_hash = tx_hash(&tally);
    pool.process_transaction(&tally, &tally_hash, 15);
    assert!(pool.requests[0].1.tally.is_some());

    pool.update_data_request_stages(15);
    assert_eq!(pool.requests.len(), 0);
    let drained = pool.finished_data_requests();
    assert_eq!(drained.len(), 1);
    assert_eq!(drained[0].1.stage, DataRequestStage::Finished);
    assert!(drained[0].1.tally.is_some());
    assert!(pool.finished_data_requests().is_empty());
}

#[test]
fn pool_process_block_scans_every_transaction() {
    let mut pool = DataRequestPool::new();
    let dr_out = DataRequestOutput {
        pkh: vec![1; 20],
        value: 10,
        witnesses: 1,
        backup_witnesses: 0,
        commit_deadline: 3,
        reveal_deadline: 4,
        tally_deadline: 5,
    };
    let create = Transaction {
        version: 0,
        inputs: Vec::new(),
        outputs: vec![Output::DataRequest(dr_out)],
        signatures: Vec::new(),
    };
    let create_hash = tx_hash(&create);
    let commit = Transaction {
        version: 1,
        inputs: vec![Input {
            kind: InputKind::DataRequest,
            transaction_id: create_hash.clone(),
            output_index: 0,
        }],
        outputs: vec![Output::Commit(CommitOutput { commitment: hash_of(vec![3; 32]), value: 1 })],
        signatures: Vec::new(),
    };
    let block = make_block(2, hash_of(vec![0; 32]), vec![mint(1), create, commit]);
    pool.process_block(&block, 2);
    assert_eq!(pool.requests.len(), 1);
    assert_eq!(pool.requests[0].0.transaction_id, create_hash);
    assert_eq!(pool.requests[0].1.commits.len(), 1);
    assert_eq!(pool.requests[0].1.epoch_created, 2);
}

#[test]
fn cold_boot_starts_empty_and_stays_quiet() {
    let cs = ChainState::genesis();
    assert!(cs.chain_info.is_none());
    let mut mgr = ChainManager::new(cs, hash_of(vec![9; 32]), 10000, false, 100, 1000);
    assert_eq!(mgr.chain_state.unspent_outputs_pool.len(), 0);
    assert_eq!(mgr.transactions_pool.len(), 0);
    assert!(mgr.chain_state.block_chain.is_empty());
    let acts = mgr.set_epoch(1);
    assert!(acts.is_empty());
    assert!(mgr.get_tip_beacon().is_none());
    assert!(mgr.best_candidate.is_none());
}

#[test]
fn future_and_stale_blocks_are_ignored() {
    let tip = hash_of(vec![5; 32]);
    let mut mgr = manager_with_tip(6, tip.clone());
    mgr.set_epoch(7);
    let future = make_block(9, tip.clone(), vec![mint(1)]);
    assert!(mgr.process_block(future).is_empty());
    assert!(mgr.best_candidate.is_none());
    let stale = make_block(3, tip.clone(), vec![mint(1)]);
    assert!(mgr.process_block(stale).is_empty());
    assert!(mgr.best_candidate.is_none());
}

#[test]
fn bad_merkle_root_is_ignored() {
    let tip = hash_of(vec![5; 32]);
    let mut mgr = manager_with_tip(6, tip.clone());
    mgr.set_epoch(7);
    let mut block = make_block(7, tip, vec![mint(1)]);
    block.block_header.hash_merkle_root = hash_of(vec![222; 32]);
    assert!(mgr.process_block(block).is_empty());
    assert!(mgr.best_candidate.is_none());
}

#[test]
fn add_transaction_validates_against_live_utxo() {
    let tip = hash_of(vec![5; 32]);
    let mut mgr = manager_with_tip(0, tip);
    let funding = hash_of(vec![8; 32]);
    mgr.chain_state.unspent_outputs_pool.insert(
        OutputPointer { transaction_id: funding.clone(), output_index: 0 },
        vt_output(100),
    );
    let good = Transaction {
        version: 0,
        inputs: vec![vt_input(funding.clone(), 0)],
        outputs: vec![vt_output(60)],
        signatures: Vec::new(),
    };
    assert!(mgr.add_transaction(good.clone()));
    assert!(mgr.transactions_pool.contains(&tx_hash(&good)));
    assert_eq!(mgr.chain_state.unspent_outputs_pool.len(), 1);

    let overdrawn = Transaction {
        version: 1,
        inputs: vec![vt_input(funding.clone(), 0)],
        outputs: vec![vt_output(600)],
        signatures: Vec::new(),
    };
    assert!(!mgr.add_transaction(overdrawn.clone()));
    assert!(!mgr.transactions_pool.contains(&tx_hash(&overdrawn)));

    let unfunded = Transaction {
        version: 2,
        inputs: vec![vt_input(hash_of(vec![1; 32]), 9)],
        outputs: vec![vt_output(1)],
        signatures: Vec::new(),
    };
    assert!(!mgr.add_transaction(unfunded));
}

#[test]
fn discard_known_inventory_keeps_only_missing() {
    let tip = hash_of(vec![5; 32]);
    let mut mgr = manager_with_tip(0, tip);
    let known = hash_of(vec![1; 32]);
    let unknown = hash_of(vec![2; 32]);
    mgr.blocks_to_validate.push((
        known.clone(),
        make_block(1, hash_of(vec![0; 32]), vec![mint(1)]),
    ));
    let missing = mgr.discard_existing_inventory_entries(vec![
        InventoryEntry::Block(known.clone()),
        InventoryEntry::Tx(unknown.clone()),
    ]);
    assert_eq!(missing.len(), 1);
    assert!(missing[0].hash().eq_hash(&unknown));
}

#[test]
fn sync_tick_controls_the_mine_flag() {
    let tip = hash_of(vec![5; 32]);
    let mut mgr = manager_with_tip(0, tip);
    let (acts, next) = mgr.sync_tick(100);
    assert!(matches!(acts[0], Action::InventoryExchange));
    assert_eq!(next, 100);
    assert!(!mgr.mine);

    mgr.synced = true;
    let (_, next) = mgr.sync_tick(100);
    assert_eq!(next, 1000);
    assert!(!mgr.mine);
    let (_, next) = mgr.sync_tick(next);
    assert_eq!(next, 1000);
    assert!(mgr.mine);
}

#[test]
fn valid_spend_chain_updates_the_utxo() {
    let tip = hash_of(vec![5; 32]);
    let mut mgr = manager_with_tip(0, tip.clone());
    let funding = hash_of(vec![8; 32]);
    mgr.chain_state.unspent_outputs_pool.insert(
        OutputPointer { transaction_id: funding.clone(), output_index: 0 },
        vt_output(100),
    );
    mgr.set_epoch(1);
    let spend = Transaction {
        version: 0,
        inputs: vec![vt_input(funding.clone(), 0)],
        outputs: vec![vt_output(70), vt_output(20)],
        signatures: Vec::new(),
    };
    let spend_hash = tx_hash(&spend);
    let block = make_block(1, tip, vec![mint(5), spend]);
    mgr.process_block(block);
    assert!(mgr.best_candidate.is_some());
    mgr.set_epoch(2);
    let utxo = &mgr.chain_state.unspent_outputs_pool;
    assert!(utxo
        .get(&OutputPointer { transaction_id: funding, output_index: 0 })
        .is_none());
    assert!(utxo
        .get(&OutputPointer { transaction_id: spend_hash.clone(), output_index: 0 })
        .is_some());
    assert!(utxo
        .get(&OutputPointer { transaction_id: spend_hash, output_index: 1 })
        .is_some());
    assert_eq!(mgr.chain_state.block_chain.len(), 1);
    assert_eq!(mgr.chain_state.block_chain[0].0, 1);
}
