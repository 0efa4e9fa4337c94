//! Round trips of the persisted encoding, identity hashing, and the
//! reward schedule.
use chain_manager::chain::{
    CheckpointBeacon, ChainInfo, ConsensusConstants, Environment, Output, OutputPointer,
    ValueTransferOutput,
};
use chain_manager::chain_state::ChainState;
use chain_manager::codec;
use chain_manager::data_request::DataRequestPool;
use chain_manager::utxo::UnspentOutputsPool;
use chain_manager::validations::block_reward;

fn hash_of(bytes: Vec<u8>) -> chain_manager::chain::Hash {
    chain_manager::chain::Hash { bytes }
}

fn zero_hash() -> chain_manager::chain::Hash {
    hash_of(vec![0; 32])
}

fn sample_utxo() -> UnspentOutputsPool {
    let mut utxo = UnspentOutputsPool::new();
    utxo.insert(
        OutputPointer {
            transaction_id: hash_of(vec![
                191, 75, 125, 95, 27, 78, 216, 89, 168, 222, 88, 21, 171, 139, 44, 170, 127, 120,
                139, 142, 98, 209, 129, 129, 16, 52, 0, 62, 43, 116, 67, 245,
            ]),
            output_index: 0,
        },
        Output::ValueTransfer(ValueTransferOutput { pkh: vec![0; 20], value: 50000000000 }),
    );
    utxo
}

fn testnet_chain_info() -> ChainInfo {
    ChainInfo {
        environment: Environment::Testnet1,
        consensus_constants: ConsensusConstants {
            checkpoint_zero_timestamp: 1546427376,
            checkpoints_period: 10,
            genesis_hash: zero_hash(),
            max_block_weight: 10000,
        },
        highest_block_checkpoint: CheckpointBeacon {
            checkpoint: 122533,
            hash_prev_block: hash_of(vec![
                239, 173, 3, 247, 9, 44, 43, 68, 13, 51, 67, 110, 79, 191, 165, 135, 157, 167,
                155, 126, 49, 39, 120, 119, 206, 75, 15, 74, 97, 167, 220, 214,
            ]),
        },
    }
}

fn roundtrip(cs: &ChainState) -> ChainState {
    let bytes = codec::encode_chain_state(cs);
    codec::decode_chain_state(&bytes).expect("a freshly encoded chain state decodes")
}

#[test]
fn empty_chain_state_to_bytes() {
    let chain_state = ChainState::genesis();
    assert_eq!(roundtrip(&chain_state), chain_state);
}

#[test]
fn chain_state_to_bytes() {
    let chain_state = ChainState {
        chain_info: Some(ChainInfo {
            environment: Environment::Mainnet,
            consensus_constants: ConsensusConstants {
                checkpoint_zero_timestamp: 0,
                checkpoints_period: 0,
                genesis_hash: zero_hash(),
                max_block_weight: 0,
            },
            highest_block_checkpoint: CheckpointBeacon {
                checkpoint: 0,
                hash_prev_block: zero_hash(),
            },
        }),
        unspent_outputs_pool: UnspentOutputsPool::new(),
        data_request_pool: DataRequestPool::new(),
        block_chain: Vec::new(),
    };
    assert_eq!(roundtrip(&chain_state), chain_state);
}

#[test]
fn chain_state_with_chain_info_to_bytes() {
    let chain_state = ChainState {
        chain_info: Some(testnet_chain_info()),
        unspent_outputs_pool: UnspentOutputsPool::new(),
        data_request_pool: DataRequestPool::new(),
        block_chain: Vec::new(),
    };
    assert_eq!(roundtrip(&chain_state), chain_state);
}

#[test]
fn chain_state_with_utxo_to_bytes() {
    let chain_state = ChainState {
        chain_info: Some(testnet_chain_info()),
        unspent_outputs_pool: sample_utxo(),
        data_request_pool: DataRequestPool::new(),
        block_chain: Vec::new(),
    };
    assert_eq!(roundtrip(&chain_state), chain_state);
}

#[test]
fn utxo_to_bytes() {
    let utxo = sample_utxo();
    let mut bytes: Vec<u8> = Vec::new();
    codec::write_vec_of(&mut bytes, &utxo.entries);
    let (entries, end): (Vec<(OutputPointer, Output)>, usize) =
        codec::read_vec_of(&bytes, 0).expect("encoded entries decode");
    assert_eq!(end, bytes.len());
    assert_eq!(entries, utxo.entries);
}

#[test]
fn output_pointer_to_bytes() {
    let output_pointer = OutputPointer {
        transaction_id: hash_of(vec![
            191, 75, 125, 95, 27, 78, 216, 89, 168, 222, 88, 21, 171, 139, 44, 170, 127, 120,
            139, 142, 98, 209, 129, 129, 16, 52, 0, 62, 43, 116, 67, 245,
        ]),
        output_index: 0,
    };
    let bytes = codec::encode_pointer(&output_pointer);
    let (decoded, end) = codec::read_pointer(&bytes, 0).expect("an encoded pointer decodes");
    assert_eq!(end, bytes.len());
    assert_eq!(decoded, output_pointer);
}

#[test]
fn output_to_bytes() {
    let output = Output::ValueTransfer(ValueTransferOutput {
        pkh: vec![0; 20],
        value: 50000000000,
    });
    let mut bytes: Vec<u8> = Vec::new();
    codec::write_output(&mut bytes, &output);
    let (decoded, end) = codec::read_output(&bytes, 0).expect("an encoded output decodes");
    assert_eq!(end, bytes.len());
    assert_eq!(decoded, output);
}

#[test]
fn chain_state_with_block_chain_roundtrip() {
    let chain_state = ChainState {
        chain_info: Some(testnet_chain_info()),
        unspent_outputs_pool: sample_utxo(),
        data_request_pool: DataRequestPool::new(),
        block_chain: vec![(1, hash_of(vec![1; 32])), (2, hash_of(vec![2; 32]))],
    };
    assert_eq!(roundtrip(&chain_state), chain_state);
}

#[test]
fn truncated_chain_state_is_rejected() {
    let chain_state = ChainState::genesis();
    let mut bytes = codec::encode_chain_state(&chain_state);
    bytes.pop();
    assert!(codec::decode_chain_state(&bytes).is_none());
}

#[test]
fn trailing_bytes_are_rejected() {
    let chain_state = ChainState::genesis();
    let mut bytes = codec::encode_chain_state(&chain_state);
    bytes.push(0);
    assert!(codec::decode_chain_state(&bytes).is_none());
}

#[test]
fn sha256_known_answers() {
    let empty = chain_manager::hashing::sha256(&Vec::new());
    assert_eq!(
        empty.bytes,
        vec![
            0xe3, 0xb0, 0xc4, 0x42, 0x98, 0xfc, 0x1c, 0x14, 0x9a, 0xfb, 0xf4, 0xc8, 0x99, 0x6f,
            0xb9, 0x24, 0x27, 0xae, 0x41, 0xe4, 0x64, 0x9b, 0x93, 0x4c, 0xa4, 0x95, 0x99, 0x1b,
            0x78, 0x52, 0xb8, 0x55,
        ]
    );
    let abc = chain_manager::hashing::sha256(&vec![b'a', b'b', b'c']);
    assert_eq!(
        abc.bytes,
        vec![
            0xba, 0x78, 0x16, 0xbf, 0x8f, 0x01, 0xcf, 0xea, 0x41, 0x41, 0x40, 0xde, 0x5d, 0xae,
            0x22, 0x23, 0xb0, 0x03, 0x61, 0xa3, 0x96, 0x17, 0x7a, 0x9c, 0xb4, 0x10, 0xff, 0x61,
            0xf2, 0x00, 0x15, 0xad,
        ]
    );
}

#[test]
fn block_reward_halves_on_schedule() {
    assert_eq!(block_reward(0), 50_000_000_000);
    assert_eq!(block_reward(1_749_999), 50_000_000_000);
    assert_eq!(block_reward(1_750_000), 25_000_000_000);
    assert_eq!(block_reward(3_500_000), 12_500_000_000);
    assert!(block_reward(4_000_000) <= block_reward(2_000_000));
}

#[test]
fn hash_order_is_lexicographic() {
    let low = hash_of(vec![1; 32]);
    let high = hash_of(vec![3; 32]);
    assert!(low.lt_hash(&high));
    assert!(!high.lt_hash(&low));
    assert!(!low.lt_hash(&low));
    assert!(low.eq_hash(&low));
    assert!(!low.eq_hash(&high));
}
