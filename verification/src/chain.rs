//! Chain data model: hashes, checkpoints, transactions, blocks and the
//! inventory vocabulary exchanged with peers and stores.
use vstd::prelude::*;

verus! {

/// An epoch: a fixed-duration slot in which at most one block is consolidated.
pub type Epoch = u32;

/// A content digest, totally ordered by byte lexicography (used for
/// candidate tie-breaking).
#[derive(Clone, Debug, PartialEq, Eq)]
pub struct Hash {
    pub bytes: Vec<u8>,
}

impl View for Hash {
    type V = Seq<u8>;

    open spec fn view(&self) -> Seq<u8> {
        self.bytes@
    }
}

impl DeepView for Hash {
    type V = Seq<u8>;

    open spec fn deep_view(&self) -> Seq<u8> {
        self.bytes@
    }
}

/// Lexicographic byte order on digests.
pub open spec fn lex_lt(a: Seq<u8>, b: Seq<u8>) -> bool
    decreases a.len(),
{
    if b.len() == 0 {
        false
    } else if a.len() == 0 {
        true
    } else if a[0] < b[0] {
        true
    } else if a[0] > b[0] {
        false
    } else {
        lex_lt(a.drop_first(), b.drop_first())
    }
}

impl Hash {
    /// Byte-for-byte equality of two digests.
    pub fn eq_hash(&self, other: &Hash) -> (r: bool)
        ensures
            r == (self@ == other@),
    {
        bytes_eq(&self.bytes, &other.bytes)
    }

    /// Strict lexicographic order, the candidate tie-break relation.
    pub fn lt_hash(&self, other: &Hash) -> (r: bool)
        ensures
            r == lex_lt(self@, other@),
    {
        proof {
            assert(self@.skip(0) =~= self@);
            assert(other@.skip(0) =~= other@);
        }
        bytes_lt(&self.bytes, &other.bytes, 0)
    }
}

/// A copy whose abstract value is the same as the original's.
///
/// Verus learns nothing from the impls that `derive(Clone)` writes, so the
/// types of this crate duplicate themselves through this trait instead.
pub trait Dup: View + Sized {
    /// A copy with the same abstract value.
    fn dup(&self) -> (r: Self)
        ensures
            r@ == self@,
    ;
}

impl Dup for Hash {
    fn dup(&self) -> (r: Hash)
        ensures
            r@ == self@,
    {
        Hash { bytes: clone_bytes(&self.bytes) }
    }
}

/// A copy of a byte string with the same contents.
pub fn clone_bytes(v: &Vec<u8>) -> (r: Vec<u8>)
    ensures
        r@ == v@,
{
    let r = v.clone();
    proof {
        assert forall|i: int| 0 <= i < v@.len() implies r@[i] == v@[i] by {
            assert(cloned::<u8>(v@[i], r@[i]));
        }
        assert(r@ =~= v@);
    }
    r
}

/// Byte-for-byte equality of two byte strings.
pub fn bytes_eq(a: &Vec<u8>, b: &Vec<u8>) -> (r: bool)
    ensures
        r == (a@ == b@),
{
    if a.len() != b.len() {
        assert(a@ != b@);
        return false;
    }
    let n = a.len();
    let mut i: usize = 0;
    while i < n
        invariant
            n == a.len() == b.len(),
            i <= n,
            forall|j: int| 0 <= j < i ==> a@[j] == b@[j],
        decreases n - i,
    {
        if a[i] != b[i] {
            return false;
        }
        i += 1;
    }
    proof {
        assert(a@ =~= b@);
    }
    true
}

fn bytes_lt(a: &Vec<u8>, b: &Vec<u8>, from: usize) -> (r: bool)
    requires
        from <= a.len(),
        from <= b.len(),
    ensures
        r == lex_lt(a@.skip(from as int), b@.skip(from as int)),
    decreases a.len() - from,
{
    if from == b.len() {
        assert(b@.skip(from as int).len() == 0);
        false
    } else if from == a.len() {
        assert(a@.skip(from as int).len() == 0);
        assert(b@.skip(from as int).len() > 0);
        true
    } else {
        assert(a@.skip(from as int)[0] == a@[from as int]);
        assert(b@.skip(from as int)[0] == b@[from as int]);
        if a[from] < b[from] {
            true
        } else if a[from] > b[from] {
            false
        } else {
            let r = bytes_lt(a, b, from + 1);
            proof {
                assert(a@.skip(from as int).drop_first() =~= a@.skip(from as int + 1));
                assert(b@.skip(from as int).drop_first() =~= b@.skip(from as int + 1));
            }
            r
        }
    }
}

/// The tip marker exchanged in handshakes: the consolidated epoch and the
/// hash of the block consolidated there.
#[derive(Clone, Debug, PartialEq, Eq)]
pub struct CheckpointBeacon {
    pub checkpoint: Epoch,
    pub hash_prev_block: Hash,
}

pub struct CheckpointBeaconV {
    pub checkpoint: Epoch,
    pub hash_prev_block: Seq<u8>,
}

impl View for CheckpointBeacon {
    type V = CheckpointBeaconV;

    open spec fn view(&self) -> CheckpointBeaconV {
        CheckpointBeaconV { checkpoint: self.checkpoint, hash_prev_block: self.hash_prev_block@ }
    }
}

impl DeepView for CheckpointBeacon {
    type V = CheckpointBeaconV;

    open spec fn deep_view(&self) -> CheckpointBeaconV {
        self@
    }
}

/// Unique key into the unspent-output set: a transaction and one of its
/// output slots.
#[derive(Clone, Debug, PartialEq, Eq)]
pub struct OutputPointer {
    pub transaction_id: Hash,
    pub output_index: u32,
}

pub struct OutputPointerV {
    pub transaction_id: Seq<u8>,
    pub output_index: u32,
}

impl View for OutputPointer {
    type V = OutputPointerV;

    open spec fn view(&self) -> OutputPointerV {
        OutputPointerV {
            transaction_id: self.transaction_id@,
            output_index: self.output_index,
        }
    }
}

impl DeepView for OutputPointer {
    type V = OutputPointerV;

    open spec fn deep_view(&self) -> OutputPointerV {
        self@
    }
}

impl OutputPointer {
    /// Structural equality of pointers.
    pub fn eq_pointer(&self, other: &OutputPointer) -> (r: bool)
        ensures
            r == (self@ == other@),
    {
        self.output_index == other.output_index && self.transaction_id.eq_hash(
            &other.transaction_id,
        )
    }
}

/// The role an input plays in the data-request lifecycle.
#[derive(Clone, Copy, Debug, PartialEq, Eq, Structural)]
pub enum InputKind {
    ValueTransfer,
    Commit,
    Reveal,
    DataRequest,
}

/// A transaction input: a tagged reference to an unspent output.
#[derive(Clone, Debug, PartialEq, Eq)]
pub struct Input {
    pub kind: InputKind,
    pub transaction_id: Hash,
    pub output_index: u32,
}

pub struct InputV {
    pub kind: InputKind,
    pub transaction_id: Seq<u8>,
    pub output_index: u32,
}

impl View for Input {
    type V = InputV;

    open spec fn view(&self) -> InputV {
        InputV {
            kind: self.kind,
            transaction_id: self.transaction_id@,
            output_index: self.output_index,
        }
    }
}

impl DeepView for Input {
    type V = InputV;

    open spec fn deep_view(&self) -> InputV {
        self@
    }
}

impl InputV {
    /// The unspent output this input consumes.
    pub open spec fn pointer(self) -> OutputPointerV {
        OutputPointerV { transaction_id: self.transaction_id, output_index: self.output_index }
    }
}

impl Input {
    /// The unspent output this input consumes.
    pub fn pointer(&self) -> (r: OutputPointer)
        ensures
            r@ == self@.pointer(),
    {
        OutputPointer {
            transaction_id: self.transaction_id.dup(),
            output_index: self.output_index,
        }
    }
}

/// A plain transfer of value to a public key hash.
#[derive(Clone, Debug, PartialEq, Eq)]
pub struct ValueTransferOutput {
    pub pkh: Vec<u8>,
    pub value: u64,
}

/// An output that opens a data request and fixes its lifecycle deadlines.
#[derive(Clone, Debug, PartialEq, Eq)]
pub struct DataRequestOutput {
    pub pkh: Vec<u8>,
    pub value: u64,
    pub witnesses: u16,
    pub backup_witnesses: u16,
    pub commit_deadline: Epoch,
    pub reveal_deadline: Epoch,
    pub tally_deadline: Epoch,
}

/// A witness's sealed commitment for a data request.
#[derive(Clone, Debug, PartialEq, Eq)]
pub struct CommitOutput {
    pub commitment: Hash,
    pub value: u64,
}

/// A witness's opened reveal for a data request.
#[derive(Clone, Debug, PartialEq, Eq)]
pub struct RevealOutput {
    pub pkh: Vec<u8>,
    pub reveal: Vec<u8>,
    pub value: u64,
}

/// The aggregated result that closes a data request.
#[derive(Clone, Debug, PartialEq, Eq)]
pub struct TallyOutput {
    pub pkh: Vec<u8>,
    pub result: Vec<u8>,
    pub value: u64,
}

/// A transaction output, tagged by its role.
#[derive(Clone, Debug, PartialEq, Eq)]
pub enum Output {
    ValueTransfer(ValueTransferOutput),
    DataRequest(DataRequestOutput),
    Commit(CommitOutput),
    Reveal(RevealOutput),
    Tally(TallyOutput),
}

pub struct ValueTransferOutputV {
    pub pkh: Seq<u8>,
    pub value: u64,
}

pub struct DataRequestOutputV {
    pub pkh: Seq<u8>,
    pub value: u64,
    pub witnesses: u16,
    pub backup_witnesses: u16,
    pub commit_deadline: Epoch,
    pub reveal_deadline: Epoch,
    pub tally_deadline: Epoch,
}

pub struct CommitOutputV {
    pub commitment: Seq<u8>,
    pub value: u64,
}

pub struct RevealOutputV {
    pub pkh: Seq<u8>,
    pub reveal: Seq<u8>,
    pub value: u64,
}

pub struct TallyOutputV {
    pub pkh: Seq<u8>,
    pub result: Seq<u8>,
    pub value: u64,
}

pub enum OutputV {
    ValueTransfer(ValueTransferOutputV),
    DataRequest(DataRequestOutputV),
    Commit(CommitOutputV),
    Reveal(RevealOutputV),
    Tally(TallyOutputV),
}

impl View for ValueTransferOutput {
    type V = ValueTransferOutputV;

    open spec fn view(&self) -> ValueTransferOutputV {
        ValueTransferOutputV { pkh: self.pkh@, value: self.value }
    }
}

impl DeepView for ValueTransferOutput {
    type V = ValueTransferOutputV;

    open spec fn deep_view(&self) -> ValueTransferOutputV {
        self@
    }
}

impl View for DataRequestOutput {
    type V = DataRequestOutputV;

    open spec fn view(&self) -> DataRequestOutputV {
        DataRequestOutputV {
            pkh: self.pkh@,
            value: self.value,
            witnesses: self.witnesses,
            backup_witnesses: self.backup_witnesses,
            commit_deadline: self.commit_deadline,
            reveal_deadline: self.reveal_deadline,
            tally_deadline: self.tally_deadline,
        }
    }
}

impl DeepView for DataRequestOutput {
    type V = DataRequestOutputV;

    open spec fn deep_view(&self) -> DataRequestOutputV {
        self@
    }
}

impl View for CommitOutput {
    type V = CommitOutputV;

    open spec fn view(&self) -> CommitOutputV {
        CommitOutputV { commitment: self.commitment@, value: self.value }
    }
}

impl DeepView for CommitOutput {
    type V = CommitOutputV;

    open spec fn deep_view(&self) -> CommitOutputV {
        self@
    }
}

impl View for RevealOutput {
    type V = RevealOutputV;

    open spec fn view(&self) -> RevealOutputV {
        RevealOutputV { pkh: self.pkh@, reveal: self.reveal@, value: self.value }
    }
}

impl DeepView for RevealOutput {
    type V = RevealOutputV;

    open spec fn deep_view(&self) -> RevealOutputV {
        self@
    }
}

impl View for TallyOutput {
    type V = TallyOutputV;

    open spec fn view(&self) -> TallyOutputV {
        TallyOutputV { pkh: self.pkh@, result: self.result@, value: self.value }
    }
}

impl DeepView for TallyOutput {
    type V = TallyOutputV;

    open spec fn deep_view(&self) -> TallyOutputV {
        self@
    }
}

impl View for Output {
    type V = OutputV;

    open spec fn view(&self) -> OutputV {
        match self {
            Output::ValueTransfer(o) => OutputV::ValueTransfer(o@),
            Output::DataRequest(o) => OutputV::DataRequest(o@),
            Output::Commit(o) => OutputV::Commit(o@),
            Output::Reveal(o) => OutputV::Reveal(o@),
            Output::Tally(o) => OutputV::Tally(o@),
        }
    }
}

impl DeepView for Output {
    type V = OutputV;

    open spec fn deep_view(&self) -> OutputV {
        self@
    }
}

impl OutputV {
    /// The value carried by an output, whatever its role.
    pub open spec fn value(self) -> u64 {
        match self {
            OutputV::ValueTransfer(o) => o.value,
            OutputV::DataRequest(o) => o.value,
            OutputV::Commit(o) => o.value,
            OutputV::Reveal(o) => o.value,
            OutputV::Tally(o) => o.value,
        }
    }
}

impl Output {
    /// The value carried by an output, whatever its role.
    pub fn value(&self) -> (r: u64)
        ensures
            r == self@.value(),
    {
        match self {
            Output::ValueTransfer(o) => o.value,
            Output::DataRequest(o) => o.value,
            Output::Commit(o) => o.value,
            Output::Reveal(o) => o.value,
            Output::Tally(o) => o.value,
        }
    }
}

/// A secp256k1 signature.
#[derive(Clone, Debug, PartialEq, Eq)]
pub struct Signature {
    pub r: Vec<u8>,
    pub s: Vec<u8>,
    pub v: u8,
}

pub struct SignatureV {
    pub r: Seq<u8>,
    pub s: Seq<u8>,
    pub v: u8,
}

impl View for Signature {
    type V = SignatureV;

    open spec fn view(&self) -> SignatureV {
        SignatureV { r: self.r@, s: self.s@, v: self.v }
    }
}

impl DeepView for Signature {
    type V = SignatureV;

    open spec fn deep_view(&self) -> SignatureV {
        self@
    }
}

/// A signature together with the public key that produced it.
#[derive(Clone, Debug, PartialEq, Eq)]
pub struct KeyedSignature {
    pub public_key: Vec<u8>,
    pub signature: Signature,
}

pub struct KeyedSignatureV {
    pub public_key: Seq<u8>,
    pub signature: SignatureV,
}

impl View for KeyedSignature {
    type V = KeyedSignatureV;

    open spec fn view(&self) -> KeyedSignatureV {
        KeyedSignatureV { public_key: self.public_key@, signature: self.signature@ }
    }
}

impl DeepView for KeyedSignature {
    type V = KeyedSignatureV;

    open spec fn deep_view(&self) -> KeyedSignatureV {
        self@
    }
}

/// A transaction: ordered inputs, ordered outputs and their signatures.
#[derive(Clone, Debug, PartialEq, Eq)]
pub struct Transaction {
    pub version: u32,
    pub inputs: Vec<Input>,
    pub outputs: Vec<Output>,
    pub signatures: Vec<KeyedSignature>,
}

pub struct TransactionV {
    pub version: u32,
    pub inputs: Seq<InputV>,
    pub outputs: Seq<OutputV>,
    pub signatures: Seq<KeyedSignatureV>,
}

impl View for Transaction {
    type V = TransactionV;

    open spec fn view(&self) -> TransactionV {
        TransactionV {
            version: self.version,
            inputs: self.inputs.deep_view(),
            outputs: self.outputs.deep_view(),
            signatures: self.signatures.deep_view(),
        }
    }
}

impl DeepView for Transaction {
    type V = TransactionV;

    open spec fn deep_view(&self) -> TransactionV {
        self@
    }
}

/// Proof that the proposer was entitled to propose at the block's epoch.
#[derive(Clone, Debug, PartialEq, Eq)]
pub struct LeadershipProof {
    pub block_sig: Option<Signature>,
    pub influence: u64,
}

pub struct LeadershipProofV {
    pub block_sig: Option<SignatureV>,
    pub influence: u64,
}

impl View for LeadershipProof {
    type V = LeadershipProofV;

    open spec fn view(&self) -> LeadershipProofV {
        LeadershipProofV { block_sig: self.block_sig.deep_view(), influence: self.influence }
    }
}

impl DeepView for LeadershipProof {
    type V = LeadershipProofV;

    open spec fn deep_view(&self) -> LeadershipProofV {
        self@
    }
}

/// A block header; the block's identity is the digest of its canonical
/// encoding.
#[derive(Clone, Debug, PartialEq, Eq)]
pub struct BlockHeader {
    pub version: u32,
    pub beacon: CheckpointBeacon,
    pub hash_merkle_root: Hash,
}

pub struct BlockHeaderV {
    pub version: u32,
    pub beacon: CheckpointBeaconV,
    pub hash_merkle_root: Seq<u8>,
}

impl View for BlockHeader {
    type V = BlockHeaderV;

    open spec fn view(&self) -> BlockHeaderV {
        BlockHeaderV {
            version: self.version,
            beacon: self.beacon@,
            hash_merkle_root: self.hash_merkle_root@,
        }
    }
}

impl DeepView for BlockHeader {
    type V = BlockHeaderV;

    open spec fn deep_view(&self) -> BlockHeaderV {
        self@
    }
}

/// A block: header, eligibility proof and the ordered transactions.
#[derive(Clone, Debug, PartialEq, Eq)]
pub struct Block {
    pub block_header: BlockHeader,
    pub proof: LeadershipProof,
    pub txns: Vec<Transaction>,
}

pub struct BlockV {
    pub block_header: BlockHeaderV,
    pub proof: LeadershipProofV,
    pub txns: Seq<TransactionV>,
}

impl View for Block {
    type V = BlockV;

    open spec fn view(&self) -> BlockV {
        BlockV {
            block_header: self.block_header@,
            proof: self.proof@,
            txns: self.txns.deep_view(),
        }
    }
}

impl DeepView for Block {
    type V = BlockV;

    open spec fn deep_view(&self) -> BlockV {
        self@
    }
}

/// A reference to an item a peer may hold, by hash.
#[derive(Clone, Debug, PartialEq, Eq)]
pub enum InventoryEntry {
    Error(Hash),
    Tx(Hash),
    Block(Hash),
    DataRequest(Hash),
    DataResult(Hash),
}

pub enum InventoryEntryV {
    Error(Seq<u8>),
    Tx(Seq<u8>),
    Block(Seq<u8>),
    DataRequest(Seq<u8>),
    DataResult(Seq<u8>),
}

impl View for InventoryEntry {
    type V = InventoryEntryV;

    open spec fn view(&self) -> InventoryEntryV {
        match self {
            InventoryEntry::Error(h) => InventoryEntryV::Error(h@),
            InventoryEntry::Tx(h) => InventoryEntryV::Tx(h@),
            InventoryEntry::Block(h) => InventoryEntryV::Block(h@),
            InventoryEntry::DataRequest(h) => InventoryEntryV::DataRequest(h@),
            InventoryEntry::DataResult(h) => InventoryEntryV::DataResult(h@),
        }
    }
}

impl DeepView for InventoryEntry {
    type V = InventoryEntryV;

    open spec fn deep_view(&self) -> InventoryEntryV {
        self@
    }
}

impl InventoryEntryV {
    /// The hash carried by an inventory entry, whatever its tag.
    pub open spec fn hash(self) -> Seq<u8> {
        match self {
            InventoryEntryV::Error(h) => h,
            InventoryEntryV::Tx(h) => h,
            InventoryEntryV::Block(h) => h,
            InventoryEntryV::DataRequest(h) => h,
            InventoryEntryV::DataResult(h) => h,
        }
    }
}

impl InventoryEntry {
    /// The hash carried by an inventory entry, whatever its tag.
    pub fn hash(&self) -> (r: &Hash)
        ensures
            r@ == self@.hash(),
    {
        match self {
            InventoryEntry::Error(h) => h,
            InventoryEntry::Tx(h) => h,
            InventoryEntry::Block(h) => h,
            InventoryEntry::DataRequest(h) => h,
            InventoryEntry::DataResult(h) => h,
        }
    }
}

/// An item held by the inventory store.
#[derive(Clone, Debug, PartialEq, Eq)]
pub enum InventoryItem {
    Block(Block),
    Transaction(Transaction),
}

pub enum InventoryItemV {
    Block(BlockV),
    Transaction(TransactionV),
}

impl View for InventoryItem {
    type V = InventoryItemV;

    open spec fn view(&self) -> InventoryItemV {
        match self {
            InventoryItem::Block(b) => InventoryItemV::Block(b@),
            InventoryItem::Transaction(t) => InventoryItemV::Transaction(t@),
        }
    }
}

impl DeepView for InventoryItem {
    type V = InventoryItemV;

    open spec fn deep_view(&self) -> InventoryItemV {
        self@
    }
}

/// The network a chain lives on.
#[derive(Clone, Copy, Debug, PartialEq, Eq, Structural)]
pub enum Environment {
    Mainnet,
    Testnet1,
}

/// The configuration snapshot a chain is validated under.
#[derive(Clone, Debug, PartialEq, Eq)]
pub struct ConsensusConstants {
    pub checkpoint_zero_timestamp: u64,
    pub checkpoints_period: u32,
    pub genesis_hash: Hash,
    pub max_block_weight: u32,
}

pub struct ConsensusConstantsV {
    pub checkpoint_zero_timestamp: u64,
    pub checkpoints_period: u32,
    pub genesis_hash: Seq<u8>,
    pub max_block_weight: u32,
}

impl View for ConsensusConstants {
    type V = ConsensusConstantsV;

    open spec fn view(&self) -> ConsensusConstantsV {
        ConsensusConstantsV {
            checkpoint_zero_timestamp: self.checkpoint_zero_timestamp,
            checkpoints_period: self.checkpoints_period,
            genesis_hash: self.genesis_hash@,
            max_block_weight: self.max_block_weight,
        }
    }
}

impl DeepView for ConsensusConstants {
    type V = ConsensusConstantsV;

    open spec fn deep_view(&self) -> ConsensusConstantsV {
        self@
    }
}

/// The chain's identity and its highest consolidated checkpoint.
#[derive(Clone, Debug, PartialEq, Eq)]
pub struct ChainInfo {
    pub environment: Environment,
    pub consensus_constants: ConsensusConstants,
    pub highest_block_checkpoint: CheckpointBeacon,
}

pub struct ChainInfoV {
    pub environment: Environment,
    pub consensus_constants: ConsensusConstantsV,
    pub highest_block_checkpoint: CheckpointBeaconV,
}

impl View for ChainInfo {
    type V = ChainInfoV;

    open spec fn view(&self) -> ChainInfoV {
        ChainInfoV {
            environment: self.environment,
            consensus_constants: self.consensus_constants@,
            highest_block_checkpoint: self.highest_block_checkpoint@,
        }
    }
}

impl DeepView for ChainInfo {
    type V = ChainInfoV;

    open spec fn deep_view(&self) -> ChainInfoV {
        self@
    }
}

/// An element-wise copy of a vector of duplicable values.
pub fn dup_vec<T: Dup>(v: &Vec<T>) -> (r: Vec<T>)
    ensures
        r@.len() == v@.len(),
        forall|i: int| 0 <= i < v@.len() ==> #[trigger] r@[i]@ == v@[i]@,
{
    let mut r: Vec<T> = Vec::new();
    let n = v.len();
    let mut i: usize = 0;
    while i < n
        invariant
            n == v.len(),
            i <= n,
            r@.len() == i,
            forall|j: int| 0 <= j < i ==> #[trigger] r@[j]@ == v@[j]@,
        decreases n - i,
    {
        r.push(v[i].dup());
        i += 1;
    }
    r
}

impl<A: Dup, B: Dup> Dup for (A, B) {
    fn dup(&self) -> (r: (A, B))
        ensures
            r@ == self@,
    {
        (self.0.dup(), self.1.dup())
    }
}

impl Dup for OutputPointer {
    fn dup(&self) -> (r: OutputPointer)
        ensures
            r@ == self@,
    {
        OutputPointer {
            transaction_id: self.transaction_id.dup(),
            output_index: self.output_index,
        }
    }
}

impl Dup for Input {
    fn dup(&self) -> (r: Input)
        ensures
            r@ == self@,
    {
        Input {
            kind: self.kind,
            transaction_id: self.transaction_id.dup(),
            output_index: self.output_index,
        }
    }
}

impl Dup for ValueTransferOutput {
    fn dup(&self) -> (r: ValueTransferOutput)
        ensures
            r@ == self@,
    {
        ValueTransferOutput { pkh: clone_bytes(&self.pkh), value: self.value }
    }
}

impl Dup for DataRequestOutput {
    fn dup(&self) -> (r: DataRequestOutput)
        ensures
            r@ == self@,
    {
        DataRequestOutput {
            pkh: clone_bytes(&self.pkh),
            value: self.value,
            witnesses: self.witnesses,
            backup_witnesses: self.backup_witnesses,
            commit_deadline: self.commit_deadline,
            reveal_deadline: self.reveal_deadline,
            tally_deadline: self.tally_deadline,
        }
    }
}

impl Dup for CommitOutput {
    fn dup(&self) -> (r: CommitOutput)
        ensures
            r@ == self@,
    {
        CommitOutput { commitment: self.commitment.dup(), value: self.value }
    }
}

impl Dup for RevealOutput {
    fn dup(&self) -> (r: RevealOutput)
        ensures
            r@ == self@,
    {
        RevealOutput {
            pkh: clone_bytes(&self.pkh),
            reveal: clone_bytes(&self.reveal),
            value: self.value,
        }
    }
}

impl Dup for TallyOutput {
    fn dup(&self) -> (r: TallyOutput)
        ensures
            r@ == self@,
    {
        TallyOutput {
            pkh: clone_bytes(&self.pkh),
            result: clone_bytes(&self.result),
            value: self.value,
        }
    }
}

impl Dup for Output {
    fn dup(&self) -> (r: Output)
        ensures
            r@ == self@,
    {
        match self {
            Output::ValueTransfer(o) => Output::ValueTransfer(o.dup()),
            Output::DataRequest(o) => Output::DataRequest(o.dup()),
            Output::Commit(o) => Output::Commit(o.dup()),
            Output::Reveal(o) => Output::Reveal(o.dup()),
            Output::Tally(o) => Output::Tally(o.dup()),
        }
    }
}

impl Dup for Signature {
    fn dup(&self) -> (r: Signature)
        ensures
            r@ == self@,
    {
        Signature { r: clone_bytes(&self.r), s: clone_bytes(&self.s), v: self.v }
    }
}

impl Dup for KeyedSignature {
    fn dup(&self) -> (r: KeyedSignature)
        ensures
            r@ == self@,
    {
        KeyedSignature {
            public_key: clone_bytes(&self.public_key),
            signature: self.signature.dup(),
        }
    }
}

impl Dup for Transaction {
    fn dup(&self) -> (r: Transaction)
        ensures
            r@ == self@,
    {
        let r = Transaction {
            version: self.version,
            inputs: dup_vec(&self.inputs),
            outputs: dup_vec(&self.outputs),
            signatures: dup_vec(&self.signatures),
        };
        proof {
            assert(r.inputs.deep_view() =~= self.inputs.deep_view());
            assert(r.outputs.deep_view() =~= self.outputs.deep_view());
            assert(r.signatures.deep_view() =~= self.signatures.deep_view());
        }
        r
    }
}

impl Dup for LeadershipProof {
    fn dup(&self) -> (r: LeadershipProof)
        ensures
            r@ == self@,
    {
        let sig = match &self.block_sig {
            Some(s) => Some(s.dup()),
            None => None,
        };
        LeadershipProof { block_sig: sig, influence: self.influence }
    }
}

impl Dup for CheckpointBeacon {
    fn dup(&self) -> (r: CheckpointBeacon)
        ensures
            r@ == self@,
    {
        CheckpointBeacon {
            checkpoint: self.checkpoint,
            hash_prev_block: self.hash_prev_block.dup(),
        }
    }
}

impl Dup for BlockHeader {
    fn dup(&self) -> (r: BlockHeader)
        ensures
            r@ == self@,
    {
        BlockHeader {
            version: self.version,
            beacon: self.beacon.dup(),
            hash_merkle_root: self.hash_merkle_root.dup(),
        }
    }
}

impl Dup for Block {
    fn dup(&self) -> (r: Block)
        ensures
            r@ == self@,
    {
        let r = Block {
            block_header: self.block_header.dup(),
            proof: self.proof.dup(),
            txns: dup_vec(&self.txns),
        };
        proof {
            assert(r.txns.deep_view() =~= self.txns.deep_view());
        }
        r
    }
}

impl Dup for InventoryEntry {
    fn dup(&self) -> (r: InventoryEntry)
        ensures
            r@ == self@,
    {
        match self {
            InventoryEntry::Error(h) => InventoryEntry::Error(h.dup()),
            InventoryEntry::Tx(h) => InventoryEntry::Tx(h.dup()),
            InventoryEntry::Block(h) => InventoryEntry::Block(h.dup()),
            InventoryEntry::DataRequest(h) => InventoryEntry::DataRequest(h.dup()),
            InventoryEntry::DataResult(h) => InventoryEntry::DataResult(h.dup()),
        }
    }
}

impl Dup for InventoryItem {
    fn dup(&self) -> (r: InventoryItem)
        ensures
            r@ == self@,
    {
        match self {
            InventoryItem::Block(b) => InventoryItem::Block(b.dup()),
            InventoryItem::Transaction(t) => InventoryItem::Transaction(t.dup()),
        }
    }
}

impl Dup for ConsensusConstants {
    fn dup(&self) -> (r: ConsensusConstants)
        ensures
            r@ == self@,
    {
        ConsensusConstants {
            checkpoint_zero_timestamp: self.checkpoint_zero_timestamp,
            checkpoints_period: self.checkpoints_period,
            genesis_hash: self.genesis_hash.dup(),
            max_block_weight: self.max_block_weight,
        }
    }
}

impl Dup for ChainInfo {
    fn dup(&self) -> (r: ChainInfo)
        ensures
            r@ == self@,
    {
        ChainInfo {
            environment: self.environment,
            consensus_constants: self.consensus_constants.dup(),
            highest_block_checkpoint: self.highest_block_checkpoint.dup(),
        }
    }
}

} // verus!
