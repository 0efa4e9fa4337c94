//! The validation kernel: pure checks of transactions and blocks against an
//! unspent-output set, and the block-reward schedule. Nothing here touches
//! live state; callers hand in shadow copies.
use vstd::prelude::*;

use crate::chain::{Block, Dup, Epoch, Input, InputV, Output, OutputPointer, OutputPointerV, OutputV, Transaction, TransactionV};
use crate::data_request::DataRequestPool;
use crate::hashing::{spec_tx_hash, tx_hash};
use crate::mempool::TransactionsPool;
use crate::utxo::UnspentOutputsPool;

verus! {

/// The block reward at epoch zero, in the smallest unit.
pub const INITIAL_BLOCK_REWARD: u64 = 50_000_000_000;

/// How many epochs pass between two halvings of the reward.
pub const HALVING_PERIOD: u32 = 1_750_000;

/// The deterministic, non-increasing reward schedule: the initial reward,
/// halved once per elapsed halving period.
pub open spec fn spec_block_reward(epoch: Epoch) -> u64 {
    let h = epoch / HALVING_PERIOD;
    if h >= 64 {
        0u64
    } else {
        INITIAL_BLOCK_REWARD >> h
    }
}

/// The reward a block consolidated at this epoch may mint.
pub fn block_reward(epoch: Epoch) -> (r: u64)
    ensures
        r == spec_block_reward(epoch),
{
    let h = epoch / HALVING_PERIOD;
    if h >= 64 {
        0
    } else {
        INITIAL_BLOCK_REWARD >> h
    }
}

/// The reward schedule never grows with the epoch.
pub proof fn lemma_block_reward_monotone(e1: Epoch, e2: Epoch)
    requires
        e1 <= e2,
    ensures
        spec_block_reward(e1) >= spec_block_reward(e2),
{
    let h1 = e1 / HALVING_PERIOD;
    let h2 = e2 / HALVING_PERIOD;
    assert(h1 <= h2) by (nonlinear_arith)
        requires
            e1 <= e2,
            h1 == e1 / HALVING_PERIOD,
            h2 == e2 / HALVING_PERIOD,
            HALVING_PERIOD > 0,
    {}
    if h2 >= 64 {
    } else {
        assert(h1 <= h2 < 64 ==> (INITIAL_BLOCK_REWARD >> h1) >= (INITIAL_BLOCK_REWARD >> h2))
            by (bit_vector);
    }
}

/// Whether the inputs, spent left to right, each find their pointer still
/// unspent.
pub open spec fn spec_spend_ok(
    m: Map<OutputPointerV, OutputV>,
    inputs: Seq<InputV>,
    i: int,
) -> bool
    decreases inputs.len() - i,
{
    if i < 0 || i >= inputs.len() {
        true
    } else {
        let p = inputs[i].pointer();
        m.dom().contains(p) && spec_spend_ok(m.remove(p), inputs, i + 1)
    }
}

/// The set after spending the inputs, left to right.
pub open spec fn spec_after_spend(
    m: Map<OutputPointerV, OutputV>,
    inputs: Seq<InputV>,
    i: int,
) -> Map<OutputPointerV, OutputV>
    decreases inputs.len() - i,
{
    if i < 0 || i >= inputs.len() {
        m
    } else {
        spec_after_spend(m.remove(inputs[i].pointer()), inputs, i + 1)
    }
}

/// The value consumed by the inputs, spent left to right; an input whose
/// pointer is already gone consumes nothing (such a spend is invalid
/// anyway).
pub open spec fn spec_sum_in(
    m: Map<OutputPointerV, OutputV>,
    inputs: Seq<InputV>,
    i: int,
) -> int
    decreases inputs.len() - i,
{
    if i < 0 || i >= inputs.len() {
        0
    } else {
        let p = inputs[i].pointer();
        (if m.dom().contains(p) {
            m[p].value() as int
        } else {
            0
        }) + spec_sum_in(m.remove(p), inputs, i + 1)
    }
}

/// The value produced by the outputs from position `i` on.
pub open spec fn spec_sum_out(outs: Seq<OutputV>, i: int) -> int
    decreases outs.len() - i,
{
    if i < 0 || i >= outs.len() {
        0
    } else {
        outs[i].value() as int + spec_sum_out(outs, i + 1)
    }
}

/// The set after adding one entry per output of a transaction.
pub open spec fn spec_insert_outputs(
    m: Map<OutputPointerV, OutputV>,
    txh: Seq<u8>,
    outs: Seq<OutputV>,
    i: int,
) -> Map<OutputPointerV, OutputV>
    decreases outs.len() - i,
{
    if i < 0 || i >= outs.len() {
        m
    } else {
        spec_insert_outputs(
            m.insert(OutputPointerV { transaction_id: txh, output_index: i as u32 }, outs[i]),
            txh,
            outs,
            i + 1,
        )
    }
}

/// A non-mint transaction is valid against a set when every input finds its
/// pointer unspent and the value consumed covers the value produced.
pub open spec fn spec_valid_tx(m: Map<OutputPointerV, OutputV>, tx: TransactionV) -> bool {
    spec_spend_ok(m, tx.inputs, 0) && spec_sum_in(m, tx.inputs, 0) >= spec_sum_out(tx.outputs, 0)
}

/// The set after applying a transaction: inputs removed, one entry per
/// output inserted.
pub open spec fn spec_apply_tx(
    m: Map<OutputPointerV, OutputV>,
    tx: TransactionV,
) -> Map<OutputPointerV, OutputV> {
    spec_insert_outputs(spec_after_spend(m, tx.inputs, 0), spec_tx_hash(tx), tx.outputs, 0)
}

/// Whether the transactions from position `i` on are each valid on the set
/// left by their predecessors.
pub open spec fn spec_txs_valid(
    m: Map<OutputPointerV, OutputV>,
    txs: Seq<TransactionV>,
    i: int,
) -> bool
    decreases txs.len() - i,
{
    if i < 0 || i >= txs.len() {
        true
    } else {
        spec_valid_tx(m, txs[i]) && spec_txs_valid(spec_apply_tx(m, txs[i]), txs, i + 1)
    }
}

/// The set after applying the transactions from position `i` on.
pub open spec fn spec_apply_txs(
    m: Map<OutputPointerV, OutputV>,
    txs: Seq<TransactionV>,
    i: int,
) -> Map<OutputPointerV, OutputV>
    decreases txs.len() - i,
{
    if i < 0 || i >= txs.len() {
        m
    } else {
        spec_apply_txs(spec_apply_tx(m, txs[i]), txs, i + 1)
    }
}

/// The fees collected by the transactions from position `i` on: what each
/// consumes beyond what it produces, on the set left by its predecessors.
pub open spec fn spec_fees(
    m: Map<OutputPointerV, OutputV>,
    txs: Seq<TransactionV>,
    i: int,
) -> int
    decreases txs.len() - i,
{
    if i < 0 || i >= txs.len() {
        0
    } else {
        (spec_sum_in(m, txs[i].inputs, 0) - spec_sum_out(txs[i].outputs, 0)) + spec_fees(
            spec_apply_tx(m, txs[i]),
            txs,
            i + 1,
        )
    }
}

/// A block's transactions are valid when the first is a mint (no inputs),
/// every later one is valid in sequence, and the mint's value stays within
/// the epoch's reward plus the fees the block collects.
pub open spec fn spec_block_valid(
    m: Map<OutputPointerV, OutputV>,
    epoch: Epoch,
    txs: Seq<TransactionV>,
) -> bool {
    &&& txs.len() >= 1
    &&& txs[0].inputs.len() == 0
    &&& spec_txs_valid(spec_apply_tx(m, txs[0]), txs, 1)
    &&& spec_sum_out(txs[0].outputs, 0) <= spec_block_reward(epoch) + spec_fees(
        spec_apply_tx(m, txs[0]),
        txs,
        1,
    )
}

/// The set a block leaves behind: every transaction applied, left to right.
pub open spec fn spec_apply_block(
    m: Map<OutputPointerV, OutputV>,
    txs: Seq<TransactionV>,
) -> Map<OutputPointerV, OutputV> {
    spec_apply_txs(m, txs, 0)
}

/// Every output slot of every transaction must be addressable by a 32-bit
/// index.
pub open spec fn block_outputs_bounded(txs: Seq<TransactionV>) -> bool {
    forall|i: int| 0 <= i < txs.len() ==> (#[trigger] txs[i].outputs).len() <= 0xffff_ffff
}

/// Spends the inputs left to right; on success the pool has lost exactly
/// those entries and the consumed value is returned.
fn spend_inputs(utxo: &mut UnspentOutputsPool, inputs: &Vec<Input>) -> (r: (bool, u128))
    requires
        old(utxo).wf(),
    ensures
        final(utxo).wf(),
        r.0 == spec_spend_ok(old(utxo).as_map(), inputs.deep_view(), 0),
        r.0 ==> final(utxo).as_map() == spec_after_spend(old(utxo).as_map(), inputs.deep_view(), 0)
            && r.1 == spec_sum_in(old(utxo).as_map(), inputs.deep_view(), 0),
{
    let ghost dv = inputs.deep_view();
    let ghost m0 = old(utxo).as_map();
    let n = inputs.len();
    let mut sum: u128 = 0;
    let mut i: usize = 0;
    while i < n
        invariant
            utxo.wf(),
            n == inputs.len(),
            i <= n,
            dv == inputs.deep_view(),
            dv.len() == n,
            m0 == old(utxo).as_map(),
            sum <= i * 0xffff_ffff_ffff_ffffu128,
            spec_spend_ok(m0, dv, 0) == spec_spend_ok(utxo.as_map(), dv, i as int),
            spec_spend_ok(utxo.as_map(), dv, i as int) ==> spec_after_spend(m0, dv, 0)
                == spec_after_spend(utxo.as_map(), dv, i as int),
            spec_spend_ok(utxo.as_map(), dv, i as int) ==> spec_sum_in(m0, dv, 0) == sum
                + spec_sum_in(utxo.as_map(), dv, i as int),
        decreases n - i,
    {
        let p = inputs[i].pointer();
        proof {
            assert(dv[i as int] == inputs@[i as int]@);
            assert(p@ == dv[i as int].pointer());
        }
        let v = match utxo.get(&p) {
            None => {
                proof {
                    assert(!utxo.as_map().dom().contains(dv[i as int].pointer()));
                    assert(!spec_spend_ok(utxo.as_map(), dv, i as int));
                }
                return (false, 0);
            },
            Some(o) => o.value(),
        };
        utxo.remove(&p);
        proof {
            assert(sum + v as u128 <= (i + 1) * 0xffff_ffff_ffff_ffffu128);
        }
        sum = sum + (v as u128);
        i += 1;
    }
    (true, sum)
}

/// The value the outputs produce, summed exactly.
fn sum_outputs(outs: &Vec<Output>) -> (r: u128)
    ensures
        r == spec_sum_out(outs.deep_view(), 0),
        r <= outs.deep_view().len() * 0xffff_ffff_ffff_ffffu128,
{
    let ghost dv = outs.deep_view();
    let n = outs.len();
    let mut sum: u128 = 0;
    let mut i: usize = 0;
    while i < n
        invariant
            n == outs.len(),
            i <= n,
            dv == outs.deep_view(),
            dv.len() == n,
            sum <= i * 0xffff_ffff_ffff_ffffu128,
            spec_sum_out(dv, 0) == sum + spec_sum_out(dv, i as int),
        decreases n - i,
    {
        let v = outs[i].value();
        proof {
            assert(dv[i as int] == outs@[i as int]@);
            assert(sum + v as u128 <= (i + 1) * 0xffff_ffff_ffff_ffffu128);
        }
        sum = sum + (v as u128);
        i += 1;
    }
    sum
}

/// Adds one entry per output of the transaction with this hash.
fn insert_outputs(utxo: &mut UnspentOutputsPool, txh: &crate::chain::Hash, outs: &Vec<Output>)
    requires
        old(utxo).wf(),
        outs@.len() <= 0xffff_ffff,
    ensures
        final(utxo).wf(),
        final(utxo).as_map() == spec_insert_outputs(
            old(utxo).as_map(),
            txh@,
            outs.deep_view(),
            0,
        ),
{
    let ghost dv = outs.deep_view();
    let ghost m0 = old(utxo).as_map();
    let n = outs.len();
    let mut i: usize = 0;
    while i < n
        invariant
            utxo.wf(),
            n == outs.len(),
            n <= 0xffff_ffff,
            i <= n,
            dv == outs.deep_view(),
            dv.len() == n,
            spec_insert_outputs(m0, txh@, dv, 0) == spec_insert_outputs(
                utxo.as_map(),
                txh@,
                dv,
                i as int,
            ),
        decreases n - i,
    {
        let p = OutputPointer { transaction_id: txh.dup(), output_index: i as u32 };
        let o = outs[i].dup();
        proof {
            assert(dv[i as int] == outs@[i as int]@);
            assert(p@ == (OutputPointerV { transaction_id: txh@, output_index: i as u32 }));
        }
        utxo.insert(p, o);
        i += 1;
    }
}

/// Validates one non-mint transaction against the pool and, when valid,
/// applies it. Returns validity, value consumed and value produced.
fn validate_tx_apply(utxo: &mut UnspentOutputsPool, tx: &Transaction) -> (r: (bool, u128, u128))
    requires
        old(utxo).wf(),
        tx.outputs@.len() <= 0xffff_ffff,
    ensures
        final(utxo).wf(),
        r.0 == spec_valid_tx(old(utxo).as_map(), tx@),
        r.0 ==> final(utxo).as_map() == spec_apply_tx(old(utxo).as_map(), tx@) && r.1
            == spec_sum_in(old(utxo).as_map(), tx@.inputs, 0) && r.2 == spec_sum_out(
            tx@.outputs,
            0,
        ),
{
    let (ok, sum_in) = spend_inputs(utxo, &tx.inputs);
    if !ok {
        return (false, 0, 0);
    }
    let sum_out = sum_outputs(&tx.outputs);
    if sum_in < sum_out {
        return (false, 0, 0);
    }
    let h = tx_hash(tx);
    insert_outputs(utxo, &h, &tx.outputs);
    (true, sum_in, sum_out)
}

/// Validates a whole block against a shadow of the unspent-output set and a
/// shadow of the data-request pool: the first transaction must be the mint,
/// each later transaction must be valid on the set left by its
/// predecessors, and the mint must stay within reward plus fees. On success
/// both shadows hold the block's effects; live state is never touched. The
/// mempool plays no part in these rules.
#[verifier::spinoff_prover]
#[verifier::rlimit(100)]
pub fn validate_transactions(
    utxo: &mut UnspentOutputsPool,
    _transactions_pool: &TransactionsPool,
    dr_pool: &mut DataRequestPool,
    block: &Block,
) -> (r: bool)
    requires
        old(utxo).wf(),
        old(dr_pool).wf(),
        block_outputs_bounded(block@.txns),
    ensures
        final(utxo).wf(),
        final(dr_pool).wf(),
        r == spec_block_valid(
            old(utxo).as_map(),
            block@.block_header.beacon.checkpoint,
            block@.txns,
        ),
        r ==> final(utxo).as_map() == spec_apply_block(old(utxo).as_map(), block@.txns),
        r ==> final(dr_pool)@.requests == spec_process_block_requests(
            old(dr_pool)@.requests,
            block@.block_header.beacon.checkpoint,
            block@.txns,
            0,
        ),
        r ==> final(dr_pool)@.to_be_stored == old(dr_pool)@.to_be_stored,
{
    let ghost m0 = old(utxo).as_map();
    let ghost txsv = block@.txns;
    let epoch = block.block_header.beacon.checkpoint;
    if block.txns.len() == 0 {
        return false;
    }
    let mint = &block.txns[0];
    if mint.inputs.len() > 0 {
        proof {
            assert(txsv[0].inputs.len() > 0);
        }
        return false;
    }
    let mint_hash = tx_hash(mint);
    proof {
        assert(txsv[0] == block.txns@[0]@);
        assert(spec_after_spend(m0, txsv[0].inputs, 0) == m0);
        assert(spec_spend_ok(m0, txsv[0].inputs, 0));
        assert(spec_sum_in(m0, txsv[0].inputs, 0) == 0);
    }
    insert_outputs(utxo, &mint_hash, &mint.outputs);
    dr_pool.process_transaction(mint, &mint_hash, epoch);
    proof {
        assert(utxo.as_map() == spec_apply_tx(m0, txsv[0]));
    }
    let n = block.txns.len();
    let mut fees: u128 = 0;
    let ghost mut fees_exact: int = 0int;
    let mut i: usize = 1;
    while i < n
        invariant
            utxo.wf(),
            dr_pool.wf(),
            n == block.txns.len(),
            1 <= i <= n,
            txsv == block@.txns,
            txsv.len() == n,
            m0 == old(utxo).as_map(),
            block_outputs_bounded(txsv),
            fees as int <= fees_exact,
            fees == fees_exact || fees == u128::MAX,
            fees_exact >= 0,
            spec_txs_valid(spec_apply_tx(m0, txsv[0]), txsv, 1) == spec_txs_valid(
                utxo.as_map(),
                txsv,
                i as int,
            ),
            spec_txs_valid(utxo.as_map(), txsv, i as int) ==> spec_apply_txs(
                spec_apply_tx(m0, txsv[0]),
                txsv,
                1,
            ) == spec_apply_txs(utxo.as_map(), txsv, i as int),
            spec_txs_valid(utxo.as_map(), txsv, i as int) ==> spec_fees(
                spec_apply_tx(m0, txsv[0]),
                txsv,
                1,
            ) == fees_exact + spec_fees(utxo.as_map(), txsv, i as int),
            dr_pool@.to_be_stored == old(dr_pool)@.to_be_stored,
            spec_process_block_requests(old(dr_pool)@.requests, epoch, txsv, 0)
                == spec_process_block_requests(dr_pool@.requests, epoch, txsv, i as int),
            epoch == block@.block_header.beacon.checkpoint,
        decreases n - i,
    {
        let tx = &block.txns[i];
        let ghost mpre = utxo.as_map();
        proof {
            assert(txsv[i as int] == block.txns@[i as int]@);
        }
        let (ok, sum_in, sum_out) = validate_tx_apply(utxo, tx);
        if !ok {
            proof {
                assert(!spec_valid_tx(mpre, txsv[i as int]));
                assert(!spec_txs_valid(mpre, txsv, i as int));
            }
            return false;
        }
        let th = tx_hash(tx);
        dr_pool.process_transaction(tx, &th, epoch);
        let fee = sum_in - sum_out;
        proof {
            fees_exact = fees_exact + (fee as int);
        }
        if fee > u128::MAX - fees {
            fees = u128::MAX;
        } else {
            fees = fees + fee;
        }
        i += 1;
    }
    let mint_sum = sum_outputs(&mint.outputs);
    let reward = block_reward(epoch);
    proof {
        assert(mint_sum <= 0xffff_ffffu128 * 0xffff_ffff_ffff_ffffu128) by {
            assert(txsv[0].outputs.len() <= 0xffff_ffff);
            assert(mint_sum <= txsv[0].outputs.len() * 0xffff_ffff_ffff_ffffu128);
            assert(txsv[0].outputs.len() * 0xffff_ffff_ffff_ffffu128 <= 0xffff_ffffu128
                * 0xffff_ffff_ffff_ffffu128) by (nonlinear_arith)
                requires
                    txsv[0].outputs.len() <= 0xffff_ffff,
            {}
        }
    }
    if mint_sum <= reward as u128 || mint_sum - (reward as u128) <= fees {
        proof {
            assert(spec_sum_out(txsv[0].outputs, 0) <= spec_block_reward(epoch) + spec_fees(
                spec_apply_tx(m0, txsv[0]),
                txsv,
                1,
            ));
        }
        true
    } else {
        proof {
            assert(fees < u128::MAX);
            assert(fees as int == fees_exact);
        }
        false
    }
}

/// Validates one transaction against a shadow of the unspent-output set:
/// the restricted single-transaction form used when peers hand in loose
/// transactions.
pub fn validate_transaction(utxo: &mut UnspentOutputsPool, tx: &Transaction) -> (r: bool)
    requires
        old(utxo).wf(),
    ensures
        final(utxo).wf(),
        r == spec_valid_tx(old(utxo).as_map(), tx@),
{
    let (ok, sum_in) = spend_inputs(utxo, &tx.inputs);
    if !ok {
        return false;
    }
    let sum_out = sum_outputs(&tx.outputs);
    sum_in >= sum_out
}

/// The set after applying the transactions from position `k` up to, but
/// not including, position `j`.
pub open spec fn spec_apply_range(
    m: Map<OutputPointerV, OutputV>,
    txs: Seq<TransactionV>,
    k: int,
    j: int,
) -> Map<OutputPointerV, OutputV>
    decreases j - k,
{
    if j <= k {
        m
    } else {
        spec_apply_range(spec_apply_tx(m, txs[k]), txs, k + 1, j)
    }
}

/// In a valid run, the transaction at `j` is valid on the set its
/// predecessors left.
pub proof fn lemma_valid_tx_at(
    m: Map<OutputPointerV, OutputV>,
    txs: Seq<TransactionV>,
    k: int,
    j: int,
)
    requires
        spec_txs_valid(m, txs, k),
        0 <= k <= j < txs.len(),
    ensures
        spec_valid_tx(spec_apply_range(m, txs, k, j), txs[j]),
    decreases j - k,
{
    if j == k {
    } else {
        lemma_valid_tx_at(spec_apply_tx(m, txs[k]), txs, k + 1, j);
    }
}

/// In a valid run, no transaction consumes less than it produces, so the
/// fees are never negative.
pub proof fn lemma_fees_nonneg(
    m: Map<OutputPointerV, OutputV>,
    txs: Seq<TransactionV>,
    i: int,
)
    requires
        spec_txs_valid(m, txs, i),
    ensures
        spec_fees(m, txs, i) >= 0,
    decreases txs.len() - i,
{
    if i < 0 || i >= txs.len() {
    } else {
        lemma_fees_nonneg(spec_apply_tx(m, txs[i]), txs, i + 1);
    }
}

/// Value conservation in a valid block: every non-mint transaction
/// consumes at least the value it produces, on the set its predecessors
/// left; the fees are therefore non-negative; and the mint's outputs stay
/// within the epoch's reward plus those fees.
pub proof fn lemma_utxo_conservation(
    m: Map<OutputPointerV, OutputV>,
    epoch: Epoch,
    txs: Seq<TransactionV>,
)
    requires
        spec_block_valid(m, epoch, txs),
    ensures
        forall|j: int|
            1 <= j < txs.len() ==> spec_sum_in(
                spec_apply_range(spec_apply_tx(m, txs[0]), txs, 1, j),
                (#[trigger] txs[j]).inputs,
                0,
            ) >= spec_sum_out(txs[j].outputs, 0),
        spec_fees(spec_apply_tx(m, txs[0]), txs, 1) >= 0,
        spec_sum_out(txs[0].outputs, 0) <= spec_block_reward(epoch) + spec_fees(
            spec_apply_tx(m, txs[0]),
            txs,
            1,
        ),
{
    let m1 = spec_apply_tx(m, txs[0]);
    assert forall|j: int|
        1 <= j < txs.len() implies spec_sum_in(
        spec_apply_range(m1, txs, 1, j),
        (#[trigger] txs[j]).inputs,
        0,
    ) >= spec_sum_out(txs[j].outputs, 0) by {
        lemma_valid_tx_at(m1, txs, 1, j);
    }
    lemma_fees_nonneg(m1, txs, 1);
}

/// Spending never adds an entry.
proof fn lemma_after_spend_subset(m: Map<OutputPointerV, OutputV>, ins: Seq<InputV>, i: int)
    ensures
        forall|p: OutputPointerV|
            #[trigger] spec_after_spend(m, ins, i).dom().contains(p) ==> m.dom().contains(p),
    decreases ins.len() - i,
{
    if i < 0 || i >= ins.len() {
    } else {
        let m2 = m.remove(ins[i].pointer());
        lemma_after_spend_subset(m2, ins, i + 1);
        assert(spec_after_spend(m, ins, i) == spec_after_spend(m2, ins, i + 1));
        assert forall|p: OutputPointerV|
            #[trigger] spec_after_spend(m, ins, i).dom().contains(p) implies m.dom().contains(
            p,
        ) by {
            assert(m2.dom().contains(p));
        }
    }
}

/// After the inputs are spent, none of their pointers is left.
proof fn lemma_after_spend_absent(m: Map<OutputPointerV, OutputV>, ins: Seq<InputV>, i: int)
    requires
        0 <= i,
    ensures
        forall|a: int|
            i <= a < ins.len() ==> !spec_after_spend(m, ins, i).dom().contains(
                (#[trigger] ins[a]).pointer(),
            ),
    decreases ins.len() - i,
{
    if i >= ins.len() {
    } else {
        let p = ins[i].pointer();
        let m2 = m.remove(p);
        lemma_after_spend_absent(m2, ins, i + 1);
        lemma_after_spend_subset(m2, ins, i + 1);
        assert forall|a: int|
            i <= a < ins.len() implies !spec_after_spend(m, ins, i).dom().contains(
            (#[trigger] ins[a]).pointer(),
        ) by {
            if a == i {
                if spec_after_spend(m2, ins, i + 1).dom().contains(p) {
                    assert(m2.dom().contains(p));
                    assert(false);
                }
            }
        }
    }
}

/// Inserting a transaction's outputs adds only pointers keyed by that
/// transaction's identity.
proof fn lemma_insert_outputs_dom(
    m: Map<OutputPointerV, OutputV>,
    txh: Seq<u8>,
    outs: Seq<OutputV>,
    i: int,
)
    ensures
        forall|p: OutputPointerV|
            #[trigger] spec_insert_outputs(m, txh, outs, i).dom().contains(p) ==> m.dom().contains(
                p,
            ) || p.transaction_id == txh,
    decreases outs.len() - i,
{
    if i < 0 || i >= outs.len() {
    } else {
        let k = OutputPointerV { transaction_id: txh, output_index: i as u32 };
        let m2 = m.insert(k, outs[i]);
        lemma_insert_outputs_dom(m2, txh, outs, i + 1);
        assert(spec_insert_outputs(m, txh, outs, i) == spec_insert_outputs(m2, txh, outs, i + 1));
        assert forall|p: OutputPointerV|
            #[trigger] spec_insert_outputs(m, txh, outs, i).dom().contains(p) implies
        m.dom().contains(p) || p.transaction_id == txh by {
            assert(m2.dom().contains(p) || p.transaction_id == txh);
            if m2.dom().contains(p) {
                if p == k {
                    assert(p.transaction_id == txh);
                } else {
                    assert(m.dom().contains(p));
                }
            }
        }
    }
}

/// A pointer that is absent, and not keyed by the transaction's identity,
/// stays absent when the transaction is applied.
proof fn lemma_apply_tx_absent(
    m: Map<OutputPointerV, OutputV>,
    tx: TransactionV,
    p: OutputPointerV,
)
    requires
        !m.dom().contains(p),
        p.transaction_id != spec_tx_hash(tx),
    ensures
        !spec_apply_tx(m, tx).dom().contains(p),
{
    lemma_after_spend_subset(m, tx.inputs, 0);
    lemma_insert_outputs_dom(spec_after_spend(m, tx.inputs, 0), spec_tx_hash(tx), tx.outputs, 0);
}

/// Applying a run of transactions is applying a first stretch, then the
/// rest.
proof fn lemma_apply_range_split(
    m: Map<OutputPointerV, OutputV>,
    txs: Seq<TransactionV>,
    k: int,
    mid: int,
    j: int,
)
    requires
        k <= mid <= j,
    ensures
        spec_apply_range(m, txs, k, j) == spec_apply_range(
            spec_apply_range(m, txs, k, mid),
            txs,
            mid,
            j,
        ),
    decreases mid - k,
{
    if mid <= k {
    } else {
        lemma_apply_range_split(spec_apply_tx(m, txs[k]), txs, k + 1, mid, j);
    }
}

/// A pointer that is absent, and keyed by none of the transactions in the
/// stretch, stays absent across the stretch.
proof fn lemma_apply_range_absent(
    m: Map<OutputPointerV, OutputV>,
    txs: Seq<TransactionV>,
    k: int,
    j: int,
    p: OutputPointerV,
)
    requires
        !m.dom().contains(p),
        forall|t: int| k <= t < j ==> p.transaction_id != spec_tx_hash(#[trigger] txs[t]),
        0 <= k,
        j <= txs.len(),
    ensures
        !spec_apply_range(m, txs, k, j).dom().contains(p),
    decreases j - k,
{
    if j <= k {
    } else {
        lemma_apply_tx_absent(m, txs[k], p);
        lemma_apply_range_absent(spec_apply_tx(m, txs[k]), txs, k + 1, j, p);
    }
}

/// A sequence of valid spends finds every one of its pointers in the
/// starting set.
proof fn lemma_spend_ok_present(m: Map<OutputPointerV, OutputV>, ins: Seq<InputV>, i: int)
    requires
        spec_spend_ok(m, ins, i),
        0 <= i,
    ensures
        forall|b: int| i <= b < ins.len() ==> m.dom().contains((#[trigger] ins[b]).pointer()),
    decreases ins.len() - i,
{
    if i >= ins.len() {
    } else {
        let m2 = m.remove(ins[i].pointer());
        lemma_spend_ok_present(m2, ins, i + 1);
        assert forall|b: int|
            i <= b < ins.len() implies m.dom().contains((#[trigger] ins[b]).pointer()) by {
            if b > i {
                assert(m2.dom().contains(ins[b].pointer()));
            }
        }
    }
}

/// No double-spend within a valid block: two consolidated transactions
/// never consume the same pointer — provided no transaction references an
/// output of itself or of a later transaction of the same block, and the
/// transaction identities tell the transactions apart, which is what a
/// content hash is for.
#[verifier::spinoff_prover]
#[verifier::rlimit(100)]
pub proof fn lemma_no_double_spend(
    m: Map<OutputPointerV, OutputV>,
    epoch: Epoch,
    txs: Seq<TransactionV>,
    i: int,
    j: int,
    a: int,
    b: int,
)
    requires
        spec_block_valid(m, epoch, txs),
        1 <= i < j < txs.len(),
        0 <= a < txs[i].inputs.len(),
        0 <= b < txs[j].inputs.len(),
        forall|x: int, y: int, c: int|
            1 <= x < txs.len() && x <= y < txs.len() && 0 <= c < txs[x].inputs.len()
                ==> (#[trigger] txs[x].inputs[c]).pointer().transaction_id != spec_tx_hash(
                #[trigger] txs[y],
            ),
    ensures
        txs[i].inputs[a].pointer() != txs[j].inputs[b].pointer(),
{
    let m1 = spec_apply_tx(m, txs[0]);
    let p = txs[i].inputs[a].pointer();
    let mi = spec_apply_range(m1, txs, 1, i);
    let mi1 = spec_apply_range(m1, txs, 1, i + 1);
    let mj = spec_apply_range(m1, txs, 1, j);
    lemma_valid_tx_at(m1, txs, 1, i);
    lemma_valid_tx_at(m1, txs, 1, j);
    lemma_apply_range_split(m1, txs, 1, i, i + 1);
    assert(spec_apply_range(spec_apply_tx(mi, txs[i]), txs, i + 1, i + 1) == spec_apply_tx(
        mi,
        txs[i],
    ));
    assert(spec_apply_range(mi, txs, i, i + 1) == spec_apply_tx(mi, txs[i]));
    assert(mi1 == spec_apply_tx(mi, txs[i]));
    lemma_after_spend_absent(mi, txs[i].inputs, 0);
    assert(!spec_after_spend(mi, txs[i].inputs, 0).dom().contains(p));
    lemma_insert_outputs_dom(
        spec_after_spend(mi, txs[i].inputs, 0),
        spec_tx_hash(txs[i]),
        txs[i].outputs,
        0,
    );
    assert(p.transaction_id != spec_tx_hash(txs[i]));
    assert(!mi1.dom().contains(p));
    assert forall|t: int| i + 1 <= t < j implies p.transaction_id != spec_tx_hash(
        #[trigger] txs[t],
    ) by {
        assert(txs[i].inputs[a].pointer().transaction_id != spec_tx_hash(txs[t]));
    }
    lemma_apply_range_absent(mi1, txs, i + 1, j, p);
    lemma_apply_range_split(m1, txs, 1, i + 1, j);
    assert(mj == spec_apply_range(mi1, txs, i + 1, j));
    assert(!mj.dom().contains(p));
    lemma_spend_ok_present(mj, txs[j].inputs, 0);
    assert(mj.dom().contains(txs[j].inputs[b].pointer()));
}

/// What a block's transactions, from position `i` on, do to the request
/// pool.
pub open spec fn spec_process_block_requests(
    s: Seq<crate::data_request::DataRequestEntryV>,
    epoch: Epoch,
    txs: Seq<TransactionV>,
    i: int,
) -> Seq<crate::data_request::DataRequestEntryV>
    decreases txs.len() - i,
{
    if i < 0 || i >= txs.len() {
        s
    } else {
        spec_process_block_requests(
            crate::data_request::spec_process_transaction(s, epoch, spec_tx_hash(txs[i]), txs[i]),
            epoch,
            txs,
            i + 1,
        )
    }
}

} // verus!
