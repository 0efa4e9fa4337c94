//! The data-request pool: a lifecycle state machine per request, keyed by
//! the output pointer that created the request.
//!
//! A request waits for commits, then for reveals, then for a tally; each
//! stage has a deadline in epochs, and missing a deadline forces the next
//! transition with whatever was collected so far. Finished requests move to
//! a queue that is drained for out-of-band persistence.
use vstd::prelude::*;

use crate::chain::{
    CommitOutput, CommitOutputV, DataRequestOutput, DataRequestOutputV, Dup, Epoch, Input,
    InputKind, InputV, Output, OutputPointer, OutputPointerV, OutputV, RevealOutput, RevealOutputV,
    TallyOutput, TallyOutputV, Transaction, TransactionV, dup_vec,
};
use vstd::pervasive::VecAdditionalExecFns;

verus! {

/// Where a request stands in its lifecycle.
#[derive(Clone, Copy, Debug, PartialEq, Eq, Structural)]
pub enum DataRequestStage {
    WaitingCommits,
    WaitingReveals,
    WaitingTally,
    Finished,
}

/// Everything known about one active data request.
#[derive(Clone, Debug, PartialEq, Eq)]
pub struct DataRequestInfo {
    pub data_request: DataRequestOutput,
    pub epoch_created: Epoch,
    pub stage: DataRequestStage,
    pub commits: Vec<(OutputPointer, CommitOutput)>,
    pub reveals: Vec<(OutputPointer, RevealOutput)>,
    pub tally: Option<TallyOutput>,
}

pub struct DataRequestInfoV {
    pub data_request: DataRequestOutputV,
    pub epoch_created: Epoch,
    pub stage: DataRequestStage,
    pub commits: Seq<(OutputPointerV, CommitOutputV)>,
    pub reveals: Seq<(OutputPointerV, RevealOutputV)>,
    pub tally: Option<TallyOutputV>,
}

impl View for DataRequestInfo {
    type V = DataRequestInfoV;

    open spec fn view(&self) -> DataRequestInfoV {
        DataRequestInfoV {
            data_request: self.data_request@,
            epoch_created: self.epoch_created,
            stage: self.stage,
            commits: self.commits.deep_view(),
            reveals: self.reveals.deep_view(),
            tally: self.tally.deep_view(),
        }
    }
}

impl DeepView for DataRequestInfo {
    type V = DataRequestInfoV;

    open spec fn deep_view(&self) -> DataRequestInfoV {
        self@
    }
}

impl Dup for DataRequestInfo {
    fn dup(&self) -> (r: DataRequestInfo)
        ensures
            r@ == self@,
    {
        let commits = dup_vec(&self.commits);
        let reveals = dup_vec(&self.reveals);
        let tally = match &self.tally {
            Some(t) => Some(t.dup()),
            None => None,
        };
        let r = DataRequestInfo {
            data_request: self.data_request.dup(),
            epoch_created: self.epoch_created,
            stage: self.stage,
            commits,
            reveals,
            tally,
        };
        proof {
            assert forall|i: int| 0 <= i < r.commits@.len() implies r.commits.deep_view()[i]
                == self.commits.deep_view()[i] by {
                assert(r.commits@[i]@ == self.commits@[i]@);
                assert(r.commits@[i].deep_view() == r.commits@[i]@);
                assert(self.commits@[i].deep_view() == self.commits@[i]@);
            }
            assert(r.commits.deep_view() =~= self.commits.deep_view());
            assert forall|i: int| 0 <= i < r.reveals@.len() implies r.reveals.deep_view()[i]
                == self.reveals.deep_view()[i] by {
                assert(r.reveals@[i]@ == self.reveals@[i]@);
                assert(r.reveals@[i].deep_view() == r.reveals@[i]@);
                assert(self.reveals@[i].deep_view() == self.reveals@[i]@);
            }
            assert(r.reveals.deep_view() =~= self.reveals.deep_view());
        }
        r
    }
}

/// A pool entry: the creating pointer and the request's state.
pub type DataRequestEntryV = (OutputPointerV, DataRequestInfoV);

/// No two requests share a key (each pointer is in at most one state).
pub open spec fn req_wf(s: Seq<DataRequestEntryV>) -> bool {
    forall|i: int, j: int| 0 <= i < j < s.len() ==> s[i].0 != s[j].0
}

/// Some request carries the key.
pub open spec fn has_req_key(s: Seq<DataRequestEntryV>, k: OutputPointerV) -> bool {
    exists|i: int| 0 <= i < s.len() && s[i].0 == k
}

/// The position of the first request with the given key.
pub open spec fn find_req(s: Seq<DataRequestEntryV>, k: OutputPointerV) -> Option<int>
    decreases s.len(),
{
    if s.len() == 0 {
        None
    } else if s[0].0 == k {
        Some(0)
    } else {
        match find_req(s.drop_first(), k) {
            Some(i) => Some(i + 1),
            None => None,
        }
    }
}

pub proof fn lemma_find_req(s: Seq<DataRequestEntryV>, k: OutputPointerV)
    ensures
        match find_req(s, k) {
            Some(i) => 0 <= i < s.len() && s[i].0 == k && forall|j: int|
                0 <= j < i ==> s[j].0 != k,
            None => forall|j: int| 0 <= j < s.len() ==> s[j].0 != k,
        },
    decreases s.len(),
{
    if s.len() == 0 {
    } else if s[0].0 == k {
    } else {
        let t = s.drop_first();
        lemma_find_req(t, k);
        match find_req(t, k) {
            Some(i) => {
                assert(t[i] == s[i + 1]);
                assert forall|j: int| 0 <= j < i + 1 implies s[j].0 != k by {
                    if j > 0 {
                        assert(t[j - 1] == s[j]);
                        assert(t[j - 1].0 != k);
                    }
                }
            },
            None => {
                assert forall|j: int| 0 <= j < s.len() implies s[j].0 != k by {
                    if j > 0 {
                        assert(t[j - 1] == s[j]);
                        assert(t[j - 1].0 != k);
                    }
                }
            },
        }
    }
}

/// The position found is the first position carrying the key.
pub proof fn lemma_find_req_at(s: Seq<DataRequestEntryV>, k: OutputPointerV, i: int)
    requires
        0 <= i < s.len(),
        s[i].0 == k,
        forall|j: int| 0 <= j < i ==> s[j].0 != k,
    ensures
        find_req(s, k) == Some(i),
    decreases s.len(),
{
    if i == 0 {
    } else {
        let t = s.drop_first();
        assert(s[0].0 != k);
        assert(t[i - 1] == s[i]);
        assert forall|j: int| 0 <= j < i - 1 implies t[j].0 != k by {
            assert(t[j] == s[j + 1]);
        }
        lemma_find_req_at(t, k, i - 1);
    }
}

/// A key nowhere present is not found.
pub proof fn lemma_find_req_none(s: Seq<DataRequestEntryV>, k: OutputPointerV)
    requires
        forall|j: int| 0 <= j < s.len() ==> s[j].0 != k,
    ensures
        find_req(s, k) is None,
    decreases s.len(),
{
    if s.len() == 0 {
    } else {
        let t = s.drop_first();
        assert forall|j: int| 0 <= j < t.len() implies t[j].0 != k by {
            assert(t[j] == s[j + 1]);
        }
        lemma_find_req_none(t, k);
    }
}

/// Whether one of the request's commits sits at the pointer.
pub open spec fn has_commit(info: DataRequestInfoV, cp: OutputPointerV) -> bool {
    exists|j: int| 0 <= j < info.commits.len() && info.commits[j].0 == cp
}

/// Whether one of the request's reveals sits at the pointer.
pub open spec fn has_reveal(info: DataRequestInfoV, rp: OutputPointerV) -> bool {
    exists|j: int| 0 <= j < info.reveals.len() && info.reveals[j].0 == rp
}

/// The position of the first request holding a commit at the pointer.
pub open spec fn find_req_by_commit(s: Seq<DataRequestEntryV>, cp: OutputPointerV) -> Option<int>
    decreases s.len(),
{
    if s.len() == 0 {
        None
    } else if has_commit(s[0].1, cp) {
        Some(0)
    } else {
        match find_req_by_commit(s.drop_first(), cp) {
            Some(i) => Some(i + 1),
            None => None,
        }
    }
}

pub proof fn lemma_find_req_by_commit(s: Seq<DataRequestEntryV>, cp: OutputPointerV)
    ensures
        match find_req_by_commit(s, cp) {
            Some(i) => 0 <= i < s.len() && has_commit(s[i].1, cp) && forall|j: int|
                0 <= j < i ==> !has_commit(s[j].1, cp),
            None => forall|j: int| 0 <= j < s.len() ==> !has_commit(s[j].1, cp),
        },
    decreases s.len(),
{
    if s.len() == 0 {
    } else if has_commit(s[0].1, cp) {
    } else {
        let t = s.drop_first();
        lemma_find_req_by_commit(t, cp);
        match find_req_by_commit(t, cp) {
            Some(i) => {
                assert(t[i] == s[i + 1]);
                assert forall|j: int| 0 <= j < i + 1 implies !has_commit(s[j].1, cp) by {
                    if j > 0 {
                        assert(t[j - 1] == s[j]);
                        assert(!has_commit(t[j - 1].1, cp));
                    }
                }
            },
            None => {
                assert forall|j: int| 0 <= j < s.len() implies !has_commit(s[j].1, cp) by {
                    if j > 0 {
                        assert(t[j - 1] == s[j]);
                        assert(!has_commit(t[j - 1].1, cp));
                    }
                }
            },
        }
    }
}

/// The position found is the first position holding such a commit.
pub proof fn lemma_find_req_by_commit_at(s: Seq<DataRequestEntryV>, cp: OutputPointerV, i: int)
    requires
        0 <= i < s.len(),
        has_commit(s[i].1, cp),
        forall|j: int| 0 <= j < i ==> !has_commit(s[j].1, cp),
    ensures
        find_req_by_commit(s, cp) == Some(i),
    decreases s.len(),
{
    if i == 0 {
    } else {
        let t = s.drop_first();
        assert(!has_commit(s[0].1, cp));
        assert(t[i - 1] == s[i]);
        assert forall|j: int| 0 <= j < i - 1 implies !has_commit(t[j].1, cp) by {
            assert(t[j] == s[j + 1]);
        }
        lemma_find_req_by_commit_at(t, cp, i - 1);
    }
}

/// A commit pointer held by no request is not found.
pub proof fn lemma_find_req_by_commit_none(s: Seq<DataRequestEntryV>, cp: OutputPointerV)
    requires
        forall|j: int| 0 <= j < s.len() ==> !has_commit(s[j].1, cp),
    ensures
        find_req_by_commit(s, cp) is None,
    decreases s.len(),
{
    if s.len() == 0 {
    } else {
        let t = s.drop_first();
        assert forall|j: int| 0 <= j < t.len() implies !has_commit(t[j].1, cp) by {
            assert(t[j] == s[j + 1]);
        }
        lemma_find_req_by_commit_none(t, cp);
    }
}

/// The position of the first request holding a reveal at the pointer.
pub open spec fn find_req_by_reveal(s: Seq<DataRequestEntryV>, rp: OutputPointerV) -> Option<int>
    decreases s.len(),
{
    if s.len() == 0 {
        None
    } else if has_reveal(s[0].1, rp) {
        Some(0)
    } else {
        match find_req_by_reveal(s.drop_first(), rp) {
            Some(i) => Some(i + 1),
            None => None,
        }
    }
}

pub proof fn lemma_find_req_by_reveal(s: Seq<DataRequestEntryV>, rp: OutputPointerV)
    ensures
        match find_req_by_reveal(s, rp) {
            Some(i) => 0 <= i < s.len() && has_reveal(s[i].1, rp) && forall|j: int|
                0 <= j < i ==> !has_reveal(s[j].1, rp),
            None => forall|j: int| 0 <= j < s.len() ==> !has_reveal(s[j].1, rp),
        },
    decreases s.len(),
{
    if s.len() == 0 {
    } else if has_reveal(s[0].1, rp) {
    } else {
        let t = s.drop_first();
        lemma_find_req_by_reveal(t, rp);
        match find_req_by_reveal(t, rp) {
            Some(i) => {
                assert(t[i] == s[i + 1]);
                assert forall|j: int| 0 <= j < i + 1 implies !has_reveal(s[j].1, rp) by {
                    if j > 0 {
                        assert(t[j - 1] == s[j]);
                        assert(!has_reveal(t[j - 1].1, rp));
                    }
                }
            },
            None => {
                assert forall|j: int| 0 <= j < s.len() implies !has_reveal(s[j].1, rp) by {
                    if j > 0 {
                        assert(t[j - 1] == s[j]);
                        assert(!has_reveal(t[j - 1].1, rp));
                    }
                }
            },
        }
    }
}

/// The position found is the first position holding such a reveal.
pub proof fn lemma_find_req_by_reveal_at(s: Seq<DataRequestEntryV>, rp: OutputPointerV, i: int)
    requires
        0 <= i < s.len(),
        has_reveal(s[i].1, rp),
        forall|j: int| 0 <= j < i ==> !has_reveal(s[j].1, rp),
    ensures
        find_req_by_reveal(s, rp) == Some(i),
    decreases s.len(),
{
    if i == 0 {
    } else {
        let t = s.drop_first();
        assert(!has_reveal(s[0].1, rp));
        assert(t[i - 1] == s[i]);
        assert forall|j: int| 0 <= j < i - 1 implies !has_reveal(t[j].1, rp) by {
            assert(t[j] == s[j + 1]);
        }
        lemma_find_req_by_reveal_at(t, rp, i - 1);
    }
}

/// A reveal pointer held by no request is not found.
pub proof fn lemma_find_req_by_reveal_none(s: Seq<DataRequestEntryV>, rp: OutputPointerV)
    requires
        forall|j: int| 0 <= j < s.len() ==> !has_reveal(s[j].1, rp),
    ensures
        find_req_by_reveal(s, rp) is None,
    decreases s.len(),
{
    if s.len() == 0 {
    } else {
        let t = s.drop_first();
        assert forall|j: int| 0 <= j < t.len() implies !has_reveal(t[j].1, rp) by {
            assert(t[j] == s[j + 1]);
        }
        lemma_find_req_by_reveal_none(t, rp);
    }
}

/// A fresh request, waiting for commits.
pub open spec fn spec_new_request(dro: DataRequestOutputV, epoch: Epoch) -> DataRequestInfoV {
    DataRequestInfoV {
        data_request: dro,
        epoch_created: epoch,
        stage: DataRequestStage::WaitingCommits,
        commits: Seq::empty(),
        reveals: Seq::empty(),
        tally: None,
    }
}

/// Opening a request: a new entry, unless the pointer is already known.
pub open spec fn spec_add_request(
    s: Seq<DataRequestEntryV>,
    epoch: Epoch,
    ptr: OutputPointerV,
    dro: DataRequestOutputV,
) -> Seq<DataRequestEntryV> {
    if has_req_key(s, ptr) {
        s
    } else {
        s.push((ptr, spec_new_request(dro, epoch)))
    }
}

/// Recording a commit on the request it references, while that request is
/// collecting commits.
pub open spec fn spec_add_commit(
    s: Seq<DataRequestEntryV>,
    dr: OutputPointerV,
    cp: OutputPointerV,
    c: CommitOutputV,
) -> Seq<DataRequestEntryV> {
    match find_req(s, dr) {
        Some(i) => if s[i].1.stage == DataRequestStage::WaitingCommits {
            s.update(
                i,
                (s[i].0, DataRequestInfoV { commits: s[i].1.commits.push((cp, c)), ..s[i].1 }),
            )
        } else {
            s
        },
        None => s,
    }
}

/// Recording a reveal on the request whose commit it references, while that
/// request is collecting reveals.
pub open spec fn spec_add_reveal(
    s: Seq<DataRequestEntryV>,
    cp: OutputPointerV,
    rp: OutputPointerV,
    rv: RevealOutputV,
) -> Seq<DataRequestEntryV> {
    match find_req_by_commit(s, cp) {
        Some(i) => if s[i].1.stage == DataRequestStage::WaitingReveals {
            s.update(
                i,
                (s[i].0, DataRequestInfoV { reveals: s[i].1.reveals.push((rp, rv)), ..s[i].1 }),
            )
        } else {
            s
        },
        None => s,
    }
}

/// Recording the tally on the request whose reveal it references, while that
/// request is waiting for its tally.
pub open spec fn spec_add_tally(
    s: Seq<DataRequestEntryV>,
    rp: OutputPointerV,
    t: TallyOutputV,
) -> Seq<DataRequestEntryV> {
    match find_req_by_reveal(s, rp) {
        Some(i) => if s[i].1.stage == DataRequestStage::WaitingTally {
            s.update(i, (s[i].0, DataRequestInfoV { tally: Some(t), ..s[i].1 }))
        } else {
            s
        },
        None => s,
    }
}

/// The pointer consumed by the first input of the given kind, if any.
pub open spec fn spec_first_input(ins: Seq<InputV>, kind: InputKind) -> Option<OutputPointerV>
    decreases ins.len(),
{
    if ins.len() == 0 {
        None
    } else if ins[0].kind == kind {
        Some(ins[0].pointer())
    } else {
        spec_first_input(ins.drop_first(), kind)
    }
}

/// What one output of a transaction does to the pool.
pub open spec fn spec_process_output(
    s: Seq<DataRequestEntryV>,
    epoch: Epoch,
    outptr: OutputPointerV,
    out: OutputV,
    dr_in: Option<OutputPointerV>,
    cm_in: Option<OutputPointerV>,
    rv_in: Option<OutputPointerV>,
) -> Seq<DataRequestEntryV> {
    match out {
        OutputV::DataRequest(dro) => spec_add_request(s, epoch, outptr, dro),
        OutputV::Commit(c) => match dr_in {
            Some(p) => spec_add_commit(s, p, outptr, c),
            None => s,
        },
        OutputV::Reveal(r) => match cm_in {
            Some(p) => spec_add_reveal(s, p, outptr, r),
            None => s,
        },
        OutputV::Tally(t) => match rv_in {
            Some(p) => spec_add_tally(s, p, t),
            None => s,
        },
        OutputV::ValueTransfer(_) => s,
    }
}

/// What the outputs of a transaction, from position `i` on, do to the pool.
pub open spec fn spec_process_outputs(
    s: Seq<DataRequestEntryV>,
    epoch: Epoch,
    txh: Seq<u8>,
    outs: Seq<OutputV>,
    dr_in: Option<OutputPointerV>,
    cm_in: Option<OutputPointerV>,
    rv_in: Option<OutputPointerV>,
    i: int,
) -> Seq<DataRequestEntryV>
    decreases outs.len() - i,
{
    if i < 0 || i >= outs.len() {
        s
    } else {
        spec_process_outputs(
            spec_process_output(
                s,
                epoch,
                OutputPointerV { transaction_id: txh, output_index: i as u32 },
                outs[i],
                dr_in,
                cm_in,
                rv_in,
            ),
            epoch,
            txh,
            outs,
            dr_in,
            cm_in,
            rv_in,
            i + 1,
        )
    }
}

/// What a whole transaction does to the pool.
pub open spec fn spec_process_transaction(
    s: Seq<DataRequestEntryV>,
    epoch: Epoch,
    txh: Seq<u8>,
    tx: TransactionV,
) -> Seq<DataRequestEntryV> {
    spec_process_outputs(
        s,
        epoch,
        txh,
        tx.outputs,
        spec_first_input(tx.inputs, InputKind::DataRequest),
        spec_first_input(tx.inputs, InputKind::Commit),
        spec_first_input(tx.inputs, InputKind::Reveal),
        0,
    )
}

/// One deadline-or-completion step of a request's lifecycle.
pub open spec fn spec_advance_info(info: DataRequestInfoV, epoch: Epoch) -> DataRequestInfoV {
    match info.stage {
        DataRequestStage::WaitingCommits => if epoch >= info.data_request.commit_deadline {
            DataRequestInfoV { stage: DataRequestStage::WaitingReveals, ..info }
        } else {
            info
        },
        DataRequestStage::WaitingReveals => if epoch >= info.data_request.reveal_deadline {
            DataRequestInfoV { stage: DataRequestStage::WaitingTally, ..info }
        } else {
            info
        },
        DataRequestStage::WaitingTally => if info.tally is Some || epoch
            >= info.data_request.tally_deadline {
            DataRequestInfoV { stage: DataRequestStage::Finished, ..info }
        } else {
            info
        },
        DataRequestStage::Finished => info,
    }
}

/// Advancing every request once: the requests still active, and those that
/// finished, in order.
pub open spec fn spec_update_stages(s: Seq<DataRequestEntryV>, epoch: Epoch) -> (
    Seq<DataRequestEntryV>,
    Seq<DataRequestEntryV>,
)
    decreases s.len(),
{
    if s.len() == 0 {
        (Seq::empty(), Seq::empty())
    } else {
        let e = (s[0].0, spec_advance_info(s[0].1, epoch));
        let r = spec_update_stages(s.drop_first(), epoch);
        if e.1.stage == DataRequestStage::Finished {
            (r.0, seq![e] + r.1)
        } else {
            (seq![e] + r.0, r.1)
        }
    }
}

/// The keys of the surviving requests come from the original pool, and stay
/// distinct under well-formedness.
pub proof fn lemma_update_stages_wf(s: Seq<DataRequestEntryV>, epoch: Epoch)
    ensures
        forall|k: OutputPointerV|
            has_req_key(#[trigger] spec_update_stages(s, epoch).0, k) ==> has_req_key(s, k),
        req_wf(s) ==> req_wf(spec_update_stages(s, epoch).0),
    decreases s.len(),
{
    if s.len() == 0 {
    } else {
        let t = s.drop_first();
        lemma_update_stages_wf(t, epoch);
        let e = (s[0].0, spec_advance_info(s[0].1, epoch));
        let r = spec_update_stages(s, epoch);
        let rt = spec_update_stages(t, epoch);
        assert forall|k: OutputPointerV| has_req_key(r.0, k) implies has_req_key(s, k) by {
            let i = choose|i: int| 0 <= i < r.0.len() && r.0[i].0 == k;
            if e.1.stage == DataRequestStage::Finished {
                assert(has_req_key(rt.0, k));
                assert(has_req_key(t, k));
                let j = choose|j: int| 0 <= j < t.len() && t[j].0 == k;
                assert(s[j + 1].0 == k);
            } else {
                if i == 0 {
                    assert(s[0].0 == k);
                } else {
                    assert(rt.0[i - 1].0 == k);
                    assert(has_req_key(rt.0, k));
                    assert(has_req_key(t, k));
                    let j = choose|j: int| 0 <= j < t.len() && t[j].0 == k;
                    assert(s[j + 1].0 == k);
                }
            }
        }
        if req_wf(s) {
            assert forall|i: int, j: int| 0 <= i < j < t.len() implies t[i].0 != t[j].0 by {
                assert(s[i + 1].0 != s[j + 1].0);
            }
            if e.1.stage == DataRequestStage::Finished {
            } else {
                assert forall|i: int, j: int| 0 <= i < j < r.0.len() implies r.0[i].0
                    != r.0[j].0 by {
                    if i == 0 {
                        assert(r.0[j] == rt.0[j - 1]);
                        assert(has_req_key(rt.0, rt.0[j - 1].0));
                        assert(has_req_key(t, r.0[j].0));
                        let m = choose|m: int| 0 <= m < t.len() && t[m].0 == r.0[j].0;
                        assert(s[m + 1].0 == r.0[j].0);
                        assert(s[0].0 != s[m + 1].0);
                    } else {
                        assert(r.0[i] == rt.0[i - 1]);
                        assert(r.0[j] == rt.0[j - 1]);
                    }
                }
            }
        }
    }
}

/// The data-request pool: the active requests and the finished reports
/// awaiting persistence.
#[derive(Clone, Debug, PartialEq, Eq)]
pub struct DataRequestPool {
    pub requests: Vec<(OutputPointer, DataRequestInfo)>,
    pub to_be_stored: Vec<(OutputPointer, DataRequestInfo)>,
}

pub struct DataRequestPoolV {
    pub requests: Seq<DataRequestEntryV>,
    pub to_be_stored: Seq<DataRequestEntryV>,
}

impl View for DataRequestPool {
    type V = DataRequestPoolV;

    open spec fn view(&self) -> DataRequestPoolV {
        DataRequestPoolV {
            requests: self.requests.deep_view(),
            to_be_stored: self.to_be_stored.deep_view(),
        }
    }
}

impl DeepView for DataRequestPool {
    type V = DataRequestPoolV;

    open spec fn deep_view(&self) -> DataRequestPoolV {
        self@
    }
}

impl Dup for DataRequestPool {
    fn dup(&self) -> (r: DataRequestPool)
        ensures
            r@ == self@,
    {
        let requests = dup_vec(&self.requests);
        let to_be_stored = dup_vec(&self.to_be_stored);
        proof {
            assert forall|i: int| 0 <= i < requests@.len() implies requests.deep_view()[i]
                == self.requests.deep_view()[i] by {
                assert(requests@[i]@ == self.requests@[i]@);
                assert(requests@[i].deep_view() == requests@[i]@);
                assert(self.requests@[i].deep_view() == self.requests@[i]@);
            }
            assert(requests.deep_view() =~= self.requests.deep_view());
            assert forall|i: int| 0 <= i < to_be_stored@.len() implies to_be_stored.deep_view()[i]
                == self.to_be_stored.deep_view()[i] by {
                assert(to_be_stored@[i]@ == self.to_be_stored@[i]@);
                assert(to_be_stored@[i].deep_view() == to_be_stored@[i]@);
                assert(self.to_be_stored@[i].deep_view() == self.to_be_stored@[i]@);
            }
            assert(to_be_stored.deep_view() =~= self.to_be_stored.deep_view());
        }
        DataRequestPool { requests, to_be_stored }
    }
}

impl DataRequestPool {
    /// Each pointer is in at most one state.
    pub open spec fn wf(&self) -> bool {
        req_wf(self@.requests)
    }

    /// The empty pool.
    pub fn new() -> (r: DataRequestPool)
        ensures
            r.wf(),
            r@.requests.len() == 0,
            r@.to_be_stored.len() == 0,
    {
        DataRequestPool { requests: Vec::new(), to_be_stored: Vec::new() }
    }

    /// The position of the request with the given key, if any.
    fn find(&self, k: &OutputPointer) -> (r: Option<usize>)
        ensures
            r is Some <==> find_req(self@.requests, k@) is Some,
            r matches Some(i) ==> find_req(self@.requests, k@) == Some(i as int) && i
                < self.requests.len() && self@.requests[i as int].0 == k@,
    {
        let n = self.requests.len();
        let mut i: usize = 0;
        while i < n
            invariant
                n == self.requests.len(),
                i <= n,
                forall|j: int| 0 <= j < i ==> self@.requests[j].0 != k@,
            decreases n - i,
        {
            if self.requests[i].0.eq_pointer(k) {
                proof {
                    lemma_find_req_at(self@.requests, k@, i as int);
                }
                return Some(i);
            }
            i += 1;
        }
        proof {
            lemma_find_req_none(self@.requests, k@);
        }
        None
    }

    /// The position of the request holding a commit at the pointer, if any.
    fn find_by_commit(&self, cp: &OutputPointer) -> (r: Option<usize>)
        ensures
            r is Some <==> find_req_by_commit(self@.requests, cp@) is Some,
            r matches Some(i) ==> find_req_by_commit(self@.requests, cp@) == Some(i as int) && i
                < self.requests.len(),
    {
        let n = self.requests.len();
        let mut i: usize = 0;
        while i < n
            invariant
                n == self.requests.len(),
                i <= n,
                forall|j: int| 0 <= j < i ==> !has_commit(self@.requests[j].1, cp@),
            decreases n - i,
        {
            if info_has_commit(&self.requests[i].1, cp) {
                proof {
                    lemma_find_req_by_commit_at(self@.requests, cp@, i as int);
                }
                return Some(i);
            }
            i += 1;
        }
        proof {
            lemma_find_req_by_commit_none(self@.requests, cp@);
        }
        None
    }

    /// The position of the request holding a reveal at the pointer, if any.
    fn find_by_reveal(&self, rp: &OutputPointer) -> (r: Option<usize>)
        ensures
            r is Some <==> find_req_by_reveal(self@.requests, rp@) is Some,
            r matches Some(i) ==> find_req_by_reveal(self@.requests, rp@) == Some(i as int) && i
                < self.requests.len(),
    {
        let n = self.requests.len();
        let mut i: usize = 0;
        while i < n
            invariant
                n == self.requests.len(),
                i <= n,
                forall|j: int| 0 <= j < i ==> !has_reveal(self@.requests[j].1, rp@),
            decreases n - i,
        {
            if info_has_reveal(&self.requests[i].1, rp) {
                proof {
                    lemma_find_req_by_reveal_at(self@.requests, rp@, i as int);
                }
                return Some(i);
            }
            i += 1;
        }
        proof {
            lemma_find_req_by_reveal_none(self@.requests, rp@);
        }
        None
    }

    /// Opens a request for the pointer, unless one is already known there.
    pub fn add_data_request(&mut self, epoch: Epoch, ptr: OutputPointer, dro: DataRequestOutput)
        requires
            old(self).wf(),
        ensures
            final(self).wf(),
            final(self)@.requests == spec_add_request(old(self)@.requests, epoch, ptr@, dro@),
            final(self)@.to_be_stored == old(self)@.to_be_stored,
    {
        proof {
            lemma_find_req(self@.requests, ptr@);
        }
        match self.find(&ptr) {
            Some(_) => {
                proof {
                    let i = find_req(self@.requests, ptr@)->Some_0;
                    assert(self@.requests[i].0 == ptr@);
                    assert(has_req_key(self@.requests, ptr@));
                }
            },
            None => {
                proof {
                    if has_req_key(self@.requests, ptr@) {
                        let i = choose|i: int|
                            0 <= i < self@.requests.len() && self@.requests[i].0 == ptr@;
                        lemma_find_req_at(self@.requests, ptr@, i);
                    }
                }
                let info = DataRequestInfo {
                    data_request: dro,
                    epoch_created: epoch,
                    stage: DataRequestStage::WaitingCommits,
                    commits: Vec::new(),
                    reveals: Vec::new(),
                    tally: None,
                };
                let ghost pre = self@.requests;
                let ghost infov = info@;
                self.requests.push((ptr, info));
                proof {
                    assert(infov.commits =~= Seq::<(OutputPointerV, CommitOutputV)>::empty());
                    assert(infov.reveals =~= Seq::<(OutputPointerV, RevealOutputV)>::empty());
                    assert(self@.requests =~= pre.push((ptr@, infov)));
                    assert forall|i: int, j: int|
                        0 <= i < j < self@.requests.len() implies self@.requests[i].0
                        != self@.requests[j].0 by {
                        if j == self@.requests.len() - 1 {
                            assert(!has_req_key(pre, ptr@));
                            assert(pre[i].0 != ptr@);
                        }
                    }
                }
            },
        }
    }

    /// Records a commit on the request it references, if that request is
    /// collecting commits.
    pub fn add_commit(
        &mut self,
        dr_ptr: &OutputPointer,
        commit_ptr: OutputPointer,
        commit: CommitOutput,
    )
        requires
            old(self).wf(),
        ensures
            final(self).wf(),
            final(self)@.requests == spec_add_commit(
                old(self)@.requests,
                dr_ptr@,
                commit_ptr@,
                commit@,
            ),
            final(self)@.to_be_stored == old(self)@.to_be_stored,
    {
        match self.find(dr_ptr) {
            Some(i) => {
                if matches!(self.requests[i].1.stage, DataRequestStage::WaitingCommits) {
                    let key = self.requests[i].0.dup();
                    let mut info = self.requests[i].1.dup();
                    let ghost infov = info@;
                    info.commits.push((commit_ptr, commit));
                    let ghost pre = self@.requests;
                    self.requests.set(i, (key, info));
                    proof {
                        let cpv = commit_ptr@;
                        let cv = commit@;
                        let newv = DataRequestInfoV {
                            commits: pre[i as int].1.commits.push((cpv, cv)),
                            ..pre[i as int].1
                        };
                        assert(info.commits.deep_view() =~= infov.commits.push((cpv, cv)));
                        assert(info@ == newv);
                        assert(self@.requests =~= pre.update(
                            i as int,
                            (pre[i as int].0, newv),
                        ));
                        assert(spec_add_commit(pre, dr_ptr@, cpv, cv) == pre.update(
                            i as int,
                            (pre[i as int].0, newv),
                        ));
                        assert forall|a: int, b: int|
                            0 <= a < b < self@.requests.len() implies self@.requests[a].0
                            != self@.requests[b].0 by {
                            assert(pre[a].0 != pre[b].0);
                        }
                    }
                }
            },
            None => {
            },
        }
    }

    /// Records a reveal on the request whose commit it references, if that
    /// request is collecting reveals.
    pub fn add_reveal(
        &mut self,
        commit_ptr: &OutputPointer,
        reveal_ptr: OutputPointer,
        reveal: RevealOutput,
    )
        requires
            old(self).wf(),
        ensures
            final(self).wf(),
            final(self)@.requests == spec_add_reveal(
                old(self)@.requests,
                commit_ptr@,
                reveal_ptr@,
                reveal@,
            ),
            final(self)@.to_be_stored == old(self)@.to_be_stored,
    {
        match self.find_by_commit(commit_ptr) {
            Some(i) => {
                if matches!(self.requests[i].1.stage, DataRequestStage::WaitingReveals) {
                    let key = self.requests[i].0.dup();
                    let mut info = self.requests[i].1.dup();
                    let ghost infov = info@;
                    info.reveals.push((reveal_ptr, reveal));
                    let ghost pre = self@.requests;
                    self.requests.set(i, (key, info));
                    proof {
                        let rpv = reveal_ptr@;
                        let rv = reveal@;
                        let newv = DataRequestInfoV {
                            reveals: pre[i as int].1.reveals.push((rpv, rv)),
                            ..pre[i as int].1
                        };
                        assert(info.reveals.deep_view() =~= infov.reveals.push((rpv, rv)));
                        assert(info@ == newv);
                        assert(self@.requests =~= pre.update(
                            i as int,
                            (pre[i as int].0, newv),
                        ));
                        assert(spec_add_reveal(pre, commit_ptr@, rpv, rv) == pre.update(
                            i as int,
                            (pre[i as int].0, newv),
                        ));
                        assert forall|a: int, b: int|
                            0 <= a < b < self@.requests.len() implies self@.requests[a].0
                            != self@.requests[b].0 by {
                            assert(pre[a].0 != pre[b].0);
                        }
                    }
                }
            },
            None => {
            },
        }
    }

    /// Records the tally on the request whose reveal it references, if that
    /// request is waiting for its tally.
    pub fn add_tally(&mut self, reveal_ptr: &OutputPointer, tally: TallyOutput)
        requires
            old(self).wf(),
        ensures
            final(self).wf(),
            final(self)@.requests == spec_add_tally(old(self)@.requests, reveal_ptr@, tally@),
            final(self)@.to_be_stored == old(self)@.to_be_stored,
    {
        match self.find_by_reveal(reveal_ptr) {
            Some(i) => {
                if matches!(self.requests[i].1.stage, DataRequestStage::WaitingTally) {
                    let key = self.requests[i].0.dup();
                    let mut info = self.requests[i].1.dup();
                    info.tally = Some(tally);
                    let ghost pre = self@.requests;
                    self.requests.set(i, (key, info));
                    proof {
                        let newv = DataRequestInfoV { tally: Some(tally@), ..pre[i as int].1 };
                        assert(info@ == newv);
                        assert(self@.requests =~= pre.update(
                            i as int,
                            (pre[i as int].0, newv),
                        ));
                        assert(spec_add_tally(pre, reveal_ptr@, tally@) == pre.update(
                            i as int,
                            (pre[i as int].0, newv),
                        ));
                        assert forall|a: int, b: int|
                            0 <= a < b < self@.requests.len() implies self@.requests[a].0
                            != self@.requests[b].0 by {
                            assert(pre[a].0 != pre[b].0);
                        }
                    }
                }
            },
            None => {
            },
        }
    }

    /// Scans one transaction of a consolidated block and advances the pool:
    /// data-request outputs open requests, commit outputs back the request
    /// their data-request input references, reveal outputs back the request
    /// their commit input references, and a tally output closes the request
    /// its reveal input references.
    pub fn process_transaction(&mut self, tx: &Transaction, tx_hash: &crate::chain::Hash, epoch: Epoch)
        requires
            old(self).wf(),
            tx.outputs@.len() <= 0xffff_ffff,
        ensures
            final(self).wf(),
            final(self)@.requests == spec_process_transaction(
                old(self)@.requests,
                epoch,
                tx_hash@,
                tx@,
            ),
            final(self)@.to_be_stored == old(self)@.to_be_stored,
    {
        let dr_in = first_input_of(&tx.inputs, InputKind::DataRequest);
        let cm_in = first_input_of(&tx.inputs, InputKind::Commit);
        let rv_in = first_input_of(&tx.inputs, InputKind::Reveal);
        let n = tx.outputs.len();
        let mut i: usize = 0;
        while i < n
            invariant
                self.wf(),
                n == tx.outputs.len(),
                n <= 0xffff_ffff,
                i <= n,
                dr_in.deep_view() == spec_first_input(tx@.inputs, InputKind::DataRequest),
                cm_in.deep_view() == spec_first_input(tx@.inputs, InputKind::Commit),
                rv_in.deep_view() == spec_first_input(tx@.inputs, InputKind::Reveal),
                self@.to_be_stored == old(self)@.to_be_stored,
                spec_process_outputs(
                    self@.requests,
                    epoch,
                    tx_hash@,
                    tx@.outputs,
                    dr_in.deep_view(),
                    cm_in.deep_view(),
                    rv_in.deep_view(),
                    i as int,
                ) == spec_process_outputs(
                    old(self)@.requests,
                    epoch,
                    tx_hash@,
                    tx@.outputs,
                    dr_in.deep_view(),
                    cm_in.deep_view(),
                    rv_in.deep_view(),
                    0,
                ),
            decreases n - i,
        {
            let outptr = OutputPointer { transaction_id: tx_hash.dup(), output_index: i as u32 };
            let ghost pre = self@.requests;
            let ghost outptrv = outptr@;
            match &tx.outputs[i] {
                Output::DataRequest(dro) => {
                    self.add_data_request(epoch, outptr, dro.dup());
                },
                Output::Commit(c) => {
                    match &dr_in {
                        Some(p) => {
                            self.add_commit(p, outptr, c.dup());
                        },
                        None => {
                        },
                    }
                },
                Output::Reveal(r) => {
                    match &cm_in {
                        Some(p) => {
                            self.add_reveal(p, outptr, r.dup());
                        },
                        None => {
                        },
                    }
                },
                Output::Tally(t) => {
                    match &rv_in {
                        Some(p) => {
                            self.add_tally(p, t.dup());
                        },
                        None => {
                        },
                    }
                },
                Output::ValueTransfer(_) => {
                },
            }
            proof {
                assert(tx@.outputs[i as int] == tx.outputs@[i as int]@);
                assert(self@.requests == spec_process_output(
                    pre,
                    epoch,
                    outptrv,
                    tx@.outputs[i as int],
                    dr_in.deep_view(),
                    cm_in.deep_view(),
                    rv_in.deep_view(),
                ));
            }
            i += 1;
        }
    }

    /// Advances every request whose deadline has passed (or whose tally has
    /// arrived), and moves the requests that finished to the persistence
    /// queue, in order.
    pub fn update_data_request_stages(&mut self, epoch: Epoch)
        requires
            old(self).wf(),
        ensures
            final(self).wf(),
            final(self)@.requests == spec_update_stages(old(self)@.requests, epoch).0,
            final(self)@.to_be_stored == old(self)@.to_be_stored + spec_update_stages(
                old(self)@.requests,
                epoch,
            ).1,
    {
        let mut keep: Vec<(OutputPointer, DataRequestInfo)> = Vec::new();
        let mut done: Vec<(OutputPointer, DataRequestInfo)> = Vec::new();
        let n = self.requests.len();
        let mut i: usize = 0;
        while i < n
            invariant
                n == self.requests.len(),
                i <= n,
                keep.deep_view() == spec_update_stages(self@.requests.take(i as int), epoch).0,
                done.deep_view() == spec_update_stages(self@.requests.take(i as int), epoch).1,
            decreases n - i,
        {
            let e = &self.requests[i];
            let adv = advance_info(&e.1, epoch);
            let entry = (e.0.dup(), adv);
            let ghost entryv = (e.0@, adv@);
            proof {
                lemma_update_stages_take(self@.requests, epoch, i as int);
                assert(entry.deep_view() == entryv);
            }
            if matches!(entry.1.stage, DataRequestStage::Finished) {
                let ghost predone = done.deep_view();
                done.push(entry);
                proof {
                    assert(done.deep_view() =~= predone.push(entryv));
                    assert(predone.push(entryv) =~= predone + seq![entryv]);
                }
            } else {
                let ghost prekeep = keep.deep_view();
                keep.push(entry);
                proof {
                    assert(keep.deep_view() =~= prekeep.push(entryv));
                    assert(prekeep.push(entryv) =~= prekeep + seq![entryv]);
                }
            }
            i += 1;
        }
        proof {
            assert(self@.requests.take(n as int) =~= self@.requests);
            lemma_update_stages_wf(self@.requests, epoch);
        }
        self.requests = keep;
        let ghost prestored = self.to_be_stored.deep_view();
        self.to_be_stored.append(&mut done);
        proof {
            assert(self.to_be_stored.deep_view() =~= prestored + spec_update_stages(
                old(self)@.requests,
                epoch,
            ).1);
        }
    }

    /// Scans every transaction of a consolidated block, in order.
    pub fn process_block(&mut self, block: &crate::chain::Block, epoch: Epoch)
        requires
            old(self).wf(),
            crate::validations::block_outputs_bounded(block@.txns),
        ensures
            final(self).wf(),
            final(self)@.requests == crate::validations::spec_process_block_requests(
                old(self)@.requests,
                epoch,
                block@.txns,
                0,
            ),
            final(self)@.to_be_stored == old(self)@.to_be_stored,
    {
        let ghost txsv = block@.txns;
        let n = block.txns.len();
        let mut i: usize = 0;
        while i < n
            invariant
                self.wf(),
                n == block.txns.len(),
                i <= n,
                txsv == block@.txns,
                txsv.len() == n,
                crate::validations::block_outputs_bounded(txsv),
                self@.to_be_stored == old(self)@.to_be_stored,
                crate::validations::spec_process_block_requests(
                    old(self)@.requests,
                    epoch,
                    txsv,
                    0,
                ) == crate::validations::spec_process_block_requests(
                    self@.requests,
                    epoch,
                    txsv,
                    i as int,
                ),
            decreases n - i,
        {
            let tx = &block.txns[i];
            proof {
                assert(txsv[i as int] == block.txns@[i as int]@);
            }
            let th = crate::hashing::tx_hash(tx);
            self.process_transaction(tx, &th, epoch);
            i += 1;
        }
    }

    /// The data-requests-by-epoch index, derived: the pointers of the
    /// requests whose current deadline falls at the epoch.
    pub fn data_requests_by_epoch(&self, epoch: Epoch) -> (r: Vec<OutputPointer>)
        ensures
            r.deep_view() == spec_requests_by_epoch(self@.requests, epoch, 0),
    {
        let ghost reqs = self@.requests;
        let mut out: Vec<OutputPointer> = Vec::new();
        let n = self.requests.len();
        let mut i: usize = 0;
        proof {
            assert(spec_requests_by_epoch(reqs, epoch, 0) =~= out.deep_view()
                + spec_requests_by_epoch(reqs, epoch, 0));
        }
        while i < n
            invariant
                n == self.requests.len(),
                i <= n,
                reqs == self@.requests,
                reqs.len() == n,
                spec_requests_by_epoch(reqs, epoch, 0) == out.deep_view()
                    + spec_requests_by_epoch(reqs, epoch, i as int),
            decreases n - i,
        {
            let e = &self.requests[i];
            proof {
                assert(reqs[i as int] == self.requests@[i as int]@);
            }
            if current_deadline(&e.1) == epoch {
                let ghost pre = out.deep_view();
                out.push(e.0.dup());
                proof {
                    assert(out.deep_view() =~= pre.push(reqs[i as int].0));
                    assert(pre + (seq![reqs[i as int].0] + spec_requests_by_epoch(
                        reqs,
                        epoch,
                        i as int + 1,
                    )) =~= pre.push(reqs[i as int].0) + spec_requests_by_epoch(
                        reqs,
                        epoch,
                        i as int + 1,
                    ));
                }
            }
            i += 1;
        }
        proof {
            assert(spec_requests_by_epoch(reqs, epoch, n as int) =~= Seq::<
                OutputPointerV,
            >::empty());
            assert(out.deep_view() + Seq::<OutputPointerV>::empty() =~= out.deep_view());
        }
        out
    }

    /// The waiting-for-reveal index, derived: the commit pointers whose
    /// reveals a request still expects, for a request that is collecting
    /// reveals.
    pub fn waiting_for_reveal(&self, dr_ptr: &OutputPointer) -> (r: Option<Vec<OutputPointer>>)
        ensures
            match find_req(self@.requests, dr_ptr@) {
                Some(i) => if self@.requests[i].1.stage == DataRequestStage::WaitingReveals {
                    r matches Some(v) && v.deep_view() == self@.requests[i].1.commits.map_values(
                        |c: (OutputPointerV, CommitOutputV)| c.0,
                    )
                } else {
                    r is None
                },
                None => r is None,
            },
    {
        match self.find(dr_ptr) {
            None => None,
            Some(i) => {
                let info = &self.requests[i].1;
                if matches!(info.stage, DataRequestStage::WaitingReveals) {
                    let ghost commits = self@.requests[i as int].1.commits;
                    let mut out: Vec<OutputPointer> = Vec::new();
                    let m = info.commits.len();
                    let mut j: usize = 0;
                    while j < m
                        invariant
                            m == info.commits.len(),
                            j <= m,
                            commits == info.commits.deep_view(),
                            commits.len() == m,
                            out.deep_view() =~= commits.take(j as int).map_values(
                                |c: (OutputPointerV, CommitOutputV)| c.0,
                            ),
                        decreases m - j,
                    {
                        let ghost pre = out.deep_view();
                        out.push(info.commits[j].0.dup());
                        proof {
                            assert(info.commits@[j as int]@ == commits[j as int]);
                            assert(out.deep_view() =~= pre.push(commits[j as int].0));
                            assert(out.deep_view() =~= commits.take(j as int + 1).map_values(
                                |c: (OutputPointerV, CommitOutputV)| c.0,
                            ));
                        }
                        j += 1;
                    }
                    proof {
                        assert(commits.take(m as int) =~= commits);
                    }
                    Some(out)
                } else {
                    None
                }
            },
        }
    }

    /// The pointer cache, derived: resolves a commit's pointer to the
    /// request the commit backs.
    pub fn dr_pointer_of_commit(&self, commit_ptr: &OutputPointer) -> (r: Option<OutputPointer>)
        ensures
            match find_req_by_commit(self@.requests, commit_ptr@) {
                Some(i) => r matches Some(p) && p@ == self@.requests[i].0,
                None => r is None,
            },
    {
        match self.find_by_commit(commit_ptr) {
            Some(i) => Some(self.requests[i].0.dup()),
            None => None,
        }
    }

    /// Drains the finished requests awaiting persistence.
    pub fn finished_data_requests(&mut self) -> (r: Vec<(OutputPointer, DataRequestInfo)>)
        requires
            old(self).wf(),
        ensures
            final(self).wf(),
            r.deep_view() == old(self)@.to_be_stored,
            final(self)@.to_be_stored.len() == 0,
            final(self)@.requests == old(self)@.requests,
    {
        let mut r: Vec<(OutputPointer, DataRequestInfo)> = Vec::new();
        core::mem::swap(&mut self.to_be_stored, &mut r);
        r
    }
}

/// The epoch a request's current stage runs out at.
pub open spec fn spec_current_deadline(info: DataRequestInfoV) -> Epoch {
    match info.stage {
        DataRequestStage::WaitingCommits => info.data_request.commit_deadline,
        DataRequestStage::WaitingReveals => info.data_request.reveal_deadline,
        DataRequestStage::WaitingTally => info.data_request.tally_deadline,
        DataRequestStage::Finished => info.data_request.tally_deadline,
    }
}

/// The epoch a request's current stage runs out at.
fn current_deadline(info: &DataRequestInfo) -> (r: Epoch)
    ensures
        r == spec_current_deadline(info@),
{
    match info.stage {
        DataRequestStage::WaitingCommits => info.data_request.commit_deadline,
        DataRequestStage::WaitingReveals => info.data_request.reveal_deadline,
        DataRequestStage::WaitingTally => info.data_request.tally_deadline,
        DataRequestStage::Finished => info.data_request.tally_deadline,
    }
}

/// The pointers of the requests from position `i` on whose current
/// deadline falls at the epoch.
pub open spec fn spec_requests_by_epoch(
    s: Seq<DataRequestEntryV>,
    epoch: Epoch,
    i: int,
) -> Seq<OutputPointerV>
    decreases s.len() - i,
{
    if i < 0 || i >= s.len() {
        Seq::empty()
    } else {
        let rest = spec_requests_by_epoch(s, epoch, i + 1);
        if spec_current_deadline(s[i].1) == epoch {
            seq![s[i].0] + rest
        } else {
            rest
        }
    }
}

/// Whether one of the request's commits sits at the pointer.
fn info_has_commit(info: &DataRequestInfo, cp: &OutputPointer) -> (r: bool)
    ensures
        r == has_commit(info@, cp@),
{
    let n = info.commits.len();
    let mut i: usize = 0;
    while i < n
        invariant
            n == info.commits.len(),
            i <= n,
            forall|j: int| 0 <= j < i ==> info@.commits[j].0 != cp@,
        decreases n - i,
    {
        if info.commits[i].0.eq_pointer(cp) {
            assert(info@.commits[i as int].0 == cp@);
            return true;
        }
        i += 1;
    }
    false
}

/// Whether one of the request's reveals sits at the pointer.
fn info_has_reveal(info: &DataRequestInfo, rp: &OutputPointer) -> (r: bool)
    ensures
        r == has_reveal(info@, rp@),
{
    let n = info.reveals.len();
    let mut i: usize = 0;
    while i < n
        invariant
            n == info.reveals.len(),
            i <= n,
            forall|j: int| 0 <= j < i ==> info@.reveals[j].0 != rp@,
        decreases n - i,
    {
        if info.reveals[i].0.eq_pointer(rp) {
            assert(info@.reveals[i as int].0 == rp@);
            return true;
        }
        i += 1;
    }
    false
}

/// The pointer consumed by the first input of the given kind, if any.
pub fn first_input_of(inputs: &Vec<Input>, kind: InputKind) -> (r: Option<OutputPointer>)
    ensures
        r.deep_view() == spec_first_input(inputs.deep_view(), kind),
{
    let n = inputs.len();
    let mut i: usize = 0;
    proof {
        assert(inputs.deep_view().skip(0) =~= inputs.deep_view());
    }
    while i < n
        invariant
            n == inputs.len(),
            i <= n,
            spec_first_input(inputs.deep_view(), kind) == spec_first_input(
                inputs.deep_view().skip(i as int),
                kind,
            ),
        decreases n - i,
    {
        proof {
            assert(inputs.deep_view().skip(i as int)[0] == inputs.deep_view()[i as int]);
            assert(inputs.deep_view().skip(i as int).drop_first() =~= inputs.deep_view().skip(
                i as int + 1,
            ));
        }
        if inputs[i].kind == kind {
            let p = inputs[i].pointer();
            proof {
                assert(inputs.deep_view()[i as int].pointer() == p@);
            }
            return Some(p);
        }
        i += 1;
    }
    proof {
        assert(inputs.deep_view().skip(n as int).len() == 0);
    }
    None
}

/// One deadline-or-completion step of a request's lifecycle.
fn advance_info(info: &DataRequestInfo, epoch: Epoch) -> (r: DataRequestInfo)
    ensures
        r@ == spec_advance_info(info@, epoch),
{
    let mut r = info.dup();
    match r.stage {
        DataRequestStage::WaitingCommits => {
            if epoch >= r.data_request.commit_deadline {
                r.stage = DataRequestStage::WaitingReveals;
            }
        },
        DataRequestStage::WaitingReveals => {
            if epoch >= r.data_request.reveal_deadline {
                r.stage = DataRequestStage::WaitingTally;
            }
        },
        DataRequestStage::WaitingTally => {
            if r.tally.is_some() || epoch >= r.data_request.tally_deadline {
                r.stage = DataRequestStage::Finished;
            }
        },
        DataRequestStage::Finished => {
        },
    }
    r
}

/// Advancing the first `i + 1` requests advances the first `i` and then the
/// one at `i`.
pub proof fn lemma_update_stages_take(s: Seq<DataRequestEntryV>, epoch: Epoch, i: int)
    requires
        0 <= i < s.len(),
    ensures
        spec_update_stages(s.take(i + 1), epoch) == ({
            let e = (s[i].0, spec_advance_info(s[i].1, epoch));
            let r = spec_update_stages(s.take(i), epoch);
            if e.1.stage == DataRequestStage::Finished {
                (r.0, r.1 + seq![e])
            } else {
                (r.0 + seq![e], r.1)
            }
        }),
    decreases i,
{
    let e = (s[i].0, spec_advance_info(s[i].1, epoch));
    if i == 0 {
        let one = s.take(1);
        assert(one.len() == 1);
        assert(one[0] == s[0]);
        assert(one.drop_first() =~= Seq::<DataRequestEntryV>::empty());
        assert(spec_update_stages(one.drop_first(), epoch) == (
            Seq::<DataRequestEntryV>::empty(),
            Seq::<DataRequestEntryV>::empty(),
        ));
        assert(s.take(0).len() == 0);
        assert(spec_update_stages(s.take(0), epoch) == (
            Seq::<DataRequestEntryV>::empty(),
            Seq::<DataRequestEntryV>::empty(),
        ));
        if e.1.stage == DataRequestStage::Finished {
            assert(seq![e] + Seq::<DataRequestEntryV>::empty() =~= Seq::<
                DataRequestEntryV,
            >::empty() + seq![e]);
        } else {
            assert(seq![e] + Seq::<DataRequestEntryV>::empty() =~= Seq::<
                DataRequestEntryV,
            >::empty() + seq![e]);
        }
    } else {
        let t = s.drop_first();
        lemma_update_stages_take(t, epoch, i - 1);
        assert(s.take(i + 1).drop_first() =~= t.take(i));
        assert(s.take(i).drop_first() =~= t.take(i - 1));
        assert(s.take(i + 1)[0] == s[0]);
        assert(s.take(i)[0] == s[0]);
        assert(t[i - 1] == s[i]);
        let e0 = (s[0].0, spec_advance_info(s[0].1, epoch));
        let rt1 = spec_update_stages(t.take(i - 1), epoch);
        let rt2 = spec_update_stages(t.take(i), epoch);
        if e0.1.stage == DataRequestStage::Finished {
            if e.1.stage == DataRequestStage::Finished {
                assert((seq![e0] + rt1.1) + seq![e] =~= seq![e0] + (rt1.1 + seq![e]));
            } else {
                assert(spec_update_stages(s.take(i + 1), epoch).0 == rt2.0);
            }
        } else {
            if e.1.stage == DataRequestStage::Finished {
                assert(spec_update_stages(s.take(i + 1), epoch).0 == seq![e0] + rt2.0);
            } else {
                assert((seq![e0] + rt1.0) + seq![e] =~= seq![e0] + (rt1.0 + seq![e]));
            }
        }
    }
}

} // verus!
