//! Running a conformance suite: capability vectors with expected decisions, and receipts and
//! snapshots whose seals must or must not verify.
use vstd::prelude::*;

use crate::error::SpecError;
use crate::evaluate::{capability_allowed, evaluate_capability, same_text};
use crate::model::{CapabilityCase, CapabilityEvalVector, ExecutionReceipt, Policy, RegistrySnapshot};
use crate::seal::{receipt_verdict, reports, snapshot_verdict, verify_receipt_hash, verify_snapshot_hash, Verdict};

verus! {

/// The tally of a conformance run.
#[derive(Debug, Clone, Copy)]
pub struct Report {
    pub checks: usize,
}

/// The word for a decision: `allow` or `deny`.
pub open spec fn decision_word(allowed: bool) -> Seq<char> {
    if allowed {
        "allow"@
    } else {
        "deny"@
    }
}

/// The policy decides the case as the case expects.
pub open spec fn case_holds(policy: Policy, case: CapabilityCase) -> bool {
    case.expect@ == decision_word(
        capability_allowed(policy.capability_ceiling, case.capability.kind@, case.capability.value@),
    )
}

/// Runs the cases of a vector in order: `Ok` with the number of cases where each holds, else
/// `Err` with the index of the first case that does not.
pub fn check_capability_vector(vector: &CapabilityEvalVector) -> (r: Result<usize, usize>)
    ensures
        match r {
            Ok(n) => n == vector.cases@.len() && forall|i: int|
                0 <= i < vector.cases@.len() ==> case_holds(vector.policy, #[trigger] vector.cases@[i]),
            Err(i) => i < vector.cases@.len() && !case_holds(vector.policy, vector.cases@[i as int])
                && forall|j: int| 0 <= j < i ==> case_holds(vector.policy, #[trigger] vector.cases@[j]),
        },
{
    let mut i: usize = 0;
    while i < vector.cases.len()
        invariant
            i <= vector.cases@.len(),
            forall|j: int| 0 <= j < i ==> case_holds(vector.policy, #[trigger] vector.cases@[j]),
        decreases vector.cases.len() - i,
    {
        let case = &vector.cases[i];
        let word = if evaluate_capability(&vector.policy, &case.capability) {
            "allow"
        } else {
            "deny"
        };
        if !same_text(case.expect.as_str(), word) {
            return Err(i);
        }
        i += 1;
    }
    Ok(i)
}

/// The documents of a conformance suite, already read and found well shaped.
#[derive(Debug, Clone)]
pub struct ConformanceSuite {
    pub capability_vectors: Vec<CapabilityEvalVector>,
    /// Receipts whose seal must verify.
    pub good_receipts: Vec<ExecutionReceipt>,
    /// Receipts whose verification must fail.
    pub bad_receipts: Vec<ExecutionReceipt>,
    /// Snapshots whose seal must verify.
    pub good_snapshots: Vec<RegistrySnapshot>,
    /// Snapshots whose stored hash must not match.
    pub mismatched_snapshots: Vec<RegistrySnapshot>,
    /// Other refused snapshot documents, counted only: their shape was checked elsewhere.
    pub other_bad_snapshots: usize,
}

/// The first check of a suite that did not come out as expected.
#[derive(Debug)]
pub enum ConformanceFailure {
    CapabilityMismatch { vector: usize, case: usize },
    ReceiptRejected { index: usize, error: SpecError },
    ReceiptAccepted { index: usize },
    SnapshotRejected { index: usize, error: SpecError },
    SnapshotAccepted { index: usize },
}

/// One check per vector and one per case.
pub open spec fn vector_checks(vs: Seq<CapabilityEvalVector>) -> int
    decreases vs.len(),
{
    if vs.len() == 0 {
        0
    } else {
        vector_checks(vs.drop_last()) + 1 + vs.last().cases@.len()
    }
}

/// The number of checks a passing suite makes.
pub open spec fn suite_checks(s: ConformanceSuite) -> int {
    vector_checks(s.capability_vectors@) + s.good_receipts@.len() + s.bad_receipts@.len()
        + s.good_snapshots@.len() + s.mismatched_snapshots@.len() + s.other_bad_snapshots
}

/// Every check of the suite comes out as expected.
pub open spec fn suite_passes(s: ConformanceSuite) -> bool {
    &&& forall|v: int, c: int|
        0 <= v < s.capability_vectors@.len() && 0 <= c < s.capability_vectors@[v].cases@.len()
            ==> case_holds(
            s.capability_vectors@[v].policy,
            #[trigger] s.capability_vectors@[v].cases@[c],
        )
    &&& forall|i: int| 0 <= i < s.good_receipts@.len() ==> #[trigger] receipt_verdict(s.good_receipts@[i]) is Valid
    &&& forall|i: int| 0 <= i < s.bad_receipts@.len() ==> !(#[trigger] receipt_verdict(s.bad_receipts@[i]) is Valid)
    &&& forall|i: int| 0 <= i < s.good_snapshots@.len() ==> #[trigger] snapshot_verdict(s.good_snapshots@[i]) is Valid
    &&& forall|i: int|
        0 <= i < s.mismatched_snapshots@.len() ==> !(#[trigger] snapshot_verdict(s.mismatched_snapshots@[i]) is Valid)
}

/// `n` capped at `usize::MAX`.
pub open spec fn capped(n: int) -> int {
    if n > usize::MAX {
        usize::MAX as int
    } else {
        n
    }
}

proof fn lemma_reports_ok(r: Result<(), SpecError>, v: Verdict)
    requires
        reports(r, v),
    ensures
        r is Ok <==> v is Valid,
{
}

/// Runs the semantic checks of a suite: every capability case, then the receipts, then the
/// snapshots. `Ok` with the number of checks (capped at `usize::MAX`) where all pass; else
/// the first failure found, which names a check that indeed failed.
pub fn run_all(suite: &ConformanceSuite) -> (r: Result<Report, ConformanceFailure>)
    requires
        forall|i: int| 0 <= i < suite.good_snapshots@.len() ==> (#[trigger] suite.good_snapshots@[i]).wf(),
        forall|i: int|
            0 <= i < suite.mismatched_snapshots@.len() ==> (#[trigger] suite.mismatched_snapshots@[i]).wf(),
    ensures
        r is Ok <==> suite_passes(*suite),
        r matches Ok(rep) ==> rep.checks == capped(suite_checks(*suite)),
        r matches Err(f) ==> match f {
            ConformanceFailure::CapabilityMismatch { vector, case } => vector
                < suite.capability_vectors@.len() && case
                < suite.capability_vectors@[vector as int].cases@.len() && !case_holds(
                suite.capability_vectors@[vector as int].policy,
                suite.capability_vectors@[vector as int].cases@[case as int],
            ),
            ConformanceFailure::ReceiptRejected { index, .. } => index
                < suite.good_receipts@.len() && !(receipt_verdict(
                suite.good_receipts@[index as int],
            ) is Valid),
            ConformanceFailure::ReceiptAccepted { index } => index < suite.bad_receipts@.len()
                && receipt_verdict(suite.bad_receipts@[index as int]) is Valid,
            ConformanceFailure::SnapshotRejected { index, .. } => index
                < suite.good_snapshots@.len() && !(snapshot_verdict(
                suite.good_snapshots@[index as int],
            ) is Valid),
            ConformanceFailure::SnapshotAccepted { index } => index
                < suite.mismatched_snapshots@.len() && snapshot_verdict(
                suite.mismatched_snapshots@[index as int],
            ) is Valid,
        },
{
    let vs = &suite.capability_vectors;
    let mut checks: usize = 0;
    let mut v: usize = 0;
    assert(vs@.take(0) =~= Seq::<CapabilityEvalVector>::empty());
    while v < vs.len()
        invariant
            v <= vs@.len(),
            vs == &suite.capability_vectors,
            checks == capped(vector_checks(vs@.take(v as int))),
            forall|x: int, c: int|
                0 <= x < v && 0 <= c < vs@[x].cases@.len() ==> case_holds(
                    vs@[x].policy,
                    #[trigger] vs@[x].cases@[c],
                ),
        decreases vs.len() - v,
    {
        match check_capability_vector(&vs[v]) {
            Ok(n) => {
                assert(vs@.take(v + 1).drop_last() =~= vs@.take(v as int));
                checks = checks.saturating_add(1).saturating_add(n);
            },
            Err(c) => {
                return Err(ConformanceFailure::CapabilityMismatch { vector: v, case: c });
            },
        }
        v += 1;
    }
    assert(vs@.take(vs@.len() as int) =~= vs@);
    let mut i: usize = 0;
    while i < suite.good_receipts.len()
        invariant
            i <= suite.good_receipts@.len(),
            checks == capped(vector_checks(vs@) + i),
            vs == &suite.capability_vectors,
            forall|k: int| 0 <= k < i ==> #[trigger] receipt_verdict(suite.good_receipts@[k]) is Valid,
        decreases suite.good_receipts.len() - i,
    {
        let res = verify_receipt_hash(&suite.good_receipts[i]);
        proof { lemma_reports_ok(res, receipt_verdict(suite.good_receipts@[i as int])); }
        match res {
            Ok(()) => {},
            Err(error) => return Err(ConformanceFailure::ReceiptRejected { index: i, error }),
        }
        checks = checks.saturating_add(1);
        i += 1;
    }
    let ghost base = vector_checks(vs@) + suite.good_receipts@.len();
    let mut i: usize = 0;
    while i < suite.bad_receipts.len()
        invariant
            i <= suite.bad_receipts@.len(),
            checks == capped(base + i),
            forall|k: int| 0 <= k < i ==> !(#[trigger] receipt_verdict(suite.bad_receipts@[k]) is Valid),
        decreases suite.bad_receipts.len() - i,
    {
        let res = verify_receipt_hash(&suite.bad_receipts[i]);
        proof { lemma_reports_ok(res, receipt_verdict(suite.bad_receipts@[i as int])); }
        if res.is_ok() {
            return Err(ConformanceFailure::ReceiptAccepted { index: i });
        }
        checks = checks.saturating_add(1);
        i += 1;
    }
    let ghost base = base + suite.bad_receipts@.len();
    let mut i: usize = 0;
    while i < suite.good_snapshots.len()
        invariant
            i <= suite.good_snapshots@.len(),
            checks == capped(base + i),
            forall|k: int| 0 <= k < suite.good_snapshots@.len() ==> (#[trigger] suite.good_snapshots@[k]).wf(),
            forall|k: int| 0 <= k < i ==> #[trigger] snapshot_verdict(suite.good_snapshots@[k]) is Valid,
        decreases suite.good_snapshots.len() - i,
    {
        let res = verify_snapshot_hash(&suite.good_snapshots[i]);
        proof { lemma_reports_ok(res, snapshot_verdict(suite.good_snapshots@[i as int])); }
        match res {
            Ok(()) => {},
            Err(error) => return Err(ConformanceFailure::SnapshotRejected { index: i, error }),
        }
        checks = checks.saturating_add(1);
        i += 1;
    }
    let ghost base = base + suite.good_snapshots@.len();
    let mut i: usize = 0;
    while i < suite.mismatched_snapshots.len()
        invariant
            i <= suite.mismatched_snapshots@.len(),
            checks == capped(base + i),
            forall|k: int|
                0 <= k < suite.mismatched_snapshots@.len() ==> (#[trigger] suite.mismatched_snapshots@[k]).wf(),
            forall|k: int|
                0 <= k < i ==> !(#[trigger] snapshot_verdict(suite.mismatched_snapshots@[k]) is Valid),
        decreases suite.mismatched_snapshots.len() - i,
    {
        let res = verify_snapshot_hash(&suite.mismatched_snapshots[i]);
        proof { lemma_reports_ok(res, snapshot_verdict(suite.mismatched_snapshots@[i as int])); }
        if res.is_ok() {
            return Err(ConformanceFailure::SnapshotAccepted { index: i });
        }
        checks = checks.saturating_add(1);
        i += 1;
    }
    checks = checks.saturating_add(suite.other_bad_snapshots);
    Ok(Report { checks })
}

} // verus!
