//! Sealing receipts, snapshots and policies with the digest of their canonical text, and
//! verifying a sealed record.
use vstd::prelude::*;

use crate::canonical::{
    canonical_bool, canonical_object, canonical_strings, decimal, encode_bool, encode_str,
    encode_str_array, encode_u64, jcs_string_of, ObjectWriter,
};
use crate::digest::{
    is_md5_digest, is_sha256_digest, lemma_sha256_text_is_digest, sha256_prefixed, sha256_text,
    validate_md5_hex, validate_sha256_prefixed,
};
use crate::error::SpecError;
use crate::model::{CapabilityCeiling, ExecutionReceipt, Policy, RegistrySnapshot, SnapshotEntry};

verus! {

pub open spec fn texts(v: Seq<String>) -> Seq<Seq<char>> {
    v.map_values(|s: String| s@)
}

/// The canonical text that seals a receipt: every field but `receipt_hash`.
pub open spec fn receipt_payload(r: ExecutionReceipt) -> Seq<u8> {
    canonical_object(
        seq![
            ("artifact"@, jcs_string_of(r.artifact@)),
            ("inputs_hash"@, jcs_string_of(r.inputs_hash@)),
            ("outputs_hash"@, jcs_string_of(r.outputs_hash@)),
            ("caps_used"@, canonical_strings(texts(r.caps_used@))),
            ("timestamp"@, (decimal(r.timestamp as nat))),
        ],
    )
}

/// The canonical text of one snapshot entry.
pub open spec fn entry_payload(e: SnapshotEntry) -> Seq<u8> {
    canonical_object(seq![("sha256"@, jcs_string_of(e.sha256@)), ("md5"@, jcs_string_of(e.md5@))])
}

/// The canonical text of the entries: an object keyed by skill name.
pub open spec fn entries_payload(es: Seq<(String, SnapshotEntry)>) -> Seq<u8> {
    canonical_object(Seq::new(es.len(), |i: int| (es[i].0@, entry_payload(es[i].1))))
}

/// The canonical text that seals a snapshot: its timestamp and entries.
pub open spec fn snapshot_payload(s: RegistrySnapshot) -> Seq<u8> {
    canonical_object(
        seq![
            ("timestamp"@, (decimal(s.timestamp as nat))),
            ("entries"@, entries_payload(s.entries@)),
        ],
    )
}

pub open spec fn pair_payload(
    k1: Seq<char>,
    v1: Seq<String>,
    k2: Seq<char>,
    v2: Seq<String>,
) -> Seq<u8> {
    canonical_object(seq![(k1, canonical_strings(texts(v1))), (k2, canonical_strings(texts(v2)))])
}

/// The canonical text of a capability ceiling, every field included.
pub open spec fn ceiling_payload(c: CapabilityCeiling) -> Seq<u8> {
    canonical_object(
        seq![
            ("fs"@, pair_payload("read"@, c.fs.read@, "write"@, c.fs.write@)),
            ("net"@, canonical_strings(texts(c.net@))),
            ("env"@, canonical_strings(texts(c.env@))),
            ("kv"@, pair_payload("read"@, c.kv.read@, "write"@, c.kv.write@)),
            ("queue"@, pair_payload("publish"@, c.queue.publish@, "consume"@, c.queue.consume@)),
            ("exec"@, (canonical_bool(c.exec_allowed))),
            ("time"@, (canonical_bool(c.time))),
            ("random"@, (canonical_bool(c.random))),
        ],
    )
}

/// The canonical text of a policy, every field included.
pub open spec fn policy_payload(p: Policy) -> Seq<u8> {
    canonical_object(
        seq![
            ("version"@, (decimal(p.version as nat))),
            ("trusted_signers"@, canonical_strings(texts(p.trusted_signers@))),
            ("capability_ceiling"@, ceiling_payload(p.capability_ceiling)),
        ],
    )
}

/// `r` is the digest string of the canonical text `payload`.
pub open spec fn digest_outcome(payload: Seq<u8>, r: Result<String, SpecError>) -> bool {
    r matches Ok(h) && h@ == sha256_text(payload)
}

/// How the verification of a sealed record ends.
pub ghost enum Verdict {
    Valid,
    BadSha256(Seq<char>),
    BadMd5(Seq<char>),
    /// The recomputed (expected) digest, then the stored (actual) one.
    Mismatch(Seq<char>, Seq<char>),
}

/// `r` reports the verdict `v`, naming the same strings.
pub open spec fn reports(r: Result<(), SpecError>, v: Verdict) -> bool {
    match v {
        Verdict::Valid => r is Ok,
        Verdict::BadSha256(s) => r matches Err(SpecError::InvalidSha256(x)) && x@ == s,
        Verdict::BadMd5(s) => r matches Err(SpecError::InvalidMd5(x)) && x@ == s,
        Verdict::Mismatch(expected, actual) => r matches Err(
            SpecError::HashMismatch { expected: e, actual: a },
        ) && e@ == expected && a@ == actual,
    }
}

/// The comparison of a stored digest with the recomputed digest of a canonical text: on a
/// mismatch the recomputed digest is the expected value and the stored one the actual value.
pub open spec fn seal_verdict(stored: Seq<char>, payload: Seq<u8>) -> Verdict {
    if sha256_text(payload) == stored {
        Verdict::Valid
    } else {
        Verdict::Mismatch(sha256_text(payload), stored)
    }
}

/// The verdict on a receipt: the first malformed digest among `artifact`, `inputs_hash`,
/// `outputs_hash` and `receipt_hash`, else the comparison of the stored and recomputed hash.
pub open spec fn receipt_verdict(r: ExecutionReceipt) -> Verdict {
    if !is_sha256_digest(r.artifact@) {
        Verdict::BadSha256(r.artifact@)
    } else if !is_sha256_digest(r.inputs_hash@) {
        Verdict::BadSha256(r.inputs_hash@)
    } else if !is_sha256_digest(r.outputs_hash@) {
        Verdict::BadSha256(r.outputs_hash@)
    } else if !is_sha256_digest(r.receipt_hash@) {
        Verdict::BadSha256(r.receipt_hash@)
    } else {
        seal_verdict(r.receipt_hash@, receipt_payload(r))
    }
}

/// Every entry carries a well-formed `sha256` and `md5` digest.
pub open spec fn entries_well_formed(es: Seq<(String, SnapshotEntry)>) -> bool {
    forall|j: int|
        0 <= j < es.len() ==> is_sha256_digest(#[trigger] es[j].1.sha256@) && is_md5_digest(
            es[j].1.md5@,
        )
}

/// The first malformed digest among the entries, in order, `sha256` before `md5`.
pub open spec fn entry_fault(es: Seq<(String, SnapshotEntry)>) -> Option<Verdict>
    decreases es.len(),
{
    if es.len() == 0 {
        None
    } else if !is_sha256_digest(es[0].1.sha256@) {
        Some(Verdict::BadSha256(es[0].1.sha256@))
    } else if !is_md5_digest(es[0].1.md5@) {
        Some(Verdict::BadMd5(es[0].1.md5@))
    } else {
        entry_fault(es.drop_first())
    }
}

/// The verdict on a snapshot: the first malformed entry digest, else a malformed
/// `snapshot_hash`, else the comparison of the stored and recomputed hash.
pub open spec fn snapshot_verdict(s: RegistrySnapshot) -> Verdict {
    match entry_fault(s.entries@) {
        Some(v) => v,
        None => if !is_sha256_digest(s.snapshot_hash@) {
            Verdict::BadSha256(s.snapshot_hash@)
        } else {
            seal_verdict(s.snapshot_hash@, snapshot_payload(s))
        },
    }
}

fn digest_of(payload: Vec<u8>) -> (r: Result<String, SpecError>)
    ensures
        digest_outcome(payload@, r),
{
    Ok(sha256_prefixed(payload.as_slice()))
}

/// The digest that seals `receipt`.
pub fn compute_receipt_hash(receipt: &ExecutionReceipt) -> (r: Result<String, SpecError>)
    ensures
        digest_outcome(receipt_payload(*receipt), r),
{
    let mut w = ObjectWriter::new();
    w.add("artifact", encode_str(receipt.artifact.as_str()));
    w.add("inputs_hash", encode_str(receipt.inputs_hash.as_str()));
    w.add("outputs_hash", encode_str(receipt.outputs_hash.as_str()));
    w.add("caps_used", encode_str_array(&receipt.caps_used));
    w.add("timestamp", (encode_u64(receipt.timestamp)));
    assert(w.pending() =~= seq![
        ("artifact"@, jcs_string_of(receipt.artifact@)),
        ("inputs_hash"@, jcs_string_of(receipt.inputs_hash@)),
        ("outputs_hash"@, jcs_string_of(receipt.outputs_hash@)),
        ("caps_used"@, canonical_strings(texts(receipt.caps_used@))),
        ("timestamp"@, (decimal(receipt.timestamp as nat))),
    ]);
    digest_of(w.finish())
}

fn check_seal(stored: &String, recomputed: String) -> (r: Result<(), SpecError>)
    ensures
        reports(r, if recomputed@ == stored@ { Verdict::Valid } else { Verdict::Mismatch(recomputed@, stored@) }),
{
    if recomputed == *stored {
        Ok(())
    } else {
        Err(SpecError::HashMismatch { expected: recomputed, actual: stored.clone() })
    }
}

/// Checks the digests of `receipt` and then its seal.
pub fn verify_receipt_hash(receipt: &ExecutionReceipt) -> (r: Result<(), SpecError>)
    ensures
        reports(r, receipt_verdict(*receipt)),
{
    validate_sha256_prefixed(receipt.artifact.as_str())?;
    validate_sha256_prefixed(receipt.inputs_hash.as_str())?;
    validate_sha256_prefixed(receipt.outputs_hash.as_str())?;
    validate_sha256_prefixed(receipt.receipt_hash.as_str())?;
    match compute_receipt_hash(receipt) {
        Ok(recomputed) => check_seal(&receipt.receipt_hash, recomputed),
        Err(e) => Err(e),
    }
}

fn encode_entry(e: &SnapshotEntry) -> (r: Vec<u8>)
    ensures
        r@ == entry_payload(*e),
{
    let mut w = ObjectWriter::new();
    w.add("sha256", encode_str(e.sha256.as_str()));
    w.add("md5", encode_str(e.md5.as_str()));
    assert(w.pending() =~= seq![("sha256"@, jcs_string_of(e.sha256@)), ("md5"@, jcs_string_of(e.md5@))]);
    w.finish()
}

fn encode_entries(es: &Vec<(String, SnapshotEntry)>) -> (r: Vec<u8>)
    ensures
        r@ == entries_payload(es@),
{
    let ghost target = Seq::new(es@.len(), |i: int| (es@[i].0@, entry_payload(es@[i].1)));
    let mut w = ObjectWriter::new();
    let mut i: usize = 0;
    while i < es.len()
        invariant
            i <= es@.len(),
            w.inv(),
            target == Seq::new(es@.len(), |i: int| (es@[i].0@, entry_payload(es@[i].1))),
            w.pending() == target.take(i as int),
        decreases es.len() - i,
    {
        w.add(es[i].0.as_str(), encode_entry(&es[i].1));
        assert(w.pending() =~= target.take(i + 1));
        i += 1;
    }
    assert(target.take(es@.len() as int) =~= target);
    w.finish()
}

/// The digest that seals `snapshot`.
pub fn compute_snapshot_hash(snapshot: &RegistrySnapshot) -> (r: Result<String, SpecError>)
    requires
        snapshot.wf(),
    ensures
        digest_outcome(snapshot_payload(*snapshot), r),
{
    let mut w = ObjectWriter::new();
    w.add("timestamp", (encode_u64(snapshot.timestamp)));
    w.add("entries", encode_entries(&snapshot.entries));
    assert(w.pending() =~= seq![
        ("timestamp"@, (decimal(snapshot.timestamp as nat))),
        ("entries"@, entries_payload(snapshot.entries@)),
    ]);
    digest_of(w.finish())
}

/// Checks every entry's digests, then the format of `snapshot_hash`, then the seal.
pub fn verify_snapshot_hash(snapshot: &RegistrySnapshot) -> (r: Result<(), SpecError>)
    requires
        snapshot.wf(),
    ensures
        reports(r, snapshot_verdict(*snapshot)),
{
    let ghost es = snapshot.entries@;
    let mut i: usize = 0;
    assert(es.skip(0) =~= es);
    while i < snapshot.entries.len()
        invariant
            es == snapshot.entries@,
            i <= es.len(),
            entry_fault(es) == entry_fault(es.skip(i as int)),
        decreases es.len() - i,
    {
        let entry = &snapshot.entries[i].1;
        assert(es.skip(i as int)[0] == es[i as int]);
        assert(es.skip(i as int).drop_first() =~= es.skip(i + 1));
        validate_sha256_prefixed(entry.sha256.as_str())?;
        validate_md5_hex(entry.md5.as_str())?;
        i += 1;
    }
    assert(es.skip(i as int).len() == 0);
    validate_sha256_prefixed(snapshot.snapshot_hash.as_str())?;
    match compute_snapshot_hash(snapshot) {
        Ok(recomputed) => check_seal(&snapshot.snapshot_hash, recomputed),
        Err(e) => Err(e),
    }
}

fn encode_pair(k1: &str, v1: &Vec<String>, k2: &str, v2: &Vec<String>) -> (r: Vec<u8>)
    ensures
        r@ == pair_payload(k1@, v1@, k2@, v2@),
{
    let mut w = ObjectWriter::new();
    w.add(k1, encode_str_array(v1));
    w.add(k2, encode_str_array(v2));
    assert(w.pending() =~= seq![(k1@, canonical_strings(texts(v1@))), (k2@, canonical_strings(texts(v2@)))]);
    w.finish()
}

fn encode_ceiling(c: &CapabilityCeiling) -> (r: Vec<u8>)
    ensures
        r@ == ceiling_payload(*c),
{
    let mut w = ObjectWriter::new();
    w.add("fs", encode_pair("read", &c.fs.read, "write", &c.fs.write));
    w.add("net", encode_str_array(&c.net));
    w.add("env", encode_str_array(&c.env));
    w.add("kv", encode_pair("read", &c.kv.read, "write", &c.kv.write));
    w.add("queue", encode_pair("publish", &c.queue.publish, "consume", &c.queue.consume));
    w.add("exec", (encode_bool(c.exec_allowed)));
    w.add("time", (encode_bool(c.time)));
    w.add("random", (encode_bool(c.random)));
    assert(w.pending() =~= seq![
        ("fs"@, pair_payload("read"@, c.fs.read@, "write"@, c.fs.write@)),
        ("net"@, canonical_strings(texts(c.net@))),
        ("env"@, canonical_strings(texts(c.env@))),
        ("kv"@, pair_payload("read"@, c.kv.read@, "write"@, c.kv.write@)),
        ("queue"@, pair_payload("publish"@, c.queue.publish@, "consume"@, c.queue.consume@)),
        ("exec"@, (canonical_bool(c.exec_allowed))),
        ("time"@, (canonical_bool(c.time))),
        ("random"@, (canonical_bool(c.random))),
    ]);
    w.finish()
}

/// The digest of the canonical text of `policy`.
pub fn compute_policy_hash(policy: &Policy) -> (r: Result<String, SpecError>)
    ensures
        digest_outcome(policy_payload(*policy), r),
{
    let mut w = ObjectWriter::new();
    w.add("version", (encode_u64(policy.version)));
    w.add("trusted_signers", encode_str_array(&policy.trusted_signers));
    w.add("capability_ceiling", encode_ceiling(&policy.capability_ceiling));
    assert(w.pending() =~= seq![
        ("version"@, (decimal(policy.version as nat))),
        ("trusted_signers"@, canonical_strings(texts(policy.trusted_signers@))),
        ("capability_ceiling"@, ceiling_payload(policy.capability_ceiling)),
    ]);
    digest_of(w.finish())
}

/// Round trip: sealing a receipt whose `artifact`, `inputs_hash` and `outputs_hash` are well
/// formed and then verifying it succeeds. `sealed` is `receipt` with `receipt_hash` replaced
/// by the digest that `compute_receipt_hash` returns for it.
pub proof fn lemma_receipt_round_trip(receipt: ExecutionReceipt, sealed: ExecutionReceipt)
    requires
        is_sha256_digest(receipt.artifact@),
        is_sha256_digest(receipt.inputs_hash@),
        is_sha256_digest(receipt.outputs_hash@),
        sealed.artifact == receipt.artifact,
        sealed.inputs_hash == receipt.inputs_hash,
        sealed.outputs_hash == receipt.outputs_hash,
        sealed.caps_used@ == receipt.caps_used@,
        sealed.timestamp == receipt.timestamp,
        sealed.receipt_hash@ == sha256_text(receipt_payload(receipt)),
    ensures
        receipt_verdict(sealed) == Verdict::Valid,
{
    lemma_sha256_text_is_digest(receipt_payload(receipt));
    assert(receipt_payload(sealed) == receipt_payload(receipt));
}

/// Round trip for snapshots: sealing a snapshot whose entry digests are well formed and then
/// verifying it succeeds. `sealed` is `snapshot` with `snapshot_hash` replaced by the digest
/// that `compute_snapshot_hash` returns for it.
pub proof fn lemma_snapshot_round_trip(snapshot: RegistrySnapshot, sealed: RegistrySnapshot)
    requires
        entries_well_formed(snapshot.entries@),
        sealed.timestamp == snapshot.timestamp,
        sealed.entries@ == snapshot.entries@,
        sealed.snapshot_hash@ == sha256_text(snapshot_payload(snapshot)),
    ensures
        snapshot_verdict(sealed) == Verdict::Valid,
{
    lemma_entries_well_formed(snapshot.entries@);
    lemma_sha256_text_is_digest(snapshot_payload(snapshot));
    assert(snapshot_payload(sealed) == snapshot_payload(snapshot));
}

/// Entries whose digests are all well formed have no fault.
pub proof fn lemma_entries_well_formed(es: Seq<(String, SnapshotEntry)>)
    requires
        entries_well_formed(es),
    ensures
        entry_fault(es) is None,
    decreases es.len(),
{
    if es.len() > 0 {
        let t = es.drop_first();
        assert forall|j: int| 0 <= j < t.len() implies is_sha256_digest(
            #[trigger] t[j].1.sha256@,
        ) && is_md5_digest(t[j].1.md5@) by {
            assert(t[j] == es[j + 1]);
        }
        assert(entries_well_formed(t));
        lemma_entries_well_formed(t);
    }
}

/// The first entry with a malformed digest is the one reported.
proof fn lemma_entry_fault_at(es: Seq<(String, SnapshotEntry)>, i: int)
    requires
        0 <= i < es.len(),
        forall|j: int|
            0 <= j < i ==> is_sha256_digest(#[trigger] es[j].1.sha256@) && is_md5_digest(
                es[j].1.md5@,
            ),
    ensures
        !is_sha256_digest(es[i].1.sha256@) ==> entry_fault(es) == Some(
            Verdict::BadSha256(es[i].1.sha256@),
        ),
        is_sha256_digest(es[i].1.sha256@) && !is_md5_digest(es[i].1.md5@) ==> entry_fault(es)
            == Some(Verdict::BadMd5(es[i].1.md5@)),
    decreases i,
{
    if i > 0 {
        let t = es.drop_first();
        assert forall|j: int| 0 <= j < i - 1 implies is_sha256_digest(
            #[trigger] t[j].1.sha256@,
        ) && is_md5_digest(t[j].1.md5@) by {
            assert(t[j] == es[j + 1]);
        }
        lemma_entry_fault_at(t, i - 1);
        assert(t[i - 1] == es[i]);
    }
}

/// Tampering with a sealed receipt is reported as a mismatch naming both digests: where
/// `tampered` keeps the well-formed digest fields and the stored hash of `sealed` but its
/// hash-bearing fields now encode to a text with a different digest.
pub proof fn lemma_receipt_tamper_reported(sealed: ExecutionReceipt, tampered: ExecutionReceipt)
    requires
        receipt_verdict(sealed) == Verdict::Valid,
        is_sha256_digest(tampered.artifact@),
        is_sha256_digest(tampered.inputs_hash@),
        is_sha256_digest(tampered.outputs_hash@),
        tampered.receipt_hash == sealed.receipt_hash,
        sha256_text(receipt_payload(tampered)) != sha256_text(receipt_payload(sealed)),
    ensures
        receipt_verdict(tampered) == Verdict::Mismatch(
            sha256_text(receipt_payload(tampered)),
            sealed.receipt_hash@,
        ),
{
}

/// A malformed digest field of a receipt fails verification naming that exact string, whatever
/// the recomputed hash would be; the fields are checked in the order `artifact`,
/// `inputs_hash`, `outputs_hash`, `receipt_hash`.
pub proof fn lemma_receipt_malformed_digest_named(r: ExecutionReceipt)
    ensures
        !is_sha256_digest(r.artifact@) ==> receipt_verdict(r) == Verdict::BadSha256(r.artifact@),
        is_sha256_digest(r.artifact@) && !is_sha256_digest(r.inputs_hash@) ==> receipt_verdict(r)
            == Verdict::BadSha256(r.inputs_hash@),
        is_sha256_digest(r.artifact@) && is_sha256_digest(r.inputs_hash@) && !is_sha256_digest(
            r.outputs_hash@,
        ) ==> receipt_verdict(r) == Verdict::BadSha256(r.outputs_hash@),
        is_sha256_digest(r.artifact@) && is_sha256_digest(r.inputs_hash@) && is_sha256_digest(
            r.outputs_hash@,
        ) && !is_sha256_digest(r.receipt_hash@) ==> receipt_verdict(r) == Verdict::BadSha256(
            r.receipt_hash@,
        ),
{
}

/// A malformed digest of a snapshot entry fails verification naming that exact string,
/// whatever the recomputed hash would be, when the entries before it are well formed.
pub proof fn lemma_snapshot_malformed_entry_named(s: RegistrySnapshot, i: int)
    requires
        0 <= i < s.entries@.len(),
        forall|j: int|
            0 <= j < i ==> is_sha256_digest(#[trigger] s.entries@[j].1.sha256@) && is_md5_digest(
                s.entries@[j].1.md5@,
            ),
    ensures
        !is_sha256_digest(s.entries@[i].1.sha256@) ==> snapshot_verdict(s) == Verdict::BadSha256(
            s.entries@[i].1.sha256@,
        ),
        is_sha256_digest(s.entries@[i].1.sha256@) && !is_md5_digest(s.entries@[i].1.md5@)
            ==> snapshot_verdict(s) == Verdict::BadMd5(s.entries@[i].1.md5@),
{
    lemma_entry_fault_at(s.entries@, i);
}

/// A malformed `snapshot_hash` fails verification naming that exact string, whatever the
/// recomputed hash would be, when the entries are well formed.
pub proof fn lemma_snapshot_malformed_seal_named(s: RegistrySnapshot)
    requires
        entries_well_formed(s.entries@),
        !is_sha256_digest(s.snapshot_hash@),
    ensures
        snapshot_verdict(s) == Verdict::BadSha256(s.snapshot_hash@),
{
    lemma_entries_well_formed(s.entries@);
}

} // verus!
