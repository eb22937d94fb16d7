//! The data model: policies and their ceilings, capabilities, receipts and snapshots.
use vstd::prelude::*;

verus! {

/// An administrator's policy: the most a sandboxed skill may be granted.
#[derive(Debug, Clone)]
pub struct Policy {
    pub version: u64,
    pub trusted_signers: Vec<String>,
    pub capability_ceiling: CapabilityCeiling,
}

/// The per-domain limits of a policy.
#[derive(Debug, Clone)]
pub struct CapabilityCeiling {
    pub fs: FsCeiling,
    pub net: Vec<String>,
    pub env: Vec<String>,
    pub kv: KvCeiling,
    pub queue: QueueCeiling,
    /// Whether processes may be run (the `exec` switch of a policy document).
    pub exec_allowed: bool,
    pub time: bool,
    pub random: bool,
}

/// Path prefixes that may be read and written.
#[derive(Debug, Clone)]
pub struct FsCeiling {
    pub read: Vec<String>,
    pub write: Vec<String>,
}

/// Key-value resources that may be read and written (`*` for any).
#[derive(Debug, Clone)]
pub struct KvCeiling {
    pub read: Vec<String>,
    pub write: Vec<String>,
}

/// Queues that may be published to and consumed from (`*` for any).
#[derive(Debug, Clone)]
pub struct QueueCeiling {
    pub publish: Vec<String>,
    pub consume: Vec<String>,
}

/// One requested permission: a kind tag and the concrete resource.
#[derive(Debug, Clone)]
pub struct Capability {
    pub kind: String,
    pub value: String,
}

/// A record of one skill run, sealed by `receipt_hash`.
#[derive(Debug, Clone)]
pub struct ExecutionReceipt {
    pub artifact: String,
    pub inputs_hash: String,
    pub outputs_hash: String,
    pub caps_used: Vec<String>,
    pub timestamp: u64,
    pub receipt_hash: String,
}

/// The digests recorded for one skill in a registry snapshot.
#[derive(Debug, Clone)]
pub struct SnapshotEntry {
    pub sha256: String,
    pub md5: String,
}

/// A point-in-time view of the registry, sealed by `snapshot_hash`. The entries are keyed by
/// skill name, each name once (`RegistrySnapshot::wf`); hashing orders them itself.
#[derive(Debug, Clone)]
pub struct RegistrySnapshot {
    pub timestamp: u64,
    pub entries: Vec<(String, SnapshotEntry)>,
    pub snapshot_hash: String,
}

/// A conformance vector: a policy and the decisions expected of it.
#[derive(Debug, Clone)]
pub struct CapabilityEvalVector {
    pub name: String,
    pub policy: Policy,
    pub cases: Vec<CapabilityCase>,
}

/// One expected decision: `expect` is `allow` or `deny`.
#[derive(Debug, Clone)]
pub struct CapabilityCase {
    pub capability: Capability,
    pub expect: String,
    pub note: Option<String>,
}

impl RegistrySnapshot {
    /// The entries are keyed as a map is: each skill name occurs once.
    pub open spec fn wf(&self) -> bool {
        forall|i: int, j: int|
            0 <= i < j < self.entries@.len() ==> #[trigger] self.entries@[i].0@
                != #[trigger] self.entries@[j].0@
    }

    /// Whether each skill name occurs once among the entries.
    pub fn has_unique_names(&self) -> (r: bool)
        ensures
            r == self.wf(),
    {
        let n = self.entries.len();
        let mut i: usize = 0;
        while i < n
            invariant
                n == self.entries@.len(),
                i <= n,
                forall|a: int, b: int|
                    0 <= a < i && a < b < n ==> #[trigger] self.entries@[a].0@
                        != #[trigger] self.entries@[b].0@,
            decreases n - i,
        {
            let mut j: usize = i + 1;
            while j < n
                invariant
                    n == self.entries@.len(),
                    i < n,
                    i < j <= n,
                    forall|a: int, b: int|
                        0 <= a < i && a < b < n ==> #[trigger] self.entries@[a].0@
                            != #[trigger] self.entries@[b].0@,
                    forall|b: int| i < b < j ==> self.entries@[i as int].0@ != #[trigger] self.entries@[b].0@,
                decreases n - j,
            {
                if self.entries[i].0 == self.entries[j].0 {
                    return false;
                }
                j += 1;
            }
            i += 1;
        }
        true
    }
}

impl Default for FsCeiling {
    fn default() -> (r: Self)
        ensures
            r.read@.len() == 0,
            r.write@.len() == 0,
    {
        FsCeiling { read: Vec::new(), write: Vec::new() }
    }
}

impl Default for KvCeiling {
    fn default() -> (r: Self)
        ensures
            r.read@.len() == 0,
            r.write@.len() == 0,
    {
        KvCeiling { read: Vec::new(), write: Vec::new() }
    }
}

impl Default for QueueCeiling {
    fn default() -> (r: Self)
        ensures
            r.publish@.len() == 0,
            r.consume@.len() == 0,
    {
        QueueCeiling { publish: Vec::new(), consume: Vec::new() }
    }
}

impl Default for CapabilityCeiling {
    /// Every list empty and every switch off: nothing is granted.
    fn default() -> (r: Self)
        ensures
            r.fs.read@.len() == 0,
            r.fs.write@.len() == 0,
            r.net@.len() == 0,
            r.env@.len() == 0,
            r.kv.read@.len() == 0,
            r.kv.write@.len() == 0,
            r.queue.publish@.len() == 0,
            r.queue.consume@.len() == 0,
            !r.exec_allowed,
            !r.time,
            !r.random,
    {
        CapabilityCeiling {
            fs: FsCeiling::default(),
            net: Vec::new(),
            env: Vec::new(),
            kv: KvCeiling::default(),
            queue: QueueCeiling::default(),
            exec_allowed: false,
            time: false,
            random: false,
        }
    }
}

} // verus!
