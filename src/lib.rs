//! The trust kernel of a capability-sandboxed runtime: decides whether a policy's capability
//! ceiling grants a requested capability, normalizing filesystem paths and network URIs on
//! the way, and seals and verifies execution receipts and registry snapshots with digests of
//! their canonical JSON encoding.
mod canonical;
mod conformance;
mod digest;
mod error;
mod evaluate;
mod model;
mod path;
mod seal;
mod text;
mod uri;

pub use conformance::{
    check_capability_vector, run_all, ConformanceFailure, ConformanceSuite, Report,
};
pub use digest::{sha256_prefixed, validate_md5_hex, validate_sha256_prefixed};
pub use error::SpecError;
pub use evaluate::{evaluate_capability, is_valid_env_name, CapabilityKind};
pub use model::{
    Capability, CapabilityCase, CapabilityCeiling, CapabilityEvalVector, ExecutionReceipt,
    FsCeiling, KvCeiling, Policy, QueueCeiling, RegistrySnapshot, SnapshotEntry,
};
pub use path::{contains_pct_encoded_triplet, is_within_prefix, normalize_fs_path, normalize_uri_path};
pub use seal::{
    compute_policy_hash, compute_receipt_hash, compute_snapshot_hash, verify_receipt_hash,
    verify_snapshot_hash,
};
pub use uri::{net_uri_within_prefix, UriParts};
