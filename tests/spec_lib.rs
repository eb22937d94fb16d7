use provenact_spec::{
    compute_receipt_hash, compute_snapshot_hash, evaluate_capability, verify_receipt_hash,
    verify_snapshot_hash, Capability, CapabilityCeiling, ExecutionReceipt, FsCeiling, KvCeiling,
    Policy, QueueCeiling, RegistrySnapshot, SnapshotEntry, SpecError,
};

fn sha(c: char) -> String {
    format!("sha256:{}", c.to_string().repeat(64))
}

#[test]
fn lib_receipt_hash_round_trip() {
    let mut receipt = ExecutionReceipt {
        artifact: sha('a'),
        inputs_hash: sha('b'),
        outputs_hash: sha('c'),
        caps_used: vec!["fs.read".into()],
        timestamp: 1,
        receipt_hash: String::new(),
    };
    receipt.receipt_hash = compute_receipt_hash(&receipt).unwrap();
    verify_receipt_hash(&receipt).unwrap();
}

#[test]
fn receipt_hash_rejects_invalid_component_digests() {
    let mut receipt = ExecutionReceipt {
        artifact: sha('a'),
        inputs_hash: sha('b'),
        outputs_hash: sha('c'),
        caps_used: vec!["fs.read".into()],
        timestamp: 1,
        receipt_hash: String::new(),
    };
    receipt.receipt_hash = compute_receipt_hash(&receipt).unwrap();

    let invalid_artifact = format!("sha256:{}A", "a".repeat(63));
    let mut artifact_bad = receipt.clone();
    artifact_bad.artifact = invalid_artifact.clone();
    assert!(matches!(
        verify_receipt_hash(&artifact_bad),
        Err(SpecError::InvalidSha256(value)) if value == invalid_artifact
    ));

    let invalid_inputs = "sha256:short".to_string();
    let mut inputs_bad = receipt.clone();
    inputs_bad.inputs_hash = invalid_inputs.clone();
    assert!(matches!(
        verify_receipt_hash(&inputs_bad),
        Err(SpecError::InvalidSha256(value)) if value == invalid_inputs
    ));

    let invalid_outputs = "md5:ffffffffffffffffffffffffffffffff".to_string();
    let mut outputs_bad = receipt.clone();
    outputs_bad.outputs_hash = invalid_outputs.clone();
    assert!(matches!(
        verify_receipt_hash(&outputs_bad),
        Err(SpecError::InvalidSha256(value)) if value == invalid_outputs
    ));
}

#[test]
fn snapshot_hash_rejects_malformed_entry_digests() {
    let mut snapshot_bad_sha = RegistrySnapshot {
        timestamp: 1,
        entries: vec![(
            "skill-a".to_string(),
            SnapshotEntry {
                sha256: "sha256:not-a-real-digest".to_string(),
                md5: "0123456789abcdef0123456789abcdef".to_string(),
            },
        )],
        snapshot_hash: String::new(),
    };
    snapshot_bad_sha.snapshot_hash = compute_snapshot_hash(&snapshot_bad_sha).unwrap();
    assert!(matches!(
        verify_snapshot_hash(&snapshot_bad_sha),
        Err(SpecError::InvalidSha256(value)) if value == "sha256:not-a-real-digest"
    ));

    let invalid_md5 = "0123456789abcdef0123456789abcdeF".to_string();
    let mut snapshot_bad_md5 = RegistrySnapshot {
        timestamp: 1,
        entries: vec![(
            "skill-b".to_string(),
            SnapshotEntry {
                sha256: sha('a'),
                md5: invalid_md5.clone(),
            },
        )],
        snapshot_hash: String::new(),
    };
    snapshot_bad_md5.snapshot_hash = compute_snapshot_hash(&snapshot_bad_md5).unwrap();
    assert!(matches!(
        verify_snapshot_hash(&snapshot_bad_md5),
        Err(SpecError::InvalidMd5(value)) if value == invalid_md5
    ));
}

#[test]
fn time_now_capability_requires_non_empty_value() {
    let policy = Policy {
        version: 1,
        trusted_signers: vec!["alice.dev".to_string()],
        capability_ceiling: CapabilityCeiling {
            time: true,
            ..CapabilityCeiling::default()
        },
    };
    let allowed = Capability {
        kind: "time.now".to_string(),
        value: "utc".to_string(),
    };
    let denied = Capability {
        kind: "time.now".to_string(),
        value: "".to_string(),
    };
    assert!(evaluate_capability(&policy, &allowed));
    assert!(!evaluate_capability(&policy, &denied));
}

#[test]
fn env_capability_requires_posix_style_name() {
    let policy = Policy {
        version: 1,
        trusted_signers: vec!["alice.dev".to_string()],
        capability_ceiling: CapabilityCeiling {
            env: vec!["HOME".to_string(), "PATH".to_string()],
            ..CapabilityCeiling::default()
        },
    };
    let allowed = Capability {
        kind: "env".to_string(),
        value: "HOME".to_string(),
    };
    let denied = Capability {
        kind: "env".to_string(),
        value: "home".to_string(),
    };
    assert!(evaluate_capability(&policy, &allowed));
    assert!(!evaluate_capability(&policy, &denied));
}

#[test]
fn net_http_rejects_percent_encoded_path_bytes() {
    let policy = Policy {
        version: 1,
        trusted_signers: vec!["alice.dev".to_string()],
        capability_ceiling: CapabilityCeiling {
            net: vec!["https://api.example.test/v1".to_string()],
            ..CapabilityCeiling::default()
        },
    };
    let escaped = Capability {
        kind: "net.http".to_string(),
        value: "https://api.example.test/v1/%2f..%2fadmin".to_string(),
    };
    assert!(!evaluate_capability(&policy, &escaped));
}

#[test]
fn net_http_accepts_equivalent_default_https_port() {
    let policy = Policy {
        version: 1,
        trusted_signers: vec!["alice.dev".to_string()],
        capability_ceiling: CapabilityCeiling {
            net: vec!["https://api.example.test/v1".to_string()],
            ..CapabilityCeiling::default()
        },
    };
    let requested = Capability {
        kind: "net.http".to_string(),
        value: "https://api.example.test:443/v1/forecast".to_string(),
    };
    assert!(evaluate_capability(&policy, &requested));
}

#[test]
fn fs_capability_rejects_dot_segment_paths() {
    let policy = Policy {
        version: 1,
        trusted_signers: vec!["alice.dev".to_string()],
        capability_ceiling: CapabilityCeiling {
            fs: FsCeiling {
                read: vec!["/tmp".to_string()],
                write: vec!["/tmp".to_string()],
            },
            ..CapabilityCeiling::default()
        },
    };
    let requested = Capability {
        kind: "fs.read".to_string(),
        value: "/tmp/./report.json".to_string(),
    };
    assert!(!evaluate_capability(&policy, &requested));
}

#[test]
fn kv_and_queue_capabilities_require_non_empty_values() {
    let policy = Policy {
        version: 1,
        trusted_signers: vec!["alice.dev".to_string()],
        capability_ceiling: CapabilityCeiling {
            kv: KvCeiling {
                read: vec!["*".to_string()],
                write: vec!["*".to_string()],
            },
            queue: QueueCeiling {
                publish: vec!["*".to_string()],
                consume: vec!["*".to_string()],
            },
            ..CapabilityCeiling::default()
        },
    };

    let kv_empty = Capability {
        kind: "kv.read".to_string(),
        value: String::new(),
    };
    let queue_empty = Capability {
        kind: "queue.publish".to_string(),
        value: String::new(),
    };
    let kv_non_empty = Capability {
        kind: "kv.read".to_string(),
        value: "user-profile".to_string(),
    };
    let queue_non_empty = Capability {
        kind: "queue.publish".to_string(),
        value: "jobs".to_string(),
    };

    assert!(!evaluate_capability(&policy, &kv_empty));
    assert!(!evaluate_capability(&policy, &queue_empty));
    assert!(evaluate_capability(&policy, &kv_non_empty));
    assert!(evaluate_capability(&policy, &queue_non_empty));
}
