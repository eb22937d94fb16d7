use provenact_spec::{
    check_capability_vector, compute_policy_hash, compute_receipt_hash, compute_snapshot_hash,
    contains_pct_encoded_triplet, evaluate_capability, is_valid_env_name, is_within_prefix,
    net_uri_within_prefix, normalize_fs_path, normalize_uri_path, sha256_prefixed,
    validate_md5_hex, validate_sha256_prefixed, verify_receipt_hash, verify_snapshot_hash,
    Capability, CapabilityCase, CapabilityCeiling, CapabilityEvalVector, CapabilityKind,
    ExecutionReceipt, FsCeiling, KvCeiling, Policy, QueueCeiling, RegistrySnapshot,
    SnapshotEntry, SpecError, UriParts,
};

fn sha(c: char) -> String {
    format!("sha256:{}", c.to_string().repeat(64))
}

fn chars(s: &str) -> Vec<char> {
    s.chars().collect()
}

fn receipt() -> ExecutionReceipt {
    ExecutionReceipt {
        artifact: sha('a'),
        inputs_hash: sha('b'),
        outputs_hash: sha('c'),
        caps_used: vec!["fs.read".into()],
        timestamp: 1,
        receipt_hash: String::new(),
    }
}

fn sealed_receipt() -> ExecutionReceipt {
    let mut r = receipt();
    r.receipt_hash = compute_receipt_hash(&r).unwrap();
    r
}

fn policy_with(ceiling: CapabilityCeiling) -> Policy {
    Policy {
        version: 1,
        trusted_signers: vec!["alice.dev".to_string()],
        capability_ceiling: ceiling,
    }
}

fn cap(kind: &str, value: &str) -> Capability {
    Capability {
        kind: kind.to_string(),
        value: value.to_string(),
    }
}

fn permissive() -> CapabilityCeiling {
    CapabilityCeiling {
        fs: FsCeiling {
            read: vec!["/".to_string()],
            write: vec!["/".to_string()],
        },
        net: vec!["https://api.example.test/".to_string()],
        env: vec!["HOME".to_string()],
        kv: KvCeiling {
            read: vec!["*".to_string()],
            write: vec!["*".to_string()],
        },
        queue: QueueCeiling {
            publish: vec!["*".to_string()],
            consume: vec!["*".to_string()],
        },
        exec_allowed: true,
        time: true,
        random: true,
    }
}

fn uri(scheme: &str, host: &str, port: u16, path: &str) -> UriParts {
    UriParts {
        has_authority: true,
        scheme: scheme.to_string(),
        host: Some(host.to_string()),
        port: Some(port),
        username: String::new(),
        password: None,
        query: None,
        fragment: None,
        path: path.to_string(),
    }
}

#[test]
fn sha256_prefixed_known_values() {
    assert_eq!(
        sha256_prefixed(b"abc"),
        "sha256:ba7816bf8f01cfea414140de5dae2223b00361a396177a9cb410ff61f20015ad"
    );
    assert_eq!(
        sha256_prefixed(b""),
        "sha256:e3b0c44298fc1c149afbf4c8996fb92427ae41e4649b934ca495991b7852b855"
    );
    assert!(validate_sha256_prefixed(&sha256_prefixed(b"anything")).is_ok());
}

#[test]
fn sha256_format_rules() {
    assert!(validate_sha256_prefixed(&sha('0')).is_ok());
    assert!(validate_sha256_prefixed(&sha('f')).is_ok());
    let upper = sha('A');
    assert!(matches!(validate_sha256_prefixed(&upper), Err(SpecError::InvalidSha256(v)) if v == upper));
    let long = format!("{}0", sha('a'));
    assert!(matches!(validate_sha256_prefixed(&long), Err(SpecError::InvalidSha256(v)) if v == long));
    let short = format!("sha256:{}", "a".repeat(63));
    assert!(validate_sha256_prefixed(&short).is_err());
    let prefix = format!("sha512:{}", "a".repeat(64));
    assert!(validate_sha256_prefixed(&prefix).is_err());
    let not_hex = format!("sha256:{}g", "a".repeat(63));
    assert!(validate_sha256_prefixed(&not_hex).is_err());
    assert!(validate_sha256_prefixed("").is_err());
}

#[test]
fn md5_format_rules() {
    assert!(validate_md5_hex("0123456789abcdef0123456789abcdef").is_ok());
    let upper = "0123456789ABCDEF0123456789abcdef";
    assert!(matches!(validate_md5_hex(upper), Err(SpecError::InvalidMd5(v)) if v == upper));
    assert!(validate_md5_hex("0123456789abcdef0123456789abcde").is_err());
    assert!(validate_md5_hex("0123456789abcdef0123456789abcdef0").is_err());
    assert!(validate_md5_hex("0123456789abcdef0123456789abcdez").is_err());
}

#[test]
fn receipt_hash_exact_value() {
    assert_eq!(
        compute_receipt_hash(&receipt()).unwrap(),
        "sha256:eeba6303ea27749107d5c7f9302e3d5e9288c4dcf5cb3322853a7952c6351fba"
    );
}

#[test]
fn receipt_hash_ignores_stored_hash() {
    let mut r = receipt();
    let first = compute_receipt_hash(&r).unwrap();
    r.receipt_hash = sha('d');
    assert_eq!(compute_receipt_hash(&r).unwrap(), first);
}

#[test]
fn receipt_hash_escapes_strings_and_writes_large_integers() {
    let mut r = receipt();
    r.caps_used = vec!["net.http".to_string(), "quote\"tab\t".to_string()];
    r.timestamp = u64::MAX;
    assert_eq!(
        compute_receipt_hash(&r).unwrap(),
        "sha256:c0b309c909832ffc86c1f68d66950b6fd82142636d89431c1d90f944e4fd7471"
    );
}

#[test]
fn tampered_receipt_fields_give_hash_mismatch() {
    let sealed = sealed_receipt();
    let mut tampered = Vec::new();
    let mut t = sealed.clone();
    t.artifact = format!("sha256:{}b", "a".repeat(63));
    tampered.push(t);
    let mut t = sealed.clone();
    t.inputs_hash = format!("sha256:{}c", "b".repeat(63));
    tampered.push(t);
    let mut t = sealed.clone();
    t.outputs_hash = format!("sha256:d{}", "c".repeat(63));
    tampered.push(t);
    let mut t = sealed.clone();
    t.caps_used = vec!["fs.reae".to_string()];
    tampered.push(t);
    let mut t = sealed.clone();
    t.timestamp = 3;
    tampered.push(t);
    for t in tampered {
        let recomputed = compute_receipt_hash(&t).unwrap();
        match verify_receipt_hash(&t) {
            Err(SpecError::HashMismatch { expected, actual }) => {
                assert_eq!(expected, recomputed);
                assert_eq!(actual, sealed.receipt_hash);
            }
            other => panic!("expected a hash mismatch, got {:?}", other),
        }
    }
}

#[test]
fn tampered_receipt_hash_gives_hash_mismatch() {
    let mut t = sealed_receipt();
    let last = if t.receipt_hash.ends_with('0') { "1" } else { "0" };
    t.receipt_hash = format!("{}{}", &t.receipt_hash[..70], last);
    assert!(matches!(verify_receipt_hash(&t), Err(SpecError::HashMismatch { .. })));
}

#[test]
fn malformed_receipt_hash_is_named_even_when_it_would_match() {
    let sealed = sealed_receipt();
    let upper = sealed.receipt_hash.to_uppercase().replacen("SHA256:", "sha256:", 1);
    let mut t = sealed.clone();
    t.receipt_hash = upper.clone();
    assert!(matches!(verify_receipt_hash(&t), Err(SpecError::InvalidSha256(v)) if v == upper));

    let upper_artifact = sha('A');
    let mut t = receipt();
    t.artifact = upper_artifact.clone();
    t.receipt_hash = compute_receipt_hash(&t).unwrap();
    assert!(matches!(verify_receipt_hash(&t), Err(SpecError::InvalidSha256(v)) if v == upper_artifact));
}

#[test]
fn snapshot_round_trip_and_exact_value() {
    let mut s = RegistrySnapshot {
        timestamp: 1,
        entries: vec![(
            "skill-a".to_string(),
            SnapshotEntry {
                sha256: sha('a'),
                md5: "0123456789abcdef0123456789abcdef".to_string(),
            },
        )],
        snapshot_hash: String::new(),
    };
    s.snapshot_hash = compute_snapshot_hash(&s).unwrap();
    assert_eq!(
        s.snapshot_hash,
        "sha256:a33154b949cce93e011f5cd0b3b4f311740fffd70b7e864d752eee5ac505eb50"
    );
    assert!(verify_snapshot_hash(&s).is_ok());
    let stored = s.snapshot_hash.clone();
    s.timestamp = 2;
    let recomputed = compute_snapshot_hash(&s).unwrap();
    match verify_snapshot_hash(&s) {
        Err(SpecError::HashMismatch { expected, actual }) => {
            assert_eq!(expected, recomputed);
            assert_eq!(actual, stored);
        }
        other => panic!("expected a hash mismatch, got {:?}", other),
    }
}

#[test]
fn snapshot_names_must_be_unique() {
    let entry = SnapshotEntry {
        sha256: sha('a'),
        md5: "0".repeat(32),
    };
    let mut s = RegistrySnapshot {
        timestamp: 1,
        entries: vec![("a".to_string(), entry.clone()), ("b".to_string(), entry.clone())],
        snapshot_hash: String::new(),
    };
    assert!(s.has_unique_names());
    s.entries.push(("a".to_string(), entry));
    assert!(!s.has_unique_names());
}

#[test]
fn snapshot_members_ordered_by_encoded_key() {
    let entry = |c: char, d: char| SnapshotEntry {
        sha256: sha(c),
        md5: d.to_string().repeat(32),
    };
    let mut s = RegistrySnapshot {
        timestamp: 7,
        entries: vec![
            ("a\"".to_string(), entry('b', '1')),
            ("a#".to_string(), entry('c', '2')),
            ("b".to_string(), entry('a', '0')),
        ],
        snapshot_hash: String::new(),
    };
    let expected = "sha256:869619f08739ad81b82b1478b4bf0fd0215961df3d96735067fd905efecef3c4";
    assert_eq!(compute_snapshot_hash(&s).unwrap(), expected);
    s.entries.reverse();
    assert_eq!(compute_snapshot_hash(&s).unwrap(), expected);
}

#[test]
fn malformed_snapshot_hash_is_named() {
    let mut s = RegistrySnapshot {
        timestamp: 1,
        entries: Vec::new(),
        snapshot_hash: "sha256:short".to_string(),
    };
    assert!(matches!(verify_snapshot_hash(&s), Err(SpecError::InvalidSha256(v)) if v == "sha256:short"));
    s.snapshot_hash = compute_snapshot_hash(&s).unwrap();
    assert!(verify_snapshot_hash(&s).is_ok());
}

#[test]
fn policy_hash_exact_value() {
    let policy = policy_with(CapabilityCeiling {
        time: true,
        ..CapabilityCeiling::default()
    });
    assert_eq!(
        compute_policy_hash(&policy).unwrap(),
        "sha256:7c3e715250b6a73c180d81f367671235aaad0d01c7df0ebe2522a01573bc5815"
    );
}

#[test]
fn fs_path_normalization() {
    assert_eq!(normalize_fs_path(&chars("//tmp//a/")), Some(chars("/tmp/a")));
    assert_eq!(normalize_fs_path(&chars("/")), Some(chars("/")));
    assert_eq!(normalize_fs_path(&chars("///")), Some(chars("/")));
    assert_eq!(normalize_fs_path(&chars("tmp/a")), None);
    assert_eq!(normalize_fs_path(&chars("")), None);
    assert_eq!(normalize_fs_path(&chars("/tmp/./a")), None);
    assert_eq!(normalize_fs_path(&chars("/tmp/../etc")), None);
    assert_eq!(normalize_fs_path(&chars("/tmp/..")), None);
    assert_eq!(normalize_fs_path(&chars("/tmp/\0a")), None);
    assert_eq!(normalize_fs_path(&chars("/tmp/.a/..b")), Some(chars("/tmp/.a/..b")));
}

#[test]
fn uri_path_normalization() {
    assert_eq!(normalize_uri_path(&chars("")), Some(chars("/")));
    assert_eq!(normalize_uri_path(&chars("/v1//x")), Some(chars("/v1/x")));
    assert_eq!(normalize_uri_path(&chars("/v1\\x")), None);
    assert_eq!(normalize_uri_path(&chars("/v1/%2e%2e")), None);
    assert_eq!(normalize_uri_path(&chars("/v1/100%")), Some(chars("/v1/100%")));
    assert!(contains_pct_encoded_triplet(&chars("a%2Fb")));
    assert!(!contains_pct_encoded_triplet(&chars("a%2")));
    assert!(!contains_pct_encoded_triplet(&chars("a%zz")));
}

#[test]
fn prefix_containment_respects_segments() {
    assert!(is_within_prefix(&chars("/tmp"), &chars("/tmp")));
    assert!(is_within_prefix(&chars("/tmp/a"), &chars("/tmp")));
    assert!(!is_within_prefix(&chars("/tmp2"), &chars("/tmp")));
    assert!(!is_within_prefix(&chars("/tm"), &chars("/tmp")));
    assert!(is_within_prefix(&chars("/anything"), &chars("/")));
}

#[test]
fn net_containment_rules() {
    let allowed = uri("https", "api.example.test", 443, "/v1");
    assert!(net_uri_within_prefix(&uri("https", "api.example.test", 443, "/v1/x"), &allowed));
    assert!(!net_uri_within_prefix(&uri("https", "api.example.test", 8443, "/v1/x"), &allowed));
    assert!(!net_uri_within_prefix(&uri("http", "api.example.test", 443, "/v1/x"), &allowed));
    assert!(!net_uri_within_prefix(&uri("https", "other.test", 443, "/v1/x"), &allowed));
    assert!(!net_uri_within_prefix(&uri("https", "api.example.test", 443, "/v10"), &allowed));
    let mut with_user = uri("https", "api.example.test", 443, "/v1/x");
    with_user.username = "bob".to_string();
    assert!(!net_uri_within_prefix(&with_user, &allowed));
    let mut with_fragment = uri("https", "api.example.test", 443, "/v1/x");
    with_fragment.fragment = Some("f".to_string());
    assert!(!net_uri_within_prefix(&with_fragment, &allowed));
    let mut query_policy = allowed.clone();
    query_policy.query = Some("q=1".to_string());
    assert!(!net_uri_within_prefix(&uri("https", "api.example.test", 443, "/v1/x"), &query_policy));
}

#[test]
fn net_http_through_url_parsing() {
    let policy = policy_with(CapabilityCeiling {
        net: vec!["https://api.example.test/v1".to_string()],
        ..CapabilityCeiling::default()
    });
    assert!(evaluate_capability(&policy, &cap("net.http", "https://api.example.test/v1")));
    assert!(evaluate_capability(&policy, &cap("net.http", "https://api.example.test/v1/a?x=1")));
    assert!(!evaluate_capability(&policy, &cap("net.http", "https://api.example.test:8443/v1/a")));
    assert!(!evaluate_capability(&policy, &cap("net.http", "http://api.example.test/v1/a")));
    assert!(!evaluate_capability(&policy, &cap("net.http", "https://api.example.test/v1/a#frag")));
    assert!(!evaluate_capability(&policy, &cap("net.http", "https://u:p@api.example.test/v1/a")));
    assert!(!evaluate_capability(&policy, &cap("net.http", "https://api.example.test/v2")));
    assert!(!evaluate_capability(&policy, &cap("net.http", "not a uri")));
    let query_policy = policy_with(CapabilityCeiling {
        net: vec!["https://api.example.test/v1?x=1".to_string(), "::".to_string()],
        ..CapabilityCeiling::default()
    });
    assert!(!evaluate_capability(&query_policy, &cap("net.http", "https://api.example.test/v1/a")));
}

#[test]
fn env_name_grammar() {
    assert!(is_valid_env_name("_X1"));
    assert!(is_valid_env_name("PATH"));
    assert!(!is_valid_env_name(""));
    assert!(!is_valid_env_name("1A"));
    assert!(!is_valid_env_name("A-B"));
    assert!(!is_valid_env_name("home"));
    let policy = policy_with(CapabilityCeiling {
        env: vec!["HOME".to_string(), "PATH".to_string()],
        ..CapabilityCeiling::default()
    });
    assert!(!evaluate_capability(&policy, &cap("env", "home")));
    assert!(evaluate_capability(&policy, &cap("env", "HOME")));
    assert!(!evaluate_capability(&policy, &cap("env", "USER")));
}

#[test]
fn switch_kinds() {
    let on = policy_with(permissive());
    let off = policy_with(CapabilityCeiling::default());
    assert!(evaluate_capability(&on, &cap("exec", "true")));
    assert!(!evaluate_capability(&on, &cap("exec", "yes")));
    assert!(!evaluate_capability(&off, &cap("exec", "true")));
    assert!(evaluate_capability(&on, &cap("exec.safe", "ls")));
    assert!(!evaluate_capability(&on, &cap("exec.safe", "")));
    assert!(!evaluate_capability(&off, &cap("exec.safe", "ls")));
    assert!(evaluate_capability(&on, &cap("random.bytes", "32")));
    assert!(!evaluate_capability(&on, &cap("random.bytes", "")));
    assert!(!evaluate_capability(&off, &cap("time.now", "utc")));
}

#[test]
fn fs_kinds_use_their_own_lists() {
    let policy = policy_with(CapabilityCeiling {
        fs: FsCeiling {
            read: vec!["/data".to_string()],
            write: vec!["/tmp/".to_string(), "relative".to_string()],
        },
        ..CapabilityCeiling::default()
    });
    assert!(evaluate_capability(&policy, &cap("fs.read", "/data//x.json")));
    assert!(!evaluate_capability(&policy, &cap("fs.write", "/data/x.json")));
    assert!(evaluate_capability(&policy, &cap("fs.write", "/tmp/out")));
    assert!(!evaluate_capability(&policy, &cap("fs.write", "/tmp2/out")));
    assert!(!evaluate_capability(&policy, &cap("fs.read", "/data/../etc/passwd")));
    assert!(!evaluate_capability(&policy, &cap("fs.read", "data/x")));
    let root = policy_with(permissive());
    assert!(evaluate_capability(&root, &cap("fs.read", "/etc/hosts")));
    assert!(!evaluate_capability(&root, &cap("fs.read", "/tmp/./report.json")));
}

#[test]
fn named_resources_match_verbatim_or_wildcard() {
    let policy = policy_with(CapabilityCeiling {
        kv: KvCeiling {
            read: vec!["*".to_string()],
            write: vec!["orders".to_string()],
        },
        queue: QueueCeiling {
            publish: Vec::new(),
            consume: vec!["jobs".to_string()],
        },
        ..CapabilityCeiling::default()
    });
    assert!(!evaluate_capability(&policy, &cap("kv.read", "")));
    assert!(evaluate_capability(&policy, &cap("kv.read", "orders")));
    assert!(evaluate_capability(&policy, &cap("kv.write", "orders")));
    assert!(!evaluate_capability(&policy, &cap("kv.write", "order")));
    assert!(!evaluate_capability(&policy, &cap("queue.publish", "jobs")));
    assert!(evaluate_capability(&policy, &cap("queue.consume", "jobs")));
    assert!(!evaluate_capability(&policy, &cap("queue.consume", "*")));
}

#[test]
fn unknown_kinds_are_denied() {
    let policy = policy_with(permissive());
    for kind in ["net", "time", "fs", "EXEC", "env ", "", "kv.delete"] {
        assert!(!evaluate_capability(&policy, &cap(kind, "true")));
        assert!(!evaluate_capability(&policy, &cap(kind, "/tmp")));
        assert_eq!(CapabilityKind::from_tag(kind), CapabilityKind::Unknown);
    }
    assert_eq!(CapabilityKind::from_tag("net.http"), CapabilityKind::NetHttp);
    assert_eq!(CapabilityKind::from_tag("queue.consume"), CapabilityKind::QueueConsume);
}

#[test]
fn capability_vector_checks_cases_in_order() {
    let case = |kind: &str, value: &str, expect: &str| CapabilityCase {
        capability: cap(kind, value),
        expect: expect.to_string(),
        note: None,
    };
    let mut vector = CapabilityEvalVector {
        name: "env".to_string(),
        policy: policy_with(CapabilityCeiling {
            env: vec!["HOME".to_string()],
            ..CapabilityCeiling::default()
        }),
        cases: vec![case("env", "HOME", "allow"), case("env", "home", "deny")],
    };
    assert_eq!(check_capability_vector(&vector), Ok(2));
    vector.cases.push(case("env", "PATH", "allow"));
    vector.cases.push(case("env", "HOME", "deny"));
    assert_eq!(check_capability_vector(&vector), Err(2));
}
