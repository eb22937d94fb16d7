//! The capability evaluator: whether a ceiling grants one requested capability.
use vstd::prelude::*;

use crate::model::{Capability, CapabilityCeiling, Policy};
use crate::path::{
    has_dot_segment, has_pct_triplet, is_within_prefix, normalize_fs, normalize_fs_path,
    normalize_uri, split_slash, within_prefix,
};
use crate::text::char_vec;
use crate::uri::{net_uri_within_prefix, net_within, parse_uri, parse_uri_of};

verus! {

/// The capability kinds a policy can grant; any other tag is `Unknown` and never granted.
#[derive(Debug, Clone, Copy, PartialEq, Eq)]
pub enum CapabilityKind {
    Exec,
    ExecSafe,
    TimeNow,
    RandomBytes,
    Env,
    NetHttp,
    FsRead,
    FsWrite,
    KvRead,
    KvWrite,
    QueuePublish,
    QueueConsume,
    Unknown,
}

/// The kind that a tag names.
pub open spec fn kind_of(tag: Seq<char>) -> CapabilityKind {
    if tag == "exec"@ {
        CapabilityKind::Exec
    } else if tag == "exec.safe"@ {
        CapabilityKind::ExecSafe
    } else if tag == "time.now"@ {
        CapabilityKind::TimeNow
    } else if tag == "random.bytes"@ {
        CapabilityKind::RandomBytes
    } else if tag == "env"@ {
        CapabilityKind::Env
    } else if tag == "net.http"@ {
        CapabilityKind::NetHttp
    } else if tag == "fs.read"@ {
        CapabilityKind::FsRead
    } else if tag == "fs.write"@ {
        CapabilityKind::FsWrite
    } else if tag == "kv.read"@ {
        CapabilityKind::KvRead
    } else if tag == "kv.write"@ {
        CapabilityKind::KvWrite
    } else if tag == "queue.publish"@ {
        CapabilityKind::QueuePublish
    } else if tag == "queue.consume"@ {
        CapabilityKind::QueueConsume
    } else {
        CapabilityKind::Unknown
    }
}

pub open spec fn is_upper(c: char) -> bool {
    'A' <= c && c <= 'Z'
}

pub open spec fn is_digit(c: char) -> bool {
    '0' <= c && c <= '9'
}

/// A POSIX-style environment variable name: `[_A-Z][_A-Z0-9]*`.
pub open spec fn is_env_name(v: Seq<char>) -> bool {
    &&& v.len() > 0
    &&& (v[0] == '_' || is_upper(v[0]))
    &&& forall|i: int| 1 <= i < v.len() ==> #[trigger] v[i] == '_' || is_upper(v[i]) || is_digit(v[i])
}

/// `v` is one of the entries of `list`, verbatim.
pub open spec fn listed(list: Seq<String>, v: Seq<char>) -> bool {
    exists|i: int| 0 <= i < list.len() && #[trigger] list[i]@ == v
}

/// A named resource is granted: it is not empty and the list holds `*` or the name itself.
pub open spec fn name_granted(list: Seq<String>, v: Seq<char>) -> bool {
    v.len() > 0 && (listed(list, "*"@) || listed(list, v))
}

/// Some entry of `list`, normalized, is a prefix of the normalized path `v`.
pub open spec fn fs_granted(list: Seq<String>, v: Seq<char>) -> bool {
    match normalize_fs(v) {
        Some(nv) => exists|i: int|
            0 <= i < list.len() && match normalize_fs(#[trigger] list[i]@) {
                Some(p) => within_prefix(nv, p),
                None => false,
            },
        None => false,
    }
}

/// Some entry of `list` parses as a URI that holds the URI `v`.
pub open spec fn net_granted(list: Seq<String>, v: Seq<char>) -> bool {
    match parse_uri_of(v) {
        Some(req) => exists|i: int|
            0 <= i < list.len() && match parse_uri_of(#[trigger] list[i]@) {
                Some(a) => net_within(req, a),
                None => false,
            },
        None => false,
    }
}

/// Whether `ceiling` grants the capability of kind tag `kind` on resource `value`.
pub open spec fn capability_allowed(ceiling: CapabilityCeiling, kind: Seq<char>, value: Seq<char>) -> bool {
    match kind_of(kind) {
        CapabilityKind::Exec => ceiling.exec_allowed && value == "true"@,
        CapabilityKind::ExecSafe => ceiling.exec_allowed && value.len() > 0,
        CapabilityKind::TimeNow => ceiling.time && value.len() > 0,
        CapabilityKind::RandomBytes => ceiling.random && value.len() > 0,
        CapabilityKind::Env => is_env_name(value) && listed(ceiling.env@, value),
        CapabilityKind::NetHttp => net_granted(ceiling.net@, value),
        CapabilityKind::FsRead => fs_granted(ceiling.fs.read@, value),
        CapabilityKind::FsWrite => fs_granted(ceiling.fs.write@, value),
        CapabilityKind::KvRead => name_granted(ceiling.kv.read@, value),
        CapabilityKind::KvWrite => name_granted(ceiling.kv.write@, value),
        CapabilityKind::QueuePublish => name_granted(ceiling.queue.publish@, value),
        CapabilityKind::QueueConsume => name_granted(ceiling.queue.consume@, value),
        CapabilityKind::Unknown => false,
    }
}

pub(crate) fn same_text(a: &str, b: &str) -> (r: bool)
    ensures
        r == (a@ == b@),
{
    let x = char_vec(a);
    let y = char_vec(b);
    crate::path::chars_eq(x.as_slice(), y.as_slice())
}

impl CapabilityKind {
    /// The kind that `tag` names; `Unknown` for any other tag.
    pub fn from_tag(tag: &str) -> (r: CapabilityKind)
        ensures
            r == kind_of(tag@),
    {
        if same_text(tag, "exec") {
            CapabilityKind::Exec
        } else if same_text(tag, "exec.safe") {
            CapabilityKind::ExecSafe
        } else if same_text(tag, "time.now") {
            CapabilityKind::TimeNow
        } else if same_text(tag, "random.bytes") {
            CapabilityKind::RandomBytes
        } else if same_text(tag, "env") {
            CapabilityKind::Env
        } else if same_text(tag, "net.http") {
            CapabilityKind::NetHttp
        } else if same_text(tag, "fs.read") {
            CapabilityKind::FsRead
        } else if same_text(tag, "fs.write") {
            CapabilityKind::FsWrite
        } else if same_text(tag, "kv.read") {
            CapabilityKind::KvRead
        } else if same_text(tag, "kv.write") {
            CapabilityKind::KvWrite
        } else if same_text(tag, "queue.publish") {
            CapabilityKind::QueuePublish
        } else if same_text(tag, "queue.consume") {
            CapabilityKind::QueueConsume
        } else {
            CapabilityKind::Unknown
        }
    }
}

/// Whether `value` is a POSIX-style environment variable name.
pub fn is_valid_env_name(value: &str) -> (r: bool)
    ensures
        r == is_env_name(value@),
{
    let v = char_vec(value);
    if v.len() == 0 {
        return false;
    }
    let first = v[0];
    if !(first == '_' || ('A' <= first && first <= 'Z')) {
        return false;
    }
    let mut i: usize = 1;
    while i < v.len()
        invariant
            v@ == value@,
            1 <= i <= v@.len(),
            forall|k: int| 1 <= k < i ==> #[trigger] v@[k] == '_' || is_upper(v@[k]) || is_digit(v@[k]),
        decreases v.len() - i,
    {
        let c = v[i];
        if !(c == '_' || ('A' <= c && c <= 'Z') || ('0' <= c && c <= '9')) {
            return false;
        }
        i += 1;
    }
    true
}

fn is_listed(list: &Vec<String>, value: &str) -> (r: bool)
    ensures
        r == listed(list@, value@),
{
    let mut i: usize = 0;
    while i < list.len()
        invariant
            i <= list@.len(),
            forall|k: int| 0 <= k < i ==> #[trigger] list@[k]@ != value@,
        decreases list.len() - i,
    {
        if same_text(list[i].as_str(), value) {
            return true;
        }
        i += 1;
    }
    false
}

fn is_name_granted(list: &Vec<String>, value: &str) -> (r: bool)
    ensures
        r == name_granted(list@, value@),
{
    if value.is_empty() {
        return false;
    }
    is_listed(list, "*") || is_listed(list, value)
}

fn is_fs_granted(list: &Vec<String>, value: &str) -> (r: bool)
    ensures
        r == fs_granted(list@, value@),
{
    let chars = char_vec(value);
    let requested = match normalize_fs_path(chars.as_slice()) {
        Some(p) => p,
        None => return false,
    };
    let mut i: usize = 0;
    while i < list.len()
        invariant
            i <= list@.len(),
            normalize_fs(value@) == Some(requested@),
            forall|k: int|
                0 <= k < i ==> !match normalize_fs(#[trigger] list@[k]@) {
                    Some(p) => within_prefix(requested@, p),
                    None => false,
                },
        decreases list.len() - i,
    {
        let entry = char_vec(list[i].as_str());
        match normalize_fs_path(entry.as_slice()) {
            Some(prefix) => {
                if is_within_prefix(requested.as_slice(), prefix.as_slice()) {
                    return true;
                }
            },
            None => {},
        }
        i += 1;
    }
    false
}

fn is_net_granted(list: &Vec<String>, value: &str) -> (r: bool)
    ensures
        r == net_granted(list@, value@),
{
    let requested = match parse_uri(value) {
        Some(u) => u,
        None => return false,
    };
    let mut i: usize = 0;
    while i < list.len()
        invariant
            i <= list@.len(),
            parse_uri_of(value@) == Some(requested@),
            forall|k: int|
                0 <= k < i ==> !match parse_uri_of(#[trigger] list@[k]@) {
                    Some(a) => net_within(requested@, a),
                    None => false,
                },
        decreases list.len() - i,
    {
        match parse_uri(list[i].as_str()) {
            Some(allowed) => {
                if net_uri_within_prefix(&requested, &allowed) {
                    return true;
                }
            },
            None => {},
        }
        i += 1;
    }
    false
}

/// Whether `policy` grants `capability`. Total: malformed or unknown requests are denied.
pub fn evaluate_capability(policy: &Policy, capability: &Capability) -> (r: bool)
    ensures
        r == capability_allowed(policy.capability_ceiling, capability.kind@, capability.value@),
{
    let ceiling = &policy.capability_ceiling;
    let value = capability.value.as_str();
    match CapabilityKind::from_tag(capability.kind.as_str()) {
        CapabilityKind::Exec => ceiling.exec_allowed && same_text(value, "true"),
        CapabilityKind::ExecSafe => ceiling.exec_allowed && !value.is_empty(),
        CapabilityKind::TimeNow => ceiling.time && !value.is_empty(),
        CapabilityKind::RandomBytes => ceiling.random && !value.is_empty(),
        CapabilityKind::Env => is_valid_env_name(value) && is_listed(&ceiling.env, value),
        CapabilityKind::NetHttp => is_net_granted(&ceiling.net, value),
        CapabilityKind::FsRead => is_fs_granted(&ceiling.fs.read, value),
        CapabilityKind::FsWrite => is_fs_granted(&ceiling.fs.write, value),
        CapabilityKind::KvRead => is_name_granted(&ceiling.kv.read, value),
        CapabilityKind::KvWrite => is_name_granted(&ceiling.kv.write, value),
        CapabilityKind::QueuePublish => is_name_granted(&ceiling.queue.publish, value),
        CapabilityKind::QueueConsume => is_name_granted(&ceiling.queue.consume, value),
        CapabilityKind::Unknown => false,
    }
}

/// An unknown kind is denied, under every ceiling and for every value.
pub proof fn lemma_unknown_kind_denied(ceiling: CapabilityCeiling, kind: Seq<char>, value: Seq<char>)
    requires
        kind_of(kind) is Unknown,
    ensures
        !capability_allowed(ceiling, kind, value),
{
}

/// The list of names a named-resource kind is checked against.
pub open spec fn resource_list(ceiling: CapabilityCeiling, kind: CapabilityKind) -> Seq<String> {
    match kind {
        CapabilityKind::KvRead => ceiling.kv.read@,
        CapabilityKind::KvWrite => ceiling.kv.write@,
        CapabilityKind::QueuePublish => ceiling.queue.publish@,
        _ => ceiling.queue.consume@,
    }
}

/// For the key-value and queue kinds an empty value is denied even under `*`, and any other
/// value is granted where the matching list holds `*`.
pub proof fn lemma_wildcard_and_emptiness(ceiling: CapabilityCeiling, kind: Seq<char>, value: Seq<char>)
    requires
        kind_of(kind) is KvRead || kind_of(kind) is KvWrite || kind_of(kind) is QueuePublish
            || kind_of(kind) is QueueConsume,
    ensures
        value.len() == 0 ==> !capability_allowed(ceiling, kind, value),
        value.len() > 0 && listed(resource_list(ceiling, kind_of(kind)), "*"@) ==> capability_allowed(
            ceiling,
            kind,
            value,
        ),
{
}

/// A filesystem request with a `.` or `..` segment is denied, under every ceiling.
pub proof fn lemma_dot_segment_denied(ceiling: CapabilityCeiling, kind: Seq<char>, value: Seq<char>)
    requires
        kind_of(kind) is FsRead || kind_of(kind) is FsWrite,
        has_dot_segment(split_slash(value)),
    ensures
        !capability_allowed(ceiling, kind, value),
{
}

/// A network request whose path holds a percent-encoded byte is denied, under every ceiling.
pub proof fn lemma_percent_encoding_denied(ceiling: CapabilityCeiling, kind: Seq<char>, value: Seq<char>)
    requires
        kind_of(kind) is NetHttp,
        parse_uri_of(value) matches Some(u) && has_pct_triplet(u.path),
    ensures
        !capability_allowed(ceiling, kind, value),
{
    let u = parse_uri_of(value)->0;
    assert(normalize_uri(u.path) is None);
    let list = ceiling.net@;
    assert forall|i: int| 0 <= i < list.len() implies !match parse_uri_of(#[trigger] list[i]@) {
        Some(a) => net_within(u, a),
        None => false,
    } by {}
}

/// An environment request that is not a POSIX-style name is denied, under every ceiling.
pub proof fn lemma_env_grammar_enforced(ceiling: CapabilityCeiling, kind: Seq<char>, value: Seq<char>)
    requires
        kind_of(kind) is Env,
        !is_env_name(value),
    ensures
        !capability_allowed(ceiling, kind, value),
{
}

} // verus!
