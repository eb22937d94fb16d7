//! Network URIs: what the evaluator reads of a parsed URI, and when one request falls under
//! a policy entry.
use vstd::prelude::*;

use crate::path::{normalize_uri, normalize_uri_path, within_prefix, is_within_prefix};
use crate::text::char_vec;

verus! {

/// What the policy logic reads of a parsed absolute URI.
#[derive(Debug, Clone)]
pub struct UriParts {
    pub has_authority: bool,
    pub scheme: String,
    pub host: Option<String>,
    /// The explicit port, or else the scheme's well-known one.
    pub port: Option<u16>,
    pub username: String,
    pub password: Option<String>,
    pub query: Option<String>,
    pub fragment: Option<String>,
    pub path: String,
}

/// `UriParts` as plain values.
pub ghost struct UriModel {
    pub has_authority: bool,
    pub scheme: Seq<char>,
    pub host: Option<Seq<char>>,
    pub port: Option<u16>,
    pub username: Seq<char>,
    pub password: Option<Seq<char>>,
    pub query: Option<Seq<char>>,
    pub fragment: Option<Seq<char>>,
    pub path: Seq<char>,
}

pub open spec fn opt_view(o: Option<String>) -> Option<Seq<char>> {
    match o {
        Some(s) => Some(s@),
        None => None,
    }
}

impl View for UriParts {
    type V = UriModel;

    open spec fn view(&self) -> UriModel {
        UriModel {
            has_authority: self.has_authority,
            scheme: self.scheme@,
            host: opt_view(self.host),
            port: self.port,
            username: self.username@,
            password: opt_view(self.password),
            query: opt_view(self.query),
            fragment: opt_view(self.fragment),
            path: self.path@,
        }
    }
}

/// What URL parsing makes of a text, or `None` where it is no absolute URI.
pub uninterp spec fn parse_uri_of(s: Seq<char>) -> Option<UriModel>;

/// Relies on `url::Url::parse` and on the accessors of the `Url` it returns (`has_authority`,
/// `scheme`, `host_str`, `port_or_known_default`, `username`, `password`, `query`,
/// `fragment`, `path`); the outcome depends on the text alone.
#[verifier::external_body]
pub(crate) fn parse_uri(s: &str) -> (r: Option<UriParts>)
    ensures
        match r {
            Some(u) => parse_uri_of(s@) == Some(u@),
            None => parse_uri_of(s@) is None,
        },
{
    match url::Url::parse(s) {
        Ok(u) => Some(UriParts {
            has_authority: u.has_authority(),
            scheme: u.scheme().to_string(),
            host: u.host_str().map(String::from),
            port: u.port_or_known_default(),
            username: u.username().to_string(),
            password: u.password().map(String::from),
            query: u.query().map(String::from),
            fragment: u.fragment().map(String::from),
            path: u.path().to_string(),
        }),
        Err(_) => None,
    }
}

/// `requested` falls under the policy entry `allowed`: same scheme, host, effective port and
/// user information, no fragment on either side and no query on the policy side, and the
/// normalized paths nest at a segment boundary.
pub open spec fn net_within(requested: UriModel, allowed: UriModel) -> bool {
    &&& requested.has_authority && allowed.has_authority
    &&& requested.scheme == allowed.scheme
    &&& requested.host == allowed.host
    &&& requested.port == allowed.port
    &&& requested.username == allowed.username
    &&& requested.password == allowed.password
    &&& requested.fragment is None
    &&& allowed.query is None
    &&& allowed.fragment is None
    &&& match (normalize_uri(requested.path), normalize_uri(allowed.path)) {
        (Some(r), Some(a)) => within_prefix(r, a),
        _ => false,
    }
}

fn opt_str_eq(a: &Option<String>, b: &Option<String>) -> (r: bool)
    ensures
        r == (opt_view(*a) == opt_view(*b)),
{
    match (a, b) {
        (Some(x), Some(y)) => *x == *y,
        (None, None) => true,
        _ => false,
    }
}

/// Whether the request `requested` falls under the policy entry `allowed`.
pub fn net_uri_within_prefix(requested: &UriParts, allowed: &UriParts) -> (r: bool)
    ensures
        r == net_within(requested@, allowed@),
{
    if !requested.has_authority || !allowed.has_authority {
        return false;
    }
    if requested.scheme != allowed.scheme {
        return false;
    }
    if !opt_str_eq(&requested.host, &allowed.host) {
        return false;
    }
    let same_port = match (requested.port, allowed.port) {
        (Some(x), Some(y)) => x == y,
        (None, None) => true,
        _ => false,
    };
    if !same_port {
        return false;
    }
    if requested.username != allowed.username || !opt_str_eq(
        &requested.password,
        &allowed.password,
    ) {
        return false;
    }
    if requested.fragment.is_some() || allowed.query.is_some() || allowed.fragment.is_some() {
        return false;
    }
    let requested_chars = char_vec(requested.path.as_str());
    let requested_path = match normalize_uri_path(requested_chars.as_slice()) {
        Some(p) => p,
        None => return false,
    };
    let allowed_chars = char_vec(allowed.path.as_str());
    let allowed_path = match normalize_uri_path(allowed_chars.as_slice()) {
        Some(p) => p,
        None => return false,
    };
    is_within_prefix(requested_path.as_slice(), allowed_path.as_slice())
}

} // verus!
