//! URL normalization: scheme inference for bare hosts, and resolution of
//! the (possibly amended) URL string into a connection target.

use crate::errors::ProbeError;
use crate::text::{chars_of, contains_pattern, contains_seq, matches_at};
use vstd::prelude::*;
use vstd::string::StringExecFns;

verus! {

/// The scheme separator `://`.
pub open spec fn scheme_sep() -> Seq<char> {
    seq![':', '/', '/']
}

/// Whether the input already names a scheme.
pub open spec fn has_scheme_sep(s: Seq<char>) -> bool {
    contains_seq(s, scheme_sep())
}

/// The URL string an attempt actually parses: the input itself when it
/// carries a scheme separator, otherwise the input behind `https://`.
pub open spec fn effective_url(s: Seq<char>) -> Seq<char> {
    if has_scheme_sep(s) {
        s
    } else {
        "https://"@ + s
    }
}

/// Prefixes `https://` when the input lacks a scheme separator.  The flag
/// reports whether the scheme was inferred (and a warning may be due).
pub fn add_scheme_if_missing(input: &str) -> (r: (String, bool))
    ensures
        r.0@ == effective_url(input@),
        r.1 == !has_scheme_sep(input@),
{
    let v = chars_of(input);
    let mut pat: Vec<char> = Vec::new();
    pat.push(':');
    pat.push('/');
    pat.push('/');
    proof {
        assert(pat@ =~= scheme_sep());
    }
    if contains_pattern(&v, &pat) {
        (String::from_str(input), false)
    } else {
        (String::from_str("https://").concat(input), true)
    }
}

/// A bare host is handled exactly as if `https://` stood in front of it:
/// both inputs yield the same effective URL, so resolution, transport and
/// reporting treat them identically.
pub proof fn lemma_bare_host_like_https(s: Seq<char>)
    requires
        !has_scheme_sep(s),
    ensures
        effective_url(s) == effective_url("https://"@ + s),
{
    reveal_strlit("https://");
    let p = "https://"@ + s;
    assert(p.subrange(5, 8) =~= scheme_sep());
    assert(matches_at(p, scheme_sep(), 5));
}

/// Whether `Url::parse` accepts the string.
pub uninterp spec fn url_parse_ok(s: Seq<char>) -> bool;

/// The scheme `Url::parse` extracts from the string.
pub uninterp spec fn url_scheme_of(s: Seq<char>) -> Seq<char>;

/// The host `Url::host_str` reports for the parsed string, if any.
pub uninterp spec fn url_host_of(s: Seq<char>) -> Option<Seq<char>>;

/// The port `Url::port_or_known_default` reports for the parsed string:
/// the explicit port, or the scheme's default where one is known.
pub uninterp spec fn url_port_of(s: Seq<char>) -> Option<u16>;

/// The path `Url::path` reports for the parsed string (`/` when none was
/// given).
pub uninterp spec fn url_path_of(s: Seq<char>) -> Seq<char>;

/// The parsed URL serialized back, as `Url`'s `Display` renders it.
pub uninterp spec fn url_full_of(s: Seq<char>) -> Seq<char>;

/// The components the URL parser reports, as plain values.
pub struct UrlParts {
    pub scheme: String,
    pub host: Option<String>,
    pub port: Option<u16>,
    pub path: String,
    pub full: String,
}

pub open spec fn opt_chars(o: Option<String>) -> Option<Seq<char>> {
    match o {
        Some(x) => Some(x@),
        None => None,
    }
}

/// Relies on `url::Url::parse` and the accessors `scheme`, `host_str`,
/// `port_or_known_default` and `path`, and on `Url`'s `Display`
/// serialization: each is a pure function of the input string alone.
#[verifier::external_body]
fn parse_url(s: &str) -> (r: Option<UrlParts>)
    ensures
        r is Some <==> url_parse_ok(s@),
        r matches Some(p) ==> p.scheme@ == url_scheme_of(s@) && opt_chars(p.host) == url_host_of(
            s@,
        ) && p.port == url_port_of(s@) && p.path@ == url_path_of(s@) && p.full@ == url_full_of(s@),
{
    match url::Url::parse(s) {
        Ok(u) => Some(
            UrlParts {
                scheme: u.scheme().to_string(),
                host: u.host_str().map(|h| h.to_string()),
                port: u.port_or_known_default(),
                path: u.path().to_string(),
                full: u.to_string(),
            },
        ),
        Err(_) => None,
    }
}

/// Transport selector: plaintext TCP, or TLS over TCP.
#[derive(Clone, Copy, Debug, PartialEq, Eq, Structural)]
pub enum Scheme {
    Plain,
    Encrypted,
}

/// The transport for a scheme name: `https` is encrypted, anything else
/// is plain.
pub open spec fn scheme_for(name: Seq<char>) -> Scheme {
    if name == "https"@ {
        Scheme::Encrypted
    } else {
        Scheme::Plain
    }
}

/// One attempt's connection target.
#[derive(Debug)]
pub struct Target {
    pub scheme: Scheme,
    pub host: String,
    pub port: u16,
    pub path: String,
    /// The parsed URL serialized back: what the report lines show.
    pub resolved: String,
}

impl Target {
    /// The host is never empty.
    pub open spec fn wf(self) -> bool {
        self.host@.len() > 0
    }
}

/// The address the transport connects to: host, colon, decimal port.
pub fn host_port(host: &str, port: u16) -> (r: String)
    ensures
        r@ == host@ + ":"@ + crate::digits::dec_rep(port as nat),
{
    let mut out = String::from_str(host);
    out.append(":");
    let dp = crate::text::string_from_chars(&crate::digits::dec_of_u128(port as u128));
    out.append(dp.as_str());
    out
}

/// Whether the parsed string lacks a usable host component.
pub open spec fn host_absent(s: Seq<char>) -> bool {
    match url_host_of(s) {
        None => true,
        Some(h) => h.len() == 0,
    }
}

/// Resolves a URL string into a target: rejects what the parser rejects,
/// then demands a host and a port (explicit or known from the scheme).
pub fn resolve_target(url_str: &str) -> (r: Result<Target, ProbeError>)
    ensures
        !url_parse_ok(url_str@) ==> r == Err::<Target, ProbeError>(ProbeError::InvalidUrl),
        url_parse_ok(url_str@) && host_absent(url_str@) ==> r == Err::<Target, ProbeError>(
            ProbeError::MissingHost,
        ),
        url_parse_ok(url_str@) && !host_absent(url_str@) && url_port_of(url_str@) is None ==> r
            == Err::<Target, ProbeError>(ProbeError::InvalidPort),
        url_parse_ok(url_str@) && !host_absent(url_str@) && url_port_of(url_str@) is Some ==> (
        r matches Ok(t) && t.wf() && t.scheme == scheme_for(url_scheme_of(url_str@)) && Some(
            t.host@,
        ) == url_host_of(url_str@) && Some(t.port) == url_port_of(url_str@) && t.path@
            == url_path_of(url_str@) && t.resolved@ == url_full_of(url_str@)),
{
    match parse_url(url_str) {
        None => Err(ProbeError::InvalidUrl),
        Some(p) => match p.host {
            None => Err(ProbeError::MissingHost),
            Some(h) => {
                if h.as_str().is_empty() {
                    Err(ProbeError::MissingHost)
                } else {
                    match p.port {
                        None => Err(ProbeError::InvalidPort),
                        Some(port) => {
                            let https = String::from_str("https");
                            let scheme = if p.scheme == https {
                                Scheme::Encrypted
                            } else {
                                Scheme::Plain
                            };
                            Ok(
                                Target {
                                    scheme,
                                    host: h,
                                    port,
                                    path: p.path,
                                    resolved: p.full,
                                },
                            )
                        },
                    }
                }
            },
        },
    }
}

} // verus!
