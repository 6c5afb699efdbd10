//! URLs, held as their serialized text, and the `url` crate operations the
//! probes apply to them.
//!
//! Each operation parses the text with `url::Url::parse`, applies one `Url`
//! method and hands back the serialization (or the part read). Text that
//! does not parse as an absolute URL reads as having no scheme, host or
//! port, and comes back unchanged from every setter.

use vstd::prelude::*;
use crate::http::opt_view;

verus! {

/// The serialization of the URL `text` parses to (None when it does not
/// parse as an absolute URL).
pub uninterp spec fn url_parsed(text: Seq<char>) -> Option<Seq<char>>;

/// `Url::scheme` of the URL that `text` parses to (None when it does not).
pub uninterp spec fn url_scheme_of(text: Seq<char>) -> Option<Seq<char>>;

/// `Url::port`: the explicit, non-default port.
pub uninterp spec fn url_port_of(text: Seq<char>) -> Option<u16>;

/// `Url::port_or_known_default`.
pub uninterp spec fn url_port_or_default_of(text: Seq<char>) -> Option<u16>;

/// `Url::host_str`.
pub uninterp spec fn url_host_of(text: Seq<char>) -> Option<Seq<char>>;

/// `Url::path`.
pub uninterp spec fn url_path_of(text: Seq<char>) -> Seq<char>;

/// `Url::query`.
pub uninterp spec fn url_query_of(text: Seq<char>) -> Option<Seq<char>>;

/// The serialization after `Url::set_path(path)`.
pub uninterp spec fn url_with_path(text: Seq<char>, path: Seq<char>) -> Seq<char>;

/// The serialization after `Url::set_query(Some(query))`.
pub uninterp spec fn url_with_query(text: Seq<char>, query: Seq<char>) -> Seq<char>;

/// The serialization after `Url::set_scheme(scheme)` (unchanged when the
/// change is refused).
pub uninterp spec fn url_with_scheme(text: Seq<char>, scheme: Seq<char>) -> Seq<char>;

/// The serialization after `Url::set_port(port)` (unchanged when refused).
pub uninterp spec fn url_with_port(text: Seq<char>, port: Option<u16>) -> Seq<char>;

/// The serialization after `Url::set_host(Some(host))` (unchanged when
/// refused).
pub uninterp spec fn url_with_host(text: Seq<char>, host: Seq<char>) -> Seq<char>;

/// The default port the `url` crate knows for a scheme.
pub open spec fn known_default_port(scheme: Seq<char>) -> Option<u16> {
    if scheme == "http"@ || scheme == "ws"@ {
        Some(80)
    } else if scheme == "https"@ || scheme == "wss"@ {
        Some(443)
    } else if scheme == "ftp"@ {
        Some(21)
    } else {
        None
    }
}

/// A URL's text parsed and serialized again.
///
/// Calls `url::Url::parse` and serializes the result: None when the text is
/// not an absolute URL. The result is named `url_parsed`; nothing more is
/// stated.
#[verifier::external_body]
pub(crate) fn parse_url(text: &str) -> (r: Option<String>)
    ensures
        opt_view(r) == url_parsed(text@),
{
    match url::Url::parse(text) {
        Ok(u) => Some(u.to_string()),
        Err(_) => None,
    }
}

/// The scheme of a URL.
///
/// Calls `url::Url::scheme` on the parsed text; the result is named
/// `url_scheme_of`. Nothing more is stated.
#[verifier::external_body]
pub(crate) fn url_scheme(text: &str) -> (r: Option<String>)
    ensures
        opt_view(r) == url_scheme_of(text@),
{
    match url::Url::parse(text) {
        Ok(u) => Some(u.scheme().to_string()),
        Err(_) => None,
    }
}

/// The explicit port of a URL (None when absent or the scheme's default).
///
/// Calls `url::Url::port` on the parsed text; the result is named
/// `url_port_of`. Nothing more is stated.
#[verifier::external_body]
pub(crate) fn url_port(text: &str) -> (r: Option<u16>)
    ensures
        r == url_port_of(text@),
{
    match url::Url::parse(text) {
        Ok(u) => u.port(),
        Err(_) => None,
    }
}

/// The port of a URL, or its scheme's default when the `url` crate knows
/// one.
///
/// Calls `url::Url::port_or_known_default` on the parsed text, whose source
/// is `self.port.or_else(|| default_port(self.scheme()))`: the contract
/// states that relation over `url_port_of` and `url_scheme_of`.
#[verifier::external_body]
pub(crate) fn url_port_or_known_default(text: &str) -> (r: Option<u16>)
    ensures
        r == url_port_or_default_of(text@),
        r == (match url_port_of(text@) {
            Some(p) => Some(p),
            None => match url_scheme_of(text@) {
                Some(s) => known_default_port(s),
                None => None,
            },
        }),
{
    match url::Url::parse(text) {
        Ok(u) => u.port_or_known_default(),
        Err(_) => None,
    }
}

/// The host of a URL as text.
///
/// Calls `url::Url::host_str` on the parsed text; the result is named
/// `url_host_of`. Nothing more is stated.
#[verifier::external_body]
pub(crate) fn url_host(text: &str) -> (r: Option<String>)
    ensures
        opt_view(r) == url_host_of(text@),
{
    match url::Url::parse(text) {
        Ok(u) => u.host_str().map(String::from),
        Err(_) => None,
    }
}

/// The path of a URL (empty when the text does not parse).
///
/// Calls `url::Url::path` on the parsed text; the result is named
/// `url_path_of`. Nothing more is stated.
#[verifier::external_body]
pub(crate) fn url_path(text: &str) -> (r: String)
    ensures
        r@ == url_path_of(text@),
{
    match url::Url::parse(text) {
        Ok(u) => u.path().to_string(),
        Err(_) => String::new(),
    }
}

/// The query of a URL, without its `?`.
///
/// Calls `url::Url::query` on the parsed text; the result is named
/// `url_query_of`. Nothing more is stated.
#[verifier::external_body]
pub(crate) fn url_query(text: &str) -> (r: Option<String>)
    ensures
        opt_view(r) == url_query_of(text@),
{
    match url::Url::parse(text) {
        Ok(u) => u.query().map(String::from),
        Err(_) => None,
    }
}

/// A URL with its path replaced.
///
/// Calls `url::Url::set_path` on the parsed text and returns the
/// serialization, named `url_with_path`. Nothing more is stated.
#[verifier::external_body]
pub(crate) fn set_url_path(text: &str, path: &str) -> (r: String)
    ensures
        r@ == url_with_path(text@, path@),
{
    match url::Url::parse(text) {
        Ok(mut u) => {
            u.set_path(path);
            u.to_string()
        },
        Err(_) => text.to_string(),
    }
}

/// A URL with its query replaced.
///
/// Calls `url::Url::set_query(Some(query))` on the parsed text and returns
/// the serialization, named `url_with_query`. Nothing more is stated.
#[verifier::external_body]
pub(crate) fn set_url_query(text: &str, query: &str) -> (r: String)
    ensures
        r@ == url_with_query(text@, query@),
{
    match url::Url::parse(text) {
        Ok(mut u) => {
            u.set_query(Some(query));
            u.to_string()
        },
        Err(_) => text.to_string(),
    }
}

/// A URL with another scheme.
///
/// Calls `url::Url::set_scheme` on the parsed text (ignoring a refusal,
/// which leaves the URL as it was) and returns the serialization, named
/// `url_with_scheme`. Nothing more is stated.
#[verifier::external_body]
pub(crate) fn set_url_scheme(text: &str, scheme: &str) -> (r: String)
    ensures
        r@ == url_with_scheme(text@, scheme@),
{
    match url::Url::parse(text) {
        Ok(mut u) => {
            let _ = u.set_scheme(scheme);
            u.to_string()
        },
        Err(_) => text.to_string(),
    }
}

/// A URL with another explicit port (None: the scheme's default).
///
/// Calls `url::Url::set_port` on the parsed text (ignoring a refusal) and
/// returns the serialization, named `url_with_port`. Nothing more is stated.
#[verifier::external_body]
pub(crate) fn set_url_port(text: &str, port: Option<u16>) -> (r: String)
    ensures
        r@ == url_with_port(text@, port),
{
    match url::Url::parse(text) {
        Ok(mut u) => {
            let _ = u.set_port(port);
            u.to_string()
        },
        Err(_) => text.to_string(),
    }
}

/// A URL with another host.
///
/// Calls `url::Url::set_host(Some(host))` on the parsed text (ignoring a
/// refusal) and returns the serialization, named `url_with_host`. Nothing
/// more is stated.
#[verifier::external_body]
pub(crate) fn set_url_host(text: &str, host: &str) -> (r: String)
    ensures
        r@ == url_with_host(text@, host@),
{
    match url::Url::parse(text) {
        Ok(mut u) => {
            let _ = u.set_host(Some(host));
            u.to_string()
        },
        Err(_) => text.to_string(),
    }
}

} // verus!
