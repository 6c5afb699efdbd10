//! HTTP probe configuration and the pure decisions around a request:
//! proxy selection, NO_PROXY matching and address choice.

use vstd::prelude::*;
use crate::urls::{
    parse_url, url_host, url_host_of, url_parsed, url_path, url_path_of, url_port, url_port_of, url_query,
    url_query_of, url_scheme, url_scheme_of,
};
use crate::text::{
    is_suffix, split_on, split_spec, string_of, to_lowercase, trim, trim_spec,
    unicode_lowercase, ends_with, push_str, str_eq, decimal, push_char, push_decimal,
};
use crate::metrics::Protocol;

verus! {

#[derive(Debug, Clone)]
pub struct RunConfig {
    pub timeout_ms: u64,
    pub dns_enabled: bool,
    pub ipv4_only: bool,
    pub ipv6_only: bool,
    pub insecure: bool,
    pub payload_size: usize,
    /// Path to probe (defaults to "/").
    pub path: String,
    /// Path to a PEM CA bundle file to add to the trust store.
    pub ca_bundle: Option<String>,
    /// Explicit HTTP proxy URL. None means use the environment unless
    /// `no_proxy` is true.
    pub proxy: Option<String>,
    /// When true, bypass all proxy settings.
    pub no_proxy: bool,
}

impl Default for RunConfig {
    /// 30 s timeout, DNS on, both families, verified TLS, empty payload,
    /// path "/", no CA bundle, no explicit proxy.
    fn default() -> (c: RunConfig)
        ensures
            c.timeout_ms == 30_000,
            c.dns_enabled,
            !c.ipv4_only,
            !c.ipv6_only,
            !c.insecure,
            c.payload_size == 0,
            c.path@ == "/"@,
            c.ca_bundle is None,
            c.proxy is None,
            !c.no_proxy,
    {
        RunConfig {
            timeout_ms: 30_000,
            dns_enabled: true,
            ipv4_only: false,
            ipv6_only: false,
            insecure: false,
            payload_size: 0,
            path: string_of("/"),
            ca_bundle: None,
            proxy: None,
            no_proxy: false,
        }
    }
}

// ─────────────────────────────────────────────────────────────────────────────
// NO_PROXY matching
// ─────────────────────────────────────────────────────────────────────────────

/// One NO_PROXY entry (trimmed, lowercased) covers the lowercased host: `*`,
/// the exact name, or any subdomain of it.
pub open spec fn no_proxy_entry_covers(host_lower: Seq<char>, entry: Seq<char>) -> bool {
    let e = unicode_lowercase(trim_spec(entry));
    &&& e.len() > 0
    &&& (e == "*"@ || host_lower == e || is_suffix(seq!['.'] + e, host_lower))
}

pub open spec fn is_no_proxy_spec(host: Seq<char>, no_proxy: Seq<char>) -> bool {
    &&& no_proxy.len() > 0
    &&& exists|i: int|
        0 <= i < split_spec(no_proxy, ',').len() && no_proxy_entry_covers(
            unicode_lowercase(host),
            #[trigger] split_spec(no_proxy, ',')[i],
        )
}

/// Whether `host` matches an entry of a comma-separated NO_PROXY list (exact
/// match, `*`, or suffix match on a `.`-boundary), case-insensitively.
pub fn is_no_proxy(host: &str, no_proxy: &str) -> (r: bool)
    ensures
        r == is_no_proxy_spec(host@, no_proxy@),
{
    if no_proxy.is_empty() {
        return false;
    }
    let host_lower = to_lowercase(host);
    let entries = split_on(no_proxy, ',');
    let mut i: usize = 0;
    while i < entries.len()
        invariant
            entries@.len() == split_spec(no_proxy@, ',').len(),
            forall|j: int| 0 <= j < entries@.len() ==> (#[trigger] entries@[j])@ == split_spec(no_proxy@, ',')[j],
            host_lower@ == unicode_lowercase(host@),
            no_proxy@.len() > 0,
            i <= entries@.len(),
            forall|j: int| 0 <= j < i ==> !no_proxy_entry_covers(host_lower@, #[trigger] split_spec(no_proxy@, ',')[j]),
        decreases entries@.len() - i,
    {
        let trimmed = trim(entries[i].as_str());
        let entry = to_lowercase(trimmed.as_str());
        if !entry.as_str().is_empty() {
            let mut dotted = string_of(".");
            proof {
                reveal_strlit(".");
                assert("."@ =~= seq!['.']);
                assert(entries@[i as int]@ == split_spec(no_proxy@, ',')[i as int]);
            }
            push_str(&mut dotted, entry.as_str());
            assert(dotted@ =~= seq!['.'] + entry@);
            if str_eq(entry.as_str(), "*") || str_eq(host_lower.as_str(), entry.as_str())
                || ends_with(host_lower.as_str(), dotted.as_str()) {
                assert(no_proxy_entry_covers(host_lower@, split_spec(no_proxy@, ',')[i as int]));
                return true;
            }
        }
        i = i + 1;
    }
    false
}

// ─────────────────────────────────────────────────────────────────────────────
// Request head
// ─────────────────────────────────────────────────────────────────────────────

/// What a probe request is made of, before the HTTP stack frames it.
#[derive(Debug, Clone)]
pub struct RequestHead {
    pub method: String,
    pub path: String,
    pub headers: Vec<(String, String)>,
    /// Length of the zero-filled body.
    pub body_len: usize,
}

pub open spec fn header_views(h: Seq<(String, String)>) -> Seq<(Seq<char>, Seq<char>)> {
    h.map_values(|p: (String, String)| (p.0@, p.1@))
}

/// The request a probe sends: a GET, or a POST of `payload_size` zero bytes
/// when there is a payload, with `host`, `user-agent`, `accept` and the
/// attempt's request id as headers.
pub fn build_request(host: &str, path: &str, cfg: &RunConfig, request_id: &str) -> (r: RequestHead)
    ensures
        r.method@ == (if cfg.payload_size > 0 { "POST"@ } else { "GET"@ }),
        r.path@ == path@,
        header_views(r.headers@) == seq![
            ("host"@, host@),
            ("user-agent"@, "networker-tester/0.1"@),
            ("accept"@, "*/*"@),
            ("x-networker-request-id"@, request_id@),
        ],
        r.body_len == cfg.payload_size,
{
    let method = if cfg.payload_size > 0 { string_of("POST") } else { string_of("GET") };
    let mut headers: Vec<(String, String)> = Vec::new();
    headers.push((string_of("host"), string_of(host)));
    headers.push((string_of("user-agent"), string_of("networker-tester/0.1")));
    headers.push((string_of("accept"), string_of("*/*")));
    headers.push((string_of("x-networker-request-id"), string_of(request_id)));
    assert(header_views(headers@) =~= seq![
        ("host"@, host@),
        ("user-agent"@, "networker-tester/0.1"@),
        ("accept"@, "*/*"@),
        ("x-networker-request-id"@, request_id@),
    ]);
    RequestHead { method, path: string_of(path), headers, body_len: cfg.payload_size }
}

// ─────────────────────────────────────────────────────────────────────────────
// Proxy selection
// ─────────────────────────────────────────────────────────────────────────────

/// Proxy-related environment, read by the caller (upper-case variable first,
/// then its lower-case form).
#[derive(Debug, Clone)]
pub struct ProxyEnv {
    pub no_proxy: Option<String>,
    pub https_proxy: Option<String>,
    pub http_proxy: Option<String>,
    pub all_proxy: Option<String>,
}

pub open spec fn select_proxy_spec(scheme: Seq<char>, host: Seq<char>, proxy: Option<Seq<char>>, no_proxy: bool, env_no_proxy: Option<Seq<char>>, env_https: Option<Seq<char>>, env_http: Option<Seq<char>>, env_all: Option<Seq<char>>) -> Option<Seq<char>> {
    if no_proxy {
        None
    } else {
        match proxy {
            Some(p) => Some(p),
            None => {
                let np = match env_no_proxy { Some(v) => v, None => Seq::<char>::empty() };
                if is_no_proxy_spec(host, np) {
                    None
                } else {
                    let specific = if scheme == "https"@ { env_https } else { env_http };
                    match specific {
                        Some(v) => Some(v),
                        None => env_all,
                    }
                }
            },
        }
    }
}

/// Proxy priority: `no_proxy` forces a direct connection; otherwise an
/// explicit proxy is used as given, whatever NO_PROXY lists; without one,
/// a host matched by NO_PROXY goes direct, else the scheme's own proxy
/// variable (`HTTPS_PROXY` for https, `HTTP_PROXY` otherwise) wins over
/// ALL_PROXY, and with neither set the connection is direct.
pub proof fn law_proxy_priority(
    scheme: Seq<char>,
    host: Seq<char>,
    proxy: Option<Seq<char>>,
    no_proxy: bool,
    env_no_proxy: Option<Seq<char>>,
    env_https: Option<Seq<char>>,
    env_http: Option<Seq<char>>,
    env_all: Option<Seq<char>>,
)
    ensures
        ({
            let r = select_proxy_spec(scheme, host, proxy, no_proxy, env_no_proxy, env_https, env_http, env_all);
            let listed = is_no_proxy_spec(host, match env_no_proxy { Some(v) => v, None => Seq::<char>::empty() });
            &&& no_proxy ==> r is None
            &&& (!no_proxy && proxy is Some) ==> r == proxy
            &&& (!no_proxy && proxy is None && listed) ==> r is None
            &&& (!no_proxy && proxy is None && !listed && scheme == "https"@ && env_https is Some) ==> r == env_https
            &&& (!no_proxy && proxy is None && !listed && scheme != "https"@ && env_http is Some) ==> r == env_http
            &&& (!no_proxy && proxy is None && !listed && scheme == "https"@ && env_https is None) ==> r == env_all
            &&& (!no_proxy && proxy is None && !listed && scheme != "https"@ && env_http is None) ==> r == env_all
            &&& r matches Some(x) ==> (proxy == Some(x) || env_https == Some(x) || env_http == Some(x)
                || env_all == Some(x))
        }),
{
}

pub open spec fn opt_view(o: Option<String>) -> Option<Seq<char>> {
    match o {
        Some(s) => Some(s@),
        None => None,
    }
}

/// The raw proxy URL for a request, or None for a direct connection.
/// Priority: the explicit proxy > scheme-specific environment proxy >
/// ALL_PROXY; NO_PROXY applies to the environment only; `no_proxy` bypasses
/// everything.
pub fn select_proxy(scheme: &str, host: &str, cfg: &RunConfig, env: &ProxyEnv) -> (r: Option<String>)
    ensures
        opt_view(r) == select_proxy_spec(scheme@, host@, opt_view(cfg.proxy), cfg.no_proxy,
            opt_view(env.no_proxy), opt_view(env.https_proxy), opt_view(env.http_proxy), opt_view(env.all_proxy)),
{
    if cfg.no_proxy {
        return None;
    }
    match &cfg.proxy {
        Some(p) => Some(p.clone()),
        None => {
            let np = match &env.no_proxy {
                Some(v) => v.clone(),
                None => String::new(),
            };
            if is_no_proxy(host, np.as_str()) {
                return None;
            }
            let specific = if str_eq(scheme, "https") { &env.https_proxy } else { &env.http_proxy };
            match specific {
                Some(v) => Some(v.clone()),
                None => match &env.all_proxy {
                    Some(v) => Some(v.clone()),
                    None => None,
                },
            }
        },
    }
}

/// The proxy a request goes through, as a parsed URL: the selected proxy
/// text when it parses as an absolute URL, else a direct connection.
pub fn effective_proxy(scheme: &str, host: &str, cfg: &RunConfig, env: &ProxyEnv) -> (r: Option<String>)
    ensures
        opt_view(r) == match select_proxy_spec(scheme@, host@, opt_view(cfg.proxy), cfg.no_proxy,
            opt_view(env.no_proxy), opt_view(env.https_proxy), opt_view(env.http_proxy), opt_view(env.all_proxy)) {
            Some(raw) => url_parsed(raw),
            None => None,
        },
{
    match select_proxy(scheme, host, cfg, env) {
        Some(raw) => parse_url(raw.as_str()),
        None => None,
    }
}

// ─────────────────────────────────────────────────────────────────────────────
// Routing a request
// ─────────────────────────────────────────────────────────────────────────────

/// Where a request goes: the origin's host and port, the endpoint the TCP
/// connection dials (the proxy's, when there is one), whether HTTPS is
/// tunnelled through the proxy, and the request target.
#[derive(Debug, Clone)]
pub struct Route {
    pub host: String,
    pub port: u16,
    pub connect_host: String,
    pub connect_port: u16,
    pub tunnel: bool,
    pub request_uri: String,
}

pub open spec fn is_https(scheme: Option<Seq<char>>) -> bool {
    scheme == Some("https"@)
}

/// The port of a URL: explicit, else 443 for `https` and `alt` otherwise.
pub open spec fn port_or(url: Seq<char>, alt: u16) -> u16 {
    match url_port_of(url) {
        Some(p) => p,
        None => if is_https(url_scheme_of(url)) { 443 } else { alt },
    }
}

/// The origin-form target: the path (`/` when empty) and `?query`.
pub open spec fn origin_form(url: Seq<char>) -> Seq<char> {
    let path = url_path_of(url);
    let p = if path.len() == 0 { seq!['/'] } else { path };
    match url_query_of(url) {
        Some(q) => p + seq!['?'] + q,
        None => p,
    }
}

/// Plain HTTP through a proxy asks in absolute form
/// (`http://host:port/path`); anything else in origin form.
pub open spec fn request_uri_spec(url: Seq<char>, host: Seq<char>, proxied: bool) -> Seq<char> {
    if proxied && !is_https(url_scheme_of(url)) {
        "http://"@ + host + seq![':'] + decimal(port_or(url, 80) as nat) + origin_form(url)
    } else {
        origin_form(url)
    }
}

fn port_or_exec(url: &str, alt: u16) -> (p: u16)
    ensures
        p == port_or(url@, alt),
{
    match url_port(url) {
        Some(p) => p,
        None => {
            let scheme = url_scheme(url);
            let https = match &scheme {
                Some(s) => str_eq(s.as_str(), "https"),
                None => false,
            };
            proof {
                if !https {
                    assert(opt_view(scheme) != Some("https"@));
                }
            }
            if https { 443 } else { alt }
        },
    }
}

/// Routes a request for `target`, through `proxy` when given (a URL; its
/// port defaults to 443 for `https` and 3128 otherwise). None when the
/// target has no host.
pub fn plan_route(target: &str, proxy: Option<&str>) -> (r: Option<Route>)
    ensures
        r is None == url_host_of(target@) is None,
        r matches Some(rt) ==> {
            &&& rt.host@ == url_host_of(target@)->0
            &&& rt.port == port_or(target@, 80)
            &&& rt.connect_host@ == (match proxy {
                Some(p) => match url_host_of(p@) {
                    Some(h) => h,
                    None => Seq::<char>::empty(),
                },
                None => url_host_of(target@)->0,
            })
            &&& rt.connect_port == (match proxy {
                Some(p) => port_or(p@, 3128),
                None => port_or(target@, 80),
            })
            &&& rt.tunnel == (proxy is Some && is_https(url_scheme_of(target@)))
            &&& rt.request_uri@ == request_uri_spec(target@, url_host_of(target@)->0, proxy is Some)
        },
{
    let host = match url_host(target) {
        Some(h) => h,
        None => return None,
    };
    let port = port_or_exec(target, 80);
    let scheme = url_scheme(target);
    let https = match &scheme {
        Some(s) => str_eq(s.as_str(), "https"),
        None => false,
    };
    proof {
        if !https {
            assert(opt_view(scheme) != Some("https"@));
        }
    }
    let (connect_host, connect_port) = match proxy {
        Some(p) => {
            let ph = match url_host(p) {
                Some(h) => h,
                None => String::new(),
            };
            (ph, port_or_exec(p, 3128))
        },
        None => (host.clone(), port),
    };
    let path = url_path(target);
    let mut full = if path.as_str().is_empty() {
        let mut slash = String::new();
        push_char(&mut slash, '/');
        slash
    } else {
        path
    };
    match url_query(target) {
        Some(q) => {
            push_char(&mut full, '?');
            push_str(&mut full, q.as_str());
        },
        None => {},
    }
    assert(full@ =~= origin_form(target@));
    let request_uri = if proxy.is_some() && !https {
        let mut u = string_of("http://");
        push_str(&mut u, host.as_str());
        push_char(&mut u, ':');
        push_decimal(&mut u, port as u64);
        push_str(&mut u, full.as_str());
        assert(u@ =~= "http://"@ + host@ + seq![':'] + decimal(port as nat) + origin_form(target@));
        u
    } else {
        full
    };
    Some(Route { host, port, connect_host, connect_port, tunnel: proxy.is_some() && https, request_uri })
}

/// The HTTP version a probe speaks once connected.
#[derive(Debug, Clone, Copy, PartialEq, Eq, Structural)]
pub enum HttpVersion {
    Http1,
    Http2,
}

/// HTTP/1.1 for the HTTP/1.1-based probes (plain requests, downloads and
/// uploads), HTTP/2 for the HTTP/2 probe; other protocols send no request
/// over this path (a bare TCP probe stops after connecting).
pub fn http_version_for(protocol: Protocol) -> (v: Option<HttpVersion>)
    ensures
        v == (match protocol {
            Protocol::Http1 | Protocol::Download | Protocol::Upload | Protocol::WebDownload
                | Protocol::WebUpload => Some(HttpVersion::Http1),
            Protocol::Http2 => Some(HttpVersion::Http2),
            _ => None,
        }),
{
    match protocol {
        Protocol::Http1 | Protocol::Download | Protocol::Upload | Protocol::WebDownload | Protocol::WebUpload => {
            Some(HttpVersion::Http1)
        },
        Protocol::Http2 => Some(HttpVersion::Http2),
        _ => None,
    }
}

// ─────────────────────────────────────────────────────────────────────────────
// Addresses
// ─────────────────────────────────────────────────────────────────────────────

/// An IP address: IPv4 as its 32-bit value, IPv6 as its 128-bit value.
#[derive(Debug, Clone, Copy, PartialEq, Eq, Structural)]
pub enum IpAddr {
    V4(u32),
    V6(u128),
}

impl IpAddr {
    pub fn is_ipv4(&self) -> (r: bool)
        ensures
            r == (*self is V4),
    {
        match self {
            IpAddr::V4(_) => true,
            IpAddr::V6(_) => false,
        }
    }

    pub fn is_ipv6(&self) -> (r: bool)
        ensures
            r == (*self is V6),
    {
        match self {
            IpAddr::V4(_) => false,
            IpAddr::V6(_) => true,
        }
    }
}

/// The address to connect to: the first IPv4 address when IPv4 is preferred
/// and one exists, else the first address.
pub fn pick_ip(ips: &[IpAddr], prefer_v4: bool) -> (ip: IpAddr)
    requires
        ips@.len() > 0,
    ensures
        !prefer_v4 ==> ip == ips@[0],
        prefer_v4 && (exists|i: int| 0 <= i < ips@.len() && ips@[i] is V4) ==> ({
            &&& ip is V4
            &&& exists|i: int| 0 <= i < ips@.len() && ips@[i] == ip && forall|j: int| 0 <= j < i ==> !(ips@[j] is V4)
        }),
        prefer_v4 && !(exists|i: int| 0 <= i < ips@.len() && ips@[i] is V4) ==> ip == ips@[0],
{
    if prefer_v4 {
        let mut i: usize = 0;
        while i < ips.len()
            invariant
                prefer_v4,
                i <= ips@.len(),
                forall|j: int| 0 <= j < i ==> !(ips@[j] is V4),
            decreases ips@.len() - i,
        {
            if ips[i].is_ipv4() {
                return ips[i];
            }
            i = i + 1;
        }
        ips[0]
    } else {
        ips[0]
    }
}

/// Which address families a resolution returned: `(has_v4, has_v6)`.
pub fn families_present(ips: &[IpAddr]) -> (r: (bool, bool))
    ensures
        r.0 == exists|i: int| 0 <= i < ips@.len() && ips@[i] is V4,
        r.1 == exists|i: int| 0 <= i < ips@.len() && ips@[i] is V6,
{
    let mut v4 = false;
    let mut v6 = false;
    let mut i: usize = 0;
    while i < ips.len()
        invariant
            i <= ips@.len(),
            v4 == exists|j: int| 0 <= j < i && ips@[j] is V4,
            v6 == exists|j: int| 0 <= j < i && ips@[j] is V6,
        decreases ips@.len() - i,
    {
        if ips[i].is_ipv4() {
            v4 = true;
        } else {
            v6 = true;
        }
        i = i + 1;
    }
    (v4, v6)
}

} // verus!
