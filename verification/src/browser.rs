//! Browser probes: page weight per asset, the `/browser-page` query, and the
//! truncation of URLs shown in a waterfall.

use vstd::prelude::*;
use vstd::arithmetic::div_mod::lemma_fundamental_div_mod;
use crate::text::{chars_of, decimal, push_char, push_decimal, push_str, string_from_chars};
use crate::urls::{
    set_url_host, set_url_path, set_url_port, set_url_query, set_url_scheme, url_port_or_known_default,
    url_port_or_default_of, url_with_host, url_with_path, url_with_port, url_with_query, url_with_scheme,
};

verus! {

/// The sum of the asset sizes.
pub open spec fn total_bytes(sizes: Seq<usize>) -> nat
    decreases sizes.len(),
{
    if sizes.len() == 0 {
        0
    } else {
        total_bytes(sizes.drop_last()) + sizes.last() as nat
    }
}

/// Per-asset byte count of a browser page: the average asset size (rounded
/// down), 0 for no assets.
pub open spec fn asset_bytes_spec(sizes: Seq<usize>) -> nat {
    if sizes.len() == 0 {
        0
    } else {
        total_bytes(sizes) / sizes.len()
    }
}

proof fn lemma_total_prefix_bound(sizes: Seq<usize>, i: int)
    requires
        0 <= i <= sizes.len(),
    ensures
        total_bytes(sizes.take(i)) <= total_bytes(sizes),
    decreases sizes.len(),
{
    if i < sizes.len() {
        assert(sizes.drop_last().take(i) =~= sizes.take(i));
        lemma_total_prefix_bound(sizes.drop_last(), i);
    } else {
        assert(sizes.take(i) =~= sizes);
    }
}

/// Per-asset byte size for a browser page whose assets all have one size:
/// the average of `asset_sizes`, so that the page weighs what the sizes add
/// up to (up to rounding); 0 when there are no assets.
pub fn browser_asset_bytes(asset_sizes: &[usize]) -> (b: usize)
    requires
        total_bytes(asset_sizes@) <= usize::MAX,
    ensures
        b == asset_bytes_spec(asset_sizes@),
{
    if asset_sizes.len() == 0 {
        return 0;
    }
    let mut total: usize = 0;
    let mut i: usize = 0;
    while i < asset_sizes.len()
        invariant
            i <= asset_sizes@.len(),
            total == total_bytes(asset_sizes@.take(i as int)),
            total_bytes(asset_sizes@) <= usize::MAX,
        decreases asset_sizes@.len() - i,
    {
        proof {
            assert(asset_sizes@.take(i + 1).drop_last() =~= asset_sizes@.take(i as int));
            lemma_total_prefix_bound(asset_sizes@, i + 1);
        }
        total = total + asset_sizes[i];
        i = i + 1;
    }
    assert(asset_sizes@.take(i as int) =~= asset_sizes@);
    total / asset_sizes.len()
}

/// Averaging keeps the page weight: `n` assets of the average size weigh
/// less than one asset's worth (`n` bytes) under the total, never over it.
pub proof fn law_asset_bytes_keep_page_weight(sizes: Seq<usize>)
    requires
        sizes.len() > 0,
    ensures
        asset_bytes_spec(sizes) * sizes.len() <= total_bytes(sizes),
        total_bytes(sizes) < asset_bytes_spec(sizes) * sizes.len() + sizes.len(),
{
    let t = total_bytes(sizes) as int;
    let n = sizes.len() as int;
    lemma_fundamental_div_mod(t, n);
    assert(t == n * (t / n) + t % n);
    assert(0 <= t % n < n);
    assert((t / n) * n == n * (t / n)) by (nonlinear_arith);
}

/// The query of a `/browser-page` request: `assets=N&bytes=B`.
pub open spec fn page_query_spec(n: nat, bytes: nat) -> Seq<char> {
    "assets="@ + decimal(n) + "&bytes="@ + decimal(bytes)
}

/// The query that asks the endpoint for `asset_sizes.len()` assets of the
/// average size; None (server-side defaults) when there are no sizes.
pub fn browser_page_query(asset_sizes: &[usize]) -> (q: Option<String>)
    requires
        total_bytes(asset_sizes@) <= usize::MAX,
    ensures
        asset_sizes@.len() == 0 ==> q is None,
        asset_sizes@.len() > 0 ==> (q matches Some(s)
            && s@ == page_query_spec(asset_sizes@.len(), asset_bytes_spec(asset_sizes@))),
{
    if asset_sizes.len() == 0 {
        return None;
    }
    let bytes = browser_asset_bytes(asset_sizes);
    let mut s = String::new();
    push_str(&mut s, "assets=");
    push_decimal(&mut s, asset_sizes.len() as u64);
    push_str(&mut s, "&bytes=");
    push_decimal(&mut s, bytes as u64);
    assert(s@ =~= page_query_spec(asset_sizes@.len(), asset_bytes_spec(asset_sizes@)));
    Some(s)
}

/// `url` pointed at `/browser-page`, with the asset query when there are
/// sizes.
pub open spec fn browser_page_spec(url: Seq<char>, sizes: Seq<usize>) -> Seq<char> {
    let paged = url_with_path(url, "/browser-page"@);
    if sizes.len() == 0 {
        paged
    } else {
        url_with_query(paged, page_query_spec(sizes.len(), asset_bytes_spec(sizes)))
    }
}

fn browser_page_of(url: &str, asset_sizes: &[usize]) -> (r: String)
    requires
        total_bytes(asset_sizes@) <= usize::MAX,
    ensures
        r@ == browser_page_spec(url@, asset_sizes@),
{
    let paged = set_url_path(url, "/browser-page");
    match browser_page_query(asset_sizes) {
        Some(q) => set_url_query(paged.as_str(), q.as_str()),
        None => paged,
    }
}

/// The `/browser-page` URL on the base URL's origin: an HTML page with
/// `<img>` tags, so that a browser fetches every asset. With sizes, the query
/// asks for that many assets of the average size (the page weighs what the
/// sizes add up to); without, the endpoint's defaults apply.
pub fn build_page_url(base: &str, asset_sizes: &[usize]) -> (r: String)
    requires
        total_bytes(asset_sizes@) <= usize::MAX,
    ensures
        r@ == browser_page_spec(base@, asset_sizes@),
{
    browser_page_of(base, asset_sizes)
}

/// The plain-HTTP port paired with an HTTPS port: 8443 → 8080 (endpoint),
/// 8444 → 8081 (nginx), 8445 → 8082 (IIS); 443 or none → the HTTP default
/// (None, omitted from the URL); any other port is kept.
pub open spec fn plain_http_port_spec(port: Option<u16>) -> Option<u16> {
    match port {
        Some(p) => if p == 8443 {
            Some(8080u16)
        } else if p == 8444 {
            Some(8081u16)
        } else if p == 8445 {
            Some(8082u16)
        } else if p == 443 {
            None
        } else {
            Some(p)
        },
        None => None,
    }
}

/// The plain-HTTP port paired with an HTTPS port (see `plain_http_port_spec`).
pub fn plain_http_port(port: Option<u16>) -> (r: Option<u16>)
    ensures
        r == plain_http_port_spec(port),
{
    match port {
        Some(8443) => Some(8080),
        Some(8444) => Some(8081),
        Some(8445) => Some(8082),
        Some(443) | None => None,
        Some(p) => Some(p),
    }
}

/// The base URL over plain HTTP, on the paired HTTP port.
pub open spec fn plain_http_spec(base: Seq<char>) -> Seq<char> {
    url_with_port(url_with_scheme(base, "http"@), plain_http_port_spec(url_port_or_default_of(base)))
}

/// The `/browser-page` URL for the forced-HTTP/1.1 browser probe: plain
/// `http://` (no ALPN, so no HTTP/2 or HTTP/3), on the HTTP port paired with
/// the base URL's port.
pub fn build_browser_http1_url(base: &str, asset_sizes: &[usize]) -> (r: String)
    requires
        total_bytes(asset_sizes@) <= usize::MAX,
    ensures
        r@ == browser_page_spec(plain_http_spec(base@), asset_sizes@),
{
    let http = set_url_scheme(base, "http");
    let port = plain_http_port(url_port_or_known_default(base));
    let target = set_url_port(http.as_str(), port);
    browser_page_of(target.as_str(), asset_sizes)
}

/// The `/browser-page` URL for the forced-HTTP/3 browser probe: scheme and
/// port kept, host replaced by `localhost` (the name the self-signed
/// certificate is issued for; the browser maps it to the server address).
pub fn build_browser_http3_url(base: &str, asset_sizes: &[usize]) -> (r: String)
    requires
        total_bytes(asset_sizes@) <= usize::MAX,
    ensures
        r@ == browser_page_spec(url_with_host(base@, "localhost"@), asset_sizes@),
{
    let local = set_url_host(base, "localhost");
    browser_page_of(local.as_str(), asset_sizes)
}

/// Longest URL shown in a waterfall, in characters.
pub const MAX_URL_CHARS: usize = 160;

/// A URL of at most `MAX_URL_CHARS` characters is kept; a longer one keeps
/// its first `MAX_URL_CHARS - 1` characters followed by an ellipsis.
pub open spec fn truncate_url_spec(url: Seq<char>) -> Seq<char> {
    if url.len() <= MAX_URL_CHARS {
        url
    } else {
        url.take(MAX_URL_CHARS - 1).push('\u{2026}')
    }
}

/// Truncates a URL to at most 160 characters (ending in `…` when cut), on a
/// character boundary.
pub fn truncate_url(url: &str) -> (r: String)
    ensures
        r@ == truncate_url_spec(url@),
        r@.len() <= MAX_URL_CHARS,
{
    let chars = chars_of(url);
    if chars.len() <= MAX_URL_CHARS {
        return string_from_chars(&chars);
    }
    let mut s = String::new();
    let mut i: usize = 0;
    while i < MAX_URL_CHARS - 1
        invariant
            i <= MAX_URL_CHARS - 1,
            chars@ == url@,
            chars@.len() > MAX_URL_CHARS,
            s@ == url@.take(i as int),
        decreases MAX_URL_CHARS - 1 - i,
    {
        push_char(&mut s, chars[i]);
        i = i + 1;
        assert(s@ =~= url@.take(i as int));
    }
    push_char(&mut s, '\u{2026}');
    s
}

} // verus!
