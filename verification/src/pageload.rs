//! Page-load simulation: the named asset-size presets.

use vstd::prelude::*;
use crate::browser::{plain_http_port, plain_http_spec};
use crate::http::{opt_view, RunConfig};
use crate::text::{
    ascii_lower_seq, decimal, is_ascii_seq, lemma_ascii_lower_idempotent, push_decimal, push_str, str_eq,
    string_of, to_lowercase, unicode_lowercase,
};
use crate::urls::{
    set_url_path, set_url_port, set_url_query, set_url_scheme, url_host, url_host_of, url_port,
    url_port_of, url_port_or_known_default, url_scheme, url_scheme_of, url_with_path, url_with_query,
};

verus! {

/// `n` copies of `size`.
pub open spec fn repeat(size: usize, n: nat) -> Seq<usize> {
    Seq::new(n, |_i: int| size)
}

/// The asset sizes of a named preset (lowercase name), or None when the name
/// is not a preset.
pub open spec fn preset_spec(name: Seq<char>) -> Option<Seq<usize>> {
    if name == "tiny"@ {
        Some(repeat(2_048, 4) + repeat(10_240, 3) + repeat(20_480, 3))
    } else if name == "small"@ {
        Some(repeat(1_024, 5) + repeat(5_120, 5) + repeat(20_480, 5) + repeat(51_200, 5) + repeat(102_400, 5))
    } else if name == "default"@ {
        Some(repeat(1_024, 10) + repeat(5_120, 8) + repeat(20_480, 8) + repeat(51_200, 8) + repeat(153_600, 6)
            + repeat(307_200, 5) + repeat(512_000, 3) + repeat(819_200, 2))
    } else if name == "medium"@ {
        Some(repeat(1_024, 25) + repeat(5_120, 15) + repeat(20_480, 15) + repeat(51_200, 15) + repeat(102_400, 10)
            + repeat(204_800, 8) + repeat(409_600, 6) + repeat(614_400, 4) + repeat(1_048_576, 2))
    } else if name == "large"@ {
        Some(repeat(1_024, 50) + repeat(5_120, 30) + repeat(20_480, 30) + repeat(51_200, 25) + repeat(102_400, 20)
            + repeat(204_800, 15) + repeat(409_600, 12) + repeat(614_400, 8) + repeat(1_048_576, 5)
            + repeat(2_097_152, 5))
    } else if name == "mixed"@ {
        Some(repeat(512, 5) + repeat(2_048, 8) + repeat(8_192, 7) + repeat(25_600, 7) + repeat(51_200, 6)
            + repeat(102_400, 5) + repeat(204_800, 4) + repeat(409_600, 4) + repeat(614_400, 2)
            + repeat(1_048_576, 2))
    } else {
        None
    }
}

/// A page-load run: the request settings, the base URL (as text), one byte
/// count per asset, and the name of the preset the sizes came from.
#[derive(Debug, Clone)]
pub struct PageLoadConfig {
    pub run_cfg: RunConfig,
    pub base_url: String,
    pub asset_sizes: Vec<usize>,
    pub preset_name: Option<String>,
}

/// An unknown preset name.
#[derive(Debug, Clone, PartialEq, Eq)]
pub struct PresetError {
    pub message: String,
}

impl PresetError {
    /// The error text.
    pub fn to_string(&self) -> (s: String)
        ensures
            s@ == self.message@,
    {
        self.message.clone()
    }
}

fn push_n(v: &mut Vec<usize>, size: usize, n: usize)
    ensures
        final(v)@ == old(v)@ + repeat(size, n as nat),
{
    let mut i: usize = 0;
    while i < n
        invariant
            i <= n,
            v@ == old(v)@ + repeat(size, i as nat),
        decreases n - i,
    {
        v.push(size);
        i = i + 1;
        assert(v@ =~= old(v)@ + repeat(size, i as nat));
    }
}

/// Per-asset byte counts of a named preset (case-insensitive): tiny, small,
/// default, medium, large or mixed. Any other name is an error that names it
/// and lists the valid presets.
pub fn resolve_preset(name: &str) -> (r: Result<Vec<usize>, PresetError>)
    ensures
        preset_spec(unicode_lowercase(name@)) matches Some(sizes) ==> (r matches Ok(v) && v@ == sizes),
        preset_spec(unicode_lowercase(name@)) is None ==> (r matches Err(e) && e.message@
            == "Unknown preset '"@ + unicode_lowercase(name@) + "'. Valid: tiny, small, default, medium, large, mixed"@),
        is_ascii_seq(name@) ==> unicode_lowercase(name@) == ascii_lower_seq(name@),
{
    let lower = to_lowercase(name);
    let n = lower.as_str();
    let mut v: Vec<usize> = Vec::new();
    if str_eq(n, "tiny") {
        push_n(&mut v, 2_048, 4);
        push_n(&mut v, 10_240, 3);
        push_n(&mut v, 20_480, 3);
    } else if str_eq(n, "small") {
        push_n(&mut v, 1_024, 5);
        push_n(&mut v, 5_120, 5);
        push_n(&mut v, 20_480, 5);
        push_n(&mut v, 51_200, 5);
        push_n(&mut v, 102_400, 5);
    } else if str_eq(n, "default") {
        push_n(&mut v, 1_024, 10);
        push_n(&mut v, 5_120, 8);
        push_n(&mut v, 20_480, 8);
        push_n(&mut v, 51_200, 8);
        push_n(&mut v, 153_600, 6);
        push_n(&mut v, 307_200, 5);
        push_n(&mut v, 512_000, 3);
        push_n(&mut v, 819_200, 2);
    } else if str_eq(n, "medium") {
        push_n(&mut v, 1_024, 25);
        push_n(&mut v, 5_120, 15);
        push_n(&mut v, 20_480, 15);
        push_n(&mut v, 51_200, 15);
        push_n(&mut v, 102_400, 10);
        push_n(&mut v, 204_800, 8);
        push_n(&mut v, 409_600, 6);
        push_n(&mut v, 614_400, 4);
        push_n(&mut v, 1_048_576, 2);
    } else if str_eq(n, "large") {
        push_n(&mut v, 1_024, 50);
        push_n(&mut v, 5_120, 30);
        push_n(&mut v, 20_480, 30);
        push_n(&mut v, 51_200, 25);
        push_n(&mut v, 102_400, 20);
        push_n(&mut v, 204_800, 15);
        push_n(&mut v, 409_600, 12);
        push_n(&mut v, 614_400, 8);
        push_n(&mut v, 1_048_576, 5);
        push_n(&mut v, 2_097_152, 5);
    } else if str_eq(n, "mixed") {
        push_n(&mut v, 512, 5);
        push_n(&mut v, 2_048, 8);
        push_n(&mut v, 8_192, 7);
        push_n(&mut v, 25_600, 7);
        push_n(&mut v, 51_200, 6);
        push_n(&mut v, 102_400, 5);
        push_n(&mut v, 204_800, 4);
        push_n(&mut v, 409_600, 4);
        push_n(&mut v, 614_400, 2);
        push_n(&mut v, 1_048_576, 2);
    } else {
        let mut m = string_of("Unknown preset '");
        push_str(&mut m, n);
        push_str(&mut m, "'. Valid: tiny, small, default, medium, large, mixed");
        return Err(PresetError { message: m });
    }
    Ok(v)
}

/// Asset counts of the presets: tiny 10, small 25, default 50, medium 100,
/// large 200, mixed 50.
pub proof fn law_preset_sizes()
    ensures
        preset_spec("tiny"@).unwrap().len() == 10,
        preset_spec("small"@).unwrap().len() == 25,
        preset_spec("default"@).unwrap().len() == 50,
        preset_spec("medium"@).unwrap().len() == 100,
        preset_spec("large"@).unwrap().len() == 200,
        preset_spec("mixed"@).unwrap().len() == 50,
{
    reveal_strlit("tiny");
    reveal_strlit("small");
    reveal_strlit("default");
    reveal_strlit("medium");
    reveal_strlit("large");
    reveal_strlit("mixed");
    assert("small"@ != "tiny"@) by {
        assert("small"@.len() != "tiny"@.len());
    }
    assert("default"@ != "tiny"@ && "default"@ != "small"@) by {
        assert("default"@.len() == 7);
    }
    assert("medium"@ != "tiny"@ && "medium"@ != "small"@ && "medium"@ != "default"@) by {
        assert("medium"@.len() == 6);
    }
    assert("large"@ != "tiny"@ && "large"@ != "small"@ && "large"@ != "default"@ && "large"@ != "medium"@) by {
        assert("large"@[0] != "small"@[0]);
    }
    assert("mixed"@ != "tiny"@ && "mixed"@ != "small"@ && "mixed"@ != "default"@ && "mixed"@ != "medium"@
        && "mixed"@ != "large"@) by {
        assert("mixed"@[0] != "small"@[0]);
        assert("mixed"@[1] != "medium"@[1]);
    }
}

/// The base URL moved to plain HTTP when it is HTTPS (so that a page load
/// over HTTP/1.1 compares with the plain-HTTP browser probe): scheme `http`,
/// port 8443 → 8080, 8444 → 8081, 8445 → 8082, 443 → the default; any other
/// URL is returned as it is.
pub open spec fn rewrite_to_http_spec(base: Seq<char>) -> Seq<char> {
    if url_scheme_of(base) == Some("https"@) { plain_http_spec(base) } else { base }
}

/// Moves an HTTPS base URL to its plain-HTTP counterpart (see
/// `rewrite_to_http_spec`).
pub fn rewrite_to_http(base: &str) -> (r: String)
    ensures
        r@ == rewrite_to_http_spec(base@),
{
    let scheme = url_scheme(base);
    let is_https = match &scheme {
        Some(s) => str_eq(s.as_str(), "https"),
        None => false,
    };
    proof {
        reveal_strlit("https");
        if !is_https {
            assert(opt_view(scheme) != Some("https"@));
        }
    }
    if !is_https {
        return string_of(base);
    }
    let http = set_url_scheme(base, "http");
    let port = plain_http_port(url_port_or_known_default(base));
    set_url_port(http.as_str(), port)
}

/// The query naming one asset: `id=I&bytes=B`.
pub open spec fn asset_query_spec(id: nat, bytes: nat) -> Seq<char> {
    "id="@ + decimal(id) + "&bytes="@ + decimal(bytes)
}

/// The `/asset` URL of asset `id` of `bytes` bytes on the base URL's origin.
pub open spec fn asset_url_spec(base: Seq<char>, id: nat, bytes: nat) -> Seq<char> {
    url_with_query(url_with_path(base, "/asset"@), asset_query_spec(id, bytes))
}

/// One `/asset?id=I&bytes=B` URL per size, in order.
pub fn build_asset_urls(base: &str, sizes: &[usize]) -> (urls: Vec<String>)
    ensures
        urls@.len() == sizes@.len(),
        forall|i: int| 0 <= i < sizes@.len() ==> (#[trigger] urls@[i])@ == asset_url_spec(base@, i as nat, sizes@[i] as nat),
{
    let mut urls: Vec<String> = Vec::new();
    let mut i: usize = 0;
    while i < sizes.len()
        invariant
            i <= sizes@.len(),
            urls@.len() == i,
            forall|j: int| 0 <= j < i ==> (#[trigger] urls@[j])@ == asset_url_spec(base@, j as nat, sizes@[j] as nat),
        decreases sizes@.len() - i,
    {
        let mut q = String::new();
        push_str(&mut q, "id=");
        push_decimal(&mut q, i as u64);
        push_str(&mut q, "&bytes=");
        push_decimal(&mut q, sizes[i] as u64);
        assert(q@ =~= asset_query_spec(i as nat, sizes@[i as int] as nat));
        let paged = set_url_path(base, "/asset");
        let u = set_url_query(paged.as_str(), q.as_str());
        urls.push(u);
        i = i + 1;
    }
    urls
}

// ─────────────────────────────────────────────────────────────────────────────
// Page-load plan and tally
// ─────────────────────────────────────────────────────────────────────────────

/// The manifest request of a page load: `/page?assets=N&bytes=B`, `B` the
/// first asset's size (10 240 when there are no assets).
pub open spec fn manifest_path_spec(sizes: Seq<usize>) -> Seq<char> {
    let rep: nat = if sizes.len() > 0 { sizes[0] as nat } else { 10_240 };
    "/page?assets="@ + decimal(sizes.len()) + "&bytes="@ + decimal(rep)
}

/// The manifest request of a page load (see `manifest_path_spec`).
pub fn manifest_path(asset_sizes: &[usize]) -> (p: String)
    ensures
        p@ == manifest_path_spec(asset_sizes@),
{
    let rep: usize = if asset_sizes.len() > 0 { asset_sizes[0] } else { 10_240 };
    let mut p = string_of("/page?assets=");
    push_decimal(&mut p, asset_sizes.len() as u64);
    push_str(&mut p, "&bytes=");
    push_decimal(&mut p, rep as u64);
    assert(p@ =~= manifest_path_spec(asset_sizes@));
    p
}

/// Most keep-alive connections a plain-HTTP page load opens.
pub const MAX_H1_CONNECTIONS: usize = 6;

/// Connections opened for `n` assets: one per asset up to six, and one
/// (for the manifest) when there are none.
pub open spec fn h1_connection_count(n: nat) -> nat {
    if n == 0 { 1 } else if n < MAX_H1_CONNECTIONS { n } else { MAX_H1_CONNECTIONS as nat }
}

/// How many of the assets `0..m` fall to connection `c` of `k` round-robin.
pub open spec fn dealt_count(m: int, k: int, c: int) -> int {
    (m + k - 1 - c) / k
}

proof fn lemma_deal_step(m: int, k: int, c: int)
    requires
        k > 0,
        0 <= c < k,
        m >= 0,
    ensures
        c == m % k ==> dealt_count(m + 1, k, c) == dealt_count(m, k, c) + 1 && m == c + dealt_count(m, k, c) * k,
        c != m % k ==> dealt_count(m + 1, k, c) == dealt_count(m, k, c),
{
    vstd::arithmetic::div_mod::lemma_fundamental_div_mod(m, k);
    let q = m / k;
    let r = m % k;
    assert(m == k * q + r);
    assert(0 <= r < k);
    if c == r {
        assert(m + k - 1 - c == k * q + (k - 1)) by (nonlinear_arith)
            requires m == k * q + r, c == r;
        assert(m + 1 + k - 1 - c == k * (q + 1)) by (nonlinear_arith)
            requires m == k * q + r, c == r;
        vstd::arithmetic::div_mod::lemma_div_multiples_vanish_fancy(q, k - 1, k);
        vstd::arithmetic::div_mod::lemma_div_multiples_vanish(q + 1, k);
        assert(q * k == k * q) by (nonlinear_arith);
    } else if c < r {
        assert(m + k - 1 - c == k * (q + 1) + (r - 1 - c)) by (nonlinear_arith)
            requires m == k * q + r;
        assert(m + 1 + k - 1 - c == k * (q + 1) + (r - c)) by (nonlinear_arith)
            requires m == k * q + r;
        vstd::arithmetic::div_mod::lemma_div_multiples_vanish_fancy(q + 1, r - 1 - c, k);
        vstd::arithmetic::div_mod::lemma_div_multiples_vanish_fancy(q + 1, r - c, k);
    } else {
        assert(m + k - 1 - c == k * q + (k - 1 - c + r)) by (nonlinear_arith)
            requires m == k * q + r;
        assert(m + 1 + k - 1 - c == k * q + (k - c + r)) by (nonlinear_arith)
            requires m == k * q + r;
        vstd::arithmetic::div_mod::lemma_div_multiples_vanish_fancy(q, k - 1 - c + r, k);
        vstd::arithmetic::div_mod::lemma_div_multiples_vanish_fancy(q, k - c + r, k);
    }
}

/// Deals the asset indices `0..n` to the keep-alive connections round-robin:
/// connection `c` fetches assets `c`, `c + k`, `c + 2k`, ... in that order,
/// `k = h1_connection_count(n)`.
pub fn assign_round_robin(n: usize) -> (a: Vec<Vec<usize>>)
    ensures
        a@.len() == h1_connection_count(n as nat),
        forall|c: int| 0 <= c < a@.len() ==> (#[trigger] a@[c])@.len() == dealt_count(n as int, a@.len() as int, c),
        forall|c: int, j: int| 0 <= c < a@.len() && 0 <= j < a@[c]@.len() ==> (#[trigger] a@[c]@[j]) == c + j * a@.len(),
{
    let k: usize = if n == 0 { 1 } else if n < MAX_H1_CONNECTIONS { n } else { MAX_H1_CONNECTIONS };
    let mut a: Vec<Vec<usize>> = Vec::new();
    let mut c: usize = 0;
    while c < k
        invariant
            c <= k,
            a@.len() == c,
            forall|d: int| 0 <= d < c ==> (#[trigger] a@[d])@.len() == 0,
        decreases k - c,
    {
        a.push(Vec::new());
        c = c + 1;
    }
    proof {
        assert forall|d: int| 0 <= d < k implies dealt_count(0, k as int, d) == 0 by {
            assert(0 <= k - 1 - d < k);
            vstd::arithmetic::div_mod::lemma_basic_div(k - 1 - d, k as int);
        }
    }
    let mut idx: usize = 0;
    while idx < n
        invariant
            k >= 1,
            a@.len() == k,
            idx <= n,
            forall|d: int| 0 <= d < k ==> (#[trigger] a@[d])@.len() == dealt_count(idx as int, k as int, d),
            forall|d: int, j: int| 0 <= d < k && 0 <= j < a@[d]@.len() ==> (#[trigger] a@[d]@[j]) == d + j * k,
        decreases n - idx,
    {
        let c = idx % k;
        proof {
            assert forall|d: int| 0 <= d < k implies
                (d == c ==> dealt_count(idx + 1, k as int, d) == dealt_count(idx as int, k as int, d) + 1
                    && idx == d + dealt_count(idx as int, k as int, d) * k)
                && (d != c ==> dealt_count(idx + 1, k as int, d) == dealt_count(idx as int, k as int, d)) by {
                lemma_deal_step(idx as int, k as int, d);
            }
        }
        let ghost before = a@;
        let mut row = a.remove(c);
        row.push(idx);
        a.insert(c, row);
        proof {
            assert forall|d: int| 0 <= d < k implies (#[trigger] a@[d])@ == (if d == c { before[d]@.push(idx) } else { before[d]@ }) by {
                if d < c {
                } else if d > c {
                }
            }
        }
        idx = idx + 1;
    }
    a
}

/// Round-robin dealing reaches every asset: asset `i` goes to connection
/// `i % k`, at position `i / k` of its list.
pub proof fn law_round_robin_deals_every_asset(n: nat, k: nat, i: int)
    requires
        k > 0,
        0 <= i < n,
    ensures
        0 <= i / (k as int) < dealt_count(n as int, k as int, i % (k as int)),
        i == i % (k as int) + (i / (k as int)) * k,
{
    let ki = k as int;
    vstd::arithmetic::div_mod::lemma_fundamental_div_mod(i, ki);
    let q = i / ki;
    let r = i % ki;
    let x = n + ki - 1 - r;
    vstd::arithmetic::div_mod::lemma_fundamental_div_mod(x, ki);
    assert(q * ki == ki * q) by (nonlinear_arith);
    assert(q >= 0) by (nonlinear_arith)
        requires i >= 0, ki > 0, i == ki * q + r, 0 <= r < ki;
    assert(x / ki > q) by (nonlinear_arith)
        requires x == ki * (x / ki) + x % ki, 0 <= x % ki < ki, i == ki * q + r, i < n, x == n + ki - 1 - r, ki > 0;
}

/// Round-robin dealing deals nothing but assets: every entry of every
/// connection's list is an asset index below `n`, and it names its own
/// connection and position.
pub proof fn law_round_robin_deals_only_assets(n: nat, k: nat, c: int, j: int)
    requires
        k > 0,
        0 <= c < k,
        0 <= j < dealt_count(n as int, k as int, c),
    ensures
        0 <= c + j * k < n,
        (c + j * k) % (k as int) == c,
        (c + j * k) / (k as int) == j,
{
    let ki = k as int;
    let x = n + ki - 1 - c;
    vstd::arithmetic::div_mod::lemma_fundamental_div_mod(x, ki);
    assert(j * ki >= 0) by (nonlinear_arith)
        requires j >= 0, ki > 0;
    assert(c + j * ki < n) by (nonlinear_arith)
        requires x == ki * (x / ki) + x % ki, 0 <= x % ki < ki, j < x / ki, x == n + ki - 1 - c, ki > 0, 0 <= c;
    vstd::arithmetic::div_mod::lemma_div_multiples_vanish_fancy(j, c, ki);
    vstd::arithmetic::div_mod::lemma_fundamental_div_mod(c + j * ki, ki);
    assert(j * ki == ki * j) by (nonlinear_arith);
    assert((c + ki * j) / ki == j);
    assert((c + j * ki) % ki == c) by (nonlinear_arith)
        requires c + j * ki == ki * ((c + j * ki) / ki) + (c + j * ki) % ki, (c + j * ki) / ki == j;
}

/// One asset fetch that got a response: its HTTP status, body size and the
/// time it took.
#[derive(Debug, Clone, Copy, PartialEq)]
pub struct AssetFetch<T> {
    pub status: u16,
    pub bytes: usize,
    pub elapsed: T,
}

/// A fetch counts when it got a response below 500.
pub open spec fn fetch_counts<T>(r: Option<AssetFetch<T>>) -> bool {
    r matches Some(f) && f.status < 500
}

/// Counted fetches, their body bytes, and their times in order.
pub open spec fn tally_spec<T>(results: Seq<Option<AssetFetch<T>>>) -> (nat, nat, Seq<T>)
    decreases results.len(),
{
    if results.len() == 0 {
        (0, 0, Seq::empty())
    } else {
        let prev = tally_spec(results.drop_last());
        match results.last() {
            Some(f) => if f.status < 500 {
                (prev.0 + 1, (prev.1 + f.bytes) as nat, prev.2.push(f.elapsed))
            } else {
                prev
            },
            None => prev,
        }
    }
}

proof fn lemma_tally_prefix<T>(results: Seq<Option<AssetFetch<T>>>, i: int)
    requires
        0 <= i <= results.len(),
    ensures
        tally_spec(results.take(i)).0 <= tally_spec(results).0,
        tally_spec(results.take(i)).1 <= tally_spec(results).1,
        tally_spec(results).0 <= results.len(),
    decreases results.len(),
{
    if results.len() > 0 {
        if i < results.len() {
            assert(results.drop_last().take(i) =~= results.take(i));
            lemma_tally_prefix(results.drop_last(), i);
        } else {
            assert(results.take(i) =~= results);
            lemma_tally_prefix(results.drop_last(), i - 1);
        }
    }
}

/// The tally of a multiplexed page load (one connection, all assets at
/// once): how many assets were fetched (a response below 500), their body
/// bytes, and their times in completion order.
pub struct FetchTally<T> {
    pub fetched: usize,
    pub total_bytes: usize,
    pub timings: Vec<T>,
}

/// Tallies the fetches of a multiplexed page load (see `tally_spec`).
pub fn tally_fetches<T: Copy>(results: &Vec<Option<AssetFetch<T>>>) -> (t: FetchTally<T>)
    requires
        tally_spec(results@).1 <= usize::MAX,
    ensures
        t.fetched == tally_spec(results@).0,
        t.total_bytes == tally_spec(results@).1,
        t.timings@ == tally_spec(results@).2,
{
    let mut fetched: usize = 0;
    let mut total: usize = 0;
    let mut timings: Vec<T> = Vec::new();
    let mut i: usize = 0;
    proof { lemma_tally_prefix(results@, results@.len() as int); }
    while i < results.len()
        invariant
            i <= results@.len(),
            tally_spec(results@).1 <= usize::MAX,
            tally_spec(results@).0 <= results@.len(),
            fetched == tally_spec(results@.take(i as int)).0,
            total == tally_spec(results@.take(i as int)).1,
            timings@ == tally_spec(results@.take(i as int)).2,
        decreases results@.len() - i,
    {
        proof {
            assert(results@.take(i + 1).drop_last() =~= results@.take(i as int));
            lemma_tally_prefix(results@, i + 1);
        }
        match results[i] {
            Some(f) => {
                if f.status < 500 {
                    fetched = fetched + 1;
                    total = total + f.bytes;
                    timings.push(f.elapsed);
                }
            },
            None => {},
        }
        i = i + 1;
    }
    assert(results@.take(i as int) =~= results@);
    FetchTally { fetched, total_bytes: total, timings }
}

/// The time recorded for asset `i` of a keep-alive page load: that of the
/// last counted fetch of asset `i`, `zero` when none counted.
pub open spec fn asset_timing<T>(results: Seq<(usize, Option<AssetFetch<T>>)>, i: int, zero: T) -> T
    decreases results.len(),
{
    if results.len() == 0 {
        zero
    } else {
        let (idx, r) = results.last();
        if idx == i && fetch_counts(r) { r->0.elapsed } else { asset_timing(results.drop_last(), i, zero) }
    }
}

pub open spec fn untagged<T>(results: Seq<(usize, Option<AssetFetch<T>>)>) -> Seq<Option<AssetFetch<T>>> {
    results.map_values(|p: (usize, Option<AssetFetch<T>>)| p.1)
}

/// Tallies the fetches of a keep-alive page load, each tagged with the
/// asset's index: the count and bytes of `tally_spec`, and one time per
/// asset (see `asset_timing`).
pub fn tally_indexed_fetches<T: Copy>(n: usize, results: &Vec<(usize, Option<AssetFetch<T>>)>, zero: T) -> (t: FetchTally<T>)
    requires
        tally_spec(untagged(results@)).1 <= usize::MAX,
    ensures
        t.fetched == tally_spec(untagged(results@)).0,
        t.total_bytes == tally_spec(untagged(results@)).1,
        t.timings@.len() == n,
        forall|i: int| 0 <= i < n ==> #[trigger] t.timings@[i] == asset_timing(results@, i, zero),
{
    let mut timings: Vec<T> = Vec::new();
    let mut j: usize = 0;
    while j < n
        invariant
            j <= n,
            timings@.len() == j,
            forall|i: int| 0 <= i < j ==> #[trigger] timings@[i] == zero,
        decreases n - j,
    {
        timings.push(zero);
        j = j + 1;
    }
    let ghost u = untagged(results@);
    let mut fetched: usize = 0;
    let mut total: usize = 0;
    let mut k: usize = 0;
    proof { lemma_tally_prefix(u, u.len() as int); }
    while k < results.len()
        invariant
            k <= results@.len(),
            u == untagged(results@),
            u.len() == results@.len(),
            tally_spec(u).1 <= usize::MAX,
            tally_spec(u).0 <= u.len(),
            fetched == tally_spec(u.take(k as int)).0,
            total == tally_spec(u.take(k as int)).1,
            timings@.len() == n,
            forall|i: int| 0 <= i < n ==> #[trigger] timings@[i] == asset_timing(results@.take(k as int), i, zero),
        decreases results@.len() - k,
    {
        proof {
            assert(u.take(k + 1).drop_last() =~= u.take(k as int));
            assert(results@.take(k + 1).drop_last() =~= results@.take(k as int));
            assert(u.take(k + 1).last() == results@[k as int].1);
            lemma_tally_prefix(u, k + 1);
        }
        let (idx, r) = results[k];
        match r {
            Some(f) => {
                if f.status < 500 {
                    fetched = fetched + 1;
                    total = total + f.bytes;
                    if idx < timings.len() {
                        timings.set(idx, f.elapsed);
                    }
                }
            },
            None => {},
        }
        k = k + 1;
    }
    assert(results@.take(k as int) =~= results@);
    assert(u.take(k as int) =~= u);
    FetchTally { fetched, total_bytes: total, timings }
}

/// A keep-alive page load succeeds when it had assets and fetched them all.
pub open spec fn keepalive_success(n: nat, fetched: nat) -> bool {
    n > 0 && fetched == n
}

/// A multiplexed page load succeeds when it fetched every asset (trivially
/// so with none).
pub open spec fn multiplexed_success(n: nat, fetched: nat) -> bool {
    fetched == n
}

/// Whether a keep-alive page load succeeded (see `keepalive_success`).
pub fn pageload_success(n: usize, fetched: usize) -> (r: bool)
    ensures
        r == keepalive_success(n as nat, fetched as nat),
{
    n > 0 && fetched == n
}

/// Whether a multiplexed page load succeeded (see `multiplexed_success`).
pub fn multiplexed_pageload_success(n: usize, fetched: usize) -> (r: bool)
    ensures
        r == multiplexed_success(n as nat, fetched as nat),
{
    fetched == n
}

/// Which multiplexed page load is being set up.
#[derive(Debug, Clone, Copy, PartialEq, Eq, Structural)]
pub enum MultiplexedLoad {
    /// HTTP/2 over TLS (page-load 2).
    H2,
    /// HTTP/3 over QUIC (page-load 3).
    H3,
}

/// Why a multiplexed page load of that kind refuses a plain target; the
/// warm-up variant words it shortly.
pub open spec fn https_required_message(kind: MultiplexedLoad, warm: bool) -> Seq<char> {
    match (kind, warm) {
        (MultiplexedLoad::H2, false) => "pageload2 requires an HTTPS target (HTTP/2 needs TLS+ALPN)"@,
        (MultiplexedLoad::H3, false) => "pageload3 requires an HTTPS target (HTTP/3 needs QUIC/TLS)"@,
        (MultiplexedLoad::H2, true) => "pageload2 requires HTTPS"@,
        (MultiplexedLoad::H3, true) => "pageload3 requires HTTPS"@,
    }
}

/// The host and port a multiplexed page load connects to: the URL needs a
/// host (checked first) and the `https` scheme; the port is the explicit
/// one, else 443. An error is a configuration error with this message.
pub open spec fn multiplexed_target_spec(url: Seq<char>, kind: MultiplexedLoad, warm: bool) -> Result<
    (Seq<char>, u16),
    Seq<char>,
> {
    match url_host_of(url) {
        None => Err("Target URL has no host"@),
        Some(h) => if url_scheme_of(url) != Some("https"@) {
            Err(https_required_message(kind, warm))
        } else {
            Ok((h, match url_port_of(url) { Some(p) => p, None => 443 }))
        },
    }
}

/// Checks the target of a multiplexed page load (see
/// `multiplexed_target_spec`); an error is a configuration error.
pub fn multiplexed_target(base_url: &str, kind: MultiplexedLoad, warm: bool) -> (r: Result<(String, u16), String>)
    ensures
        match (r, multiplexed_target_spec(base_url@, kind, warm)) {
            (Ok((h, p)), Ok((sh, sp))) => h@ == sh && p == sp,
            (Err(e), Err(se)) => e@ == se,
            _ => false,
        },
{
    let host = match url_host(base_url) {
        Some(h) => h,
        None => return Err(string_of("Target URL has no host")),
    };
    let https = match url_scheme(base_url) {
        Some(sch) => str_eq(sch.as_str(), "https"),
        None => false,
    };
    if !https {
        let msg = match (kind, warm) {
            (MultiplexedLoad::H2, false) => "pageload2 requires an HTTPS target (HTTP/2 needs TLS+ALPN)",
            (MultiplexedLoad::H3, false) => "pageload3 requires an HTTPS target (HTTP/3 needs QUIC/TLS)",
            (MultiplexedLoad::H2, true) => "pageload2 requires HTTPS",
            (MultiplexedLoad::H3, true) => "pageload3 requires HTTPS",
        };
        return Err(string_of(msg));
    }
    let port = match url_port(base_url) {
        Some(p) => p,
        None => 443,
    };
    Ok((host, port))
}

/// An ASCII name and its lowercase form resolve alike: lowercasing the
/// lowercase form changes nothing, so both look up the same preset (for
/// ASCII names `resolve_preset` looks up `ascii_lower_seq` of the name).
pub proof fn law_preset_lowercase_name_resolves_alike(name: Seq<char>)
    requires
        is_ascii_seq(name),
    ensures
        is_ascii_seq(ascii_lower_seq(name)),
        preset_spec(ascii_lower_seq(ascii_lower_seq(name))) == preset_spec(ascii_lower_seq(name)),
{
    lemma_ascii_lower_idempotent(name);
}

/// Case-insensitivity: names with the same lowercase form resolve alike.
pub proof fn law_preset_case_insensitive(a: Seq<char>, b: Seq<char>)
    requires
        unicode_lowercase(a) == unicode_lowercase(b),
    ensures
        preset_spec(unicode_lowercase(a)) == preset_spec(unicode_lowercase(b)),
{
}

} // verus!
