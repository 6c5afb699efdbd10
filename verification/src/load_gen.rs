//! Load generation shared by the working-conditions modes: transfer
//! direction, request targets, the upload body's chunking and the `Host`
//! header.

use vstd::prelude::*;
use crate::http::opt_view;
use crate::text::{decimal, push_char, push_decimal, str_eq, string_of};
use crate::urls::{url_host, url_host_of, url_port, url_port_of, url_scheme, url_scheme_of};

verus! {

/// Where a load-generating mode connects: the endpoint's base URL (as text;
/// its scheme selects HTTP/2 over TLS or cleartext), TLS trust settings and
/// the per-connect timeout in milliseconds.
#[derive(Debug, Clone)]
pub struct H2Target {
    pub base_url: String,
    pub insecure: bool,
    pub ca_bundle: Option<String>,
    pub timeout_ms: u64,
}

/// Transfer direction of a load-generating connection.
#[derive(Debug, Clone, Copy, PartialEq, Eq, Structural)]
pub enum LoadDirection {
    Download,
    Upload,
}

/// The request target of one counted transfer: `/download?bytes=N` for a
/// download of `N` bytes, `/upload` for an upload.
pub open spec fn load_target_spec(direction: LoadDirection, request_bytes: nat) -> Seq<char> {
    match direction {
        LoadDirection::Download => "/download?bytes="@ + decimal(request_bytes),
        LoadDirection::Upload => "/upload"@,
    }
}

/// The request target of one counted transfer (see `load_target_spec`).
pub fn load_target(direction: LoadDirection, request_bytes: usize) -> (t: String)
    ensures
        t@ == load_target_spec(direction, request_bytes as nat),
{
    match direction {
        LoadDirection::Download => {
            let mut t = string_of("/download?bytes=");
            push_decimal(&mut t, request_bytes as u64);
            t
        },
        LoadDirection::Upload => string_of("/upload"),
    }
}

/// Size of one upload chunk (64 KiB).
pub const UPLOAD_CHUNK_BYTES: usize = 65_536;

/// The chunk sizes an upload of `remaining` bytes is sent in: full chunks,
/// then what is left.
pub open spec fn chunk_plan(remaining: nat) -> Seq<nat>
    decreases remaining,
{
    if remaining == 0 {
        Seq::empty()
    } else if remaining <= UPLOAD_CHUNK_BYTES {
        seq![remaining]
    } else {
        seq![UPLOAD_CHUNK_BYTES as nat] + chunk_plan((remaining - UPLOAD_CHUNK_BYTES) as nat)
    }
}

pub open spec fn sum_nat(s: Seq<nat>) -> nat
    decreases s.len(),
{
    if s.len() == 0 { 0 } else { s[0] + sum_nat(s.skip(1)) }
}

/// The chunking state of an upload body: the bytes not yet handed out.
#[derive(Debug, Clone, Copy, PartialEq, Eq, Structural)]
pub struct UploadChunks {
    pub remaining: usize,
}

impl UploadChunks {
    /// An upload of `total` bytes, none handed out yet.
    pub fn new(total: usize) -> (u: Self)
        ensures
            u.remaining == total,
    {
        UploadChunks { remaining: total }
    }

    /// The length of the next chunk (a full chunk, or what is left), or None
    /// when everything has been handed out.
    pub fn next_chunk(&mut self) -> (n: Option<usize>)
        ensures
            old(self).remaining == 0 ==> n is None && final(self).remaining == 0,
            old(self).remaining > 0 ==> (n matches Some(k)
                && k == (if old(self).remaining <= UPLOAD_CHUNK_BYTES { old(self).remaining } else { UPLOAD_CHUNK_BYTES })
                && final(self).remaining == old(self).remaining - k),
    {
        if self.remaining == 0 {
            return None;
        }
        let n = if self.remaining <= UPLOAD_CHUNK_BYTES { self.remaining } else { UPLOAD_CHUNK_BYTES };
        self.remaining = self.remaining - n;
        Some(n)
    }

    /// The exact number of bytes still to come.
    pub fn size_hint(&self) -> (n: u64)
        ensures
            n == self.remaining,
    {
        self.remaining as u64
    }
}

/// Each chunk handed out is the head of the plan, and the rest of the plan
/// is what remains.
pub proof fn law_next_chunk_follows_plan(before: UploadChunks, after: UploadChunks, n: usize)
    requires
        before.remaining > 0,
        n == (if before.remaining <= UPLOAD_CHUNK_BYTES { before.remaining } else { UPLOAD_CHUNK_BYTES }),
        after.remaining == before.remaining - n,
    ensures
        chunk_plan(before.remaining as nat) == seq![n as nat] + chunk_plan(after.remaining as nat),
{
    if before.remaining <= UPLOAD_CHUNK_BYTES {
        assert(chunk_plan(0) =~= Seq::<nat>::empty());
        assert(seq![n as nat] + Seq::<nat>::empty() =~= seq![n as nat]);
    }
}

/// An upload sends exactly its size: the planned chunks add up to the
/// total, and each is non-empty and at most one chunk long.
pub proof fn law_chunks_add_up_to_total(total: nat)
    ensures
        sum_nat(chunk_plan(total)) == total,
        forall|i: int| 0 <= i < chunk_plan(total).len() ==> 0 < #[trigger] chunk_plan(total)[i] <= UPLOAD_CHUNK_BYTES,
    decreases total,
{
    if total == 0 {
    } else if total <= UPLOAD_CHUNK_BYTES {
        assert(seq![total].skip(1) =~= Seq::<nat>::empty());
        assert(sum_nat(Seq::<nat>::empty()) == 0);
        assert(sum_nat(chunk_plan(total)) == total + sum_nat(seq![total].skip(1)));
    } else {
        let rest = (total - UPLOAD_CHUNK_BYTES) as nat;
        law_chunks_add_up_to_total(rest);
        let p = chunk_plan(total);
        assert(p.skip(1) =~= chunk_plan(rest));
        assert(p[0] == UPLOAD_CHUNK_BYTES as nat);
        assert(sum_nat(p) == p[0] + sum_nat(p.skip(1)));
        assert forall|i: int| 0 <= i < p.len() implies 0 < #[trigger] p[i] <= UPLOAD_CHUNK_BYTES by {
            if i > 0 {
                assert(p[i] == chunk_plan(rest)[i - 1]);
            }
        }
    }
}

/// The `Host` header for a URL: its host (`localhost` when it has none),
/// with `:port` when the URL names a non-default port.
pub open spec fn host_header_spec(url: Seq<char>) -> Seq<char> {
    let host = match url_host_of(url) {
        Some(h) => h,
        None => "localhost"@,
    };
    match url_port_of(url) {
        Some(p) => host + seq![':'] + decimal(p as nat),
        None => host,
    }
}

/// The `Host` header for a URL (see `host_header_spec`).
pub fn host_header(url: &str) -> (h: String)
    ensures
        h@ == host_header_spec(url@),
{
    let mut h = match url_host(url) {
        Some(host) => host,
        None => string_of("localhost"),
    };
    match url_port(url) {
        Some(p) => {
            push_char(&mut h, ':');
            push_decimal(&mut h, p as u64);
        },
        None => {},
    }
    h
}

/// The TCP port a load connection dials: the URL's explicit port, else 443
/// for `https` and 80 for anything else.
pub open spec fn connect_port_spec(url: Seq<char>) -> u16 {
    match url_port_of(url) {
        Some(p) => p,
        None => if url_scheme_of(url) == Some("https"@) { 443 } else { 80 },
    }
}

/// The TCP port a load connection dials (see `connect_port_spec`).
pub fn connect_port(url: &str) -> (p: u16)
    ensures
        p == connect_port_spec(url@),
{
    match url_port(url) {
        Some(p) => p,
        None => {
            let scheme = url_scheme(url);
            let https = match &scheme {
                Some(s) => str_eq(s.as_str(), "https"),
                None => false,
            };
            proof {
                if !https {
                    assert(opt_view(scheme) != Some("https"@));
                }
            }
            if https { 443 } else { 80 }
        },
    }
}

} // verus!
