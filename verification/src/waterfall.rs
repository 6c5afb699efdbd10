//! Browser probe: correlating the DevTools network events of a page load
//! into per-request rows, whatever order the event streams deliver them in.
//!
//! Timestamps (`T`) and resource timings (`M`) are carried through as they
//! come; turning them into milliseconds is the caller's arithmetic.

use vstd::prelude::*;
use crate::browser::{truncate_url, truncate_url_spec};
use crate::http::opt_view;
use crate::curl::{parse_unsigned, parse_unsigned_spec};
use crate::text::{split_on, split_spec, str_eq, string_of, to_lowercase, trim, trim_spec, unicode_lowercase};

verus! {

/// What is known of one request, keyed by its DevTools request id.
pub struct PendingRequest<T, M> {
    pub id: String,
    pub url: String,
    pub method: String,
    pub start_ts: Option<T>,
    pub status: Option<u16>,
    pub mime_type: Option<String>,
    pub protocol: Option<String>,
    pub from_disk_cache: bool,
    pub from_service_worker: bool,
    pub timing: Option<M>,
    /// Bytes the loading-finished event reported.
    pub finished_bytes: Option<u64>,
    /// Sum of the data-received chunks.
    pub data_bytes: u64,
    pub end_ts: Option<T>,
}

/// A request as plain values.
pub struct RequestView<T, M> {
    pub id: Seq<char>,
    pub url: Seq<char>,
    pub method: Seq<char>,
    pub start_ts: Option<T>,
    pub status: Option<u16>,
    pub mime_type: Option<Seq<char>>,
    pub protocol: Option<Seq<char>>,
    pub from_disk_cache: bool,
    pub from_service_worker: bool,
    pub timing: Option<M>,
    pub finished_bytes: Option<u64>,
    pub data_bytes: u64,
    pub end_ts: Option<T>,
}

impl<T, M> View for PendingRequest<T, M> {
    type V = RequestView<T, M>;

    open spec fn view(&self) -> RequestView<T, M> {
        RequestView {
            id: self.id@,
            url: self.url@,
            method: self.method@,
            start_ts: self.start_ts,
            status: self.status,
            mime_type: opt_view(self.mime_type),
            protocol: opt_view(self.protocol),
            from_disk_cache: self.from_disk_cache,
            from_service_worker: self.from_service_worker,
            timing: self.timing,
            finished_bytes: self.finished_bytes,
            data_bytes: self.data_bytes,
            end_ts: self.end_ts,
        }
    }
}

/// A request first seen under `id`: nothing known yet.
pub open spec fn fresh_request<T, M>(id: Seq<char>) -> RequestView<T, M> {
    RequestView {
        id,
        url: Seq::empty(),
        method: Seq::empty(),
        start_ts: None,
        status: None,
        mime_type: None,
        protocol: None,
        from_disk_cache: false,
        from_service_worker: false,
        timing: None,
        finished_bytes: None,
        data_bytes: 0,
        end_ts: None,
    }
}

/// Where `id` stands in `reqs` (the first such entry), -1 when absent.
pub open spec fn position<T, M>(reqs: Seq<RequestView<T, M>>, id: Seq<char>) -> int
    decreases reqs.len(),
{
    if reqs.len() == 0 {
        -1
    } else if reqs[0].id == id {
        0
    } else {
        let p = position(reqs.skip(1), id);
        if p < 0 { -1 } else { p + 1 }
    }
}

/// The requests after an event for `id`: unchanged when `id` is known,
/// else with a fresh entry appended (first-seen order).
pub open spec fn touch<T, M>(reqs: Seq<RequestView<T, M>>, id: Seq<char>) -> Seq<RequestView<T, M>> {
    if position(reqs, id) >= 0 { reqs } else { reqs.push(fresh_request(id)) }
}

/// The entry an event for `id` goes to.
pub open spec fn touched_index<T, M>(reqs: Seq<RequestView<T, M>>, id: Seq<char>) -> int {
    if position(reqs, id) >= 0 { position(reqs, id) } else { reqs.len() as int }
}

pub open spec fn request_views<T, M>(reqs: Seq<PendingRequest<T, M>>) -> Seq<RequestView<T, M>> {
    reqs.map_values(|r: PendingRequest<T, M>| r@)
}

/// No request id occurs twice.
pub open spec fn ids_unique<T, M>(reqs: Seq<RequestView<T, M>>) -> bool {
    forall|i: int, j: int| 0 <= i < j < reqs.len() ==> reqs[i].id != reqs[j].id
}

proof fn lemma_position<T, M>(reqs: Seq<RequestView<T, M>>, id: Seq<char>)
    ensures
        -1 <= position(reqs, id) < reqs.len(),
        position(reqs, id) >= 0 ==> reqs[position(reqs, id)].id == id,
        position(reqs, id) < 0 ==> forall|k: int| 0 <= k < reqs.len() ==> reqs[k].id != id,
        forall|k: int| 0 <= k < position(reqs, id) ==> reqs[k].id != id,
    decreases reqs.len(),
{
    if reqs.len() > 0 && reqs[0].id != id {
        lemma_position(reqs.skip(1), id);
        assert forall|k: int| 1 <= k < reqs.len() implies reqs[k] == reqs.skip(1)[k - 1] by {}
    }
}

proof fn lemma_touch<T, M>(reqs: Seq<RequestView<T, M>>, id: Seq<char>)
    requires
        ids_unique(reqs),
    ensures
        ids_unique(touch(reqs, id)),
        0 <= touched_index(reqs, id) < touch(reqs, id).len(),
        touch(reqs, id)[touched_index(reqs, id)].id == id,
        forall|k: int| 0 <= k < reqs.len() ==> touch(reqs, id)[k] == reqs[k],
{
    lemma_position(reqs, id);
}

/// The index of the entry for `id`, None when the id has not been seen.
fn find_request<T, M>(reqs: &Vec<PendingRequest<T, M>>, id: &str) -> (r: Option<usize>)
    ensures
        match r {
            Some(i) => i as int == position(request_views(reqs@), id@),
            None => position(request_views(reqs@), id@) < 0,
        },
{
    let ghost rv = request_views(reqs@);
    proof { lemma_position(rv, id@); }
    let mut i: usize = 0;
    assert(rv.skip(0) =~= rv);
    while i < reqs.len()
        invariant
            i <= reqs@.len(),
            rv == request_views(reqs@),
            position(rv, id@) == (if position(rv.skip(i as int), id@) < 0 { -1 } else { position(rv.skip(i as int), id@) + i }),
        decreases reqs@.len() - i,
    {
        if str_eq(reqs[i].id.as_str(), id) {
            assert(rv.skip(i as int)[0] == rv[i as int]);
            return Some(i);
        }
        assert(rv.skip(i as int).skip(1) =~= rv.skip(i + 1));
        i = i + 1;
    }
    assert(rv.skip(i as int).len() == 0);
    None
}

/// Looks up the entry for `id`, appending a fresh one when the id is new.
fn entry_for<T, M>(reqs: &mut Vec<PendingRequest<T, M>>, id: &str) -> (i: usize)
    requires
        ids_unique(request_views(old(reqs)@)),
    ensures
        request_views(final(reqs)@) == touch(request_views(old(reqs)@), id@),
        i == touched_index(request_views(old(reqs)@), id@),
        i < final(reqs)@.len(),
{
    let ghost rv = request_views(reqs@);
    proof { lemma_position(rv, id@); }
    match find_request(reqs, id) {
        Some(i) => i,
        None => {
            let i = reqs.len();
            reqs.push(PendingRequest {
                id: string_of(id),
                url: String::new(),
                method: String::new(),
                start_ts: None,
                status: None,
                mime_type: None,
                protocol: None,
                from_disk_cache: false,
                from_service_worker: false,
                timing: None,
                finished_bytes: None,
                data_bytes: 0,
                end_ts: None,
            });
            assert(request_views(reqs@) =~= rv.push(fresh_request(id@)));
            i
        },
    }
}

// ─────────────────────────────────────────────────────────────────────────────
// Protocol counts
// ─────────────────────────────────────────────────────────────────────────────

pub open spec fn count_views(v: Seq<(String, u32)>) -> Seq<(Seq<char>, u32)> {
    v.map_values(|p: (String, u32)| (p.0@, p.1))
}

/// Where `name` stands in `counts`, -1 when absent.
pub open spec fn name_position(counts: Seq<(Seq<char>, u32)>, name: Seq<char>) -> int
    decreases counts.len(),
{
    if counts.len() == 0 {
        -1
    } else if counts[0].0 == name {
        0
    } else {
        let p = name_position(counts.skip(1), name);
        if p < 0 { -1 } else { p + 1 }
    }
}

proof fn lemma_name_position(counts: Seq<(Seq<char>, u32)>, name: Seq<char>)
    ensures
        -1 <= name_position(counts, name) < counts.len(),
        name_position(counts, name) >= 0 ==> counts[name_position(counts, name)].0 == name,
        name_position(counts, name) < 0 ==> forall|k: int| 0 <= k < counts.len() ==> counts[k].0 != name,
    decreases counts.len(),
{
    if counts.len() > 0 && counts[0].0 != name {
        lemma_name_position(counts.skip(1), name);
        assert forall|k: int| 1 <= k < counts.len() implies counts[k] == counts.skip(1)[k - 1] by {}
    }
}

/// One more response of protocol `name`.
pub open spec fn bump(counts: Seq<(Seq<char>, u32)>, name: Seq<char>) -> Seq<(Seq<char>, u32)> {
    let p = name_position(counts, name);
    if p >= 0 { counts.update(p, (name, (counts[p].1 + 1) as u32)) } else { counts.push((name, 1u32)) }
}

/// Responses tallied under `name` (summed over entries of that name).
pub open spec fn count_of(counts: Seq<(Seq<char>, u32)>, name: Seq<char>) -> nat
    decreases counts.len(),
{
    if counts.len() == 0 {
        0
    } else {
        count_of(counts.drop_last(), name) + (if counts.last().0 == name { counts.last().1 as nat } else { 0 })
    }
}

/// No protocol name has two entries.
pub open spec fn names_unique(counts: Seq<(Seq<char>, u32)>) -> bool {
    forall|a: int, b: int| 0 <= a < b < counts.len() ==> #[trigger] counts[a].0 != #[trigger] counts[b].0
}

proof fn lemma_count_of_update(counts: Seq<(Seq<char>, u32)>, p: int, e: (Seq<char>, u32), n: Seq<char>)
    requires
        0 <= p < counts.len(),
    ensures
        count_of(counts.update(p, e), n) + (if counts[p].0 == n { counts[p].1 as nat } else { 0 })
            == count_of(counts, n) + (if e.0 == n { e.1 as nat } else { 0 }),
    decreases counts.len(),
{
    let u = counts.update(p, e);
    if p == counts.len() - 1 {
        assert(u.drop_last() =~= counts.drop_last());
    } else {
        assert(u.drop_last() =~= counts.drop_last().update(p, e));
        lemma_count_of_update(counts.drop_last(), p, e, n);
    }
}

proof fn lemma_count_of_absent(counts: Seq<(Seq<char>, u32)>, n: Seq<char>)
    requires
        forall|k: int| 0 <= k < counts.len() ==> counts[k].0 != n,
    ensures
        count_of(counts, n) == 0,
    decreases counts.len(),
{
    if counts.len() > 0 {
        lemma_count_of_absent(counts.drop_last(), n);
    }
}

/// One response tallied: the name keeps a single entry, its count goes up by
/// exactly one, and every other name's count is unchanged.
pub proof fn law_bump_counts_one_response(counts: Seq<(Seq<char>, u32)>, name: Seq<char>, other: Seq<char>)
    requires
        names_unique(counts),
        forall|k: int| 0 <= k < counts.len() ==> (#[trigger] counts[k]).1 < u32::MAX,
    ensures
        names_unique(bump(counts, name)),
        count_of(bump(counts, name), name) == count_of(counts, name) + 1,
        other != name ==> count_of(bump(counts, name), other) == count_of(counts, other),
        exists|k: int| 0 <= k < bump(counts, name).len() && #[trigger] bump(counts, name)[k].0 == name,
{
    lemma_name_position(counts, name);
    let p = name_position(counts, name);
    let b = bump(counts, name);
    if p >= 0 {
        let e = (name, (counts[p].1 + 1) as u32);
        assert(e.1 == counts[p].1 + 1);
        lemma_count_of_update(counts, p, e, name);
        lemma_count_of_update(counts, p, e, other);
        assert forall|a: int, c: int| 0 <= a < c < b.len() implies #[trigger] b[a].0 != #[trigger] b[c].0 by {
            assert(b[a].0 == counts[a].0);
            assert(b[c].0 == counts[c].0);
        }
        assert(b[p].0 == name);
    } else {
        assert(b =~= counts.push((name, 1u32)));
        assert(b.drop_last() =~= counts);
        lemma_count_of_absent(counts, name);
        assert forall|a: int, c: int| 0 <= a < c < b.len() implies #[trigger] b[a].0 != #[trigger] b[c].0 by {
            if c == counts.len() {
                assert(b[a].0 == counts[a].0);
            } else {
                assert(b[a].0 == counts[a].0);
                assert(b[c].0 == counts[c].0);
            }
        }
        assert(b[counts.len() as int].0 == name);
    }
}

fn bump_count(counts: &mut Vec<(String, u32)>, name: String, bound: u32)
    requires
        forall|k: int| 0 <= k < old(counts)@.len() ==> (#[trigger] old(counts)@[k]).1 < bound,
    ensures
        count_views(final(counts)@) == bump(count_views(old(counts)@), name@),
{
    let ghost cv = count_views(counts@);
    proof { lemma_name_position(cv, name@); }
    let mut i: usize = 0;
    assert(cv.skip(0) =~= cv);
    while i < counts.len()
        invariant
            i <= counts@.len(),
            cv == count_views(counts@),
            cv == count_views(old(counts)@),
            forall|k: int| 0 <= k < counts@.len() ==> (#[trigger] counts@[k]).1 < bound,
            name_position(cv, name@) == (if name_position(cv.skip(i as int), name@) < 0 { -1 } else { name_position(cv.skip(i as int), name@) + i }),
        decreases counts@.len() - i,
    {
        if str_eq(counts[i].0.as_str(), name.as_str()) {
            assert(cv.skip(i as int)[0] == cv[i as int]);
            assert(name_position(cv.skip(i as int), name@) == 0);
            assert(name_position(cv, name@) == i);
            let (n, c) = counts.remove(i);
            counts.insert(i, (n, c + 1));
            assert(count_views(counts@) =~= cv.update(i as int, (name@, (cv[i as int].1 + 1) as u32)));
            return;
        }
        assert(cv.skip(i as int).skip(1) =~= cv.skip(i + 1));
        i = i + 1;
    }
    assert(cv.skip(i as int).len() == 0);
    counts.push((name, 1));
    assert(count_views(counts@) =~= cv.push((name@, 1u32)));
}

// ─────────────────────────────────────────────────────────────────────────────
// The drain
// ─────────────────────────────────────────────────────────────────────────────

/// What the network events of a page load have told so far.
pub struct NetworkDrain<T, M> {
    /// One entry per request id, in the order ids were first seen.
    pub requests: Vec<PendingRequest<T, M>>,
    /// Responses seen.
    pub resource_count: u32,
    /// Sum of the declared `content-length` of the responses.
    pub transferred_bytes: usize,
    /// The protocol of the first response.
    pub main_protocol: Option<String>,
    /// Responses per protocol, in first-seen order.
    pub protocol_counts: Vec<(String, u32)>,
    /// The timestamp of the first request sent: the waterfall's origin.
    pub nav_origin_ts: Option<T>,
}

pub struct DrainView<T, M> {
    pub requests: Seq<RequestView<T, M>>,
    pub resource_count: u32,
    pub transferred_bytes: usize,
    pub main_protocol: Option<Seq<char>>,
    pub protocol_counts: Seq<(Seq<char>, u32)>,
    pub nav_origin_ts: Option<T>,
}

impl<T, M> View for NetworkDrain<T, M> {
    type V = DrainView<T, M>;

    open spec fn view(&self) -> DrainView<T, M> {
        DrainView {
            requests: request_views(self.requests@),
            resource_count: self.resource_count,
            transferred_bytes: self.transferred_bytes,
            main_protocol: opt_view(self.main_protocol),
            protocol_counts: count_views(self.protocol_counts@),
            nav_origin_ts: self.nav_origin_ts,
        }
    }
}

/// Request ids are unique, and no protocol has more responses than were
/// seen.
pub open spec fn drain_wf<T, M>(v: DrainView<T, M>) -> bool {
    &&& ids_unique(v.requests)
    &&& forall|k: int| 0 <= k < v.protocol_counts.len() ==> (#[trigger] v.protocol_counts[k]).1 <= v.resource_count
}

/// After a request-will-be-sent event: the entry takes the (truncated) URL,
/// the method and the send time; the first request fixes the origin.
pub open spec fn after_request<T, M>(v: DrainView<T, M>, id: Seq<char>, url: Seq<char>, method: Seq<char>, ts: T) -> DrainView<T, M> {
    let reqs = touch(v.requests, id);
    let i = touched_index(v.requests, id);
    let r = reqs[i];
    DrainView {
        requests: reqs.update(i, RequestView { url: truncate_url_spec(url), method, start_ts: Some(ts), ..r }),
        nav_origin_ts: if v.nav_origin_ts is Some { v.nav_origin_ts } else { Some(ts) },
        ..v
    }
}

/// The declared body size of a response: its `content-length` text parsed
/// as a number, 0 when absent or not a number.
pub open spec fn content_length_value(header: Option<Seq<char>>) -> nat {
    match header {
        Some(t) => match parse_unsigned_spec(t, usize::MAX as nat) {
            Some(n) => n,
            None => 0,
        },
        None => 0,
    }
}

/// The media type of a `Content-Type`-like value: before any `;`, trimmed.
pub open spec fn mime_essence(mime: Seq<char>) -> Seq<char> {
    trim_spec(split_spec(mime, ';')[0])
}

/// A response's protocol, lowercased (`unknown` when not reported).
pub open spec fn response_protocol(protocol: Option<Seq<char>>) -> Seq<char> {
    unicode_lowercase(match protocol {
        Some(p) => p,
        None => "unknown"@,
    })
}

/// An HTTP status as reported (a number), kept when it fits 16 bits.
pub open spec fn status_of(status: i64) -> Option<u16> {
    if 0 <= status <= u16::MAX { Some(status as u16) } else { None }
}

/// The response fields of a response-received event.
pub struct ResponseEvent<M> {
    pub url: String,
    pub status: i64,
    pub protocol: Option<String>,
    pub mime_type: String,
    /// The `content-length` header's text, when the response had one.
    pub content_length: Option<String>,
    pub from_disk_cache: bool,
    pub from_service_worker: bool,
    pub timing: Option<M>,
}

/// After a response-received event: one more resource, counted under its
/// protocol (the first response's protocol is the page's), its declared
/// size added; the entry takes the status, media type, protocol, cache
/// flags and timing, and the response URL when no request event gave one.
pub open spec fn after_response<T, M>(v: DrainView<T, M>, id: Seq<char>, ev: ResponseEvent<M>) -> DrainView<T, M> {
    let proto = response_protocol(opt_view(ev.protocol));
    let reqs = touch(v.requests, id);
    let i = touched_index(v.requests, id);
    let r = reqs[i];
    let mime = mime_essence(ev.mime_type@);
    DrainView {
        requests: reqs.update(i, RequestView {
            url: if r.url.len() == 0 { truncate_url_spec(ev.url@) } else { r.url },
            status: status_of(ev.status),
            mime_type: if mime.len() > 0 { Some(mime) } else { r.mime_type },
            protocol: Some(proto),
            from_disk_cache: ev.from_disk_cache,
            from_service_worker: ev.from_service_worker,
            timing: ev.timing,
            ..r
        }),
        resource_count: (v.resource_count + 1) as u32,
        transferred_bytes: (v.transferred_bytes + content_length_value(opt_view(ev.content_length))) as usize,
        main_protocol: if v.main_protocol is Some { v.main_protocol } else { Some(proto) },
        protocol_counts: bump(v.protocol_counts, proto),
        ..v
    }
}

/// The bytes of a data-received chunk (negative reports count as 0).
pub open spec fn chunk_bytes(encoded_len: i64) -> u64 {
    if encoded_len > 0 { encoded_len as u64 } else { 0 }
}

/// After a data-received event: the chunk's bytes added to the entry.
pub open spec fn after_data<T, M>(v: DrainView<T, M>, id: Seq<char>, encoded_len: i64) -> DrainView<T, M> {
    let reqs = touch(v.requests, id);
    let i = touched_index(v.requests, id);
    let r = reqs[i];
    DrainView {
        requests: reqs.update(i, RequestView { data_bytes: (r.data_bytes + chunk_bytes(encoded_len)) as u64, ..r }),
        ..v
    }
}

/// After a loading-finished event: the entry takes the reported byte count
/// and the finish time.
pub open spec fn after_finished<T, M>(v: DrainView<T, M>, id: Seq<char>, bytes: u64, ts: T) -> DrainView<T, M> {
    let reqs = touch(v.requests, id);
    let i = touched_index(v.requests, id);
    let r = reqs[i];
    DrainView {
        requests: reqs.update(i, RequestView { finished_bytes: Some(bytes), end_ts: Some(ts), ..r }),
        ..v
    }
}

proof fn lemma_update_keeps_ids<T, M>(reqs: Seq<RequestView<T, M>>, i: int, r: RequestView<T, M>)
    requires
        ids_unique(reqs),
        0 <= i < reqs.len(),
        r.id == reqs[i].id,
    ensures
        ids_unique(reqs.update(i, r)),
{
    assert forall|a: int, b: int| 0 <= a < b < reqs.len() implies reqs.update(i, r)[a].id != reqs.update(i, r)[b].id by {
        assert(reqs.update(i, r)[a].id == reqs[a].id);
        assert(reqs.update(i, r)[b].id == reqs[b].id);
    }
}

impl<T: Copy, M> NetworkDrain<T, M> {
    /// Nothing seen yet.
    pub fn new() -> (d: Self)
        ensures
            d@.requests.len() == 0,
            d@.resource_count == 0,
            d@.transferred_bytes == 0,
            d@.main_protocol is None,
            d@.protocol_counts.len() == 0,
            d@.nav_origin_ts is None,
            drain_wf(d@),
    {
        let d = NetworkDrain {
            requests: Vec::new(),
            resource_count: 0,
            transferred_bytes: 0,
            main_protocol: None,
            protocol_counts: Vec::new(),
            nav_origin_ts: None,
        };
        assert(d@.requests =~= Seq::<RequestView<T, M>>::empty());
        assert(d@.protocol_counts =~= Seq::<(Seq<char>, u32)>::empty());
        d
    }

    /// A request-will-be-sent event (see `after_request`).
    pub fn on_request(&mut self, id: &str, url: &str, method: &str, ts: T)
        requires
            drain_wf(old(self)@),
        ensures
            final(self)@ == after_request(old(self)@, id@, url@, method@, ts),
            drain_wf(final(self)@),
    {
        let ghost v = self@;
        let i = entry_for(&mut self.requests, id);
        proof { lemma_touch(v.requests, id@); }
        if self.nav_origin_ts.is_none() {
            self.nav_origin_ts = Some(ts);
        }
        let mut r = self.requests.remove(i);
        r.url = truncate_url(url);
        r.method = string_of(method);
        r.start_ts = Some(ts);
        self.requests.insert(i, r);
        proof {
            let reqs = touch(v.requests, id@);
            lemma_update_keeps_ids(reqs, i as int, r@);
            assert(request_views(self.requests@) =~= reqs.update(i as int, r@));
        }
    }

    /// Whether a response event keeps the counters in range (the count of
    /// responses and the declared bytes).
    pub fn room_for_response(&self, content_length: Option<&str>) -> (ok: bool)
        ensures
            ok == (self.resource_count < u32::MAX
                && self.transferred_bytes + content_length_value(match content_length { Some(t) => Some(t@), None => None }) <= usize::MAX),
    {
        if self.resource_count == u32::MAX {
            return false;
        }
        let cl: u64 = match content_length {
            Some(t) => match parse_unsigned(t, usize::MAX as u64) {
                Some(n) => n,
                None => 0,
            },
            None => 0,
        };
        (self.transferred_bytes as u64) <= (usize::MAX as u64) - cl
    }

    /// A response-received event (see `after_response`).
    pub fn on_response(&mut self, id: &str, ev: ResponseEvent<M>)
        requires
            drain_wf(old(self)@),
            old(self).resource_count < u32::MAX,
            old(self).transferred_bytes + content_length_value(opt_view(ev.content_length)) <= usize::MAX,
        ensures
            final(self)@ == after_response(old(self)@, id@, ev),
            drain_wf(final(self)@),
    {
        let ghost v = self@;
        let ghost ev_copy = ev;
        let proto = match &ev.protocol {
            Some(p) => to_lowercase(p.as_str()),
            None => to_lowercase("unknown"),
        };
        let cl: usize = match &ev.content_length {
            Some(t) => match parse_unsigned(t.as_str(), usize::MAX as u64) {
                Some(n) => n as usize,
                None => 0,
            },
            None => 0,
        };
        self.resource_count = self.resource_count + 1;
        self.transferred_bytes = self.transferred_bytes + cl;
        if self.main_protocol.is_none() {
            self.main_protocol = Some(proto.clone());
        }
        assert forall|k: int| 0 <= k < self.protocol_counts@.len() implies
            (#[trigger] self.protocol_counts@[k]).1 < self.resource_count by {
            assert(count_views(self.protocol_counts@)[k].1 == self.protocol_counts@[k].1);
        }
        bump_count(&mut self.protocol_counts, proto.clone(), self.resource_count);
        proof {
            let cv = count_views(self.protocol_counts@);
            let old_cv = v.protocol_counts;
            lemma_name_position(old_cv, proto@);
            assert forall|k: int| 0 <= k < cv.len() implies (#[trigger] cv[k]).1 <= self.resource_count by {
                if k < old_cv.len() && k != name_position(old_cv, proto@) {
                    assert(cv[k] == old_cv[k]);
                }
            }
        }
        let i = entry_for(&mut self.requests, id);
        proof { lemma_touch(v.requests, id@); }
        let mut r = self.requests.remove(i);
        if r.url.as_str().is_empty() {
            r.url = truncate_url(ev.url.as_str());
        }
        r.status = if 0 <= ev.status && ev.status <= u16::MAX as i64 { Some(ev.status as u16) } else { None };
        let pieces = split_on(ev.mime_type.as_str(), ';');
        proof { crate::text::lemma_split_nonempty(ev.mime_type@, ';'); }
        let mime = trim(pieces[0].as_str());
        if !mime.as_str().is_empty() {
            r.mime_type = Some(mime);
        }
        r.protocol = Some(proto);
        r.from_disk_cache = ev.from_disk_cache;
        r.from_service_worker = ev.from_service_worker;
        r.timing = ev.timing;
        self.requests.insert(i, r);
        proof {
            let reqs = touch(v.requests, id@);
            lemma_update_keeps_ids(reqs, i as int, r@);
            assert(request_views(self.requests@) =~= reqs.update(i as int, r@));
        }
    }

    /// Whether a data-received event keeps the entry's byte sum in range.
    pub fn room_for_data(&self, id: &str, encoded_len: i64) -> (ok: bool)
        ensures
            ok == (touch(self@.requests, id@)[touched_index(self@.requests, id@)].data_bytes + chunk_bytes(encoded_len) <= u64::MAX),
    {
        proof { lemma_position(self@.requests, id@); }
        let chunk: u64 = if encoded_len > 0 { encoded_len as u64 } else { 0 };
        match find_request(&self.requests, id) {
            Some(i) => self.requests[i].data_bytes <= u64::MAX - chunk,
            None => true,
        }
    }

    /// A data-received event (see `after_data`).
    pub fn on_data(&mut self, id: &str, encoded_len: i64)
        requires
            drain_wf(old(self)@),
            touch(old(self)@.requests, id@)[touched_index(old(self)@.requests, id@)].data_bytes
                + chunk_bytes(encoded_len) <= u64::MAX,
        ensures
            final(self)@ == after_data(old(self)@, id@, encoded_len),
            drain_wf(final(self)@),
    {
        let ghost v = self@;
        let i = entry_for(&mut self.requests, id);
        proof { lemma_touch(v.requests, id@); }
        let chunk: u64 = if encoded_len > 0 { encoded_len as u64 } else { 0 };
        let mut r = self.requests.remove(i);
        r.data_bytes = r.data_bytes + chunk;
        self.requests.insert(i, r);
        proof {
            let reqs = touch(v.requests, id@);
            lemma_update_keeps_ids(reqs, i as int, r@);
            assert(request_views(self.requests@) =~= reqs.update(i as int, r@));
        }
    }

    /// A loading-finished event (see `after_finished`).
    pub fn on_finished(&mut self, id: &str, bytes: u64, ts: T)
        requires
            drain_wf(old(self)@),
        ensures
            final(self)@ == after_finished(old(self)@, id@, bytes, ts),
            drain_wf(final(self)@),
    {
        let ghost v = self@;
        let i = entry_for(&mut self.requests, id);
        proof { lemma_touch(v.requests, id@); }
        let mut r = self.requests.remove(i);
        r.finished_bytes = Some(bytes);
        r.end_ts = Some(ts);
        self.requests.insert(i, r);
        proof {
            let reqs = touch(v.requests, id@);
            lemma_update_keeps_ids(reqs, i as int, r@);
            assert(request_views(self.requests@) =~= reqs.update(i as int, r@));
        }
    }
}

// ─────────────────────────────────────────────────────────────────────────────
// Laws of the drain
// ─────────────────────────────────────────────────────────────────────────────

proof fn lemma_position_of_present<T, M>(reqs: Seq<RequestView<T, M>>, id: Seq<char>, i: int)
    requires
        ids_unique(reqs),
        0 <= i < reqs.len(),
        reqs[i].id == id,
    ensures
        position(reqs, id) == i,
{
    lemma_position(reqs, id);
}

proof fn lemma_touch_after_update<T, M>(reqs: Seq<RequestView<T, M>>, id: Seq<char>, r: RequestView<T, M>)
    requires
        ids_unique(reqs),
        r.id == id,
    ensures
        ({
            let t = touch(reqs, id);
            let i = touched_index(reqs, id);
            let u = t.update(i, r);
            &&& ids_unique(u)
            &&& touch(u, id) == u
            &&& touched_index(u, id) == i
        }),
{
    lemma_touch(reqs, id);
    let t = touch(reqs, id);
    let i = touched_index(reqs, id);
    lemma_update_keeps_ids(t, i, r);
    lemma_position_of_present(t.update(i, r), id, i);
}

/// The ids of the entries, in order.
pub open spec fn request_ids<T, M>(reqs: Seq<RequestView<T, M>>) -> Seq<Seq<char>> {
    reqs.map_values(|r: RequestView<T, M>| r.id)
}

/// Per-protocol response counts of the drain: a response adds exactly one
/// to its own (lowercased) protocol, which keeps a single entry, and leaves
/// every other protocol's count alone; request, data and finish events
/// leave the counts as they are.
pub proof fn law_response_counted_under_its_protocol<T, M>(
    v: DrainView<T, M>,
    id: Seq<char>,
    ev: ResponseEvent<M>,
    url: Seq<char>,
    method: Seq<char>,
    ts: T,
    len: i64,
    bytes: u64,
    other: Seq<char>,
)
    requires
        drain_wf(v),
        names_unique(v.protocol_counts),
        v.resource_count < u32::MAX,
    ensures
        ({
            let proto = response_protocol(opt_view(ev.protocol));
            let after = after_response(v, id, ev).protocol_counts;
            &&& names_unique(after)
            &&& count_of(after, proto) == count_of(v.protocol_counts, proto) + 1
            &&& other != proto ==> count_of(after, other) == count_of(v.protocol_counts, other)
        }),
        after_request(v, id, url, method, ts).protocol_counts == v.protocol_counts,
        after_data(v, id, len).protocol_counts == v.protocol_counts,
        after_finished(v, id, bytes, ts).protocol_counts == v.protocol_counts,
{
    let proto = response_protocol(opt_view(ev.protocol));
    law_bump_counts_one_response(v.protocol_counts, proto, other);
}

/// One entry per request, in first-seen order: an event for a known id
/// keeps the entries' ids as they were, an event for a new id appends it.
pub proof fn law_events_keep_first_seen_order<T, M>(v: DrainView<T, M>, id: Seq<char>)
    requires
        drain_wf(v),
    ensures
        position(v.requests, id) >= 0 ==> request_ids(touch(v.requests, id)) == request_ids(v.requests),
        position(v.requests, id) < 0 ==> request_ids(touch(v.requests, id)) == request_ids(v.requests).push(id),
{
    if position(v.requests, id) < 0 {
        assert(request_ids(v.requests.push(fresh_request(id))) =~= request_ids(v.requests).push(id));
    }
}

/// The request and response events of one request may arrive in either
/// order: with a non-empty request URL, both orders leave the same state
/// (the entry has the request's URL, method and send time and the
/// response's status, type, protocol and timing).
pub proof fn law_request_and_response_commute<T, M>(
    v: DrainView<T, M>,
    id: Seq<char>,
    url: Seq<char>,
    method: Seq<char>,
    ts: T,
    ev: ResponseEvent<M>,
)
    requires
        drain_wf(v),
        url.len() > 0,
    ensures
        after_response(after_request(v, id, url, method, ts), id, ev)
            == after_request(after_response(v, id, ev), id, url, method, ts),
{
    let reqs = touch(v.requests, id);
    let i = touched_index(v.requests, id);
    lemma_touch(v.requests, id);
    let r = reqs[i];
    let proto = response_protocol(opt_view(ev.protocol));
    let mime = mime_essence(ev.mime_type@);
    let r_req = RequestView { url: truncate_url_spec(url), method, start_ts: Some(ts), ..r };
    let r_resp = RequestView {
        url: if r.url.len() == 0 { truncate_url_spec(ev.url@) } else { r.url },
        status: status_of(ev.status),
        mime_type: if mime.len() > 0 { Some(mime) } else { r.mime_type },
        protocol: Some(proto),
        from_disk_cache: ev.from_disk_cache,
        from_service_worker: ev.from_service_worker,
        timing: ev.timing,
        ..r
    };
    lemma_touch_after_update(v.requests, id, r_req);
    lemma_touch_after_update(v.requests, id, r_resp);
    assert(truncate_url_spec(url).len() > 0);
    let a = after_response(after_request(v, id, url, method, ts), id, ev);
    let b = after_request(after_response(v, id, ev), id, url, method, ts);
    assert(a.requests =~= b.requests);
}

// ─────────────────────────────────────────────────────────────────────────────
// Ranking the protocols
// ─────────────────────────────────────────────────────────────────────────────

/// Lexicographic order of names by code point (the order of `String`).
pub open spec fn name_le(a: Seq<char>, b: Seq<char>) -> bool
    decreases a.len(),
{
    if a.len() == 0 {
        true
    } else if b.len() == 0 {
        false
    } else if a[0] != b[0] {
        a[0] < b[0]
    } else {
        name_le(a.skip(1), b.skip(1))
    }
}

/// Protocols ranked by response count, most first, then by name.
pub open spec fn ranks_before(a: (Seq<char>, u32), b: (Seq<char>, u32)) -> bool {
    a.1 > b.1 || (a.1 == b.1 && name_le(a.0, b.0))
}

proof fn lemma_name_le_total(a: Seq<char>, b: Seq<char>)
    ensures
        name_le(a, b) || name_le(b, a),
    decreases a.len(),
{
    if a.len() > 0 && b.len() > 0 && a[0] == b[0] {
        lemma_name_le_total(a.skip(1), b.skip(1));
    }
}

proof fn lemma_name_le_transitive(a: Seq<char>, b: Seq<char>, c: Seq<char>)
    requires
        name_le(a, b),
        name_le(b, c),
    ensures
        name_le(a, c),
    decreases a.len(),
{
    if a.len() > 0 && b.len() > 0 && c.len() > 0 && a[0] == b[0] && b[0] == c[0] {
        lemma_name_le_transitive(a.skip(1), b.skip(1), c.skip(1));
    }
}

proof fn lemma_ranks_total(a: (Seq<char>, u32), b: (Seq<char>, u32))
    ensures
        ranks_before(a, b) || ranks_before(b, a),
{
    lemma_name_le_total(a.0, b.0);
}

proof fn lemma_ranks_transitive(a: (Seq<char>, u32), b: (Seq<char>, u32), c: (Seq<char>, u32))
    requires
        ranks_before(a, b),
        ranks_before(b, c),
    ensures
        ranks_before(a, c),
{
    if a.1 == b.1 && b.1 == c.1 {
        lemma_name_le_transitive(a.0, b.0, c.0);
    }
}

/// Whether `a` comes no later than `b` by name (see `name_le`).
fn name_le_exec(a: &str, b: &str) -> (r: bool)
    ensures
        r == name_le(a@, b@),
{
    let va = crate::text::chars_of(a);
    let vb = crate::text::chars_of(b);
    let mut i: usize = 0;
    assert(a@.skip(0) =~= a@);
    assert(b@.skip(0) =~= b@);
    while i < va.len() && i < vb.len() && va[i] == vb[i]
        invariant
            va@ == a@,
            vb@ == b@,
            i <= va@.len(),
            i <= vb@.len(),
            name_le(a@, b@) == name_le(a@.skip(i as int), b@.skip(i as int)),
        decreases va@.len() - i,
    {
        assert(a@.skip(i as int)[0] == va@[i as int]);
        assert(b@.skip(i as int)[0] == vb@[i as int]);
        assert(a@.skip(i as int).skip(1) =~= a@.skip(i + 1));
        assert(b@.skip(i as int).skip(1) =~= b@.skip(i + 1));
        i = i + 1;
    }
    if i == va.len() {
        return true;
    }
    if i == vb.len() {
        return false;
    }
    assert(a@.skip(i as int)[0] == va@[i as int]);
    assert(b@.skip(i as int)[0] == vb@[i as int]);
    va[i] < vb[i]
}

fn ranks_before_exec(a: &(String, u32), b: &(String, u32)) -> (r: bool)
    ensures
        r == ranks_before((a.0@, a.1), (b.0@, b.1)),
{
    a.1 > b.1 || (a.1 == b.1 && name_le_exec(a.0.as_str(), b.0.as_str()))
}

pub open spec fn ranked(v: Seq<(Seq<char>, u32)>) -> bool {
    forall|i: int, j: int| 0 <= i < j < v.len() ==> ranks_before(v[i], v[j])
}

/// The protocol counts ranked (see `ranks_before`): the same entries, most
/// responses first, ties by name.
pub fn rank_protocols(counts: Vec<(String, u32)>) -> (out: Vec<(String, u32)>)
    ensures
        ranked(count_views(out@)),
        count_views(out@).to_multiset() == count_views(counts@).to_multiset(),
{
    broadcast use vstd::seq_lib::group_to_multiset_ensures;
    let ghost all = count_views(counts@);
    let mut rest = counts;
    let mut out: Vec<(String, u32)> = Vec::new();
    let ghost mut k: int = 0;
    assert(count_views(out@) =~= Seq::<(Seq<char>, u32)>::empty());
    assert(all.take(0) =~= Seq::<(Seq<char>, u32)>::empty());
    assert(all.skip(0) =~= all);
    while rest.len() > 0
        invariant
            0 <= k <= all.len(),
            count_views(rest@) == all.skip(k),
            ranked(count_views(out@)),
            count_views(out@).to_multiset() == all.take(k).to_multiset(),
        decreases rest@.len(),
    {
        let ghost before = rest@;
        proof {
            assert(count_views(before).len() == before.len());
            assert(all.skip(k).len() == all.len() - k);
            assert(k < all.len());
            assert(count_views(before)[0] == (before[0].0@, before[0].1));
            assert(all.skip(k)[0] == all[k]);
        }
        let item = rest.remove(0);
        let ghost x = (item.0@, item.1);
        proof {
            assert(x == all[k]);
            assert forall|j: int| 0 <= j < rest@.len() implies count_views(rest@)[j] == all.skip(k + 1)[j] by {
                assert(count_views(before)[j + 1] == (before[j + 1].0@, before[j + 1].1));
                assert(all.skip(k)[j + 1] == all.skip(k + 1)[j]);
            }
            assert(count_views(rest@) =~= all.skip(k + 1));
        }
        let ghost ov = count_views(out@);
        let mut p: usize = 0;
        while p < out.len() && ranks_before_exec(&out[p], &item)
            invariant
                p <= out@.len(),
                ov == count_views(out@),
                x == (item.0@, item.1),
                forall|q: int| 0 <= q < p ==> ranks_before(#[trigger] ov[q], x),
            decreases out@.len() - p,
        {
            assert(ov[p as int] == (out@[p as int].0@, out@[p as int].1));
            p = p + 1;
        }
        proof {
            if p < out.len() {
                assert(ov[p as int] == (out@[p as int].0@, out@[p as int].1));
                assert(!ranks_before(ov[p as int], x));
                lemma_ranks_total(ov[p as int], x);
            }
        }
        out.insert(p, item);
        proof {
            let nv = count_views(out@);
            assert(nv =~= ov.insert(p as int, x));
            assert forall|i: int, j: int| 0 <= i < j < nv.len() implies ranks_before(nv[i], nv[j]) by {
                if j < p {
                    assert(nv[i] == ov[i] && nv[j] == ov[j]);
                } else if j == p {
                    assert(nv[i] == ov[i]);
                } else if i == p {
                    assert(nv[j] == ov[j - 1]);
                    if j - 1 > p {
                        lemma_ranks_transitive(x, ov[p as int], ov[j - 1]);
                    }
                } else if i < p {
                    assert(nv[i] == ov[i] && nv[j] == ov[j - 1]);
                } else {
                    assert(nv[i] == ov[i - 1] && nv[j] == ov[j - 1]);
                }
            }
            vstd::seq_lib::to_multiset_insert(ov, p as int, x);
            assert(all.take(k + 1) =~= all.take(k).push(x));
            vstd::seq_lib::to_multiset_build(all.take(k), x);
            k = k + 1;
        }
    }
    assert(all.take(k) =~= all);
    out
}

// ─────────────────────────────────────────────────────────────────────────────
// The report
// ─────────────────────────────────────────────────────────────────────────────

/// The wire bytes of a request: the larger of the loading-finished count and
/// the sum of the data chunks (the former under-reports on fast multiplexed
/// transfers); the chunk sum alone when there was no finish event; None when
/// neither accounted any byte.
pub open spec fn wire_bytes_spec<T, M>(r: RequestView<T, M>) -> Option<u64> {
    match r.finished_bytes {
        Some(f) => Some(if f >= r.data_bytes { f } else { r.data_bytes }),
        None => if r.data_bytes > 0 { Some(r.data_bytes) } else { None },
    }
}

impl<T, M> PendingRequest<T, M> {
    /// The request's wire bytes (see `wire_bytes_spec`).
    pub fn wire_bytes(&self) -> (w: Option<u64>)
        ensures
            w == wire_bytes_spec(self@),
    {
        match self.finished_bytes {
            Some(f) => Some(if f >= self.data_bytes { f } else { self.data_bytes }),
            None => if self.data_bytes > 0 { Some(self.data_bytes) } else { None },
        }
    }
}

/// Total wire bytes over requests, and whether any request accounted bytes.
pub open spec fn wire_total_spec<T, M>(reqs: Seq<RequestView<T, M>>) -> (nat, bool)
    decreases reqs.len(),
{
    if reqs.len() == 0 {
        (0, false)
    } else {
        let prev = wire_total_spec(reqs.drop_last());
        match wire_bytes_spec(reqs.last()) {
            Some(w) => ((prev.0 + w) as nat, true),
            None => prev,
        }
    }
}

proof fn lemma_wire_total_prefix<T, M>(reqs: Seq<RequestView<T, M>>, i: int)
    requires
        0 <= i <= reqs.len(),
    ensures
        wire_total_spec(reqs.take(i)).0 <= wire_total_spec(reqs).0,
    decreases reqs.len(),
{
    if i < reqs.len() {
        assert(reqs.drop_last().take(i) =~= reqs.take(i));
        lemma_wire_total_prefix(reqs.drop_last(), i);
    } else {
        assert(reqs.take(i) =~= reqs);
    }
}

/// The row of a request in the waterfall: as gathered, with `GET` for a
/// request whose method was never reported.
pub open spec fn row_spec<T, M>(r: RequestView<T, M>) -> RequestView<T, M> {
    RequestView { method: if r.method.len() == 0 { "GET"@ } else { r.method }, ..r }
}

/// What a drained page load reports.
pub struct DrainReport<T, M> {
    /// The first `cap` requests, in first-seen order.
    pub rows: Vec<PendingRequest<T, M>>,
    /// More requests were seen than the rows hold.
    pub truncated: bool,
    pub resource_count: u32,
    pub transferred_bytes: usize,
    /// The first response's protocol, `unknown` when there was none.
    pub protocol: String,
    /// Responses per protocol.
    pub resource_protocols: Vec<(String, u32)>,
    /// Wire bytes over all requests (rows or not); None when no request
    /// accounted any.
    pub wire_bytes_total: Option<u64>,
    pub nav_origin_ts: Option<T>,
}

impl<T: Copy, M> NetworkDrain<T, M> {
    /// Whether the wire bytes of all requests add up within 64 bits.
    pub fn wire_total_fits(&self) -> (ok: bool)
        ensures
            ok == (wire_total_spec(self@.requests).0 <= u64::MAX),
    {
        let ghost rv = self@.requests;
        let mut sum: u64 = 0;
        let mut i: usize = 0;
        while i < self.requests.len()
            invariant
                i <= self.requests@.len(),
                rv == request_views(self.requests@),
                sum == wire_total_spec(rv.take(i as int)).0,
            decreases self.requests@.len() - i,
        {
            proof {
                assert(rv.take(i + 1).drop_last() =~= rv.take(i as int));
                assert(rv.take(i + 1).last() == self.requests@[i as int]@);
                lemma_wire_total_prefix(rv, i + 1);
            }
            match self.requests[i].wire_bytes() {
                Some(w) => {
                    if sum > u64::MAX - w {
                        return false;
                    }
                    sum = sum + w;
                },
                None => {},
            }
            i = i + 1;
        }
        assert(rv.take(i as int) =~= rv);
        true
    }

    /// Closes the drain: the first `cap` requests as waterfall rows (see
    /// `row_spec`), whether more were seen, the page's protocol and the
    /// totals.
    pub fn finish(self, cap: usize) -> (r: DrainReport<T, M>)
        requires
            wire_total_spec(self@.requests).0 <= u64::MAX,
        ensures
            request_views(r.rows@) == self@.requests.take(
                if cap < self@.requests.len() { cap as int } else { self@.requests.len() as int },
            ).map_values(|q: RequestView<T, M>| row_spec(q)),
            r.truncated == (self@.requests.len() > cap),
            r.resource_count == self@.resource_count,
            r.transferred_bytes == self@.transferred_bytes,
            r.protocol@ == (match self@.main_protocol {
                Some(p) => p,
                None => "unknown"@,
            }),
            ranked(count_views(r.resource_protocols@)),
            count_views(r.resource_protocols@).to_multiset() == self@.protocol_counts.to_multiset(),
            r.wire_bytes_total == (if wire_total_spec(self@.requests).1 {
                Some(wire_total_spec(self@.requests).0 as u64)
            } else {
                None
            }),
            r.nav_origin_ts == self@.nav_origin_ts,
    {
        let ghost rv = self@.requests;
        let ghost v = self@;
        let mut sum: u64 = 0;
        let mut any = false;
        let mut i: usize = 0;
        while i < self.requests.len()
            invariant
                i <= self.requests@.len(),
                rv == request_views(self.requests@),
                wire_total_spec(rv).0 <= u64::MAX,
                sum == wire_total_spec(rv.take(i as int)).0,
                any == wire_total_spec(rv.take(i as int)).1,
            decreases self.requests@.len() - i,
        {
            proof {
                assert(rv.take(i + 1).drop_last() =~= rv.take(i as int));
                assert(rv.take(i + 1).last() == self.requests@[i as int]@);
                lemma_wire_total_prefix(rv, i + 1);
            }
            match self.requests[i].wire_bytes() {
                Some(w) => {
                    sum = sum + w;
                    any = true;
                },
                None => {},
            }
            i = i + 1;
        }
        assert(rv.take(i as int) =~= rv);
        let truncated = self.requests.len() > cap;
        let n = if cap < self.requests.len() { cap } else { self.requests.len() };
        let NetworkDrain { requests, resource_count, transferred_bytes, main_protocol, protocol_counts, nav_origin_ts } = self;
        let mut rest = requests;
        let mut rows: Vec<PendingRequest<T, M>> = Vec::new();
        let mut k: usize = 0;
        while k < n
            invariant
                k <= n,
                n <= rv.len(),
                rest@.len() == rv.len() - k,
                request_views(rest@) == rv.skip(k as int),
                request_views(rows@) == rv.take(k as int).map_values(|q: RequestView<T, M>| row_spec(q)),
            decreases n - k,
        {
            let ghost before = rest@;
            proof {
                assert(request_views(before)[0] == before[0]@);
                assert(rv.skip(k as int)[0] == rv[k as int]);
            }
            let mut r = rest.remove(0);
            proof {
                assert(r@ == rv[k as int]);
                assert(rest@ =~= before.skip(1));
                assert forall|j: int| 0 <= j < rest@.len() implies request_views(rest@)[j] == rv.skip(k + 1)[j] by {
                    assert(request_views(before)[j + 1] == before[j + 1]@);
                    assert(rv.skip(k as int)[j + 1] == rv.skip(k + 1)[j]);
                }
            }
            let ghost orig = r@;
            if r.method.as_str().is_empty() {
                r.method = string_of("GET");
            }
            assert(r@ == row_spec(orig));
            let ghost rows_before = rows@;
            rows.push(r);
            proof {
                assert(request_views(rows@) =~= request_views(rows_before).push(row_spec(orig)));
                assert(rv.take(k + 1).map_values(|q: RequestView<T, M>| row_spec(q))
                    =~= rv.take(k as int).map_values(|q: RequestView<T, M>| row_spec(q)).push(row_spec(rv[k as int])));
            }
            proof {
                assert(request_views(rest@) =~= rv.skip(k + 1));
                assert(request_views(rows@) =~= rv.take(k + 1).map_values(|q: RequestView<T, M>| row_spec(q)));
            }
            k = k + 1;
        }
        let protocol = match main_protocol {
            Some(p) => p,
            None => string_of("unknown"),
        };
        DrainReport {
            rows,
            truncated,
            resource_count,
            transferred_bytes,
            protocol,
            resource_protocols: rank_protocols(protocol_counts),
            wire_bytes_total: if any { Some(sum) } else { None },
            nav_origin_ts,
        }
    }
}

} // verus!
