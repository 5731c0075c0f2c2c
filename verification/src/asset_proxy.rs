//! Assets fetched over the websocket (for browser builds, which cannot read
//! the local file system).
//!
//! A `file://` mesh URI becomes a `wsasset://` asset path; the URI is queued
//! in [`PendingWsAssetRequests`], requested from the server with
//! `asset,,,<uri>`, and the reader waits for the bytes under the key that
//! both sides use: the `file://` URI without its `file://` prefix, which is
//! the path of the `wsasset://` asset.
use vstd::prelude::*;
use crate::text::{push_str, str_eq, string_of};

verus! {

/// The request for the asset `uri`.
pub open spec fn asset_request_text(uri: Seq<char>) -> Seq<char> {
    "asset,,,"@ + uri
}

/// The request for the asset `uri`: `asset,,,<uri>`.
pub fn asset_request_message(uri: &str) -> (r: String)
    ensures
        r@ == asset_request_text(uri@),
{
    let mut r = string_of("asset,,,");
    push_str(&mut r, uri);
    r
}

/// The key under which the bytes of the `wsasset://` asset at `path` are
/// stored: the `file://` URI without its `file://` prefix, that is the path
/// itself (see `scene::lemma_web_file_asset_key`).
pub fn ws_asset_key(path: &str) -> (r: String)
    ensures
        r@ == path@,
{
    string_of(path)
}

/// How many misses the reader waits through before giving up
/// (about 60 seconds at 10 ms per poll).
pub const MAX_POLLS: u32 = 6000;

/// How often, in polls, the reader reports that it is still waiting.
pub const REPORT_EVERY: u32 = 100;

/// The reader's state after a poll that found no bytes.
#[derive(Clone, Copy, Debug, PartialEq, Eq, Structural)]
pub struct PollOutcome {
    /// Polls made so far.
    pub polls: u32,
    /// Whether to report that the reader is still waiting.
    pub report: bool,
    /// Whether to give up (the asset is not found).
    pub timed_out: bool,
}

/// Counts one more poll that found no bytes, after `polls` such polls.
pub fn poll_missed(polls: u32) -> (r: PollOutcome)
    requires
        polls < u32::MAX,
    ensures
        r.polls == polls + 1,
        r.report == ((polls + 1) % (REPORT_EVERY as int) == 0),
        r.timed_out == (polls + 1 > MAX_POLLS),
{
    let n = polls + 1;
    PollOutcome { polls: n, report: n % REPORT_EVERY == 0, timed_out: n > MAX_POLLS }
}

/// The `file://` URIs to request from the websocket server, each with
/// whether its request has been sent. A URI occurs at most once.
#[derive(Debug)]
pub struct PendingWsAssetRequests {
    requests: Vec<(String, bool)>,
}

/// The requests by their contents, in the order they were queued.
pub open spec fn entry_views(es: Seq<(String, bool)>) -> Seq<(Seq<char>, bool)> {
    es.map_values(|e: (String, bool)| (e.0@, e.1))
}

/// Does `uri` occur among the requests `v`?
pub open spec fn has_uri(v: Seq<(Seq<char>, bool)>, uri: Seq<char>) -> bool {
    exists|i: int| 0 <= i < v.len() && v[i].0 == uri
}

/// No URI occurs twice.
pub open spec fn distinct_uris(v: Seq<(Seq<char>, bool)>) -> bool {
    forall|i: int, j: int| 0 <= i < j < v.len() ==> v[i].0 != v[j].0
}

/// The requests after queueing `uri`: added at the end, not yet sent,
/// unless it is already there.
pub open spec fn queued(v: Seq<(Seq<char>, bool)>, uri: Seq<char>) -> Seq<(Seq<char>, bool)> {
    if has_uri(v, uri) {
        v
    } else {
        v.push((uri, false))
    }
}

/// The requests with the request for `uri` marked as sent.
pub open spec fn mark_in(v: Seq<(Seq<char>, bool)>, uri: Seq<char>) -> Seq<(Seq<char>, bool)> {
    v.map_values(|e: (Seq<char>, bool)| if e.0 == uri { (e.0, true) } else { e })
}

/// The URIs whose requests have not been sent, in order.
pub open spec fn unsent_of(v: Seq<(Seq<char>, bool)>) -> Seq<Seq<char>>
    decreases v.len(),
{
    if v.len() == 0 {
        seq![]
    } else {
        unsent_of(v.drop_last()) + if v.last().1 {
            seq![]
        } else {
            seq![v.last().0]
        }
    }
}

impl View for PendingWsAssetRequests {
    type V = Seq<(Seq<char>, bool)>;

    closed spec fn view(&self) -> Seq<(Seq<char>, bool)> {
        entry_views(self.requests@)
    }
}

impl PendingWsAssetRequests {
    /// The well-formedness of the requests: no URI occurs twice.
    pub open spec fn wf(&self) -> bool {
        distinct_uris(self@)
    }

    /// No requests.
    pub fn new() -> (r: Self)
        ensures
            r.wf(),
            r@ == Seq::<(Seq<char>, bool)>::empty(),
    {
        let r = PendingWsAssetRequests { requests: Vec::new() };
        assert(r@ =~= Seq::<(Seq<char>, bool)>::empty());
        r
    }

    /// The index of the request for `uri`, if any.
    fn index_of(&self, uri: &str) -> (r: Option<usize>)
        requires
            self.wf(),
        ensures
            r matches Some(i) ==> i < self@.len() && self@[i as int].0 == uri@,
            r is None ==> !has_uri(self@, uri@),
    {
        let mut i: usize = 0;
        while i < self.requests.len()
            invariant
                i <= self.requests.len(),
                forall|k: int| 0 <= k < i ==> self@[k].0 != uri@,
            decreases self.requests.len() - i,
        {
            if str_eq(self.requests[i].0.as_str(), uri) {
                return Some(i);
            }
            i = i + 1;
        }
        None
    }

    /// Is `uri` queued?
    pub fn contains_key(&self, uri: &str) -> (b: bool)
        requires
            self.wf(),
        ensures
            b == has_uri(self@, uri@),
    {
        self.index_of(uri).is_some()
    }

    /// Queues `uri` (not yet sent) unless it is already queued. Returns
    /// whether it was added.
    pub fn queue(&mut self, uri: &str) -> (added: bool)
        requires
            old(self).wf(),
        ensures
            final(self).wf(),
            added == !has_uri(old(self)@, uri@),
            final(self)@ == queued(old(self)@, uri@),
    {
        if self.index_of(uri).is_some() {
            return false;
        }
        let ghost before = self@;
        self.requests.push((string_of(uri), false));
        assert(self@ =~= before.push((uri@, false)));
        true
    }

    /// The queued URIs whose requests have not been sent, in queue order.
    pub fn unsent_uris(&self) -> (r: Vec<String>)
        ensures
            r@.map_values(|s: String| s@) == unsent_of(self@),
    {
        let mut r: Vec<String> = Vec::new();
        let mut i: usize = 0;
        while i < self.requests.len()
            invariant
                i <= self.requests.len(),
                r@.map_values(|s: String| s@) == unsent_of(self@.take(i as int)),
            decreases self.requests.len() - i,
        {
            let ghost before = r@.map_values(|s: String| s@);
            assert(self@.take(i + 1).drop_last() =~= self@.take(i as int));
            if !self.requests[i].1 {
                r.push(self.requests[i].0.clone());
                assert(r@.map_values(|s: String| s@) =~= before.push(self@[i as int].0));
            }
            assert(unsent_of(self@.take(i + 1)) =~= r@.map_values(|s: String| s@));
            i = i + 1;
        }
        assert(self@.take(i as int) =~= self@);
        r
    }

    /// Marks the request for `uri` as sent (nothing when `uri` is not
    /// queued).
    pub fn mark_sent(&mut self, uri: &str)
        requires
            old(self).wf(),
        ensures
            final(self).wf(),
            final(self)@ == mark_in(old(self)@, uri@),
    {
        let ghost before = self@;
        match self.index_of(uri) {
            Some(i) => {
                let key = string_of(uri);
                self.requests.set(i, (key, true));
                assert(self@ =~= mark_in(before, uri@));
            },
            None => {
                assert(self@ =~= mark_in(before, uri@));
            },
        }
    }
}

// ───────────────────────── laws ─────────────────────────

/// A URI whose request has been marked as sent is not requested again.
pub proof fn lemma_sent_not_unsent(v: Seq<(Seq<char>, bool)>, uri: Seq<char>)
    ensures
        !unsent_of(mark_in(v, uri)).contains(uri),
    decreases v.len(),
{
    if v.len() > 0 {
        assert(mark_in(v, uri).drop_last() =~= mark_in(v.drop_last(), uri));
        lemma_sent_not_unsent(v.drop_last(), uri);
        let tail: Seq<Seq<char>> = if mark_in(v, uri).last().1 {
            seq![]
        } else {
            seq![mark_in(v, uri).last().0]
        };
        assert(unsent_of(mark_in(v, uri)) =~= unsent_of(mark_in(v.drop_last(), uri)) + tail);
        if unsent_of(mark_in(v, uri)).contains(uri) {
            let k = choose|k: int|
                0 <= k < unsent_of(mark_in(v, uri)).len() && unsent_of(mark_in(v, uri))[k] == uri;
            if k < unsent_of(mark_in(v.drop_last(), uri)).len() {
                assert(unsent_of(mark_in(v.drop_last(), uri))[k] == uri);
            }
        }
    }
}

/// Every unsent URI is queued, and every queued URI that is not sent is
/// among the unsent ones.
pub proof fn lemma_unsent_members(v: Seq<(Seq<char>, bool)>, uri: Seq<char>)
    ensures
        unsent_of(v).contains(uri) <==> exists|i: int| 0 <= i < v.len() && v[i] == (uri, false),
    decreases v.len(),
{
    if v.len() > 0 {
        lemma_unsent_members(v.drop_last(), uri);
        let tail: Seq<Seq<char>> = if v.last().1 {
            seq![]
        } else {
            seq![v.last().0]
        };
        let u = unsent_of(v);
        let p = unsent_of(v.drop_last());
        assert(u =~= p + tail);
        if u.contains(uri) {
            let k = choose|k: int| 0 <= k < u.len() && u[k] == uri;
            if k < p.len() {
                assert(p[k] == uri);
                let i = choose|i: int| 0 <= i < v.drop_last().len() && v.drop_last()[i] == (uri, false);
                assert(v[i] == (uri, false));
            } else {
                assert(v[v.len() - 1] == (uri, false));
            }
        }
        if exists|i: int| 0 <= i < v.len() && v[i] == (uri, false) {
            let i = choose|i: int| 0 <= i < v.len() && v[i] == (uri, false);
            if i < v.len() - 1 {
                assert(v.drop_last()[i] == (uri, false));
                let k = choose|k: int| 0 <= k < p.len() && p[k] == uri;
                assert(u[k] == uri);
            } else {
                assert(u[p.len() as int] == uri);
            }
        }
    }
}

/// Queueing a URI a second time changes nothing.
pub proof fn lemma_queue_idempotent(v: Seq<(Seq<char>, bool)>, uri: Seq<char>)
    ensures
        queued(queued(v, uri), uri) == queued(v, uri),
{
    if !has_uri(v, uri) {
        let w = v.push((uri, false));
        assert(w[v.len() as int].0 == uri);
        assert(has_uri(w, uri));
    }
}

/// Queueing and marking keep every URI at most once.
pub proof fn lemma_requests_stay_distinct(v: Seq<(Seq<char>, bool)>, uri: Seq<char>)
    requires
        distinct_uris(v),
    ensures
        distinct_uris(queued(v, uri)),
        distinct_uris(mark_in(v, uri)),
        mark_in(v, uri).len() == v.len(),
{
    if !has_uri(v, uri) {
        let w = v.push((uri, false));
        assert forall|i: int, j: int| 0 <= i < j < w.len() implies w[i].0 != w[j].0 by {
            if j == v.len() {
                assert(w[i] == v[i]);
            } else {
                assert(w[i] == v[i] && w[j] == v[j]);
            }
        }
    }
    let m = mark_in(v, uri);
    assert forall|i: int, j: int| 0 <= i < j < m.len() implies m[i].0 != m[j].0 by {
        assert(m[i].0 == v[i].0 && m[j].0 == v[j].0);
    }
}

/// The requests after marking each of `uris` as sent, in order.
pub open spec fn mark_all(v: Seq<(Seq<char>, bool)>, uris: Seq<Seq<char>>) -> Seq<(Seq<char>, bool)>
    decreases uris.len(),
{
    if uris.len() == 0 {
        v
    } else {
        mark_in(mark_all(v, uris.drop_last()), uris.last())
    }
}

/// Marking keeps the URIs and their order; a request ends up sent exactly
/// when it was sent before or its URI is among those marked.
pub proof fn lemma_mark_all(v: Seq<(Seq<char>, bool)>, uris: Seq<Seq<char>>)
    ensures
        mark_all(v, uris).len() == v.len(),
        forall|i: int| 0 <= i < v.len() ==> (#[trigger] mark_all(v, uris)[i]).0 == v[i].0,
        forall|i: int|
            0 <= i < v.len() ==> ((#[trigger] mark_all(v, uris)[i]).1 <==> (v[i].1 || uris.contains(
                v[i].0,
            ))),
    decreases uris.len(),
{
    if uris.len() > 0 {
        let prev = uris.drop_last();
        lemma_mark_all(v, prev);
        let w = mark_all(v, prev);
        assert forall|i: int| 0 <= i < v.len() implies ((#[trigger] mark_all(v, uris)[i]).1 <==> (
        v[i].1 || uris.contains(v[i].0))) by {
            assert(mark_all(v, uris)[i] == mark_in(w, uris.last())[i]);
            if prev.contains(v[i].0) {
                let k = choose|k: int| 0 <= k < prev.len() && prev[k] == v[i].0;
                assert(uris[k] == v[i].0);
            }
            if uris.contains(v[i].0) && !prev.contains(v[i].0) {
                let k = choose|k: int| 0 <= k < uris.len() && uris[k] == v[i].0;
                if k < prev.len() {
                    assert(prev[k] == v[i].0);
                }
            }
            if v[i].0 == uris.last() {
                assert(uris.contains(v[i].0));
            }
        }
        assert forall|i: int| 0 <= i < v.len() implies (#[trigger] mark_all(v, uris)[i]).0 == v[i].0 by {
            assert(mark_all(v, uris)[i] == mark_in(w, uris.last())[i]);
        }
    }
}

/// Each queued URI is requested at most once: once every URI that
/// `unsent_uris` returned has been marked sent, nothing is left to send, so
/// a following round sends nothing and changes nothing; the queue keeps its
/// URIs and their order throughout.
pub proof fn lemma_request_round_sends_each_once(v: Seq<(Seq<char>, bool)>)
    ensures
        unsent_of(mark_all(v, unsent_of(v))) == Seq::<Seq<char>>::empty(),
        mark_all(mark_all(v, unsent_of(v)), unsent_of(mark_all(v, unsent_of(v)))) == mark_all(
            v,
            unsent_of(v),
        ),
        mark_all(v, unsent_of(v)).len() == v.len(),
        forall|i: int| 0 <= i < v.len() ==> (#[trigger] mark_all(v, unsent_of(v))[i]).0 == v[i].0,
{
    let us = unsent_of(v);
    let w = mark_all(v, us);
    lemma_mark_all(v, us);
    assert forall|i: int| 0 <= i < w.len() implies (#[trigger] w[i]).1 by {
        if !v[i].1 {
            lemma_unsent_members(v, v[i].0);
            assert(v[i] == (v[i].0, false));
        }
    }
    let left = unsent_of(w);
    if left.len() > 0 {
        lemma_unsent_members(w, left[0]);
        assert(left.contains(left[0]));
        let i = choose|i: int| 0 <= i < w.len() && w[i] == (left[0], false);
        assert(w[i].1);
    }
    assert(left =~= Seq::<Seq<char>>::empty());
}

} // verus!
