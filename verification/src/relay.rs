//! Relaying a live stream: how a relay worker finds its playlist, and the
//! loop that polls it, recovers from failures and decides when to stop.
//!
//! The caller performs the network and process work and reports what came
//! back; the decisions are made here.
use vstd::prelude::*;
use crate::hls::{get_url_prefix, url_prefix_spec};

verus! {

/// Seconds without a viewer after which a relay stops.
pub const IDLE_STOP_SECS: u64 = 30;

/// Failed polls in a row after which the upstream counts as offline.
pub const MAX_FAILURES: u32 = 3;

/// Milliseconds to wait after a poll that brought no new segment.
pub const IDLE_POLL_MS: u64 = 1000;

/// Milliseconds to wait after a failed poll.
pub const RETRY_POLL_MS: u64 = 500;

/// What a stream-information query answered.
#[derive(Debug, Clone)]
pub enum InfoOutcome {
    /// The stream is live at `playlist_url`; `model_id` when the answer named one.
    Live { playlist_url: String, model_id: Option<i64> },
    /// The stream is not live; `status` is what the site reports.
    Offline { status: String },
    /// The query failed.
    Failed,
}

/// The next thing a starting relay worker does.
#[derive(Debug, Clone)]
pub enum WorkerStep {
    /// Build the playlist URL from the known model id, racing the CDN domains.
    TryCdn { model_id: i64 },
    /// Query the stream information (`known_model_id` helps after a rename).
    FetchInfo { known_model_id: Option<i64> },
    /// Feed the live stream from `playlist_url`; record `backfill` as the
    /// streamer's model id when it is `Some`.
    Feed { playlist_url: String, model_id: i64, backfill: Option<i64> },
    /// The stream is offline.
    Offline { status: String },
    /// The stream information could not be had.
    Error,
}

/// How a worker starts: with a cached model id it first tries the CDN,
/// otherwise it queries the stream information.
pub fn worker_start(cached_model_id: Option<i64>) -> (r: WorkerStep)
    ensures
        cached_model_id matches Some(m) ==> r == (WorkerStep::TryCdn { model_id: m }),
        cached_model_id is None ==> r == (WorkerStep::FetchInfo { known_model_id: None }),
{
    match cached_model_id {
        Some(m) => WorkerStep::TryCdn { model_id: m },
        None => WorkerStep::FetchInfo { known_model_id: None },
    }
}

/// After the CDN attempt for `model_id`: feed from the URL found, or fall
/// back to the stream information (the streamer may really be offline).
pub fn worker_after_cdn(model_id: i64, found: Option<String>) -> (r: WorkerStep)
    ensures
        found matches Some(u) ==> (r matches WorkerStep::Feed { playlist_url, model_id: m, backfill }
            && playlist_url@ == u@ && m == model_id && backfill is None),
        found is None ==> r == (WorkerStep::FetchInfo { known_model_id: Some(model_id) }),
{
    match found {
        Some(u) => WorkerStep::Feed { playlist_url: u, model_id, backfill: None },
        None => WorkerStep::FetchInfo { known_model_id: Some(model_id) },
    }
}

/// After the stream information (asked with `known_model_id`): feed when
/// live, with the model id it named, else the known one, else 0 (unknown);
/// the named id is backfilled.
pub fn worker_after_info(known_model_id: Option<i64>, info: InfoOutcome) -> (r: WorkerStep)
    ensures
        info matches InfoOutcome::Live { playlist_url: u, model_id: named } ==> (r matches WorkerStep::Feed { playlist_url, model_id: m, backfill }
            && playlist_url@ == u@
            && backfill == named
            && m == (match named { Some(x) => x, None => match known_model_id { Some(k) => k, None => 0 } })),
        info matches InfoOutcome::Offline { status: s } ==> (r matches WorkerStep::Offline { status } && status@ == s@),
        info is Failed ==> r is Error,
{
    match info {
        InfoOutcome::Live { playlist_url, model_id } => {
            let m = match model_id {
                Some(x) => x,
                None => match known_model_id {
                    Some(k) => k,
                    None => 0,
                },
            };
            WorkerStep::Feed { playlist_url, model_id: m, backfill: model_id }
        },
        InfoOutcome::Offline { status } => WorkerStep::Offline { status },
        InfoOutcome::Failed => WorkerStep::Error,
    }
}

/// The next thing the feeding loop does.
#[derive(Debug, Clone)]
pub enum FeedStep {
    /// Poll the playlist again after `wait_ms` milliseconds.
    Poll { wait_ms: u64 },
    /// Rebuild the playlist URL from `model_id` through the CDN.
    RefreshCdn { model_id: i64 },
    /// Query the stream information (`known_model_id` when the id is known).
    FetchInfo { known_model_id: Option<i64> },
    /// Record `model_id` as the streamer's model id, then poll after `wait_ms`.
    Backfill { model_id: i64, wait_ms: u64 },
    /// The upstream failed too often: stop.
    Stop,
    /// The upstream is offline with `status`: stop.
    StopOffline { status: String },
}

/// The state of the loop that feeds a live stream to the converter.
#[derive(Debug, Clone)]
pub struct LiveFeed {
    /// The streamer's model id, 0 when unknown.
    pub model_id: i64,
    pub current_url: String,
    pub url_prefix: String,
    pub consecutive_failures: u32,
}

impl LiveFeed {
    /// The loop's invariant: the prefix belongs to the current URL, and
    /// fewer polls than `MAX_FAILURES` have failed in a row.
    pub open spec fn wf(&self) -> bool {
        &&& self.url_prefix@ == url_prefix_spec(self.current_url@)
        &&& self.consecutive_failures < MAX_FAILURES
    }

    /// A loop feeding from `playlist_url`.
    pub fn new(playlist_url: &str, model_id: i64) -> (r: LiveFeed)
        ensures
            r.wf(),
            r.current_url@ == playlist_url@,
            r.model_id == model_id,
            r.consecutive_failures == 0,
    {
        LiveFeed {
            model_id,
            current_url: playlist_url.to_owned(),
            url_prefix: get_url_prefix(playlist_url),
            consecutive_failures: 0,
        }
    }

    fn switch_url(&mut self, url: String)
        ensures
            final(self).current_url@ == url@,
            final(self).url_prefix@ == url_prefix_spec(url@),
            final(self).consecutive_failures == 0,
            final(self).model_id == old(self).model_id,
    {
        self.url_prefix = get_url_prefix(url.as_str());
        self.current_url = url;
        self.consecutive_failures = 0;
    }

    /// A poll came back: `Some(had_new)` when it worked (with whether it
    /// brought a new segment), `None` when it failed. A success clears the
    /// failure count; a failure counts, stops the loop at `MAX_FAILURES`,
    /// and otherwise refreshes the URL (through the CDN when the model id is known).
    pub fn on_poll(&mut self, result: Option<bool>) -> (r: FeedStep)
        requires
            old(self).wf(),
        ensures
            final(self).wf() || r is Stop,
            final(self).current_url@ == old(self).current_url@,
            final(self).url_prefix@ == old(self).url_prefix@,
            final(self).model_id == old(self).model_id,
            result matches Some(had_new) ==> final(self).consecutive_failures == 0
                && r == (FeedStep::Poll { wait_ms: if had_new { 0 } else { IDLE_POLL_MS } }),
            result is None ==> final(self).consecutive_failures == old(self).consecutive_failures + 1,
            result is None && old(self).consecutive_failures + 1 >= MAX_FAILURES ==> r is Stop,
            result is None && old(self).consecutive_failures + 1 < MAX_FAILURES && old(self).model_id != 0
                ==> r == (FeedStep::RefreshCdn { model_id: old(self).model_id }),
            result is None && old(self).consecutive_failures + 1 < MAX_FAILURES && old(self).model_id == 0
                ==> r == (FeedStep::FetchInfo { known_model_id: None }),
    {
        match result {
            Some(had_new) => {
                self.consecutive_failures = 0;
                FeedStep::Poll { wait_ms: if had_new { 0 } else { IDLE_POLL_MS } }
            },
            None => {
                self.consecutive_failures = self.consecutive_failures + 1;
                if self.consecutive_failures >= MAX_FAILURES {
                    FeedStep::Stop
                } else if self.model_id != 0 {
                    FeedStep::RefreshCdn { model_id: self.model_id }
                } else {
                    FeedStep::FetchInfo { known_model_id: None }
                }
            },
        }
    }

    /// The CDN refresh came back: with a URL the loop switches to it and
    /// polls after the retry pause; without one it asks the stream information.
    pub fn on_cdn(&mut self, found: Option<String>) -> (r: FeedStep)
        requires
            old(self).wf(),
        ensures
            final(self).wf(),
            final(self).model_id == old(self).model_id,
            found matches Some(u) ==> final(self).current_url@ == u@ && final(self).consecutive_failures == 0
                && r == (FeedStep::Poll { wait_ms: RETRY_POLL_MS }),
            found is None ==> final(self).current_url@ == old(self).current_url@
                && final(self).url_prefix@ == old(self).url_prefix@
                && final(self).consecutive_failures == old(self).consecutive_failures
                && r == (FeedStep::FetchInfo { known_model_id: if old(self).model_id != 0 { Some(old(self).model_id) } else { None } }),
    {
        match found {
            Some(u) => {
                self.switch_url(u);
                FeedStep::Poll { wait_ms: RETRY_POLL_MS }
            },
            None => FeedStep::FetchInfo { known_model_id: if self.model_id != 0 { Some(self.model_id) } else { None } },
        }
    }

    /// The stream information came back: live switches to its URL (and
    /// backfills the model id it names), offline stops, and a failed query
    /// leaves the failure count to end the loop.
    pub fn on_info(&mut self, info: InfoOutcome) -> (r: FeedStep)
        requires
            old(self).wf(),
        ensures
            final(self).wf(),
            final(self).model_id == old(self).model_id,
            info matches InfoOutcome::Live { playlist_url: u, model_id: named } ==> final(self).current_url@ == u@
                && final(self).consecutive_failures == 0
                && r == (match named {
                    Some(m) => FeedStep::Backfill { model_id: m, wait_ms: RETRY_POLL_MS },
                    None => FeedStep::Poll { wait_ms: RETRY_POLL_MS },
                }),
            info matches InfoOutcome::Offline { status: s } ==> (r matches FeedStep::StopOffline { status } && status@ == s@),
            !(info is Live) ==> final(self).current_url@ == old(self).current_url@
                && final(self).url_prefix@ == old(self).url_prefix@
                && final(self).consecutive_failures == old(self).consecutive_failures,
            info is Failed ==> r == (FeedStep::Poll { wait_ms: RETRY_POLL_MS }),
    {
        match info {
            InfoOutcome::Live { playlist_url, model_id } => {
                self.switch_url(playlist_url);
                match model_id {
                    Some(m) => FeedStep::Backfill { model_id: m, wait_ms: RETRY_POLL_MS },
                    None => FeedStep::Poll { wait_ms: RETRY_POLL_MS },
                }
            },
            InfoOutcome::Offline { status } => FeedStep::StopOffline { status },
            InfoOutcome::Failed => FeedStep::Poll { wait_ms: RETRY_POLL_MS },
        }
    }
}

/// Whether the segment `sequence` was already sent (its number is in `sent`).
pub fn already_sent(sequence: u32, sent: &Vec<u32>) -> (r: bool)
    ensures
        r == sent@.contains(sequence),
{
    let mut i: usize = 0;
    while i < sent.len()
        invariant
            i <= sent.len(),
            forall|j: int| 0 <= j < i ==> sent@[j] != sequence,
        decreases sent.len() - i,
    {
        if sent[i] == sequence {
            assert(sent@[i as int] == sequence);
            return true;
        }
        i += 1;
    }
    false
}

/// The bytes handed to the converter for a media segment: the
/// initialization segment, when there is one, followed by the segment.
pub fn frame_segment(init: &Option<Vec<u8>>, segment: Vec<u8>) -> (r: Vec<u8>)
    requires
        (match init { Some(i) => i@.len(), None => 0 }) + segment@.len() <= usize::MAX,
    ensures
        r@ == (match init { Some(i) => i@ + segment@, None => segment@ }),
{
    match init {
        Some(i) => {
            let mut v: Vec<u8> = Vec::new();
            let mut k: usize = 0;
            while k < i.len()
                invariant
                    k <= i.len(),
                    v@ == i@.take(k as int),
                decreases i.len() - k,
            {
                v.push(i[k]);
                assert(i@.take(k + 1) == i@.take(k as int).push(i@[k as int]));
                k += 1;
            }
            assert(i@.take(i.len() as int) == i@);
            let mut j: usize = 0;
            while j < segment.len()
                invariant
                    j <= segment.len(),
                    v@ == i@ + segment@.take(j as int),
                decreases segment.len() - j,
            {
                v.push(segment[j]);
                assert(segment@.take(j + 1) == segment@.take(j as int).push(segment@[j as int]));
                assert(i@ + segment@.take(j + 1) == (i@ + segment@.take(j as int)).push(segment@[j as int]));
                j += 1;
            }
            assert(segment@.take(segment.len() as int) == segment@);
            v
        },
        None => segment,
    }
}

} // verus!
