//! Recording a stream: starting a session, the loop that fetches segments
//! and recovers from failures, and the sessions that are running.
//!
//! The caller performs the network and file work; the decisions (when to
//! refresh the playlist, when to give up, which segments to fetch, where
//! files go) are made here.
use vstd::prelude::*;
use crate::text::{concat, decimal, decimal_chars, first_index, from_chars, lemma_first_index, find_char,
    slice, str_eq, strs_view, to_chars, vec_contains_str};
use crate::path::{join, join_seq_path};

verus! {

/// Fetch rounds in a row without a new segment after which recording stops.
pub const MAX_RETRIES: u32 = 10;

/// Failed playlist refreshes in a row after which recording stops.
pub const MAX_PLAYLIST_REFRESH_FAILURES: u32 = 5;

/// Segment download failures in a row after which the playlist is refreshed.
pub const CDN_FAILURE_REFRESH_THRESHOLD: u64 = 3;

/// Segments not larger than this many bytes are dropped.
pub const MIN_SEGMENT_BYTES: usize = 1000;

/// Why a recording cannot start or stop.
#[derive(Debug, Clone)]
pub enum RecorderError {
    /// The streamer is already being recorded.
    AlreadyRecording(String),
    /// The streamer is not being recorded.
    NotRecording(String),
    /// As many recordings run as are allowed.
    MaxConcurrent,
}

/// The directory of a new recording: `{output_dir}/{username}/{username}_{timestamp}`.
pub open spec fn session_dir_spec(output_dir: Seq<char>, username: Seq<char>, timestamp: Seq<char>) -> Seq<char> {
    join_seq_path(join_seq_path(output_dir, username), username.push('_') + timestamp)
}

/// Where a new recording goes, or why it cannot start: a streamer already
/// recorded, or (with a limit `max_concurrent` other than 0) as many
/// recordings running as allowed. `timestamp` is the local time `%Y%m%d_%H%M%S`.
pub fn plan_recording(
    already_recording: bool,
    max_concurrent: usize,
    active_count: usize,
    output_dir: &str,
    username: &str,
    timestamp: &str,
) -> (r: Result<String, RecorderError>)
    ensures
        already_recording ==> (r matches Err(RecorderError::AlreadyRecording(u)) && u@ == username@),
        !already_recording && max_concurrent > 0 && active_count >= max_concurrent ==> (r matches Err(RecorderError::MaxConcurrent)),
        !already_recording && !(max_concurrent > 0 && active_count >= max_concurrent) ==> (r matches Ok(d) && d@ == session_dir_spec(output_dir@, username@, timestamp@)),
{
    if already_recording {
        return Err(RecorderError::AlreadyRecording(username.to_owned()));
    }
    if max_concurrent > 0 && active_count >= max_concurrent {
        return Err(RecorderError::MaxConcurrent);
    }
    let user = to_chars(username);
    let mut name = to_chars(username);
    name.push('_');
    let name = concat(&name, &to_chars(timestamp));
    Ok(from_chars(&join(&join(&to_chars(output_dir), &user), &name)))
}

// ───────────────────────── the recording loop ─────────────────────────

/// How a fetch round went.
#[derive(Debug, Clone)]
pub enum FetchOutcome {
    /// The playlist was read: `written` new segments were saved and
    /// `cdn_failures` segment downloads failed.
    Fetched { written: u64, cdn_failures: u64 },
    /// The playlist could not be read, or every new segment failed.
    Failed,
}

/// What a playlist refresh found.
#[derive(Debug, Clone)]
pub enum RefreshOutcome {
    /// A new playlist URL.
    NewUrl(String),
    /// The stream can no longer be recorded.
    NotRecordable,
    /// The stream is recordable but has no playlist URL yet.
    NoUrl,
    /// The stream information could not be fetched.
    Error,
}

/// What the loop does at the end of a round.
#[derive(Debug, Clone)]
pub enum RoundEnd {
    /// Stop recording.
    Stop,
    /// Wait before the next round.
    Wait,
    /// Start the next round at once.
    Again,
}

/// The state of a recording loop.
#[derive(Debug, Clone)]
pub struct RecordingLoop {
    pub playlist_url: String,
    pub url_prefix: String,
    pub retry_count: u32,
    pub playlist_refresh_failures: u32,
    pub consecutive_cdn_failures: u64,
    pub total_downloaded: u64,
    pub total_failed: u64,
    pub wait_next_round: bool,
}

impl RecordingLoop {
    /// A loop that starts on `playlist_url`.
    pub fn new(playlist_url: &str) -> (r: RecordingLoop)
        ensures
            r.playlist_url@ == playlist_url@,
            r.url_prefix@ == crate::hls::url_prefix_spec(playlist_url@),
            r.retry_count == 0,
            r.playlist_refresh_failures == 0,
            r.consecutive_cdn_failures == 0,
            r.total_downloaded == 0,
            r.total_failed == 0,
    {
        RecordingLoop {
            playlist_url: playlist_url.to_owned(),
            url_prefix: crate::hls::get_url_prefix(playlist_url),
            retry_count: 0,
            playlist_refresh_failures: 0,
            consecutive_cdn_failures: 0,
            total_downloaded: 0,
            total_failed: 0,
            wait_next_round: true,
        }
    }

    /// Starts a round: by default the loop waits after it.
    pub fn begin_round(&mut self)
        ensures
            final(self).wait_next_round,
            final(self).playlist_url == old(self).playlist_url,
            final(self).url_prefix == old(self).url_prefix,
            final(self).retry_count == old(self).retry_count,
            final(self).playlist_refresh_failures == old(self).playlist_refresh_failures,
            final(self).consecutive_cdn_failures == old(self).consecutive_cdn_failures,
            final(self).total_downloaded == old(self).total_downloaded,
            final(self).total_failed == old(self).total_failed,
    {
        self.wait_next_round = true;
    }

    /// Takes in how the round's fetch went; returns whether the playlist
    /// must be refreshed now. New segments reset the retry and failure
    /// counts; a round without new segments counts as a retry; three
    /// segment failures in a row, or a failed fetch, call for a refresh.
    pub fn on_fetch(&mut self, outcome: FetchOutcome) -> (refresh: bool)
        requires
            old(self).consecutive_cdn_failures < CDN_FAILURE_REFRESH_THRESHOLD,
            old(self).retry_count < MAX_RETRIES,
            outcome matches FetchOutcome::Fetched { written, cdn_failures } ==> old(self).total_downloaded + written <= u64::MAX && old(self).total_failed + cdn_failures <= u64::MAX && cdn_failures <= u64::MAX - CDN_FAILURE_REFRESH_THRESHOLD,
        ensures
            final(self).playlist_url == old(self).playlist_url,
            final(self).url_prefix == old(self).url_prefix,
            final(self).playlist_refresh_failures == old(self).playlist_refresh_failures,
            final(self).wait_next_round == old(self).wait_next_round,
            final(self).consecutive_cdn_failures < CDN_FAILURE_REFRESH_THRESHOLD,
            outcome is Failed ==> refresh && final(self).consecutive_cdn_failures == 0
                && final(self).retry_count == old(self).retry_count
                && final(self).total_downloaded == old(self).total_downloaded
                && final(self).total_failed == old(self).total_failed,
            outcome matches FetchOutcome::Fetched { written, cdn_failures } ==> ({
                let cdn = if written > 0 { 0 } else { old(self).consecutive_cdn_failures + cdn_failures };
                &&& final(self).total_downloaded == old(self).total_downloaded + written
                &&& final(self).total_failed == old(self).total_failed + cdn_failures
                &&& final(self).retry_count == (if written > 0 { 0 } else { old(self).retry_count + 1 })
                &&& refresh == (cdn >= CDN_FAILURE_REFRESH_THRESHOLD)
                &&& final(self).consecutive_cdn_failures == (if refresh { 0 } else { cdn })
            }),
    {
        match outcome {
            FetchOutcome::Failed => {
                self.consecutive_cdn_failures = 0;
                true
            },
            FetchOutcome::Fetched { written, cdn_failures } => {
                if cdn_failures > 0 {
                    self.consecutive_cdn_failures = self.consecutive_cdn_failures + cdn_failures;
                    self.total_failed = self.total_failed + cdn_failures;
                }
                if written > 0 {
                    self.consecutive_cdn_failures = 0;
                    self.retry_count = 0;
                    self.total_downloaded = self.total_downloaded + written;
                } else {
                    self.retry_count = self.retry_count + 1;
                }
                if self.consecutive_cdn_failures >= CDN_FAILURE_REFRESH_THRESHOLD {
                    self.consecutive_cdn_failures = 0;
                    true
                } else {
                    false
                }
            },
        }
    }

    /// Takes in what a playlist refresh found; returns whether recording
    /// stops. A new URL is used from now on, resets the counts and skips the
    /// wait; a stream that can no longer be recorded stops; anything else
    /// counts as a failed refresh, and five in a row stop.
    pub fn on_refresh(&mut self, outcome: RefreshOutcome) -> (stop: bool)
        requires
            old(self).playlist_refresh_failures < MAX_PLAYLIST_REFRESH_FAILURES,
        ensures
            final(self).consecutive_cdn_failures == old(self).consecutive_cdn_failures,
            final(self).total_downloaded == old(self).total_downloaded,
            final(self).total_failed == old(self).total_failed,
            final(self).playlist_refresh_failures <= MAX_PLAYLIST_REFRESH_FAILURES,
            !stop ==> final(self).playlist_refresh_failures < MAX_PLAYLIST_REFRESH_FAILURES,
            (match outcome {
                RefreshOutcome::NewUrl(u) => !stop && final(self).playlist_url@ == u@
                    && final(self).url_prefix@ == crate::hls::url_prefix_spec(u@)
                    && final(self).playlist_refresh_failures == 0 && final(self).retry_count == 0
                    && !final(self).wait_next_round,
                RefreshOutcome::NotRecordable => stop && final(self).playlist_refresh_failures == old(self).playlist_refresh_failures,
                _ => final(self).playlist_refresh_failures == old(self).playlist_refresh_failures + 1
                    && stop == (final(self).playlist_refresh_failures >= MAX_PLAYLIST_REFRESH_FAILURES)
                    && final(self).playlist_url == old(self).playlist_url
                    && final(self).retry_count == old(self).retry_count
                    && final(self).wait_next_round == old(self).wait_next_round,
            }),
    {
        match outcome {
            RefreshOutcome::NewUrl(u) => {
                self.url_prefix = crate::hls::get_url_prefix(u.as_str());
                self.playlist_url = u;
                self.playlist_refresh_failures = 0;
                self.retry_count = 0;
                self.wait_next_round = false;
                false
            },
            RefreshOutcome::NotRecordable => true,
            _ => {
                self.playlist_refresh_failures = self.playlist_refresh_failures + 1;
                self.playlist_refresh_failures >= MAX_PLAYLIST_REFRESH_FAILURES
            },
        }
    }

    /// Ends a round: stop after ten rounds in a row without new segments;
    /// otherwise wait, unless a new playlist URL was just found.
    pub fn end_round(&self) -> (r: RoundEnd)
        ensures
            self.retry_count >= MAX_RETRIES ==> r is Stop,
            self.retry_count < MAX_RETRIES && self.wait_next_round ==> r is Wait,
            self.retry_count < MAX_RETRIES && !self.wait_next_round ==> r is Again,
    {
        if self.retry_count >= MAX_RETRIES {
            RoundEnd::Stop
        } else if self.wait_next_round {
            RoundEnd::Wait
        } else {
            RoundEnd::Again
        }
    }
}

// ───────────────────────── one fetch round ─────────────────────────

/// The URL of an initialization segment without its query.
pub open spec fn init_path_spec(u: Seq<char>) -> Seq<char> {
    if first_index(u, '?') >= 0 {
        u.subrange(0, first_index(u, '?'))
    } else {
        u
    }
}

/// The URL of an initialization segment without its query (executable).
pub fn init_path(u: &str) -> (r: String)
    ensures
        r@ == init_path_spec(u@),
{
    let v = to_chars(u);
    proof {
        lemma_first_index(v@, '?');
    }
    match find_char(&v, '?') {
        Some(i) => from_chars(&slice(&v, 0, i)),
        None => u.to_owned(),
    }
}

/// Whether the initialization segment must be downloaded: the playlist
/// names one, and it differs (ignoring queries) from the one cached.
pub fn needs_init_download(init_url: Option<&str>, cached: Option<&str>) -> (r: bool)
    ensures
        r == (init_url is Some && (cached is None || init_path_spec(init_url->0@) != init_path_spec(cached->0@))),
{
    match init_url {
        None => false,
        Some(u) => match cached {
            None => true,
            Some(c) => !str_eq(init_path(u).as_str(), init_path(c).as_str()),
        },
    }
}

/// Decimal notation of `n` with at least six digits (zeros in front).
pub open spec fn six_digits(n: nat) -> Seq<char> {
    let d = decimal(n);
    if d.len() >= 6 {
        d
    } else {
        Seq::new((6 - d.len()) as nat, |i: int| '0') + d
    }
}

/// The file of a segment: `{username}_segment{sequence:06}.ts` in the session directory.
pub fn segment_path(session_dir: &str, username: &str, sequence: u32) -> (r: String)
    ensures
        r@ == join_seq_path(session_dir@, username@ + "_segment"@ + six_digits(sequence as nat) + ".ts"@),
{
    let d = decimal_chars(sequence as u64);
    let mut padded: Vec<char> = Vec::new();
    let mut k: usize = d.len();
    while k < 6
        invariant
            d.len() <= k <= 6 || (k == d.len() && d.len() > 6),
            padded@ == Seq::new((k - d.len()) as nat, |i: int| '0'),
        decreases 6 - k,
    {
        padded.push('0');
        k += 1;
        assert(padded@ =~= Seq::new((k - d.len()) as nat, |i: int| '0'));
    }
    let digits = concat(&padded, &d);
    assert(digits@ =~= six_digits(sequence as nat));
    let name = concat(&concat(&concat(&to_chars(username), &to_chars("_segment")), &digits), &to_chars(".ts"));
    from_chars(&join(&to_chars(session_dir), &name))
}

/// The counts of one fetch round over the playlist's segments.
#[derive(Debug, Clone)]
pub struct FetchRound {
    pub new_segments: u64,
    pub written: u64,
    pub cdn_failures: u64,
}

impl FetchRound {
    /// A round that has looked at no segment yet.
    pub fn new() -> (r: FetchRound)
        ensures
            r.new_segments == 0 && r.written == 0 && r.cdn_failures == 0,
    {
        FetchRound { new_segments: 0, written: 0, cdn_failures: 0 }
    }

    /// Whether a segment must be downloaded: it was not saved before (the
    /// sequence numbers saved are `downloaded`). Counts it as new when so.
    pub fn take_segment(&mut self, sequence: u32, downloaded: &Vec<u32>) -> (r: bool)
        requires
            old(self).new_segments < u64::MAX,
        ensures
            r == !downloaded@.contains(sequence),
            final(self).new_segments == old(self).new_segments + (if r { 1u64 } else { 0u64 }),
            final(self).written == old(self).written,
            final(self).cdn_failures == old(self).cdn_failures,
    {
        let mut i: usize = 0;
        while i < downloaded.len()
            invariant
                i <= downloaded.len(),
                forall|j: int| 0 <= j < i ==> downloaded@[j] != sequence,
            decreases downloaded.len() - i,
        {
            if downloaded[i] == sequence {
                assert(downloaded@[i as int] == sequence);
                return false;
            }
            i += 1;
        }
        self.new_segments = self.new_segments + 1;
        true
    }

    /// A segment download failed.
    pub fn download_failed(&mut self)
        requires
            old(self).cdn_failures < u64::MAX,
        ensures
            final(self).cdn_failures == old(self).cdn_failures + 1,
            final(self).new_segments == old(self).new_segments,
            final(self).written == old(self).written,
    {
        self.cdn_failures = self.cdn_failures + 1;
    }

    /// Whether a downloaded segment of `len` bytes is kept (larger than `MIN_SEGMENT_BYTES`).
    pub fn keep_segment(len: usize) -> (r: bool)
        ensures
            r == (len > MIN_SEGMENT_BYTES),
    {
        len > MIN_SEGMENT_BYTES
    }

    /// A segment was converted and saved.
    pub fn segment_written(&mut self)
        requires
            old(self).written < u64::MAX,
        ensures
            final(self).written == old(self).written + 1,
            final(self).new_segments == old(self).new_segments,
            final(self).cdn_failures == old(self).cdn_failures,
    {
        self.written = self.written + 1;
    }

    /// The outcome of the round: failed when there were new segments and
    /// every one of them failed to download (the playlist is then refreshed),
    /// otherwise the counts.
    pub fn finish(&self) -> (r: FetchOutcome)
        ensures
            self.new_segments > 0 && self.cdn_failures == self.new_segments ==> r is Failed,
            !(self.new_segments > 0 && self.cdn_failures == self.new_segments) ==> (r matches FetchOutcome::Fetched { written, cdn_failures } && written == self.written && cdn_failures == self.cdn_failures),
    {
        if self.new_segments > 0 && self.cdn_failures == self.new_segments {
            FetchOutcome::Failed
        } else {
            FetchOutcome::Fetched { written: self.written, cdn_failures: self.cdn_failures }
        }
    }
}

/// The message logged when every new segment of a round failed.
pub fn all_failed_message(new_segments: u64) -> (r: String)
    ensures
        r@ == "All "@ + decimal(new_segments as nat) + " new segments failed (CDN 404 / token expired), refreshing playlist"@,
{
    from_chars(&concat(&concat(&to_chars("All "), &decimal_chars(new_segments)), &to_chars(" new segments failed (CDN 404 / token expired), refreshing playlist")))
}

} // verus!
