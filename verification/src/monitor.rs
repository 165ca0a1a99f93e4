//! Watching streamers: when each one is polled, what its status shows, and
//! when recording starts or stops on its own.
use vstd::prelude::*;
use crate::text::{concat, decimal, decimal_chars, from_chars, strs_view, to_chars};

verus! {

/// The longest wait between two polls of a streamer that is rarely online, in seconds.
pub const SCHEDULE_MAX_SECS: u64 = 150;

/// What is known of a streamer after a poll.
#[derive(Debug, Clone)]
pub struct StreamerStatus {
    pub username: String,
    pub is_online: bool,
    pub is_recording: bool,
    pub is_recordable: bool,
    pub status: String,
    pub thumbnail_url: Option<String>,
    pub playlist_url: Option<String>,
    pub playlist_resolution: u32,
    pub playlist_prefers_higher: bool,
}

/// Whether a streamer is polled now: never when it is marked dead; always
/// while it is recorded; otherwise when its next poll time has come (or it
/// was never polled). Times are milliseconds on a monotonic clock.
pub fn should_poll(is_dead: bool, is_recording: bool, next_poll_at: Option<u64>, now: u64) -> (r: bool)
    ensures
        r == (!is_dead && (is_recording || next_poll_at is None || now >= next_poll_at->0)),
{
    if is_dead {
        return false;
    }
    if is_recording {
        return true;
    }
    match next_poll_at {
        Some(next) => now >= next,
        None => true,
    }
}

/// Whether the poll must ask for a playlist URL: when the streamer is not
/// recorded and automatic recording is on for it and globally.
pub fn need_playlist(is_recording: bool, auto_record: bool, auto_record_global: bool) -> (r: bool)
    ensures
        r == (!is_recording && auto_record && auto_record_global),
{
    !is_recording && auto_record && auto_record_global
}

/// Whether the streamer shows as recordable: while recording, what the
/// previous status said (or the poll, when there is none); otherwise what
/// the poll found.
pub fn shown_recordable(is_recording: bool, previous: Option<bool>, polled: bool) -> (r: bool)
    ensures
        r == (if is_recording { match previous { Some(p) => p, None => polled } } else { polled }),
{
    if is_recording {
        match previous {
            Some(p) => p,
            None => polled,
        }
    } else {
        polled
    }
}

/// What a poll leads to.
#[derive(Debug, Clone)]
pub struct PollDecision {
    /// Stop the running recording: the stream can no longer be recorded.
    pub stop_recording: bool,
    /// Start recording now.
    pub start_recording: bool,
}

/// What a poll leads to. Recording stops when it runs and the stream is no
/// longer recordable. Recording starts when automatic recording is on (for
/// the streamer and globally), nothing is recorded, a playlist URL was found
/// and the cached status was fetched for the current resolution settings
/// (`resolution_matches`), and any of these holds: the streamer just came
/// online, a recording dropped while it stayed online, a recording ended on
/// its own, or the stream is recordable.
pub fn decide_poll(
    is_recording: bool,
    was_online: bool,
    was_recording: bool,
    naturally_stopped: bool,
    auto_record: bool,
    auto_record_global: bool,
    is_online: bool,
    is_recordable: bool,
    has_playlist: bool,
    resolution_matches: bool,
) -> (r: PollDecision)
    ensures
        r.stop_recording == (is_recording && !is_recordable),
        r.start_recording == ((is_online && !was_online || was_recording && !is_recording && is_online
            || naturally_stopped || is_recordable && !is_recording && auto_record && auto_record_global)
            && auto_record && auto_record_global && !is_recording && has_playlist && resolution_matches),
{
    let stop = is_recording && !is_recordable;
    let dropped = was_recording && !is_recording && is_online;
    let came_online = is_online && !was_online;
    let should_be = is_recordable && !is_recording && auto_record && auto_record_global;
    let start = (came_online || dropped || naturally_stopped || should_be) && auto_record && auto_record_global
        && !is_recording && has_playlist && resolution_matches;
    PollDecision { stop_recording: stop, start_recording: start }
}

/// Whether a cached status was fetched for the current resolution settings
/// (no cached status counts as matching).
pub fn status_matches_settings(status: Option<&StreamerStatus>, preferred_resolution: u32, prefers_higher: bool) -> (r: bool)
    ensures
        r == match status {
            Some(s) => s.playlist_resolution == preferred_resolution && s.playlist_prefers_higher == prefers_higher,
            None => true,
        },
{
    match status {
        Some(s) => s.playlist_resolution == preferred_resolution && s.playlist_prefers_higher == prefers_higher,
        None => true,
    }
}

/// The cached playlist URL of a streamer, when its status was fetched for
/// the current resolution settings.
pub fn get_cached_playlist_url(status: Option<&StreamerStatus>, preferred_resolution: u32, prefers_higher: bool) -> (r: Option<String>)
    ensures
        match status {
            Some(s) => if s.playlist_resolution == preferred_resolution && s.playlist_prefers_higher == prefers_higher {
                r == s.playlist_url
            } else {
                r is None
            },
            None => r is None,
        },
{
    match status {
        Some(s) => {
            if s.playlist_resolution == preferred_resolution && s.playlist_prefers_higher == prefers_higher {
                crate::pipeline::copy_opt_string(&s.playlist_url)
            } else {
                None
            }
        },
        None => None,
    }
}

/// When a streamer is polled next, in milliseconds: `interval_secs` after
/// `now` (the base interval while it is recorded or after a failed poll).
pub fn next_poll_time(now: u64, interval_secs: u64) -> (r: u64)
    requires
        now + interval_secs * 1000 <= u64::MAX,
    ensures
        r == now + interval_secs * 1000,
{
    now + interval_secs * 1000
}

/// What happens when a streamer cannot be found any more: it is newly dead
/// (reported once) unless it was already marked.
pub fn on_user_not_found(already_dead: bool) -> (newly_dead: bool)
    ensures
        newly_dead == !already_dead,
{
    !already_dead
}

/// The text of the notice about streamers that can no longer be found.
pub fn dead_streamers_message(names: &Vec<String>) -> (r: String)
    requires
        names@.len() >= 1,
    ensures
        names@.len() == 1 ==> r@ == "Streamer "@ + names@[0]@ + " cannot be found by username or internal ID (possibly renamed, deleted, or banned). Future polls will be skipped."@,
        names@.len() > 1 ==> r@ == decimal(names@.len() as nat) + " streamers cannot be found (possibly renamed, deleted, or banned). Future polls will be skipped: "@ + joined_with_comma_space(strs_view(names@)),
{
    if names.len() == 1 {
        return from_chars(&concat(&concat(&to_chars("Streamer "), &to_chars(names[0].as_str())), &to_chars(" cannot be found by username or internal ID (possibly renamed, deleted, or banned). Future polls will be skipped.")));
    }
    let head = concat(&decimal_chars(names.len() as u64), &to_chars(" streamers cannot be found (possibly renamed, deleted, or banned). Future polls will be skipped: "));
    from_chars(&concat(&head, &to_chars(join_comma_space(names).as_str())))
}

/// The strings joined with `, `.
pub open spec fn joined_with_comma_space(parts: Seq<Seq<char>>) -> Seq<char>
    decreases parts.len(),
{
    if parts.len() == 0 {
        seq![]
    } else if parts.len() == 1 {
        parts[0]
    } else {
        joined_with_comma_space(parts.drop_last()) + ", "@ + parts.last()
    }
}

/// The strings joined with `, ` (executable).
pub fn join_comma_space(parts: &Vec<String>) -> (r: String)
    ensures
        r@ == joined_with_comma_space(strs_view(parts@)),
{
    let mut v: Vec<char> = Vec::new();
    let mut i: usize = 0;
    while i < parts.len()
        invariant
            i <= parts.len(),
            v@ == joined_with_comma_space(strs_view(parts@).take(i as int)),
        decreases parts.len() - i,
    {
        assert(strs_view(parts@).take(i + 1).drop_last() =~= strs_view(parts@).take(i as int));
        if i > 0 {
            v = concat(&v, &to_chars(", "));
        }
        v = concat(&v, &to_chars(parts[i].as_str()));
        proof {
            if i == 0 {
                assert(v@ =~= strs_view(parts@).take(1)[0]);
            }
        }
        i += 1;
    }
    assert(strs_view(parts@).take(i as int) =~= strs_view(parts@));
    from_chars(&v)
}

} // verus!
