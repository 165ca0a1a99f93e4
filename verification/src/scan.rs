//! The metadata scan: for each recording found in the output directories,
//! whether its metadata must be created, repaired or rebuilt, and whether
//! its post-processing must be started again.
//!
//! The caller walks the directories and observes each entry (its name,
//! kind, whether its metadata file exists and parses, whether it is in use);
//! the decisions are made here.
use vstd::prelude::*;
use chrono::TimeZone;
use crate::meta::{META_VERSION, VideoMeta, initial_meta};
use crate::pipeline::{ParamValue, PipelineConfig};
use crate::text::{
    all_digits, ascii_lower_seq, concat, from_chars, is_digit, split_char, split_seq, str_eq, to_chars,
    strs_view, to_ascii_lowercase, trim, trim_seq, views,
};

verus! {

// ───────────────────────── timestamps in names ─────────────────────────

/// The date and time pieces of a name `{name}_{YYYYMMDD}_{HHmmss}`: the
/// last two pieces between underscores, when there are at least two.
pub open spec fn date_time_pieces(stem: Seq<char>) -> Option<(Seq<char>, Seq<char>)> {
    let parts = split_seq(stem, '_');
    if parts.len() >= 2 {
        Some((parts[parts.len() - 2], parts[parts.len() - 1]))
    } else {
        None
    }
}

/// The date and time pieces of a name (executable).
fn date_time_pieces_exec(stem: &str) -> (r: Option<(Vec<char>, Vec<char>)>)
    ensures
        r matches Some(p) ==> date_time_pieces(stem@) == Some((p.0@, p.1@)),
        r is None ==> date_time_pieces(stem@) is None,
{
    let parts = split_char(&to_chars(stem), '_');
    let n = parts.len();
    if n >= 2 {
        assert(views(parts@)[n - 2] == parts@[n - 2]@);
        assert(views(parts@)[n - 1] == parts@[n - 1]@);
        Some((parts[n - 2].clone(), parts[n - 1].clone()))
    } else {
        None
    }
}

/// Whether every character is an ASCII digit (executable).
fn digits_only(v: &Vec<char>) -> (r: bool)
    ensures
        r == all_digits(v@),
{
    let mut i: usize = 0;
    while i < v.len()
        invariant
            i <= v.len(),
            forall|j: int| 0 <= j < i ==> is_digit(v@[j]),
        decreases v.len() - i,
    {
        if !('0' <= v[i] && v[i] <= '9') {
            return false;
        }
        i += 1;
    }
    true
}

/// The timestamp part of a segment directory name: `{YYYYMMDD}_{HHmmss}`
/// when the name ends that way, otherwise the whole name.
pub open spec fn session_stamp_spec(stem: Seq<char>) -> Seq<char> {
    match date_time_pieces(stem) {
        Some((d, t)) => if d.len() == 8 && t.len() == 6 && all_digits(d) && all_digits(t) {
            d.push('_') + t
        } else {
            stem
        },
        None => stem,
    }
}

/// The timestamp part of a segment directory name.
pub fn session_dir_timestamp_from_stem(stem: &str) -> (r: String)
    ensures
        r@ == session_stamp_spec(stem@),
{
    match date_time_pieces_exec(stem) {
        Some((d, t)) => {
            if d.len() == 8 && t.len() == 6 && digits_only(&d) && digits_only(&t) {
                let mut dd = d;
                dd.push('_');
                from_chars(&concat(&dd, &t))
            } else {
                stem.to_owned()
            }
        },
        None => stem.to_owned(),
    }
}

/// The timestamp part of a segment directory's name.
pub fn session_dir_timestamp(path: &str) -> (r: String)
    ensures
        r@ == session_stamp_spec(
            match crate::path::file_name_seq(path@) {
                Some(n) => n,
                None => seq![],
            },
        ),
{
    match crate::path::file_name(&to_chars(path)) {
        Some(n) => session_dir_timestamp_from_stem(from_chars(&n).as_str()),
        None => {
            proof {
                reveal_strlit("");
            }
            session_dir_timestamp_from_stem("")
        },
    }
}

/// `YYYYMMDD` and `HHmmss` written as `YYYY-MM-DDTHH:mm:ss`.
pub open spec fn stamp_text(date: Seq<char>, time: Seq<char>) -> Seq<char> {
    date.subrange(0, 4) + seq!['-'] + date.subrange(4, 6) + seq!['-'] + date.subrange(6, 8) + seq!['T']
        + time.subrange(0, 2) + seq![':'] + time.subrange(2, 4) + seq![':'] + time.subrange(4, 6)
}

/// For a name `{name}_{YYYYMMDD}_{HHmmss}` of ASCII digits, its date and
/// time written `YYYY-MM-DDTHH:mm:ss`.
pub open spec fn digit_stamp(stem: Seq<char>) -> Option<Seq<char>> {
    match date_time_pieces(stem) {
        Some((d, t)) => if d.len() == 8 && t.len() == 6 && all_digits(d) && all_digits(t) {
            Some(stamp_text(d, t))
        } else {
            None
        },
        None => None,
    }
}

/// The local time `{date}{time}` (`YYYYMMDD`, `HHmmss`) in RFC 3339, when it
/// is a valid time that exists once in the local time zone
/// (`NaiveDateTime::parse_from_str` with `%Y%m%d%H%M%S`,
/// `Local::from_local_datetime(..).single()`, `DateTime::to_rfc3339`).
/// Whether it exists, and the offset written after it, depend on the
/// machine's time zone and are not stated. What is stated: for fourteen
/// ASCII digits, the text begins with the local date and time that was
/// parsed, written `YYYY-MM-DDTHH:mm:ss` (`to_rfc3339` writes the local
/// date-time with four year digits for years 0 to 9999, then the offset).
#[verifier::external_body]
fn local_rfc3339(date: &str, time: &str) -> (r: Option<String>)
    ensures
        (date@.len() == 8 && time@.len() == 6 && all_digits(date@) && all_digits(time@)) ==> (r matches Some(
            s,
        ) ==> s@.len() >= 19 && s@.subrange(0, 19) == stamp_text(date@, time@)),
{
    let combined = format!("{}{}", date, time);
    let dt = chrono::NaiveDateTime::parse_from_str(&combined, "%Y%m%d%H%M%S").ok()?;
    let local = chrono::Local.from_local_datetime(&dt).single()?;
    Some(local.to_rfc3339())
}

/// Whether a name has the shape `{name}_{8 characters}_{6 characters}`
/// from which a start time is read.
pub open spec fn has_stamp_shape(stem: Seq<char>) -> bool {
    date_time_pieces(stem) matches Some((d, t)) && d.len() == 8 && t.len() == 6
}

/// The recording start time read from a name `{name}_{YYYYMMDD}_{HHmmss}`,
/// in RFC 3339 local time. `None` when the name does not have that shape;
/// otherwise what the calendar in the local time zone makes of it.
pub fn parse_timestamp_from_stem(stem: &str) -> (r: Option<String>)
    ensures
        !has_stamp_shape(stem@) ==> r is None,
        digit_stamp(stem@) matches Some(p) ==> (r matches Some(s) ==> s@.len() >= 19 && s@.subrange(0, 19) == p),
{
    match date_time_pieces_exec(stem) {
        Some((d, t)) => {
            if d.len() == 8 && t.len() == 6 {
                local_rfc3339(from_chars(&d).as_str(), from_chars(&t).as_str())
            } else {
                None
            }
        },
        None => None,
    }
}

// ───────────────────────── entries ─────────────────────────

/// What a directory entry is to the scan.
#[derive(Debug, Clone)]
pub enum EntryKind {
    /// Hidden, or a file that is not a video: left alone.
    Ignore,
    /// A video file.
    Video,
    /// A directory holding TS segments: one unmerged recording.
    SessionDir,
    /// Another directory: scanned in turn.
    Descend,
}

/// Whether an extension (ignoring ASCII case) is one of a video file.
pub open spec fn video_ext(ext: Seq<char>) -> bool {
    let l = ascii_lower_seq(ext);
    l == "mp4"@ || l == "mkv"@ || l == "ts"@ || l == "avi"@ || l == "mov"@
}

/// Whether an extension (ignoring ASCII case) is one of a video file (executable).
pub fn is_video_ext(ext: &str) -> (r: bool)
    ensures
        r == video_ext(ext@),
{
    let l = from_chars(&to_ascii_lowercase(&to_chars(ext)));
    str_eq(l.as_str(), "mp4") || str_eq(l.as_str(), "mkv") || str_eq(l.as_str(), "ts") || str_eq(
        l.as_str(),
        "avi",
    ) || str_eq(l.as_str(), "mov")
}

/// What the scan makes of an entry: `video` says whether its extension is
/// a video's.
pub open spec fn entry_kind(name: Seq<char>, is_file: bool, is_dir: bool, video: bool, has_ts: bool) -> EntryKind {
    if name.len() > 0 && name[0] == '.' {
        EntryKind::Ignore
    } else if is_file {
        if video {
            EntryKind::Video
        } else {
            EntryKind::Ignore
        }
    } else if !is_dir {
        EntryKind::Ignore
    } else if has_ts {
        EntryKind::SessionDir
    } else {
        EntryKind::Descend
    }
}

/// How the scan treats an entry with this name: names starting with `.`
/// are ignored; files count when their extension is a video's; directories
/// with TS segments (`has_ts`) are recordings, other directories are descended.
pub fn classify_entry(name: &str, is_file: bool, is_dir: bool, ext: Option<&str>, has_ts: bool) -> (r: EntryKind)
    ensures
        r == entry_kind(name@, is_file, is_dir, (match ext {
            Some(e) => video_ext(e@),
            None => false,
        }), has_ts),
        (name@.len() > 0 && name@[0] == '.') ==> r is Ignore,
        !(name@.len() > 0 && name@[0] == '.') && is_file ==> (if ext matches Some(e) && video_ext(e@) {
            r is Video
        } else {
            r is Ignore
        }),
        !(name@.len() > 0 && name@[0] == '.') && !is_file && !is_dir ==> r is Ignore,
        !(name@.len() > 0 && name@[0] == '.') && !is_file && is_dir ==> (if has_ts {
            r is SessionDir
        } else {
            r is Descend
        }),
{
    let n = to_chars(name);
    if n.len() > 0 && n[0] == '.' {
        return EntryKind::Ignore;
    }
    if is_file {
        return match ext {
            Some(e) => if is_video_ext(e) {
                EntryKind::Video
            } else {
                EntryKind::Ignore
            },
            None => EntryKind::Ignore,
        };
    }
    if !is_dir {
        return EntryKind::Ignore;
    }
    if has_ts {
        EntryKind::SessionDir
    } else {
        EntryKind::Descend
    }
}

// ───────────────────────── decisions ─────────────────────────

/// Whether a status is one of the known ones.
pub open spec fn known_status(s: Seq<char>) -> bool {
    s == "recording"@ || s == "pp_waiting"@ || s == "pp_running"@ || s == "pp_error"@ || s
        == "finish"@
}

/// Whether a status says that work is under way.
pub open spec fn busy_status(s: Seq<char>) -> bool {
    s == "recording"@ || s == "pp_waiting"@ || s == "pp_running"@
}

/// The repaired record: `None` for an unknown status; otherwise the record
/// with an empty (or blank) start time replaced by `inferred_started_at`, a
/// zero size replaced by `actual_size` when that is not zero, and a missing
/// path set to `path`.
pub open spec fn repair_spec(meta: VideoMeta, path: Seq<char>, inferred_started_at: Seq<char>, actual_size: u64) -> Option<(Seq<char>, u64, Seq<char>)> {
    if !known_status(meta.status@) {
        None
    } else {
        Some(
            (
                if trim_seq(meta.started_at@).len() == 0 {
                    inferred_started_at
                } else {
                    meta.started_at@
                },
                if meta.size_bytes == 0 && actual_size > 0 {
                    actual_size
                } else {
                    meta.size_bytes
                },
                match meta.video_path {
                    Some(p) => p@,
                    None => path,
                },
            ),
        )
    }
}

/// Whether the status is one of the known ones (executable).
fn is_known_status(s: &str) -> (r: bool)
    ensures
        r == known_status(s@),
{
    str_eq(s, "recording") || str_eq(s, "pp_waiting") || str_eq(s, "pp_running") || str_eq(
        s,
        "pp_error",
    ) || str_eq(s, "finish")
}

/// Whether the status says that work is under way (executable).
pub fn is_busy_status(s: &str) -> (r: bool)
    ensures
        r == busy_status(s@),
{
    str_eq(s, "recording") || str_eq(s, "pp_waiting") || str_eq(s, "pp_running")
}

/// Repairs a record: `None` when its status is unknown; otherwise fills a
/// blank start time, a zero size (when the recording's actual size is not
/// zero) and a missing path. Other fields are kept.
pub fn repair_meta(meta: VideoMeta, path: &str, inferred_started_at: &str, actual_size: u64) -> (r: Option<VideoMeta>)
    ensures
        repair_spec(meta, path@, inferred_started_at@, actual_size) is None ==> r is None,
        repair_spec(meta, path@, inferred_started_at@, actual_size) matches Some(t) ==> (r matches Some(m) && m.started_at@ == t.0 && m.size_bytes == t.1 && (m.video_path matches Some(p) && p@ == t.2)
            && m.meta_version == meta.meta_version && m.status == meta.status
            && m.video_duration_secs == meta.video_duration_secs
            && m.video_resolution == meta.video_resolution && m.pp_execution == meta.pp_execution
            && m.segments_downloaded == meta.segments_downloaded
            && m.segments_failed == meta.segments_failed && m.pp_progress == meta.pp_progress),
{
    if !is_known_status(meta.status.as_str()) {
        return None;
    }
    let mut m = meta;
    if trim(&to_chars(m.started_at.as_str())).len() == 0 {
        m.started_at = inferred_started_at.to_owned();
    }
    if m.size_bytes == 0 && actual_size > 0 {
        m.size_bytes = actual_size;
    }
    if m.video_path.is_none() {
        m.video_path = Some(path.to_owned());
    }
    Some(m)
}

/// What was found of an entry's metadata file.
#[derive(Debug, Clone)]
pub enum MetaState {
    /// No file.
    Missing,
    /// A file that does not parse.
    Corrupt,
    /// A parsed record.
    Present(VideoMeta),
}

/// What the scan does about an entry.
#[derive(Debug, Clone)]
pub enum ScanAction {
    /// Leave it alone.
    Skip,
    /// Write a new `pp_waiting` record and start post-processing.
    Create,
    /// Start post-processing again; the record is left as it is.
    Retrigger,
    /// Nothing to change.
    Keep,
    /// Write the repaired record.
    Write(VideoMeta),
    /// Replace the record with a new `pp_waiting` one and start post-processing.
    Rebuild,
}

/// Whether work on the entry is really under way in this process: a
/// `recording` entry whose file is locked by the recorder (`locked`), or a
/// `pp_waiting`/`pp_running` entry queued by the queue (`queued`).
pub open spec fn genuinely_active(status: Seq<char>, locked: bool, queued: bool) -> bool {
    if status == "recording"@ {
        locked
    } else if status == "pp_waiting"@ || status == "pp_running"@ {
        queued
    } else {
        false
    }
}

/// Whether `r` is the decision for a recording whose metadata is `state`
/// (see `scan_decision`).
pub open spec fn decision_spec(
    state: MetaState,
    locked: bool,
    queued: bool,
    path: Seq<char>,
    inferred_started_at: Seq<char>,
    actual_size: u64,
    r: ScanAction,
) -> bool {
    match state {
        MetaState::Missing => r is Create,
        MetaState::Corrupt => r is Rebuild,
        MetaState::Present(m) => {
            let rep = repair_spec(m, path, inferred_started_at, actual_size);
            if genuinely_active(m.status@, locked, queued) {
                r is Skip
            } else if busy_status(m.status@) {
                r is Retrigger
            } else if rep is None {
                r is Rebuild
            } else {
                let t = rep->0;
                if m.meta_version == META_VERSION && t.0 == m.started_at@ && t.1 == m.size_bytes
                    && m.video_path is Some {
                    r is Keep
                } else {
                    r matches ScanAction::Write(w) && w.started_at@ == t.0 && w.size_bytes == t.1 && (
                    w.video_path matches Some(p) && p@ == t.2) && w.status == m.status
                        && w.meta_version == m.meta_version
                }
            }
        },
    }
}

/// The decision for a recording (a video file, or a segment directory that
/// is not locked by the recorder): a missing record is created, a corrupt
/// one rebuilt; an entry busy in this process is skipped; a stale busy
/// status restarts post-processing; otherwise the record is repaired, and
/// written when its version or a repaired field changed, or rebuilt when
/// its status is unknown.
pub fn scan_decision(
    state: MetaState,
    locked: bool,
    queued: bool,
    path: &str,
    inferred_started_at: &str,
    actual_size: u64,
) -> (r: ScanAction)
    ensures
        decision_spec(state, locked, queued, path@, inferred_started_at@, actual_size, r),
{
    match state {
        MetaState::Missing => ScanAction::Create,
        MetaState::Corrupt => ScanAction::Rebuild,
        MetaState::Present(m) => {
            let status = m.status.as_str();
            let active = if str_eq(status, "recording") {
                locked
            } else if str_eq(status, "pp_waiting") || str_eq(status, "pp_running") {
                queued
            } else {
                false
            };
            if active {
                return ScanAction::Skip;
            }
            if is_busy_status(status) {
                return ScanAction::Retrigger;
            }
            let version = m.meta_version;
            let started = m.started_at.clone();
            let size = m.size_bytes;
            let had_path = m.video_path.is_some();
            match repair_meta(m, path, inferred_started_at, actual_size) {
                None => ScanAction::Rebuild,
                Some(rep) => {
                    if version == META_VERSION && str_eq(rep.started_at.as_str(), started.as_str())
                        && rep.size_bytes == size && had_path {
                        ScanAction::Keep
                    } else {
                        ScanAction::Write(rep)
                    }
                },
            }
        },
    }
}

/// Whether `m` is the fresh `pp_waiting` record of a recording started at
/// `started_at` with `size_bytes` bytes.
pub open spec fn pending_record(m: VideoMeta, started_at: Seq<char>, size_bytes: u64) -> bool {
    &&& m.meta_version == META_VERSION
    &&& m.status@ == "pp_waiting"@
    &&& m.started_at@ == started_at
    &&& m.size_bytes == size_bytes
    &&& m.video_duration_secs is None
    &&& m.video_resolution is None
    &&& m.pp_execution is None
    &&& m.segments_downloaded is None
    &&& m.segments_failed is None
    &&& m.video_path is None
    &&& m.pp_progress is None
}

/// The fresh record written for a recording that has none (or an unusable one).
pub fn pending_meta(started_at: &str, size_bytes: u64) -> (r: VideoMeta)
    ensures
        pending_record(r, started_at@, size_bytes),
{
    proof {
        reveal_strlit("pp_waiting");
    }
    initial_meta("pp_waiting", started_at, size_bytes)
}

// ───────────────────────── the scan of a directory ─────────────────────────

/// One entry of a scanned directory, with what the scan needs to know of
/// it: its metadata file, whether the recorder holds it (`locked`) or the
/// queue has it (`queued`), the start time read from its name or file time,
/// and its size (a directory's: the sum of its files).
#[derive(Debug)]
pub struct ScanEntry {
    pub path: String,
    pub name: String,
    pub is_file: bool,
    pub is_dir: bool,
    pub ext: Option<String>,
    pub has_ts: bool,
    pub meta: MetaState,
    pub locked: bool,
    pub queued: bool,
    pub inferred_started_at: String,
    pub actual_size: u64,
}

/// What the scan does with one entry: the action, and the fresh record to
/// write when the action creates or rebuilds one.
#[derive(Debug)]
pub struct ScanItem {
    pub path: String,
    pub action: ScanAction,
    pub fresh: Option<VideoMeta>,
}

/// What the scan of a directory decided: one item per entry, the
/// recordings whose post-processing starts (again), and the
/// subdirectories to scan in turn.
#[derive(Debug)]
pub struct ScanOutcome {
    pub items: Vec<ScanItem>,
    pub pending: Vec<String>,
    pub descend: Vec<String>,
}

/// The kind of an entry.
pub open spec fn kind_of(e: ScanEntry) -> EntryKind {
    entry_kind(e.name@, e.is_file, e.is_dir, (match e.ext {
        Some(x) => video_ext(x@),
        None => false,
    }), e.has_ts)
}

/// Whether `a` is the scan's action on `e`: a video, and a segment
/// directory the recorder does not hold, get `scan_decision`'s action;
/// everything else is skipped.
pub open spec fn step_spec(e: ScanEntry, a: ScanAction) -> bool {
    match kind_of(e) {
        EntryKind::Video => decision_spec(e.meta, e.locked, e.queued, e.path@, e.inferred_started_at@, e.actual_size, a),
        EntryKind::SessionDir => if e.locked {
            a is Skip
        } else {
            decision_spec(e.meta, e.locked, e.queued, e.path@, e.inferred_started_at@, e.actual_size, a)
        },
        _ => a is Skip,
    }
}

/// Whether the action writes a fresh `pp_waiting` record.
pub open spec fn writes_fresh(a: ScanAction) -> bool {
    a is Create || a is Rebuild
}

/// Whether the action starts post-processing.
pub open spec fn starts_pp(a: ScanAction) -> bool {
    a is Create || a is Rebuild || a is Retrigger
}

/// Whether `it` is the scan's item for `e`.
pub open spec fn item_spec(e: ScanEntry, it: ScanItem) -> bool {
    &&& it.path@ == e.path@
    &&& step_spec(e, it.action)
    &&& if writes_fresh(it.action) {
        it.fresh matches Some(m) && pending_record(m, e.inferred_started_at@, e.actual_size)
    } else {
        it.fresh is None
    }
}

/// The paths, in order, of the first `n` items that start post-processing.
pub open spec fn pending_spec(items: Seq<ScanItem>, n: int) -> Seq<Seq<char>>
    decreases n,
{
    if n <= 0 {
        seq![]
    } else {
        let p = pending_spec(items, n - 1);
        if starts_pp(items[n - 1].action) {
            p.push(items[n - 1].path@)
        } else {
            p
        }
    }
}

/// The paths, in order, of the subdirectories among the first `n` entries.
pub open spec fn descend_spec(entries: Seq<ScanEntry>, n: int) -> Seq<Seq<char>>
    decreases n,
{
    if n <= 0 {
        seq![]
    } else {
        let p = descend_spec(entries, n - 1);
        if kind_of(entries[n - 1]) == EntryKind::Descend {
            p.push(entries[n - 1].path@)
        } else {
            p
        }
    }
}

/// An item that starts post-processing is among the pending paths.
pub proof fn lemma_pending_has(items: Seq<ScanItem>, n: int, i: int)
    requires
        0 <= i < n <= items.len(),
        starts_pp(items[i].action),
    ensures
        pending_spec(items, n).contains(items[i].path@),
    decreases n,
{
    let p = pending_spec(items, n - 1);
    if i == n - 1 {
        assert(pending_spec(items, n) == p.push(items[i].path@));
        assert(pending_spec(items, n)[p.len() as int] == items[i].path@);
    } else {
        lemma_pending_has(items, n - 1, i);
        let k = choose|k: int| 0 <= k < p.len() && p[k] == items[i].path@;
        if starts_pp(items[n - 1].action) {
            assert(pending_spec(items, n)[k] == items[i].path@);
        }
    }
}

/// Scans the entries of one directory: each video, and each segment
/// directory the recorder does not hold, gets `scan_decision`'s action
/// (with a fresh `pp_waiting` record where one is created or rebuilt);
/// those that start post-processing are returned in order, and so are the
/// other subdirectories, to be scanned in turn. In particular a video
/// without a metadata file gets a fresh `pp_waiting` record and is returned.
pub fn scan_entries(entries: Vec<ScanEntry>) -> (r: ScanOutcome)
    ensures
        r.items@.len() == entries@.len(),
        forall|i: int| 0 <= i < entries@.len() ==> item_spec(entries@[i], #[trigger] r.items@[i]),
        strs_view(r.pending@) == pending_spec(r.items@, r.items@.len() as int),
        strs_view(r.descend@) == descend_spec(entries@, entries@.len() as int),
        forall|i: int|
            0 <= i < entries@.len() && kind_of(#[trigger] entries@[i]) == EntryKind::Video && entries@[i].meta is Missing
                ==> r.items@[i].action is Create && strs_view(r.pending@).contains(entries@[i].path@),
{
    let ghost es = entries@;
    let n = entries.len();
    let mut rev = crate::recordings::reversed(entries);
    let mut items: Vec<ScanItem> = Vec::new();
    let mut pending: Vec<String> = Vec::new();
    let mut descend: Vec<String> = Vec::new();
    let mut k: usize = 0;
    while rev.len() > 0
        invariant
            k + rev@.len() == n,
            n == es.len(),
            rev@ == es.subrange(k as int, n as int).reverse(),
            items@.len() == k,
            forall|j: int| 0 <= j < k ==> item_spec(es[j], #[trigger] items@[j]),
            strs_view(pending@) == pending_spec(items@, k as int),
            strs_view(descend@) == descend_spec(es, k as int),
        decreases rev.len(),
    {
        let e = rev.pop().unwrap();
        proof {
            assert(e == es[k as int]);
            assert(rev@ =~= es.subrange(k + 1, n as int).reverse());
        }
        let ghost eg = e;
        let ext: Option<&str> = match &e.ext {
            Some(x) => Some(x.as_str()),
            None => None,
        };
        let kind = classify_entry(e.name.as_str(), e.is_file, e.is_dir, ext, e.has_ts);
        assert(kind == kind_of(eg));
        let ghost items0 = items@;
        let is_session = matches!(kind, EntryKind::SessionDir);
        let item = match kind {
            EntryKind::Descend => {
                descend.push(e.path.clone());
                ScanItem { path: e.path, action: ScanAction::Skip, fresh: None }
            },
            EntryKind::Ignore => ScanItem { path: e.path, action: ScanAction::Skip, fresh: None },
            _ => {
                if e.locked && is_session {
                    ScanItem { path: e.path, action: ScanAction::Skip, fresh: None }
                } else {
                    let ScanEntry { path, meta, locked, queued, inferred_started_at, actual_size, .. } = e;
                    let action = scan_decision(meta, locked, queued, path.as_str(), inferred_started_at.as_str(), actual_size);
                    let fresh = match &action {
                        ScanAction::Create => Some(pending_meta(inferred_started_at.as_str(), actual_size)),
                        ScanAction::Rebuild => Some(pending_meta(inferred_started_at.as_str(), actual_size)),
                        _ => None,
                    };
                    let starts = match &action {
                        ScanAction::Create => true,
                        ScanAction::Rebuild => true,
                        ScanAction::Retrigger => true,
                        _ => false,
                    };
                    if starts {
                        pending.push(path.clone());
                    }
                    ScanItem { path, action, fresh }
                }
            },
        };
        assert(item_spec(eg, item));
        items.push(item);
        proof {
            assert(items@.drop_last() =~= items0);
            assert forall|j: int| 0 <= j < k implies pending_spec(items@, j) == pending_spec(items0, j) by {
                lemma_pending_prefix(items@, items0, j);
            }
            lemma_pending_prefix(items@, items0, k as int);
        }
        k += 1;
        assert(strs_view(pending@) =~= pending_spec(items@, k as int));
        assert(strs_view(descend@) =~= descend_spec(es, k as int));
    }
    assert(es.subrange(k as int, n as int).len() == 0);
    let r = ScanOutcome { items, pending, descend };
    proof {
        assert forall|i: int|
            0 <= i < es.len() && kind_of(#[trigger] es[i]) == EntryKind::Video && es[i].meta is Missing
                implies r.items@[i].action is Create && strs_view(r.pending@).contains(es[i].path@) by {
            assert(item_spec(es[i], r.items@[i]));
            lemma_pending_has(r.items@, n as int, i);
        }
    }
    r
}

/// The pending paths of the first `n` items depend on those items alone.
pub proof fn lemma_pending_prefix(a: Seq<ScanItem>, b: Seq<ScanItem>, n: int)
    requires
        0 <= n <= b.len(),
        b.len() <= a.len(),
        forall|j: int| 0 <= j < b.len() ==> a[j] == b[j],
    ensures
        pending_spec(a, n) == pending_spec(b, n),
    decreases n,
{
    if n > 0 {
        lemma_pending_prefix(a, b, n - 1);
    }
}

/// The output directory set on the first enabled `ts_merge` node, trimmed;
/// `None` when there is no such node, its `output_dir` is missing or not a
/// string, or it is blank.
pub open spec fn ts_merge_dir_spec(nodes: Seq<crate::pipeline::PipelineNode>) -> Option<Seq<char>>
    decreases nodes.len(),
{
    if nodes.len() == 0 {
        None
    } else if nodes[0].module_id@ == "ts_merge"@ && nodes[0].enabled {
        match crate::assoc::get_spec(nodes[0].params@, "output_dir"@) {
            Some(ParamValue::Text(s)) => if trim_seq(s@).len() == 0 {
                None
            } else {
                Some(trim_seq(s@))
            },
            _ => None,
        }
    } else {
        ts_merge_dir_spec(nodes.drop_first())
    }
}

/// The output directory of segment merging, when the pipeline sets one.
pub fn ts_merge_output_dir(pipeline: &PipelineConfig) -> (r: Option<String>)
    ensures
        r matches Some(d) ==> ts_merge_dir_spec(pipeline.nodes@) == Some(d@),
        r is None ==> ts_merge_dir_spec(pipeline.nodes@) is None,
{
    let mut i: usize = 0;
    assert(pipeline.nodes@.skip(0) =~= pipeline.nodes@);
    while i < pipeline.nodes.len()
        invariant
            i <= pipeline.nodes.len(),
            ts_merge_dir_spec(pipeline.nodes@) == ts_merge_dir_spec(pipeline.nodes@.skip(i as int)),
        decreases pipeline.nodes.len() - i,
    {
        let n = &pipeline.nodes[i];
        assert(pipeline.nodes@.skip(i as int)[0] == pipeline.nodes@[i as int]);
        assert(pipeline.nodes@.skip(i as int).drop_first() =~= pipeline.nodes@.skip(i + 1));
        if str_eq(n.module_id.as_str(), "ts_merge") && n.enabled {
            proof {
                crate::assoc::lemma_key_index(n.params@, "output_dir"@);
            }
            return match crate::assoc::find_key(&n.params, "output_dir") {
                Some(k) => match &n.params[k].1 {
                    ParamValue::Text(s) => {
                        let t = trim(&to_chars(s.as_str()));
                        if t.len() == 0 {
                            None
                        } else {
                            Some(from_chars(&t))
                        }
                    },
                    ParamValue::Json(_) => None,
                },
                None => None,
            };
        }
        i += 1;
    }
    assert(pipeline.nodes@.skip(i as int) =~= Seq::<crate::pipeline::PipelineNode>::empty());
    None
}

/// The directories whose recordings get their metadata ensured, in
/// order: the output directory when it exists, then each extra directory
/// (`(path, exists)`) that exists and is not the output directory (compared
/// as texts without trailing separators).
pub fn ensure_meta_files(output_dir: &str, output_exists: bool, extra_dirs: &Vec<(String, bool)>) -> (r: Vec<String>)
    ensures
        strs_view(r@) == scan_dirs_spec(output_dir@, output_exists, extra_dirs@, extra_dirs@.len() as int),
{
    let mut r: Vec<String> = Vec::new();
    if output_exists {
        r.push(output_dir.to_owned());
    }
    let out = crate::path::trim_end_separators(&to_chars(output_dir));
    let mut i: usize = 0;
    while i < extra_dirs.len()
        invariant
            i <= extra_dirs@.len(),
            out@ == crate::path::trim_end_seps(output_dir@),
            strs_view(r@) == scan_dirs_spec(output_dir@, output_exists, extra_dirs@, i as int),
        decreases extra_dirs.len() - i,
    {
        let d = &extra_dirs[i];
        let same = crate::text::chars_eq(&crate::path::trim_end_separators(&to_chars(d.0.as_str())), &out);
        if d.1 && !same {
            r.push(d.0.clone());
        }
        i += 1;
        assert(strs_view(r@) =~= scan_dirs_spec(output_dir@, output_exists, extra_dirs@, i as int));
    }
    r
}

/// The directories scanned among the output directory and the first `n` extra ones.
pub open spec fn scan_dirs_spec(output_dir: Seq<char>, output_exists: bool, extra: Seq<(String, bool)>, n: int) -> Seq<Seq<char>>
    decreases n,
{
    if n <= 0 {
        if output_exists { seq![output_dir] } else { seq![] }
    } else {
        let p = scan_dirs_spec(output_dir, output_exists, extra, n - 1);
        let d = extra[n - 1];
        if d.1 && crate::path::trim_end_seps(d.0@) != crate::path::trim_end_seps(output_dir) {
            p.push(d.0@)
        } else {
            p
        }
    }
}

/// Whether a recording's metadata says work was under way that this
/// process is not doing: `recording` while the recorder does not hold it,
/// or `pp_waiting`/`pp_running` while the queue does not have it.
pub open spec fn left_unfinished(m: VideoMeta, locked: bool, queued: bool) -> bool {
    ||| (m.status@ == "recording"@ && !locked)
    ||| ((m.status@ == "pp_waiting"@ || m.status@ == "pp_running"@) && !queued)
}

/// Work an earlier run left unfinished is started again: a video, or a
/// segment directory the recorder does not hold, whose metadata says it
/// was recording, waiting for or in post-processing while nothing in this
/// process is doing so, has its post-processing started again (its record
/// is left as it is), and its path is among those the scan returns.
pub proof fn law_unfinished_work_restarts(entries: Seq<ScanEntry>, items: Seq<ScanItem>, i: int)
    requires
        items.len() == entries.len(),
        forall|j: int| 0 <= j < entries.len() ==> item_spec(entries[j], #[trigger] items[j]),
        0 <= i < entries.len(),
        kind_of(entries[i]) == EntryKind::Video || (kind_of(entries[i]) == EntryKind::SessionDir && !entries[i].locked),
        entries[i].meta matches MetaState::Present(m) && left_unfinished(m, entries[i].locked, entries[i].queued),
    ensures
        items[i].action is Retrigger,
        starts_pp(items[i].action),
        pending_spec(items, items.len() as int).contains(entries[i].path@),
{
    let e = entries[i];
    let it = items[i];
    assert(item_spec(e, it));
    let m = e.meta->0;
    reveal_strlit("recording");
    reveal_strlit("pp_waiting");
    reveal_strlit("pp_running");
    assert("pp_waiting"@ != "recording"@) by {
        assert("pp_waiting"@[0] != "recording"@[0]);
    }
    assert("pp_running"@ != "recording"@) by {
        assert("pp_running"@[0] != "recording"@[0]);
    }
    assert(!genuinely_active(m.status@, e.locked, e.queued));
    assert(busy_status(m.status@));
    assert(step_spec(e, it.action));
    assert(decision_spec(e.meta, e.locked, e.queued, e.path@, e.inferred_started_at@, e.actual_size, it.action));
    assert(it.action is Retrigger);
    lemma_pending_has(items, items.len() as int, i);
}

} // verus!
