//! Per-recording metadata: the record kept beside each recording, where it
//! lives, and the field-level updates applied to it while a recording is
//! post-processed.
//!
//! Reading and writing the JSON file is left to the caller; every function
//! here takes the record or the paths as values.
use vstd::prelude::*;
use crate::text::{ascii_lower_seq, concat, ends_with, from_chars, has_suffix, to_ascii_lowercase,
    to_chars};
use crate::path::{file_name, file_name_seq, file_stem, file_stem_seq, join, join_seq_path, parent,
    parent_seq};

verus! {

/// Current metadata format version.
pub const META_VERSION: u32 = 4;

/// Result code of a post-processing step.
///
/// - `Okay`      — succeeded, with outputs for the following nodes
/// - `Done`      — succeeded without output (the flow ends here)
/// - `Skipped`   — the node was disabled or chose to skip
/// - `Error`     — failed
/// - `Cancelled` — cancelled by the user
#[derive(Debug, Clone, Copy, PartialEq, Eq, Structural)]
pub enum PpExecCode {
    Okay,
    Done,
    Skipped,
    Error,
    Cancelled,
}

impl PpExecCode {
    /// Whether the code counts as a success (`Okay`, `Done` or `Skipped`).
    pub open spec fn spec_is_success(self) -> bool {
        self is Okay || self is Done || self is Skipped
    }

    /// Whether the code counts as a success (`Okay`, `Done` or `Skipped`).
    pub fn is_success(&self) -> (r: bool)
        ensures
            r == self.spec_is_success(),
    {
        match self {
            PpExecCode::Okay | PpExecCode::Done | PpExecCode::Skipped => true,
            _ => false,
        }
    }
}

/// Result of one post-processing step.
#[derive(Debug, Clone)]
pub struct PpExecResult {
    pub code: PpExecCode,
    pub message: Option<String>,
}

/// Result of a post-processing module.
#[derive(Debug, Clone)]
pub struct PpModuleResult {
    pub module_id: String,
    pub success: bool,
    pub message: String,
}

/// Execution record of one node of the post-processing pipeline.
///
/// `inputs` and `outputs` are grouped by port: the outer index is the port,
/// the inner vector the paths carried on that port (a media bundle carries two).
#[derive(Debug, Clone)]
pub struct PpExecutionEntry {
    pub module_id: String,
    pub node_id: Option<String>,
    pub started_at: String,
    pub finished_at: Option<String>,
    pub result: Option<PpExecResult>,
    pub inputs: Vec<Vec<String>>,
    pub outputs: Vec<Vec<String>>,
    pub config_fingerprint: String,
}

/// The identifier that a node id or, failing one, a module id gives.
pub open spec fn effective_id_of(node_id: Option<String>, module_id: String) -> Seq<char> {
    match node_id {
        Some(n) => n@,
        None => module_id@,
    }
}

impl PpExecutionEntry {
    /// The node id when present, otherwise the module id.
    pub open spec fn eid(&self) -> Seq<char> {
        effective_id_of(self.node_id, self.module_id)
    }

    /// Whether the recorded result is a success.
    pub open spec fn succeeded(&self) -> bool {
        self.result matches Some(r) && r.code.spec_is_success()
    }

    /// The node id when present, otherwise the module id.
    pub fn effective_id(&self) -> (r: &str)
        ensures
            r@ == self.eid(),
    {
        match &self.node_id {
            Some(n) => n.as_str(),
            None => self.module_id.as_str(),
        }
    }
}

/// Progress of the node that is running now.
#[derive(Debug, Clone)]
pub struct PpNodeProgress {
    pub module_id: String,
    pub node_id: Option<String>,
    pub mod_done: u32,
}

impl PpNodeProgress {
    /// The node id when present, otherwise the module id.
    pub open spec fn eid(&self) -> Seq<char> {
        effective_id_of(self.node_id, self.module_id)
    }

    /// The node id when present, otherwise the module id.
    pub fn effective_id(&self) -> (r: &str)
        ensures
            r@ == self.eid(),
    {
        match &self.node_id {
            Some(n) => n.as_str(),
            None => self.module_id.as_str(),
        }
    }
}

/// Metadata of one recording.
///
/// `status` is one of `recording`, `pp_waiting`, `pp_running`, `pp_error`, `finish`.
#[derive(Debug, Clone)]
pub struct VideoMeta {
    pub meta_version: u32,
    pub status: String,
    pub started_at: String,
    pub size_bytes: u64,
    pub video_duration_secs: Option<u64>,
    pub video_resolution: Option<String>,
    pub pp_execution: Option<Vec<PpExecutionEntry>>,
    pub segments_downloaded: Option<u64>,
    pub segments_failed: Option<u64>,
    pub video_path: Option<String>,
    pub pp_progress: Option<PpNodeProgress>,
}

// ───────────────────────── paths ─────────────────────────

/// `"meta"`.
pub open spec fn meta_word() -> Seq<char> {
    seq!['m', 'e', 't', 'a']
}

/// `"unknown"`.
pub open spec fn unknown_word() -> Seq<char> {
    seq!['u', 'n', 'k', 'n', 'o', 'w', 'n']
}

/// `".json"`.
pub open spec fn json_suffix() -> Seq<char> {
    seq!['.', 'j', 's', 'o', 'n']
}

/// The streamer a recording belongs to: the name of the directory that
/// directly holds it, or `unknown` when there is none.
pub open spec fn username_of(video_path: Seq<char>) -> Seq<char> {
    match parent_seq(video_path) {
        Some(p) => match file_name_seq(p) {
            Some(n) => n,
            None => unknown_word(),
        },
        None => unknown_word(),
    }
}

/// The metadata root below the program directory: `{exe_dir}/meta`.
pub fn meta_dir(exe_dir: &str) -> (r: String)
    ensures
        r@ == join_seq_path(exe_dir@, meta_word()),
{
    let m = to_chars("meta");
    proof {
        reveal_strlit("meta");
    }
    from_chars(&join(&to_chars(exe_dir), &m))
}

/// The metadata directory of one streamer: `{exe_dir}/meta/{username}`.
pub fn meta_dir_for(exe_dir: &str, username: &str) -> (r: String)
    ensures
        r@ == join_seq_path(join_seq_path(exe_dir@, meta_word()), username@),
{
    let d = meta_dir(exe_dir);
    from_chars(&join(&to_chars(d.as_str()), &to_chars(username)))
}

/// The streamer a recording belongs to, inferred from its path.
pub fn username_from_path(video_path: &str) -> (r: String)
    ensures
        r@ == username_of(video_path@),
{
    proof {
        reveal_strlit("unknown");
    }
    let v = to_chars(video_path);
    match parent(&v) {
        Some(p) => match file_name(&p) {
            Some(n) => from_chars(&n),
            None => String::from_str("unknown"),
        },
        None => String::from_str("unknown"),
    }
}

/// Where the metadata of a recording is kept: `{exe_dir}/meta/{username}/{stem}.json`.
pub open spec fn meta_path_spec(exe_dir: Seq<char>, video_path: Seq<char>) -> Option<Seq<char>> {
    match file_stem_seq(video_path) {
        Some(stem) => Some(
            join_seq_path(
                join_seq_path(join_seq_path(exe_dir, meta_word()), username_of(video_path)),
                stem + json_suffix(),
            ),
        ),
        None => None,
    }
}

/// Where the metadata of a recording is kept; `None` when the path has no file name.
pub fn meta_path_for(exe_dir: &str, video_path: &str) -> (r: Option<String>)
    ensures
        r matches Some(p) ==> meta_path_spec(exe_dir@, video_path@) == Some(p@),
        r is None ==> meta_path_spec(exe_dir@, video_path@) is None,
{
    proof {
        reveal_strlit(".json");
    }
    let v = to_chars(video_path);
    match file_stem(&v) {
        Some(stem) => {
            let user = username_from_path(video_path);
            let dir = meta_dir_for(exe_dir, user.as_str());
            let name = concat(&stem, &to_chars(".json"));
            Some(from_chars(&join(&to_chars(dir.as_str()), &name)))
        },
        None => None,
    }
}

} // verus!

verus! {

// ───────────────────────── record updates ─────────────────────────

/// A new record for a recording whose metadata file is missing.
pub fn initial_meta(status: &str, started_at: &str, size_bytes: u64) -> (r: VideoMeta)
    ensures
        r.meta_version == META_VERSION,
        r.status@ == status@,
        r.started_at@ == started_at@,
        r.size_bytes == size_bytes,
        r.video_duration_secs is None,
        r.video_resolution is None,
        r.pp_execution is None,
        r.segments_downloaded is None,
        r.segments_failed is None,
        r.video_path is None,
        r.pp_progress is None,
{
    VideoMeta {
        meta_version: META_VERSION,
        status: status.to_owned(),
        started_at: started_at.to_owned(),
        size_bytes,
        video_duration_secs: None,
        video_resolution: None,
        pp_execution: None,
        segments_downloaded: None,
        segments_failed: None,
        video_path: None,
        pp_progress: None,
    }
}

/// What is done to a record just before it is written: the format version is
/// set to the current one, and the recording's path is filled in when unset.
pub fn prepare_for_write(meta: &mut VideoMeta, video_path: &str)
    ensures
        final(meta).meta_version == META_VERSION,
        old(meta).video_path is None ==> (final(meta).video_path matches Some(p) && p@ == video_path@),
        old(meta).video_path is Some ==> final(meta).video_path == old(meta).video_path,
        final(meta).status == old(meta).status,
        final(meta).started_at == old(meta).started_at,
        final(meta).size_bytes == old(meta).size_bytes,
        final(meta).video_duration_secs == old(meta).video_duration_secs,
        final(meta).video_resolution == old(meta).video_resolution,
        final(meta).pp_execution == old(meta).pp_execution,
        final(meta).segments_downloaded == old(meta).segments_downloaded,
        final(meta).segments_failed == old(meta).segments_failed,
        final(meta).pp_progress == old(meta).pp_progress,
{
    meta.meta_version = META_VERSION;
    if meta.video_path.is_none() {
        meta.video_path = Some(video_path.to_owned());
    }
}

/// Sets the status, leaving every other field as it was.
pub fn set_status(meta: &mut VideoMeta, status: &str)
    ensures
        final(meta).status@ == status@,
        final(meta).meta_version == old(meta).meta_version,
        final(meta).started_at == old(meta).started_at,
        final(meta).size_bytes == old(meta).size_bytes,
        final(meta).video_duration_secs == old(meta).video_duration_secs,
        final(meta).video_resolution == old(meta).video_resolution,
        final(meta).pp_execution == old(meta).pp_execution,
        final(meta).segments_downloaded == old(meta).segments_downloaded,
        final(meta).segments_failed == old(meta).segments_failed,
        final(meta).video_path == old(meta).video_path,
        final(meta).pp_progress == old(meta).pp_progress,
{
    meta.status = status.to_owned();
}

/// Records the segment counts of a finished recording.
pub fn set_segment_stats(meta: &mut VideoMeta, downloaded: u64, failed: u64)
    ensures
        final(meta).segments_downloaded == Some(downloaded),
        final(meta).segments_failed == Some(failed),
        final(meta).meta_version == old(meta).meta_version,
        final(meta).status == old(meta).status,
        final(meta).started_at == old(meta).started_at,
        final(meta).size_bytes == old(meta).size_bytes,
        final(meta).video_duration_secs == old(meta).video_duration_secs,
        final(meta).video_resolution == old(meta).video_resolution,
        final(meta).pp_execution == old(meta).pp_execution,
        final(meta).video_path == old(meta).video_path,
        final(meta).pp_progress == old(meta).pp_progress,
{
    meta.segments_downloaded = Some(downloaded);
    meta.segments_failed = Some(failed);
}

/// Records the end of post-processing: the final status, and the execution
/// records when there are any (an empty list leaves the old ones).
pub fn set_pp_done(meta: &mut VideoMeta, status: &str, pp_execution: Vec<PpExecutionEntry>)
    ensures
        final(meta).status@ == status@,
        pp_execution@.len() > 0 ==> final(meta).pp_execution == Some(pp_execution),
        pp_execution@.len() == 0 ==> final(meta).pp_execution == old(meta).pp_execution,
        final(meta).meta_version == old(meta).meta_version,
        final(meta).started_at == old(meta).started_at,
        final(meta).size_bytes == old(meta).size_bytes,
        final(meta).video_duration_secs == old(meta).video_duration_secs,
        final(meta).video_resolution == old(meta).video_resolution,
        final(meta).segments_downloaded == old(meta).segments_downloaded,
        final(meta).segments_failed == old(meta).segments_failed,
        final(meta).video_path == old(meta).video_path,
        final(meta).pp_progress == old(meta).pp_progress,
{
    meta.status = status.to_owned();
    if pp_execution.len() > 0 {
        meta.pp_execution = Some(pp_execution);
    }
}

/// Records the progress of the running node. A progress of 0 keeps the
/// count that was recorded before, so that a restarted count does not show as
/// "waiting".
pub fn set_pp_progress(meta: &mut VideoMeta, progress: PpNodeProgress)
    ensures
        final(meta).pp_progress matches Some(p) && p.module_id == progress.module_id
            && p.node_id == progress.node_id && p.mod_done == (if progress.mod_done == 0
            && old(meta).pp_progress is Some {
            old(meta).pp_progress->0.mod_done
        } else {
            progress.mod_done
        }),
        final(meta).meta_version == old(meta).meta_version,
        final(meta).status == old(meta).status,
        final(meta).started_at == old(meta).started_at,
        final(meta).size_bytes == old(meta).size_bytes,
        final(meta).video_duration_secs == old(meta).video_duration_secs,
        final(meta).video_resolution == old(meta).video_resolution,
        final(meta).pp_execution == old(meta).pp_execution,
        final(meta).segments_downloaded == old(meta).segments_downloaded,
        final(meta).segments_failed == old(meta).segments_failed,
        final(meta).video_path == old(meta).video_path,
{
    let mut progress = progress;
    if progress.mod_done == 0 {
        match &meta.pp_progress {
            Some(prev) => {
                progress.mod_done = prev.mod_done;
            },
            None => {},
        }
    }
    meta.pp_progress = Some(progress);
}

/// Clears the progress of the running node; returns whether there was one
/// (when there was none the record need not be written again).
pub fn clear_pp_progress(meta: &mut VideoMeta) -> (changed: bool)
    ensures
        changed == old(meta).pp_progress is Some,
        final(meta).pp_progress is None,
        final(meta).meta_version == old(meta).meta_version,
        final(meta).status == old(meta).status,
        final(meta).started_at == old(meta).started_at,
        final(meta).size_bytes == old(meta).size_bytes,
        final(meta).video_duration_secs == old(meta).video_duration_secs,
        final(meta).video_resolution == old(meta).video_resolution,
        final(meta).pp_execution == old(meta).pp_execution,
        final(meta).segments_downloaded == old(meta).segments_downloaded,
        final(meta).segments_failed == old(meta).segments_failed,
        final(meta).video_path == old(meta).video_path,
{
    if meta.pp_progress.is_none() {
        return false;
    }
    meta.pp_progress = None;
    true
}

/// The execution records of a record, empty when it has none.
pub open spec fn entries_of(meta: VideoMeta) -> Seq<PpExecutionEntry> {
    match meta.pp_execution {
        Some(v) => v@,
        None => seq![],
    }
}

/// Appends the record of a node that has just started.
pub fn pp_execution_start(meta: &mut VideoMeta, entry: PpExecutionEntry)
    ensures
        final(meta).pp_execution is Some,
        entries_of(*final(meta)) == entries_of(*old(meta)).push(entry),
        final(meta).meta_version == old(meta).meta_version,
        final(meta).status == old(meta).status,
        final(meta).started_at == old(meta).started_at,
        final(meta).size_bytes == old(meta).size_bytes,
        final(meta).video_duration_secs == old(meta).video_duration_secs,
        final(meta).video_resolution == old(meta).video_resolution,
        final(meta).segments_downloaded == old(meta).segments_downloaded,
        final(meta).segments_failed == old(meta).segments_failed,
        final(meta).video_path == old(meta).video_path,
        final(meta).pp_progress == old(meta).pp_progress,
{
    let mut entries = match meta.pp_execution.take() {
        Some(v) => v,
        None => Vec::new(),
    };
    entries.push(entry);
    meta.pp_execution = Some(entries);
}

/// Index of the last record whose effective id is `id`, or -1.
pub open spec fn last_entry_with(entries: Seq<PpExecutionEntry>, id: Seq<char>) -> int
    decreases entries.len(),
{
    if entries.len() == 0 {
        -1
    } else if entries.last().eid() == id {
        entries.len() - 1
    } else {
        last_entry_with(entries.drop_last(), id)
    }
}

/// `last_entry_with` is the greatest index whose record has the id, or -1.
pub proof fn lemma_last_entry_with(entries: Seq<PpExecutionEntry>, id: Seq<char>)
    ensures
        -1 <= last_entry_with(entries, id) < entries.len(),
        last_entry_with(entries, id) >= 0 ==> entries[last_entry_with(entries, id)].eid() == id,
        forall|j: int|
            last_entry_with(entries, id) < j < entries.len() ==> #[trigger] entries[j].eid() != id,
    decreases entries.len(),
{
    if entries.len() > 0 {
        lemma_last_entry_with(entries.drop_last(), id);
        assert forall|j: int| 0 <= j < entries.len() - 1 implies #[trigger] entries[j]
            == entries.drop_last()[j] by {}
    }
}

/// The record `e` completed with its finishing time, result and outputs.
pub open spec fn finished_entry(
    e: PpExecutionEntry,
    finished_at: String,
    result: PpExecResult,
    outputs: Vec<Vec<String>>,
) -> PpExecutionEntry {
    PpExecutionEntry {
        finished_at: Some(finished_at),
        result: Some(result),
        outputs: outputs,
        ..e
    }
}

/// Completes the last record whose effective id is `effective_id`; records
/// are left as they are when there is none.
pub fn pp_execution_finish(
    meta: &mut VideoMeta,
    effective_id: &str,
    finished_at: String,
    result: PpExecResult,
    outputs: Vec<Vec<String>>,
)
    ensures
        old(meta).pp_execution is None ==> final(meta).pp_execution is None,
        old(meta).pp_execution is Some ==> final(meta).pp_execution is Some,
        ({
            let es = entries_of(*old(meta));
            let i = last_entry_with(es, effective_id@);
            &&& i < 0 ==> entries_of(*final(meta)) == es
            &&& i >= 0 ==> entries_of(*final(meta)) == es.update(
                i,
                finished_entry(es[i], finished_at, result, outputs),
            )
        }),
        final(meta).meta_version == old(meta).meta_version,
        final(meta).status == old(meta).status,
        final(meta).started_at == old(meta).started_at,
        final(meta).size_bytes == old(meta).size_bytes,
        final(meta).video_duration_secs == old(meta).video_duration_secs,
        final(meta).video_resolution == old(meta).video_resolution,
        final(meta).segments_downloaded == old(meta).segments_downloaded,
        final(meta).segments_failed == old(meta).segments_failed,
        final(meta).video_path == old(meta).video_path,
        final(meta).pp_progress == old(meta).pp_progress,
{
    let mut entries = match meta.pp_execution.take() {
        Some(v) => v,
        None => {
            return;
        },
    };
    let ghost es = entries@;
    proof {
        lemma_last_entry_with(es, effective_id@);
    }
    let mut i: usize = entries.len();
    let mut found = false;
    while i > 0
        invariant
            i <= entries.len(),
            entries@ == es,
            -1 <= last_entry_with(es, effective_id@) < es.len(),
            last_entry_with(es, effective_id@) >= 0 ==> es[last_entry_with(es, effective_id@)].eid()
                == effective_id@,
            forall|j: int|
                last_entry_with(es, effective_id@) < j < es.len() ==> #[trigger] es[j].eid()
                    != effective_id@,
            !found ==> last_entry_with(es, effective_id@) < i as int,
            found ==> i > 0 && last_entry_with(es, effective_id@) == i - 1,
        ensures
            entries@ == es,
            found ==> i > 0 && last_entry_with(es, effective_id@) == i - 1,
            !found ==> last_entry_with(es, effective_id@) < 0,
        decreases i,
    {
        if crate::text::str_eq(entries[i - 1].effective_id(), effective_id) {
            found = true;
            break;
        }
        i -= 1;
    }
    if found {
        let mut e = entries.remove(i - 1);
        e.finished_at = Some(finished_at);
        e.result = Some(result);
        e.outputs = outputs;
        entries.insert(i - 1, e);
        assert(entries@ =~= es.update(
            i - 1,
            finished_entry(es[i - 1], finished_at, result, outputs),
        ));
    }
    meta.pp_execution = Some(entries);
}

} // verus!

verus! {

// ───────────────────────── module outputs ─────────────────────────

/// Whether a path ends, ignoring ASCII case, in `.mp4`, `.mkv`, `.ts`, `.avi` or `.mov`.
pub open spec fn is_video_path(p: Seq<char>) -> bool {
    let l = ascii_lower_seq(p);
    ||| has_suffix(l, seq!['.', 'm', 'p', '4'])
    ||| has_suffix(l, seq!['.', 'm', 'k', 'v'])
    ||| has_suffix(l, seq!['.', 't', 's'])
    ||| has_suffix(l, seq!['.', 'a', 'v', 'i'])
    ||| has_suffix(l, seq!['.', 'm', 'o', 'v'])
}

/// Whether a path names a video file by its extension (executable).
pub fn is_video_path_exec(p: &str) -> (r: bool)
    ensures
        r == is_video_path(p@),
{
    let l = to_ascii_lowercase(&to_chars(p));
    proof {
        reveal_strlit(".mp4");
        reveal_strlit(".mkv");
        reveal_strlit(".ts");
        reveal_strlit(".avi");
        reveal_strlit(".mov");
        assert(".mp4"@ =~= seq!['.', 'm', 'p', '4']);
        assert(".mkv"@ =~= seq!['.', 'm', 'k', 'v']);
        assert(".ts"@ =~= seq!['.', 't', 's']);
        assert(".avi"@ =~= seq!['.', 'a', 'v', 'i']);
        assert(".mov"@ =~= seq!['.', 'm', 'o', 'v']);
    }
    let e1 = ends_with(&l, &to_chars(".mp4"));
    let e2 = ends_with(&l, &to_chars(".mkv"));
    let e3 = ends_with(&l, &to_chars(".ts"));
    let e4 = ends_with(&l, &to_chars(".avi"));
    let e5 = ends_with(&l, &to_chars(".mov"));
    e1 || e2 || e3 || e4 || e5
}

/// All paths of a port-grouped list, port after port.
pub open spec fn flat_paths(ports: Seq<Vec<String>>) -> Seq<String>
    decreases ports.len(),
{
    if ports.len() == 0 {
        seq![]
    } else {
        flat_paths(ports.drop_last()) + ports.last()@
    }
}

/// The first path of `ps` that does not name a video file.
pub open spec fn first_non_video(ps: Seq<String>) -> Option<String>
    decreases ps.len(),
{
    if ps.len() == 0 {
        None
    } else if !is_video_path(ps[0]@) {
        Some(ps[0])
    } else {
        first_non_video(ps.drop_first())
    }
}

/// The output of a node that may be shown as its preview: for a node whose
/// result is `Okay`, its first output that is not a video file.
pub open spec fn preview_candidate(e: PpExecutionEntry) -> Option<String> {
    if e.result matches Some(r) && r.code is Okay {
        first_non_video(flat_paths(e.outputs@))
    } else {
        None
    }
}

/// Flattening distributes over concatenation.
proof fn lemma_flat_concat(a: Seq<Vec<String>>, b: Seq<Vec<String>>)
    ensures
        flat_paths(a + b) == flat_paths(a) + flat_paths(b),
    decreases b.len(),
{
    if b.len() == 0 {
        assert(a + b =~= a);
        assert(flat_paths(a) + flat_paths(b) =~= flat_paths(a));
    } else {
        lemma_flat_concat(a, b.drop_last());
        assert((a + b).drop_last() =~= a + b.drop_last());
        assert((a + b).last() == b.last());
        assert(flat_paths(a) + flat_paths(b) =~= flat_paths(a) + flat_paths(b.drop_last())
            + b.last()@);
    }
}

/// The first non-video path of a concatenation.
proof fn lemma_fnv_concat(a: Seq<String>, b: Seq<String>)
    ensures
        first_non_video(a + b) == (if first_non_video(a) is Some {
            first_non_video(a)
        } else {
            first_non_video(b)
        }),
    decreases a.len(),
{
    if a.len() == 0 {
        assert(a + b =~= b);
    } else {
        lemma_fnv_concat(a.drop_first(), b);
        assert((a + b)[0] == a[0]);
        assert((a + b).drop_first() =~= a.drop_first() + b);
    }
}

/// When the first `j` paths are videos, the first non-video path is the
/// `j`-th one if it is not a video, and there is none when `j` is the length.
proof fn lemma_fnv_index(ps: Seq<String>, j: int)
    requires
        0 <= j <= ps.len(),
        forall|k: int| 0 <= k < j ==> is_video_path(#[trigger] ps[k]@),
    ensures
        j < ps.len() && !is_video_path(ps[j]@) ==> first_non_video(ps) == Some(ps[j]),
        j == ps.len() ==> first_non_video(ps) is None,
    decreases j,
{
    if j > 0 {
        let t = ps.drop_first();
        assert forall|k: int| 0 <= k < j - 1 implies is_video_path(#[trigger] t[k]@) by {
            assert(t[k] == ps[k + 1]);
        }
        lemma_fnv_index(t, j - 1);
        assert(is_video_path(ps[0]@));
    }
}

/// The first path in `outputs` that does not name a video file.
fn first_non_video_exec(outputs: &Vec<Vec<String>>) -> (r: Option<String>)
    ensures
        r matches Some(p) ==> first_non_video(flat_paths(outputs@)) == Some(p),
        r is None ==> first_non_video(flat_paths(outputs@)) is None,
{
    let mut i: usize = 0;
    while i < outputs.len()
        invariant
            i <= outputs.len(),
            first_non_video(flat_paths(outputs@.take(i as int))) is None,
        decreases outputs.len() - i,
    {
        let port = &outputs[i];
        let ghost pv = port@;
        let mut j: usize = 0;
        while j < port.len()
            invariant
                i < outputs.len(),
                port == &outputs[i as int],
                pv == port@,
                j <= port.len(),
                first_non_video(flat_paths(outputs@.take(i as int))) is None,
                forall|k: int| 0 <= k < j ==> is_video_path(#[trigger] pv[k]@),
            decreases port.len() - j,
        {
            if !is_video_path_exec(port[j].as_str()) {
                proof {
                    lemma_fnv_index(pv, j as int);
                    let pre = outputs@.take(i as int);
                    assert(outputs@.take(i + 1).drop_last() =~= pre);
                    assert(flat_paths(outputs@.take(i + 1)) == flat_paths(pre) + pv);
                    lemma_fnv_concat(flat_paths(pre), pv);
                    assert(outputs@ =~= outputs@.take(i + 1) + outputs@.skip(i + 1));
                    lemma_flat_concat(outputs@.take(i + 1), outputs@.skip(i + 1));
                    lemma_fnv_concat(
                        flat_paths(outputs@.take(i + 1)),
                        flat_paths(outputs@.skip(i + 1)),
                    );
                }
                return Some(port[j].clone());
            }
            j += 1;
        }
        proof {
            lemma_fnv_index(pv, j as int);
            let pre = outputs@.take(i as int);
            assert(outputs@.take(i + 1).drop_last() =~= pre);
            lemma_fnv_concat(flat_paths(pre), pv);
        }
        i += 1;
    }
    assert(outputs@.take(i as int) =~= outputs@);
    None
}

/// The preview candidate of each record, in order; the ones that exist on
/// disk are then handed to `extract_verified_module_outputs`.
pub open spec fn candidates_spec(es: Seq<PpExecutionEntry>) -> Seq<String>
    decreases es.len(),
{
    if es.len() == 0 {
        seq![]
    } else {
        match preview_candidate(es.last()) {
            Some(p) => candidates_spec(es.drop_last()).push(p),
            None => candidates_spec(es.drop_last()),
        }
    }
}

/// The preview candidate of a record (executable).
pub fn preview_candidate_exec(e: &PpExecutionEntry) -> (r: Option<String>)
    ensures
        r matches Some(p) ==> preview_candidate(*e) == Some(p),
        r is None ==> preview_candidate(*e) is None,
{
    match &e.result {
        Some(res) => match res.code {
            PpExecCode::Okay => first_non_video_exec(&e.outputs),
            _ => None,
        },
        None => None,
    }
}

/// The paths whose existence decides which module outputs are shown.
pub fn module_output_candidates(pp_execution: &Vec<PpExecutionEntry>) -> (r: Vec<String>)
    ensures
        r@ == candidates_spec(pp_execution@),
{
    let mut r: Vec<String> = Vec::new();
    let mut i: usize = 0;
    while i < pp_execution.len()
        invariant
            i <= pp_execution.len(),
            r@ == candidates_spec(pp_execution@.take(i as int)),
        decreases pp_execution.len() - i,
    {
        assert(pp_execution@.take(i + 1).drop_last() =~= pp_execution@.take(i as int));
        match preview_candidate_exec(&pp_execution[i]) {
            Some(p) => {
                r.push(p);
            },
            None => {},
        }
        assert(r@ =~= candidates_spec(pp_execution@.take(i + 1)));
        i += 1;
    }
    assert(pp_execution@.take(i as int) =~= pp_execution@);
    r
}

/// The verified module outputs: for each record whose result is `Okay` and
/// whose preview candidate is among `existing`, the module id maps to that
/// path (a later record of the same module replaces an earlier one).
pub open spec fn verified_outputs_spec(es: Seq<PpExecutionEntry>, existing: Seq<Seq<char>>) -> Seq<
    (String, String),
>
    decreases es.len(),
{
    if es.len() == 0 {
        seq![]
    } else {
        let prev = verified_outputs_spec(es.drop_last(), existing);
        match preview_candidate(es.last()) {
            Some(p) => if existing.contains(p@) {
                crate::assoc::put_spec(prev, es.last().module_id, p)
            } else {
                prev
            },
            None => prev,
        }
    }
}

} // verus!

verus! {

/// Whether `p` is one of `existing` (executable).
fn contains_str(existing: &Vec<String>, p: &str) -> (r: bool)
    ensures
        r == existing@.map_values(|e: String| e@).contains(p@),
{
    let ghost ev = existing@.map_values(|e: String| e@);
    let mut i: usize = 0;
    while i < existing.len()
        invariant
            i <= existing.len(),
            ev == existing@.map_values(|e: String| e@),
            forall|j: int| 0 <= j < i ==> ev[j] != p@,
        decreases existing.len() - i,
    {
        if crate::text::str_eq(existing[i].as_str(), p) {
            assert(ev[i as int] == p@);
            return true;
        }
        i += 1;
    }
    false
}

/// The module outputs that may be shown: for each record whose result is
/// `Okay`, its first non-video output when that path is among `existing`
/// (the candidates, see `module_output_candidates`, that are files on disk),
/// keyed by module id; a later record of a module replaces an earlier one.
pub fn extract_verified_module_outputs(
    pp_execution: Option<&Vec<PpExecutionEntry>>,
    existing: &Vec<String>,
) -> (r: Vec<(String, String)>)
    ensures
        r@ == verified_outputs_spec(
            match pp_execution {
                Some(v) => v@,
                None => seq![],
            },
            existing@.map_values(|e: String| e@),
        ),
        crate::assoc::keys_unique(r@),
{
    let mut r: Vec<(String, String)> = Vec::new();
    let es = match pp_execution {
        Some(v) => v,
        None => {
            return r;
        },
    };
    let ghost ex = existing@.map_values(|e: String| e@);
    let mut i: usize = 0;
    while i < es.len()
        invariant
            i <= es.len(),
            ex == existing@.map_values(|e: String| e@),
            r@ == verified_outputs_spec(es@.take(i as int), ex),
            crate::assoc::keys_unique(r@),
        decreases es.len() - i,
    {
        assert(es@.take(i + 1).drop_last() =~= es@.take(i as int));
        match preview_candidate_exec(&es[i]) {
            Some(p) => {
                if contains_str(existing, p.as_str()) {
                    proof {
                        crate::assoc::lemma_put_unique(r@, es[i as int].module_id, p);
                    }
                    crate::assoc::put(&mut r, es[i].module_id.clone(), p);
                }
            },
            None => {},
        }
        i += 1;
    }
    assert(es@.take(i as int) =~= es@);
    r
}

} // verus!

verus! {

/// The paths of a port-grouped list, port by port.
pub open spec fn grouped_view(v: Seq<Vec<String>>) -> Seq<Seq<Seq<char>>> {
    v.map_values(|p: Vec<String>| crate::text::strs_view(p@))
}

/// A copy of a port-grouped path list.
pub fn copy_grouped(v: &Vec<Vec<String>>) -> (r: Vec<Vec<String>>)
    ensures
        grouped_view(r@) == grouped_view(v@),
        r@.len() == v@.len(),
        forall|i: int| 0 <= i < v@.len() ==> (#[trigger] r@[i])@ == v@[i]@,
{
    let mut r: Vec<Vec<String>> = Vec::new();
    let mut i: usize = 0;
    while i < v.len()
        invariant
            i <= v.len(),
            r@.len() == i,
            forall|k: int| 0 <= k < i ==> (#[trigger] r@[k])@ == v@[k]@,
        decreases v.len() - i,
    {
        r.push(crate::pipeline::copy_strings(&v[i]));
        i += 1;
    }
    assert(grouped_view(r@) =~= grouped_view(v@));
    r
}

impl PpExecResult {
    /// A copy of the result.
    pub fn copy(&self) -> (r: PpExecResult)
        ensures
            r == *self,
    {
        PpExecResult { code: self.code, message: crate::pipeline::copy_opt_string(&self.message) }
    }
}

/// The view of an execution record.
pub type EntryV = (
    Seq<char>,
    Option<String>,
    Seq<char>,
    Option<String>,
    Option<PpExecResult>,
    Seq<Seq<Seq<char>>>,
    Seq<Seq<Seq<char>>>,
    Seq<char>,
);

impl View for PpExecutionEntry {
    type V = EntryV;

    open spec fn view(&self) -> EntryV {
        (
            self.module_id@,
            self.node_id,
            self.started_at@,
            self.finished_at,
            self.result,
            grouped_view(self.inputs@),
            grouped_view(self.outputs@),
            self.config_fingerprint@,
        )
    }
}

impl PpExecutionEntry {
    /// A copy of the record.
    pub fn copy(&self) -> (r: PpExecutionEntry)
        ensures
            r@ == self@,
            r.module_id == self.module_id,
            r.node_id == self.node_id,
            r.result == self.result,
    {
        PpExecutionEntry {
            module_id: self.module_id.clone(),
            node_id: crate::pipeline::copy_opt_string(&self.node_id),
            started_at: self.started_at.clone(),
            finished_at: crate::pipeline::copy_opt_string(&self.finished_at),
            result: match &self.result {
                Some(r) => Some(r.copy()),
                None => None,
            },
            inputs: copy_grouped(&self.inputs),
            outputs: copy_grouped(&self.outputs),
            config_fingerprint: self.config_fingerprint.clone(),
        }
    }
}

} // verus!
