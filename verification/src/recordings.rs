//! The list of recordings shown to the user, and the bookkeeping around
//! deleting one.
//!
//! The caller reads the metadata files, measures sizes and removes files;
//! what each entry of the list says, and the order of the list, are
//! decided here.
use vstd::prelude::*;
use crate::meta::{PpExecutionEntry, PpNodeProgress, VideoMeta, extract_verified_module_outputs, username_from_path,
    username_of, verified_outputs_spec};
use crate::path::{file_name, file_name_seq, file_stem, file_stem_seq, join, join_seq_path, parent, parent_seq};
use crate::queue::{PpQueue, task_of};
use crate::segment_merge::{seq_lt, str_lt, lemma_seq_lt_irreflexive, lemma_seq_lt_transitive};
use crate::assoc::{find_key, get_spec, lemma_key_index};
use crate::text::{concat, from_chars, str_eq, strs_view, to_chars, vec_contains_str};

verus! {

broadcast use vstd::seq_lib::group_to_multiset_ensures;

/// One entry of the recordings list.
#[derive(Debug, Clone)]
pub struct RecordingFile {
    pub name: String,
    pub path: String,
    pub size_bytes: u64,
    pub started_at: String,
    pub is_recording: bool,
    pub record_duration_secs: Option<u64>,
    pub video_duration_secs: Option<u64>,
    pub video_resolution: Option<String>,
    pub status: Option<String>,
    pub pp_execution: Option<Vec<PpExecutionEntry>>,
    pub pp_progress: Option<PpNodeProgress>,
    pub segments_downloaded: Option<u64>,
    pub segments_failed: Option<u64>,
    pub username: String,
    /// Output paths of modules, by module id (only outputs that exist).
    pub module_outputs: Vec<(String, String)>,
}

/// What an entry says: name, path, size, start time, whether recording,
/// (recording duration, video duration, segments downloaded, segments
/// failed), resolution, status, post-processing records, progress,
/// streamer, module outputs.
pub type RecV = (
    Seq<char>,
    Seq<char>,
    u64,
    Seq<char>,
    bool,
    (Option<u64>, Option<u64>, Option<u64>, Option<u64>),
    Option<Seq<char>>,
    Option<Seq<char>>,
    Option<Seq<PpExecutionEntry>>,
    Option<PpNodeProgress>,
    Seq<char>,
    Seq<(String, String)>,
);

/// The view of an optional string.
pub open spec fn opt_view(s: Option<String>) -> Option<Seq<char>> {
    match s {
        Some(x) => Some(x@),
        None => None,
    }
}

impl View for RecordingFile {
    type V = RecV;

    open spec fn view(&self) -> RecV {
        (
            self.name@,
            self.path@,
            self.size_bytes,
            self.started_at@,
            self.is_recording,
            (self.record_duration_secs, self.video_duration_secs, self.segments_downloaded, self.segments_failed),
            opt_view(self.video_resolution),
            opt_view(self.status),
            match self.pp_execution {
                Some(v) => Some(v@),
                None => None,
            },
            self.pp_progress,
            self.username@,
            self.module_outputs@,
        )
    }
}

// ───────────────────────── entries ─────────────────────────

/// A recording in progress, as the caller observed it.
#[derive(Debug, Clone)]
pub struct ActiveSession {
    /// Its segment directory.
    pub session_dir: String,
    /// When it started (RFC 3339, local time).
    pub started_at: String,
    /// Seconds since it started.
    pub elapsed_secs: u64,
    /// Bytes in its directory.
    pub size_bytes: u64,
}

/// The segment counts recorded for `dir` in `stats`, or none.
pub open spec fn stats_of(stats: Seq<(String, (u64, u64))>, dir: Seq<char>) -> (u64, u64) {
    match get_spec(stats, dir) {
        Some(c) => c,
        None => (0, 0),
    }
}

/// The entry of a recording in progress.
pub open spec fn active_view(s: ActiveSession, stats: Seq<(String, (u64, u64))>) -> RecV {
    (
        match file_name_seq(s.session_dir@) {
            Some(n) => n,
            None => seq![],
        },
        s.session_dir@,
        s.size_bytes,
        s.started_at@,
        true,
        (Some(s.elapsed_secs), None, Some(stats_of(stats, s.session_dir@).0), Some(stats_of(stats, s.session_dir@).1)),
        None,
        Some("recording"@),
        None,
        None,
        username_of(s.session_dir@),
        seq![],
    )
}

/// The entry of a recording in progress (executable); `stats` holds the
/// segment counts of the running recordings by directory.
pub fn active_entry(s: ActiveSession, stats: &Vec<(String, (u64, u64))>) -> (r: RecordingFile)
    ensures
        r@ == active_view(s, stats@),
{
    proof {
        reveal_strlit("recording");
        lemma_key_index(stats@, s.session_dir@);
    }
    let v = to_chars(s.session_dir.as_str());
    let name = match file_name(&v) {
        Some(n) => from_chars(&n),
        None => String::new(),
    };
    let counts = match find_key(stats, s.session_dir.as_str()) {
        Some(i) => stats[i].1,
        None => (0u64, 0u64),
    };
    let username = username_from_path(s.session_dir.as_str());
    let r = RecordingFile {
        name,
        path: s.session_dir,
        size_bytes: s.size_bytes,
        started_at: s.started_at,
        is_recording: true,
        record_duration_secs: Some(s.elapsed_secs),
        video_duration_secs: None,
        video_resolution: None,
        status: Some("recording".to_owned()),
        pp_execution: None,
        pp_progress: None,
        segments_downloaded: Some(counts.0),
        segments_failed: Some(counts.1),
        username,
        module_outputs: Vec::new(),
    };
    assert(r.module_outputs@ == Seq::<(String, String)>::empty());
    r
}

/// A metadata file, with what the caller observed of its video.
#[derive(Debug, Clone)]
pub struct MetaListing {
    pub meta: VideoMeta,
    /// Whether the video path is a directory (segments not merged yet).
    pub is_dir: bool,
    /// Whether the video path exists.
    pub exists: bool,
    /// The size measured on disk (of the directory or file), when it could be.
    pub measured_size: Option<u64>,
    /// The output candidates of its modules that are files on disk.
    pub existing_outputs: Vec<String>,
}

/// The file stem of a listing's video, or the empty name.
pub open spec fn listing_stem(l: MetaListing) -> Seq<char> {
    match file_stem_seq(l.meta.video_path->0@) {
        Some(s) => s,
        None => seq![],
    }
}

/// Whether a metadata file makes an entry: it is not of a recording in
/// progress, names its video, and its video is not one of the recordings
/// in progress (`active_stems`, their directories' stems).
pub open spec fn listed(l: MetaListing, active_stems: Seq<Seq<char>>) -> bool {
    &&& l.meta.status@ != "recording"@
    &&& l.meta.video_path is Some
    &&& !active_stems.contains(listing_stem(l))
}

/// The size shown: the size measured, when the path exists and could be
/// measured, otherwise the size recorded in the metadata.
pub open spec fn shown_size(l: MetaListing) -> u64 {
    if l.is_dir || l.exists {
        match l.measured_size {
            Some(x) => x,
            None => l.meta.size_bytes,
        }
    } else {
        l.meta.size_bytes
    }
}

/// The entry of a finished recording (`tasks`, the queue's tasks, give the
/// status of one being post-processed).
pub open spec fn meta_view(l: MetaListing, tasks: Seq<(String, crate::queue::PpTaskStatus)>) -> RecV {
    let vp = l.meta.video_path->0@;
    let stem = listing_stem(l);
    (
        if l.is_dir {
            stem
        } else {
            match file_name_seq(vp) {
                Some(n) => n,
                None => stem,
            }
        },
        vp,
        shown_size(l),
        l.meta.started_at@,
        false,
        (None, l.meta.video_duration_secs, l.meta.segments_downloaded, l.meta.segments_failed),
        opt_view(l.meta.video_resolution),
        Some(
            match task_of(tasks, vp) {
                Some(t) => t.6,
                None => l.meta.status@,
            },
        ),
        match l.meta.pp_execution {
            Some(v) => Some(v@),
            None => None,
        },
        l.meta.pp_progress,
        username_of(vp),
        verified_outputs_spec(
            match l.meta.pp_execution {
                Some(v) => v@,
                None => seq![],
            },
            l.existing_outputs@.map_values(|e: String| e@),
        ),
    )
}

/// The size shown for a listing (executable).
pub fn listing_size(l: &MetaListing) -> (r: u64)
    ensures
        r == shown_size(*l),
{
    if l.is_dir || l.exists {
        match l.measured_size {
            Some(x) => x,
            None => l.meta.size_bytes,
        }
    } else {
        l.meta.size_bytes
    }
}

/// The size to write back into the metadata of a listed file: the size
/// measured, when the video is an existing file whose measured size is
/// positive and differs from the recorded one.
pub fn stale_size(l: &MetaListing) -> (r: Option<u64>)
    ensures
        (!l.is_dir && l.exists && shown_size(*l) != l.meta.size_bytes && shown_size(*l) > 0) ==> r == Some(shown_size(*l)),
        !(!l.is_dir && l.exists && shown_size(*l) != l.meta.size_bytes && shown_size(*l) > 0) ==> r is None,
{
    let size = listing_size(l);
    if !l.is_dir && l.exists && size != l.meta.size_bytes && size > 0 {
        Some(size)
    } else {
        None
    }
}

/// Whether a metadata file makes an entry (executable).
pub fn is_listed(l: &MetaListing, active_stems: &Vec<String>) -> (r: bool)
    ensures
        r == listed(*l, strs_view(active_stems@)),
{
    if str_eq(l.meta.status.as_str(), "recording") {
        return false;
    }
    match &l.meta.video_path {
        None => false,
        Some(vp) => {
            let stem = match file_stem(&to_chars(vp.as_str())) {
                Some(s) => from_chars(&s),
                None => String::new(),
            };
            !vec_contains_str(active_stems, stem.as_str())
        },
    }
}

/// The entry of a listed metadata file (executable).
pub fn meta_entry(l: MetaListing, queue: &PpQueue) -> (r: RecordingFile)
    requires
        l.meta.video_path is Some,
    ensures
        r@ == meta_view(l, queue.tasks@),
{
    let ghost l0 = l;
    let size = listing_size(&l);
    let vp = match &l.meta.video_path {
        Some(p) => p.clone(),
        None => String::new(),
    };
    let v = to_chars(vp.as_str());
    let stem = match file_stem(&v) {
        Some(s) => from_chars(&s),
        None => String::new(),
    };
    let name = if l.is_dir {
        stem
    } else {
        match file_name(&v) {
            Some(n) => from_chars(&n),
            None => stem,
        }
    };
    let outputs = extract_verified_module_outputs(l.meta.pp_execution.as_ref(), &l.existing_outputs);
    let status = match queue.get_status(vp.as_str()) {
        Some(s) => s,
        None => l.meta.status,
    };
    let username = username_from_path(vp.as_str());
    RecordingFile {
        name,
        path: vp,
        size_bytes: size,
        started_at: l.meta.started_at,
        is_recording: false,
        record_duration_secs: None,
        video_duration_secs: l.meta.video_duration_secs,
        video_resolution: l.meta.video_resolution,
        status: Some(status),
        pp_execution: l.meta.pp_execution,
        pp_progress: l.meta.pp_progress,
        segments_downloaded: l.meta.segments_downloaded,
        segments_failed: l.meta.segments_failed,
        username,
        module_outputs: outputs,
    }
}

// ───────────────────────── the list ─────────────────────────

/// The entries of the first `n` listings that are listed.
pub open spec fn listed_views(
    ls: Seq<MetaListing>,
    active_stems: Seq<Seq<char>>,
    tasks: Seq<(String, crate::queue::PpTaskStatus)>,
    n: int,
) -> Seq<RecV>
    decreases n,
{
    if n <= 0 {
        seq![]
    } else {
        let p = listed_views(ls, active_stems, tasks, n - 1);
        if listed(ls[n - 1], active_stems) {
            p.push(meta_view(ls[n - 1], tasks))
        } else {
            p
        }
    }
}

/// The entries of the recordings in progress, in order.
pub open spec fn active_views(sessions: Seq<ActiveSession>, stats: Seq<(String, (u64, u64))>) -> Seq<RecV> {
    sessions.map_values(|s: ActiveSession| active_view(s, stats))
}

/// The stems of the recordings in progress.
pub open spec fn session_stems(sessions: Seq<ActiveSession>) -> Seq<Seq<char>>
    decreases sessions.len(),
{
    if sessions.len() == 0 {
        seq![]
    } else {
        let p = session_stems(sessions.drop_last());
        match file_stem_seq(sessions.last().session_dir@) {
            Some(s) => p.push(s),
            None => p,
        }
    }
}

/// Entries newest first (no entry started later than one before it).
pub open spec fn newest_first(s: Seq<RecV>) -> bool {
    forall|i: int, j: int| 0 <= i < j < s.len() ==> !seq_lt(#[trigger] s[i].3, #[trigger] s[j].3)
}

/// The view of every entry.
pub open spec fn views(s: Seq<RecordingFile>) -> Seq<RecV> {
    s.map_values(|f: RecordingFile| f@)
}

/// The elements of `v` in reverse order.
pub fn reversed<T>(v: Vec<T>) -> (r: Vec<T>)
    ensures
        r@ == v@.reverse(),
{
    let ghost v0 = v@;
    let mut v = v;
    let mut r: Vec<T> = Vec::new();
    while v.len() > 0
        invariant
            v@.len() <= v0.len(),
            v@ == v0.subrange(0, v@.len() as int),
            r@ == v0.subrange(v@.len() as int, v0.len() as int).reverse(),
        decreases v.len(),
    {
        let x = v.pop().unwrap();
        r.push(x);
        assert(r@ =~= v0.subrange(v@.len() as int, v0.len() as int).reverse());
    }
    assert(v0.subrange(0, v0.len() as int) == v0);
    r
}

/// The recordings list: the recordings in progress, then the listed
/// metadata files, ordered newest first by start time.
pub fn list_recordings(
    sessions: Vec<ActiveSession>,
    stats: &Vec<(String, (u64, u64))>,
    listings: Vec<MetaListing>,
    queue: &PpQueue,
) -> (r: Vec<RecordingFile>)
    ensures
        newest_first(views(r@)),
        views(r@).to_multiset() == (active_views(sessions@, stats@) + listed_views(
            listings@,
            session_stems(sessions@),
            queue.tasks@,
            listings@.len() as int,
        )).to_multiset(),
{
    let ghost ss = sessions@;
    let ghost ls = listings@;
    let mut stems: Vec<String> = Vec::new();
    let mut files: Vec<RecordingFile> = Vec::new();
    let n = sessions.len();
    let mut rev = reversed(sessions);
    let mut k: usize = 0;
    while rev.len() > 0
        invariant
            k + rev@.len() == n,
            n == ss.len(),
            rev@ == ss.subrange(k as int, n as int).reverse(),
            views(files@) == active_views(ss.subrange(0, k as int), stats@),
            strs_view(stems@) == session_stems(ss.subrange(0, k as int)),
        decreases rev.len(),
    {
        let ghost before = rev@;
        let s = rev.pop().unwrap();
        proof {
            assert(s == ss[k as int]);
            assert(rev@ =~= ss.subrange(k + 1, n as int).reverse());
            assert(ss.subrange(0, k + 1).drop_last() =~= ss.subrange(0, k as int));
            assert(ss.subrange(0, k + 1).last() == ss[k as int]);
        }
        let dir = to_chars(s.session_dir.as_str());
        match file_stem(&dir) {
            Some(st) => stems.push(from_chars(&st)),
            None => {},
        }
        let ghost fs = files@;
        let f = active_entry(s, stats);
        files.push(f);
        proof {
            assert(views(files@) =~= views(fs).push(f@));
            assert(active_views(ss.subrange(0, k + 1), stats@) =~= active_views(ss.subrange(0, k as int), stats@).push(active_view(ss[k as int], stats@)));
            assert(strs_view(stems@) =~= session_stems(ss.subrange(0, k + 1)));
        }
        k += 1;
    }
    assert(ss.subrange(0, n as int) =~= ss);
    let ghost base = views(files@);
    let ln = listings.len();
    let mut lrev = reversed(listings);
    let mut m: usize = 0;
    while lrev.len() > 0
        invariant
            m + lrev@.len() == ln,
            ln == ls.len(),
            lrev@ == ls.subrange(m as int, ln as int).reverse(),
            strs_view(stems@) == session_stems(ss),
            views(files@) == base + listed_views(ls, session_stems(ss), queue.tasks@, m as int),
        decreases lrev.len(),
    {
        let l = lrev.pop().unwrap();
        proof {
            assert(l == ls[m as int]);
            assert(lrev@ =~= ls.subrange(m + 1, ln as int).reverse());
        }
        let ghost fs = files@;
        if is_listed(&l, &stems) {
            let f = meta_entry(l, queue);
            files.push(f);
            proof {
                assert(views(files@) =~= views(fs).push(f@));
            }
        }
        m += 1;
    }
    sort_newest_first(files)
}

/// `files` ordered newest first by start time.
pub fn sort_newest_first(files: Vec<RecordingFile>) -> (r: Vec<RecordingFile>)
    ensures
        newest_first(views(r@)),
        views(r@).to_multiset() == views(files@).to_multiset(),
{
    let ghost f0 = files@;
    let n = files.len();
    let mut rev = reversed(files);
    let mut r: Vec<RecordingFile> = Vec::new();
    let mut k: usize = 0;
    while rev.len() > 0
        invariant
            k + rev@.len() == n,
            n == f0.len(),
            rev@ == f0.subrange(k as int, n as int).reverse(),
            newest_first(views(r@)),
            views(r@).to_multiset() == views(f0.subrange(0, k as int)).to_multiset(),
        decreases rev.len(),
    {
        let x = rev.pop().unwrap();
        proof {
            assert(x == f0[k as int]);
            assert(rev@ =~= f0.subrange(k + 1, n as int).reverse());
        }
        let mut pos: usize = 0;
        let mut found = false;
        while pos < r.len() && !found
            invariant
                pos <= r@.len(),
                forall|i: int| 0 <= i < pos ==> !seq_lt(#[trigger] r@[i].started_at@, x.started_at@),
                found ==> pos < r@.len() && seq_lt(r@[pos as int].started_at@, x.started_at@),
            decreases r.len() - pos + (if found { 0int } else { 1int }),
        {
            if str_lt(r[pos].started_at.as_str(), x.started_at.as_str()) {
                found = true;
            } else {
                pos += 1;
            }
        }
        let ghost old_r = r@;
        let ghost xv = x@;
        proof {
            assert forall|j: int| pos <= j < old_r.len() implies !seq_lt(xv.3, #[trigger] views(old_r)[j].3) by {
                assert(views(old_r)[j] == old_r[j]@);
                assert(views(old_r)[pos as int] == old_r[pos as int]@);
                if seq_lt(xv.3, views(old_r)[j].3) {
                    lemma_seq_lt_irreflexive(views(old_r)[j].3);
                    if j > pos {
                        assert(!seq_lt(views(old_r)[pos as int].3, views(old_r)[j].3));
                    }
                    lemma_seq_lt_transitive(views(old_r)[pos as int].3, xv.3, views(old_r)[j].3);
                }
            }
        }
        r.insert(pos, x);
        proof {
            let nv = views(r@);
            let ov = views(old_r);
            assert(nv =~= ov.insert(pos as int, xv));
            assert forall|i: int| 0 <= i < pos implies !seq_lt(#[trigger] ov[i].3, xv.3) by {
                assert(ov[i] == old_r[i]@);
            }
            assert forall|i: int, j: int| 0 <= i < j < nv.len() implies !seq_lt(#[trigger] nv[i].3, #[trigger] nv[j].3) by {
                if j < pos {
                    assert(nv[i] == ov[i] && nv[j] == ov[j]);
                } else if j == pos {
                    assert(nv[i] == ov[i]);
                } else if i < pos {
                    assert(nv[i] == ov[i] && nv[j] == ov[j - 1]);
                } else if i == pos {
                    assert(nv[j] == ov[j - 1]);
                } else {
                    assert(nv[i] == ov[i - 1] && nv[j] == ov[j - 1]);
                }
            }
            vstd::seq_lib::to_multiset_insert(ov, pos as int, xv);
            assert(views(f0.subrange(0, k + 1)) =~= views(f0.subrange(0, k as int)).push(xv));
            vstd::seq_lib::to_multiset_build(views(f0.subrange(0, k as int)), xv);
        }
        k += 1;
    }
    assert(f0.subrange(0, n as int) =~= f0);
    r
}

// ───────────────────────── deleting ─────────────────────────

/// Why a recording cannot be deleted.
pub open spec fn locked_message() -> Seq<char> {
    "录制中，无法删除"@
}

/// The bookkeeping before deleting the recording `path`: a recording in
/// progress (`locked`) is refused; otherwise its post-processing is asked
/// to stop, and taken out of the queue when it is waiting or running.
pub fn begin_delete(queue: &mut PpQueue, path: &str, locked: bool) -> (r: Result<(), String>)
    requires
        old(queue).wf(),
    ensures
        final(queue).wf(),
        locked ==> (r matches Err(m) && m@ == locked_message()) && final(queue).tasks@ == old(queue).tasks@
            && final(queue).cancel_flags@ == old(queue).cancel_flags@,
        !locked ==> r is Ok,
        !locked && get_spec(old(queue).cancel_flags@, path@) is Some ==> get_spec(final(queue).cancel_flags@, path@) == Some(true),
        !locked && (task_of(old(queue).tasks@, path@) matches Some(t) && (t.6 == "running"@ || t.6 == "waiting"@))
            ==> task_of(final(queue).tasks@, path@) is None,
        !locked && !(task_of(old(queue).tasks@, path@) matches Some(t) && (t.6 == "running"@ || t.6 == "waiting"@))
            ==> final(queue).tasks@ == old(queue).tasks@,
        forall|p: Seq<char>| p != path@ ==> task_of(final(queue).tasks@, p) == task_of(old(queue).tasks@, p),
        forall|p: Seq<char>| p != path@ ==> get_spec(final(queue).cancel_flags@, p) == get_spec(old(queue).cancel_flags@, p),
{
    if locked {
        proof {
            reveal_strlit("录制中，无法删除");
        }
        return Err("录制中，无法删除".to_owned());
    }
    queue.cancel(path);
    match queue.get_status(path) {
        Some(s) => {
            if str_eq(s.as_str(), "running") || str_eq(s.as_str(), "waiting") {
                queue.remove(path);
            }
        },
        None => {},
    }
    Ok(())
}

/// The image files that go with a video.
pub open spec fn sidecars_spec(path: Seq<char>) -> Seq<Seq<char>> {
    match (parent_seq(path), file_stem_seq(path)) {
        (Some(dir), Some(stem)) => seq![
            join_seq_path(dir, stem + ".webp"@),
            join_seq_path(dir, stem + ".jpg"@),
            join_seq_path(dir, stem + ".jpeg"@),
            join_seq_path(dir, stem + ".png"@),
        ],
        _ => seq![],
    }
}

/// The image files that go with a deleted video: `{stem}.webp`, `.jpg`,
/// `.jpeg` and `.png` beside it (none when the path has no parent or stem).
pub fn sidecar_paths(path: &str) -> (r: Vec<String>)
    ensures
        strs_view(r@) == sidecars_spec(path@),
{
    let v = to_chars(path);
    let mut r: Vec<String> = Vec::new();
    match parent(&v) {
        Some(dir) => match file_stem(&v) {
            Some(stem) => {
                r.push(from_chars(&join(&dir, &concat(&stem, &to_chars(".webp")))));
                r.push(from_chars(&join(&dir, &concat(&stem, &to_chars(".jpg")))));
                r.push(from_chars(&join(&dir, &concat(&stem, &to_chars(".jpeg")))));
                r.push(from_chars(&join(&dir, &concat(&stem, &to_chars(".png")))));
                assert(strs_view(r@) =~= sidecars_spec(path@));
            },
            None => {},
        },
        None => {},
    }
    r
}

/// A request naming one recording.
#[derive(Debug, Clone)]
pub struct PathBody {
    pub path: String,
}

/// A request naming several recordings.
#[derive(Debug, Clone)]
pub struct BatchPathBody {
    pub paths: Vec<String>,
}

/// A request for the output file of module `module_id` for a recording.
#[derive(Debug, Clone)]
pub struct FileQuery {
    pub video_path: String,
    pub module_id: String,
}

/// The output file of `q.module_id` for a recording whose metadata holds
/// `pp_execution` (`existing`, the candidates that are files on disk):
/// refused when the recording has no metadata or the module no output.
pub fn output_file(q: &FileQuery, pp_execution: Option<Option<&Vec<PpExecutionEntry>>>, existing: &Vec<String>) -> (r: Result<String, String>)
    ensures
        pp_execution is None ==> (r matches Err(m) && m@ == "recording not found"@),
        pp_execution matches Some(pp) ==> ({
            let outs = verified_outputs_spec(match pp { Some(v) => v@, None => seq![] }, existing@.map_values(|e: String| e@));
            &&& get_spec(outs, q.module_id@) matches Some(p) ==> (r matches Ok(x) && x@ == p@)
            &&& get_spec(outs, q.module_id@) is None ==> (r matches Err(m) && m@ == "module output not found"@)
        }),
{
    proof {
        reveal_strlit("recording not found");
        reveal_strlit("module output not found");
    }
    match pp_execution {
        None => Err("recording not found".to_owned()),
        Some(pp) => {
            let outs = extract_verified_module_outputs(pp, existing);
            proof {
                lemma_key_index(outs@, q.module_id@);
            }
            match find_key(&outs, q.module_id.as_str()) {
                Some(i) => Ok(outs[i].1.clone()),
                None => Err("module output not found".to_owned()),
            }
        },
    }
}

/// The content type of an output file, by its extension.
pub open spec fn mime_spec(path: Seq<char>) -> Seq<char> {
    match crate::path::extension_seq(path) {
        Some(e) => if e == "webp"@ {
            "image/webp"@
        } else if e == "jpg"@ || e == "jpeg"@ {
            "image/jpeg"@
        } else if e == "png"@ {
            "image/png"@
        } else {
            "application/octet-stream"@
        },
        None => "application/octet-stream"@,
    }
}

/// The content type of an output file (executable).
pub fn mime_for(path: &str) -> (r: &'static str)
    ensures
        r@ == mime_spec(path@),
{
    proof {
        reveal_strlit("webp");
        reveal_strlit("jpg");
        reveal_strlit("jpeg");
        reveal_strlit("png");
        reveal_strlit("image/webp");
        reveal_strlit("image/jpeg");
        reveal_strlit("image/png");
        reveal_strlit("application/octet-stream");
    }
    match crate::path::extension(&to_chars(path)) {
        Some(e) => {
            let e = from_chars(&e);
            if str_eq(e.as_str(), "webp") {
                "image/webp"
            } else if str_eq(e.as_str(), "jpg") || str_eq(e.as_str(), "jpeg") {
                "image/jpeg"
            } else if str_eq(e.as_str(), "png") {
                "image/png"
            } else {
                "application/octet-stream"
            }
        },
        None => "application/octet-stream",
    }
}

} // verus!
