//! Leftover recordings: which segment directories and merged videos left
//! behind by an earlier run are handed to post-processing, and in what order.
//!
//! The caller walks the output directory, reads the metadata files and
//! starts the work; the choices are made here.
use vstd::prelude::*;
use crate::path::{extension, file_name, file_name_seq, file_stem, file_stem_seq, extension_seq};
use crate::scan::{session_dir_timestamp_from_stem, session_stamp_spec};
use crate::text::{from_chars, str_eq, to_chars};

verus! {

broadcast use vstd::seq_lib::group_to_multiset_ensures;

// ───────────────────────── ordering of names ─────────────────────────

/// Lexicographic order of character sequences by code point, shorter first
/// on a common prefix (the order of `String`).
pub open spec fn seq_lt(a: Seq<char>, b: Seq<char>) -> bool
    decreases a.len(),
{
    if a.len() == 0 {
        b.len() > 0
    } else if b.len() == 0 {
        false
    } else if a[0] != b[0] {
        (a[0] as u32) < (b[0] as u32)
    } else {
        seq_lt(a.drop_first(), b.drop_first())
    }
}

/// The order is transitive.
pub proof fn lemma_seq_lt_transitive(a: Seq<char>, b: Seq<char>, c: Seq<char>)
    requires
        seq_lt(a, b),
        seq_lt(b, c),
    ensures
        seq_lt(a, c),
    decreases a.len(),
{
    if a.len() > 0 && b.len() > 0 && c.len() > 0 && a[0] == b[0] && b[0] == c[0] {
        lemma_seq_lt_transitive(a.drop_first(), b.drop_first(), c.drop_first());
    }
}

/// No sequence comes before itself.
pub proof fn lemma_seq_lt_irreflexive(a: Seq<char>)
    ensures
        !seq_lt(a, a),
    decreases a.len(),
{
    if a.len() > 0 {
        lemma_seq_lt_irreflexive(a.drop_first());
    }
}

/// Whether `a` comes before `b` (executable).
pub fn str_lt(a: &str, b: &str) -> (r: bool)
    ensures
        r == seq_lt(a@, b@),
{
    let x = to_chars(a);
    let y = to_chars(b);
    let mut i: usize = 0;
    assert(x@.subrange(0, x@.len() as int) == x@);
    assert(y@.subrange(0, y@.len() as int) == y@);
    while i < x.len() && i < y.len() && x[i] == y[i]
        invariant
            i <= x@.len(),
            i <= y@.len(),
            x@.subrange(0, i as int) == y@.subrange(0, i as int),
            seq_lt(x@, y@) == seq_lt(x@.subrange(i as int, x@.len() as int), y@.subrange(i as int, y@.len() as int)),
        decreases x.len() - i,
    {
        let ghost xs = x@.subrange(i as int, x@.len() as int);
        let ghost ys = y@.subrange(i as int, y@.len() as int);
        assert(xs.drop_first() == x@.subrange(i + 1, x@.len() as int));
        assert(ys.drop_first() == y@.subrange(i + 1, y@.len() as int));
        assert(x@.subrange(0, i + 1) == x@.subrange(0, i as int).push(x@[i as int]));
        assert(y@.subrange(0, i + 1) == y@.subrange(0, i as int).push(y@[i as int]));
        i += 1;
    }
    let ghost xs = x@.subrange(i as int, x@.len() as int);
    let ghost ys = y@.subrange(i as int, y@.len() as int);
    if i == x.len() {
        i < y.len()
    } else if i == y.len() {
        false
    } else {
        assert(xs[0] == x@[i as int] && ys[0] == y@[i as int]);
        (x[i] as u32) < (y[i] as u32)
    }
}

// ───────────────────────── sorting by session time ─────────────────────────

/// Which part of a path carries the session time.
#[derive(Clone, Copy, PartialEq, Eq, Structural, Debug)]
pub enum StampSource {
    /// The last component (a segment directory).
    DirName,
    /// The file name without its extension (a merged video).
    FileStem,
}

/// The sort key of a path: the session time read from its name.
pub open spec fn stamp_key(src: StampSource, p: Seq<char>) -> Seq<char> {
    let part = match src {
        StampSource::DirName => file_name_seq(p),
        StampSource::FileStem => file_stem_seq(p),
    };
    session_stamp_spec(match part { Some(n) => n, None => seq![] })
}

/// The sort key of a path (executable).
pub fn stamp_of(src: StampSource, p: &str) -> (r: String)
    ensures
        r@ == stamp_key(src, p@),
{
    let v = to_chars(p);
    let part = match src {
        StampSource::DirName => file_name(&v),
        StampSource::FileStem => file_stem(&v),
    };
    match part {
        Some(n) => session_dir_timestamp_from_stem(from_chars(&n).as_str()),
        None => {
            proof {
                reveal_strlit("");
            }
            session_dir_timestamp_from_stem("")
        },
    }
}

/// Paths in the order of their session times (no later path has an earlier time).
pub open spec fn sorted_by_stamp(src: StampSource, s: Seq<String>) -> bool {
    forall|i: int, j: int| 0 <= i < j < s.len() ==> !seq_lt(#[trigger] stamp_key(src, s[j]@), #[trigger] stamp_key(src, s[i]@))
}

/// `paths` ordered by session time.
pub fn sort_by_stamp(paths: Vec<String>, src: StampSource) -> (r: Vec<String>)
    ensures
        sorted_by_stamp(src, r@),
        r@.to_multiset() == paths@.to_multiset(),
        r@.len() == paths@.len(),
{
    let mut r: Vec<String> = Vec::new();
    let mut k: usize = 0;
    while k < paths.len()
        invariant
            k <= paths@.len(),
            sorted_by_stamp(src, r@),
            r@.to_multiset() == paths@.take(k as int).to_multiset(),
        decreases paths.len() - k,
    {
        let x = paths[k].clone();
        let xk = stamp_of(src, x.as_str());
        let mut pos: usize = 0;
        let mut found = false;
        while pos < r.len() && !found
            invariant
                pos <= r@.len(),
                forall|i: int| 0 <= i < pos ==> !seq_lt(xk@, #[trigger] stamp_key(src, r@[i]@)),
                found ==> pos < r@.len() && seq_lt(xk@, stamp_key(src, r@[pos as int]@)),
            decreases r.len() - pos + (if found { 0int } else { 1int }),
        {
            let rk = stamp_of(src, r[pos].as_str());
            if str_lt(xk.as_str(), rk.as_str()) {
                found = true;
            } else {
                pos += 1;
            }
        }
        let ghost old_r = r@;
        proof {
            assert forall|j: int| pos <= j < old_r.len() implies !seq_lt(#[trigger] stamp_key(src, old_r[j]@), xk@) by {
                if seq_lt(stamp_key(src, old_r[j]@), xk@) {
                    lemma_seq_lt_irreflexive(stamp_key(src, old_r[pos as int]@));
                    if j > pos {
                        assert(!seq_lt(stamp_key(src, old_r[j]@), stamp_key(src, old_r[pos as int]@)));
                    }
                    lemma_seq_lt_transitive(stamp_key(src, old_r[j]@), xk@, stamp_key(src, old_r[pos as int]@));
                }
            }
        }
        r.insert(pos, x);
        proof {
            let n = r@;
            assert(n == old_r.insert(pos as int, paths@[k as int]));
            assert forall|i: int, j: int| 0 <= i < j < n.len() implies !seq_lt(#[trigger] stamp_key(src, n[j]@), #[trigger] stamp_key(src, n[i]@)) by {
                if j < pos {
                    assert(n[i] == old_r[i] && n[j] == old_r[j]);
                } else if j == pos {
                    assert(n[i] == old_r[i]);
                } else if i < pos {
                    assert(n[i] == old_r[i] && n[j] == old_r[j - 1]);
                    if i + 1 < j - 1 + 1 {
                    }
                } else if i == pos {
                    assert(n[j] == old_r[j - 1]);
                } else {
                    assert(n[i] == old_r[i - 1] && n[j] == old_r[j - 1]);
                }
            }
            vstd::seq_lib::to_multiset_insert(old_r, pos as int, paths@[k as int]);
            assert(paths@.take(k + 1) == paths@.take(k as int).push(paths@[k as int]));
            vstd::seq_lib::to_multiset_build(paths@.take(k as int), paths@[k as int]);
        }
        k += 1;
    }
    proof {
        assert(paths@.take(paths@.len() as int) == paths@);
        vstd::seq_lib::to_multiset_len(r@);
        vstd::seq_lib::to_multiset_len(paths@);
    }
    r
}

// ───────────────────────── what is left over ─────────────────────────

/// A merged video named by a metadata file.
#[derive(Debug, Clone)]
pub struct VideoCandidate {
    /// The video path the metadata names, if any.
    pub video_path: Option<String>,
    /// The metadata's status.
    pub status: String,
    /// Whether the video path is an existing file.
    pub is_file: bool,
    /// Whether this process's post-processing queue holds the path.
    pub in_queue: bool,
}

/// Whether a merged video is left unprocessed: it exists as a file, and its
/// status is none of `finish`, `pp_error` and `recording`; a `pp_waiting` or
/// `pp_running` status counts only when this process does not queue the
/// video (the status is then stale, left by an earlier run).
pub open spec fn unprocessed_spec(c: VideoCandidate) -> bool {
    &&& c.video_path is Some
    &&& c.is_file
    &&& c.status@ != "finish"@
    &&& c.status@ != "pp_error"@
    &&& c.status@ != "recording"@
    &&& !((c.status@ == "pp_waiting"@ || c.status@ == "pp_running"@) && c.in_queue)
}

/// Whether a merged video is left unprocessed (executable).
pub fn is_unprocessed_video(c: &VideoCandidate) -> (r: bool)
    ensures
        r == unprocessed_spec(*c),
{
    match &c.video_path {
        None => false,
        Some(_) => {
            if !c.is_file {
                return false;
            }
            let s = c.status.as_str();
            if str_eq(s, "finish") || str_eq(s, "pp_error") || str_eq(s, "recording") {
                return false;
            }
            !((str_eq(s, "pp_waiting") || str_eq(s, "pp_running")) && c.in_queue)
        },
    }
}

/// The first `n` segment directories that are not locked by a running recording.
pub open spec fn unlocked_dirs(dirs: Seq<String>, locked: Seq<bool>, n: int) -> Seq<String>
    decreases n,
{
    if n <= 0 {
        seq![]
    } else {
        let p = unlocked_dirs(dirs, locked, n - 1);
        if locked[n - 1] {
            p
        } else {
            p.push(dirs[n - 1])
        }
    }
}

/// The video paths of the first `n` candidates that are left unprocessed.
pub open spec fn unprocessed_paths(c: Seq<VideoCandidate>, n: int) -> Seq<String>
    decreases n,
{
    if n <= 0 {
        seq![]
    } else {
        let p = unprocessed_paths(c, n - 1);
        if unprocessed_spec(c[n - 1]) {
            p.push(c[n - 1].video_path->0)
        } else {
            p
        }
    }
}

/// What to do with what an earlier run left behind.
#[derive(Debug, Clone)]
pub struct LeftoverPlan {
    /// Merged videos to post-process, oldest first.
    pub videos: Vec<String>,
    /// Segment directories to post-process (merging first), oldest first.
    pub segment_dirs: Vec<String>,
    /// Whether the pipeline runs for the videos (it has nodes).
    pub run_videos: bool,
    /// Whether the pipeline runs for the segment directories (a node is enabled).
    pub run_dirs: bool,
}

/// The plan: the segment directories found that no running recording
/// holds (`locked[i]` for `dirs[i]`) and the candidates left unprocessed,
/// each ordered by session time.
pub fn plan_leftovers(
    dirs: Vec<String>,
    locked: Vec<bool>,
    candidates: Vec<VideoCandidate>,
    has_nodes: bool,
    any_enabled: bool,
) -> (r: LeftoverPlan)
    requires
        dirs@.len() == locked@.len(),
    ensures
        r.segment_dirs@.to_multiset() == unlocked_dirs(dirs@, locked@, dirs@.len() as int).to_multiset(),
        sorted_by_stamp(StampSource::DirName, r.segment_dirs@),
        r.videos@.to_multiset() == unprocessed_paths(candidates@, candidates@.len() as int).to_multiset(),
        sorted_by_stamp(StampSource::FileStem, r.videos@),
        r.run_videos == has_nodes,
        r.run_dirs == any_enabled,
{
    let mut kept: Vec<String> = Vec::new();
    let mut i: usize = 0;
    while i < dirs.len()
        invariant
            i <= dirs@.len(),
            dirs@.len() == locked@.len(),
            kept@ == unlocked_dirs(dirs@, locked@, i as int),
        decreases dirs.len() - i,
    {
        if !locked[i] {
            kept.push(dirs[i].clone());
        }
        i += 1;
    }
    let mut videos: Vec<String> = Vec::new();
    let mut j: usize = 0;
    while j < candidates.len()
        invariant
            j <= candidates@.len(),
            videos@ == unprocessed_paths(candidates@, j as int),
        decreases candidates.len() - j,
    {
        let c = &candidates[j];
        if is_unprocessed_video(c) {
            match &c.video_path {
                Some(p) => videos.push(p.clone()),
                None => {},
            }
        }
        j += 1;
    }
    LeftoverPlan {
        videos: sort_by_stamp(videos, StampSource::FileStem),
        segment_dirs: sort_by_stamp(kept, StampSource::DirName),
        run_videos: has_nodes,
        run_dirs: any_enabled,
    }
}

impl LeftoverPlan {
    /// Whether there is nothing to do.
    pub fn is_empty(&self) -> (r: bool)
        ensures
            r == (self.videos@.len() == 0 && self.segment_dirs@.len() == 0),
    {
        self.videos.len() == 0 && self.segment_dirs.len() == 0
    }

    /// The segment directories handed to the pipeline (all of them when a
    /// node is enabled, none otherwise).
    pub fn merged_paths(&self) -> (r: Vec<String>)
        ensures
            self.run_dirs ==> r@ == self.segment_dirs@,
            !self.run_dirs ==> r@.len() == 0,
    {
        if self.run_dirs {
            self.segment_dirs.clone()
        } else {
            Vec::new()
        }
    }
}

/// Whether a directory holds recording segments: one of its entries
/// (`entries`, their paths) has the extension `ts`.
pub fn has_segment_files(entries: &Vec<String>) -> (r: bool)
    ensures
        r == exists|i: int| 0 <= i < entries@.len() && extension_seq(#[trigger] entries@[i]@) == Some("ts"@),
{
    let mut i: usize = 0;
    while i < entries.len()
        invariant
            i <= entries@.len(),
            forall|j: int| 0 <= j < i ==> extension_seq(#[trigger] entries@[j]@) != Some("ts"@),
        decreases entries.len() - i,
    {
        match extension(&to_chars(entries[i].as_str())) {
            Some(e) => {
                if str_eq(from_chars(&e).as_str(), "ts") {
                    return true;
                }
            },
            None => {},
        }
        i += 1;
    }
    false
}

} // verus!
