//! Periodic upkeep of the recordings: which metadata files are orphaned,
//! and what happens to recordings that still wait for post-processing.
use vstd::prelude::*;
use crate::meta::VideoMeta;
use crate::sorting::{sort_by_key, sorted_by_key};
use crate::text::{ends_with, has_suffix, to_chars};

verus! {

/// Whether a metadata file is orphaned and can be deleted: a `.json` file
/// whose metadata names a video that no longer exists.
pub fn is_orphaned_meta(file_name: &str, video_path: Option<&str>, video_exists: bool) -> (r: bool)
    ensures
        r == (has_suffix(file_name@, ".json"@) && video_path is Some && !video_exists),
{
    proof {
        reveal_strlit(".json");
    }
    ends_with(&to_chars(file_name), &to_chars(".json")) && video_path.is_some() && !video_exists
}

/// What the upkeep does with the recordings that wait for post-processing.
#[derive(Debug, Clone)]
pub enum UpkeepPlan {
    /// Nothing waits.
    Idle,
    /// The pipeline has no enabled node: these are marked finished.
    MarkFinished(Vec<String>),
    /// These are post-processed one after the other, oldest first.
    Process(Vec<String>),
}

/// The plan for the recordings `pending` (pairs of start time and path; the time is empty
/// when its metadata cannot be read), ordered by start time.
pub fn plan_upkeep(pending: Vec<(String, String)>, any_enabled: bool) -> (r: UpkeepPlan)
    ensures
        pending@.len() == 0 ==> r is Idle,
        pending@.len() > 0 ==> exists|sorted: Seq<(String, String)>| {
            &&& sorted_by_key(sorted)
            &&& sorted.to_multiset() == pending@.to_multiset()
            &&& sorted.len() == pending@.len()
            &&& match r {
                UpkeepPlan::MarkFinished(v) => !any_enabled && v@ == sorted.map_values(|p: (String, String)| p.1),
                UpkeepPlan::Process(v) => any_enabled && v@ == sorted.map_values(|p: (String, String)| p.1),
                UpkeepPlan::Idle => false,
            }
        },
{
    if pending.len() == 0 {
        return UpkeepPlan::Idle;
    }
    let keyed = sort_by_key(pending);
    let mut paths: Vec<String> = Vec::new();
    let mut i: usize = 0;
    while i < keyed.len()
        invariant
            i <= keyed@.len(),
            paths@ == keyed@.subrange(0, i as int).map_values(|p: (String, String)| p.1),
        decreases keyed.len() - i,
    {
        paths.push(keyed[i].1.clone());
        assert(paths@ =~= keyed@.subrange(0, i + 1).map_values(|p: (String, String)| p.1));
        i += 1;
    }
    assert(keyed@.subrange(0, keyed@.len() as int) =~= keyed@);
    if any_enabled {
        UpkeepPlan::Process(paths)
    } else {
        UpkeepPlan::MarkFinished(paths)
    }
}

/// Marks a recording's metadata finished (its post-processing is skipped).
pub fn mark_finished(meta: &mut VideoMeta)
    ensures
        final(meta).status@ == "finish"@,
        final(meta).meta_version == old(meta).meta_version,
        final(meta).started_at == old(meta).started_at,
        final(meta).size_bytes == old(meta).size_bytes,
        final(meta).video_duration_secs == old(meta).video_duration_secs,
        final(meta).video_resolution == old(meta).video_resolution,
        final(meta).pp_execution == old(meta).pp_execution,
        final(meta).segments_downloaded == old(meta).segments_downloaded,
        final(meta).segments_failed == old(meta).segments_failed,
        final(meta).video_path == old(meta).video_path,
        final(meta).pp_progress == old(meta).pp_progress,
{
    proof {
        reveal_strlit("finish");
    }
    meta.status = "finish".to_owned();
}

} // verus!
