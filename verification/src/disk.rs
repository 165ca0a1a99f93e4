//! Disk space of the recording directories.
use vstd::prelude::*;

verus! {

/// Space on one file system.
#[derive(Debug, Clone, Copy)]
pub struct DiskSpace {
    pub total_bytes: u64,
    pub available_bytes: u64,
    pub used_bytes: u64,
}

/// Space reported for one directory: `all` when segments and merged videos
/// share a disk, otherwise `ts_fragment` and `ts_merge`.
#[derive(Debug, Clone)]
pub struct DiskSpaceEntry {
    pub label: String,
    pub path: String,
    pub total_bytes: u64,
    pub available_bytes: u64,
    pub used_bytes: u64,
}

/// The space of a file system from its total and available bytes: used is
/// the total less the available space, not below zero.
pub fn disk_space(total_bytes: u64, available_bytes: u64) -> (r: DiskSpace)
    ensures
        r.total_bytes == total_bytes,
        r.available_bytes == available_bytes,
        r.used_bytes == (if total_bytes >= available_bytes { (total_bytes - available_bytes) as u64 } else { 0 }),
{
    DiskSpace {
        total_bytes,
        available_bytes,
        used_bytes: if total_bytes >= available_bytes { total_bytes - available_bytes } else { 0 },
    }
}

/// An entry for a directory and its space.
fn entry(label: &str, path: &str, sp: DiskSpace) -> (r: DiskSpaceEntry)
    ensures
        r.label@ == label@,
        r.path@ == path@,
        r.total_bytes == sp.total_bytes,
        r.available_bytes == sp.available_bytes,
        r.used_bytes == sp.used_bytes,
{
    DiskSpaceEntry {
        label: label.to_owned(),
        path: path.to_owned(),
        total_bytes: sp.total_bytes,
        available_bytes: sp.available_bytes,
        used_bytes: sp.used_bytes,
    }
}

/// The space entries shown for the segment directory and the merge output
/// directory, given the space found for each (`None` when it could not be
/// read): nothing without the segment directory's space; two entries when
/// the merge directory is set and lies on a disk of another size; else one
/// entry labelled `all`.
pub fn get_disk_space_entries(
    ts_fragment_dir: &str,
    ts_merge_dir: Option<&str>,
    ts_space: Option<DiskSpace>,
    merge_space: Option<DiskSpace>,
) -> (r: Vec<DiskSpaceEntry>)
    ensures
        ts_space is None ==> r@.len() == 0,
        ts_space matches Some(ts) ==> ({
            let two = ts_merge_dir is Some && ts_merge_dir->0@.len() > 0 && merge_space is Some && merge_space->0.total_bytes != ts.total_bytes;
            &&& two ==> r@.len() == 2 && r@[0].label@ == "ts_fragment"@ && r@[0].path@ == ts_fragment_dir@
                && r@[0].total_bytes == ts.total_bytes && r@[0].available_bytes == ts.available_bytes && r@[0].used_bytes == ts.used_bytes
                && r@[1].label@ == "ts_merge"@ && r@[1].path@ == ts_merge_dir->0@
                && r@[1].total_bytes == merge_space->0.total_bytes && r@[1].available_bytes == merge_space->0.available_bytes
                && r@[1].used_bytes == merge_space->0.used_bytes
            &&& !two ==> r@.len() == 1 && r@[0].label@ == "all"@ && r@[0].path@ == ts_fragment_dir@
                && r@[0].total_bytes == ts.total_bytes && r@[0].available_bytes == ts.available_bytes && r@[0].used_bytes == ts.used_bytes
        }),
{
    let ts = match ts_space {
        Some(t) => t,
        None => {
            return Vec::new();
        },
    };
    let mut r: Vec<DiskSpaceEntry> = Vec::new();
    match (ts_merge_dir, merge_space) {
        (Some(d), Some(m)) => {
            if !d.is_empty() && m.total_bytes != ts.total_bytes {
                r.push(entry("ts_fragment", ts_fragment_dir, ts));
                r.push(entry("ts_merge", d, m));
                return r;
            }
        },
        _ => {},
    }
    r.push(entry("all", ts_fragment_dir, ts));
    r
}

} // verus!
