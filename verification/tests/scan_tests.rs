use stripchat_recorder::meta::META_VERSION;
use stripchat_recorder::scan::{scan_entries, MetaState, ScanAction, ScanEntry};

fn entry(path: &str, name: &str, is_file: bool, is_dir: bool, ext: Option<&str>, has_ts: bool, meta: MetaState) -> ScanEntry {
    ScanEntry {
        path: path.to_string(),
        name: name.to_string(),
        is_file,
        is_dir,
        ext: ext.map(|e| e.to_string()),
        has_ts,
        meta,
        locked: false,
        queued: false,
        inferred_started_at: "2024-01-02T03:04:05+00:00".to_string(),
        actual_size: 42,
    }
}

#[test]
fn scan_creates_missing_metadata_and_returns_the_video() {
    let entries = vec![
        entry("/out/a/alice_20240102_030405.mp4", "alice_20240102_030405.mp4", true, false, Some("MP4"), false, MetaState::Missing),
        entry("/out/a/notes.txt", "notes.txt", true, false, Some("txt"), false, MetaState::Missing),
        entry("/out/a/.hidden.mp4", ".hidden.mp4", true, false, Some("mp4"), false, MetaState::Missing),
        entry("/out/a/sub", "sub", false, true, None, false, MetaState::Missing),
        entry("/out/a/alice_20240102_040000", "alice_20240102_040000", false, true, None, true, MetaState::Corrupt),
    ];
    let r = scan_entries(entries);
    assert_eq!(r.items.len(), 5);
    assert!(matches!(r.items[0].action, ScanAction::Create));
    let m = r.items[0].fresh.as_ref().unwrap();
    assert_eq!(m.status, "pp_waiting");
    assert_eq!(m.meta_version, META_VERSION);
    assert_eq!(m.size_bytes, 42);
    assert!(m.pp_execution.is_none());
    assert!(matches!(r.items[1].action, ScanAction::Skip));
    assert!(matches!(r.items[2].action, ScanAction::Skip));
    assert!(matches!(r.items[4].action, ScanAction::Rebuild));
    assert_eq!(r.pending, vec!["/out/a/alice_20240102_030405.mp4".to_string(), "/out/a/alice_20240102_040000".to_string()]);
    assert_eq!(r.descend, vec!["/out/a/sub".to_string()]);
}

#[test]
fn scan_leaves_a_locked_segment_directory_alone() {
    let mut e = entry("/out/a/s", "s", false, true, None, true, MetaState::Missing);
    e.locked = true;
    let r = scan_entries(vec![e]);
    assert!(matches!(r.items[0].action, ScanAction::Skip));
    assert!(r.pending.is_empty());
}
