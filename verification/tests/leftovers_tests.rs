use stripchat_recorder::maintenance::{is_orphaned_meta, mark_finished, plan_upkeep, UpkeepPlan};
use stripchat_recorder::meta::initial_meta;
use stripchat_recorder::segment_merge::{has_segment_files, is_unprocessed_video, plan_leftovers, str_lt, VideoCandidate};

fn cand(path: Option<&str>, status: &str, is_file: bool, in_queue: bool) -> VideoCandidate {
    VideoCandidate { video_path: path.map(|p| p.to_string()), status: status.to_string(), is_file, in_queue }
}

#[test]
fn text_order() {
    assert!(str_lt("20240101_000000", "20240102_000000"));
    assert!(str_lt("ab", "abc"));
    assert!(!str_lt("abc", "abc"));
    assert!(!str_lt("b", "a"));
}

#[test]
fn unprocessed_videos() {
    assert!(is_unprocessed_video(&cand(Some("/v/a.mp4"), "pp_waiting", true, false)));
    assert!(!is_unprocessed_video(&cand(Some("/v/a.mp4"), "pp_waiting", true, true)));
    assert!(!is_unprocessed_video(&cand(Some("/v/a.mp4"), "finish", true, false)));
    assert!(!is_unprocessed_video(&cand(Some("/v/a.mp4"), "pp_error", true, false)));
    assert!(!is_unprocessed_video(&cand(Some("/v/a.mp4"), "recording", true, false)));
    assert!(!is_unprocessed_video(&cand(Some("/v/a.mp4"), "merging", false, false)));
    assert!(!is_unprocessed_video(&cand(None, "merging", true, false)));
    assert!(is_unprocessed_video(&cand(Some("/v/a.mp4"), "merging", true, false)));
}

#[test]
fn leftovers_are_ordered_oldest_first() {
    let dirs = vec![
        "/out/alice/alice_20240105_120000".to_string(),
        "/out/bob/bob_20240101_080000".to_string(),
        "/out/carol/carol_20240103_000000".to_string(),
    ];
    let locked = vec![false, false, true];
    let videos = vec![
        cand(Some("/out/x/x_20240110_000000.mp4"), "pp_waiting", true, false),
        cand(Some("/out/y/y_20240102_000000.mp4"), "merging", true, false),
        cand(Some("/out/z/z_20240101_000000.mp4"), "finish", true, false),
    ];
    let plan = plan_leftovers(dirs, locked, videos, true, false);
    assert_eq!(plan.segment_dirs, vec!["/out/bob/bob_20240101_080000".to_string(), "/out/alice/alice_20240105_120000".to_string()]);
    assert_eq!(plan.videos, vec!["/out/y/y_20240102_000000.mp4".to_string(), "/out/x/x_20240110_000000.mp4".to_string()]);
    assert!(plan.run_videos);
    assert!(!plan.run_dirs);
    assert!(plan.merged_paths().is_empty());
    assert!(!plan.is_empty());
}

#[test]
fn segment_directories_hold_ts_files() {
    assert!(has_segment_files(&vec!["/d/a.txt".to_string(), "/d/seg_000001.ts".to_string()]));
    assert!(!has_segment_files(&vec!["/d/a.txt".to_string(), "/d/ts".to_string()]));
}

#[test]
fn orphaned_metadata() {
    assert!(is_orphaned_meta("a.json", Some("/v/a.mp4"), false));
    assert!(!is_orphaned_meta("a.json", Some("/v/a.mp4"), true));
    assert!(!is_orphaned_meta("a.txt", Some("/v/a.mp4"), false));
    assert!(!is_orphaned_meta("a.json", None, false));
}

#[test]
fn upkeep_plans() {
    assert!(matches!(plan_upkeep(Vec::new(), true), UpkeepPlan::Idle));
    let pending = vec![
        ("2024-01-02T00:00:00+08:00".to_string(), "/v/b.mp4".to_string()),
        ("2024-01-01T00:00:00+08:00".to_string(), "/v/a.mp4".to_string()),
        ("".to_string(), "/v/unknown.mp4".to_string()),
    ];
    match plan_upkeep(pending.clone(), true) {
        UpkeepPlan::Process(v) => assert_eq!(v, vec!["/v/unknown.mp4", "/v/a.mp4", "/v/b.mp4"]),
        _ => panic!("expected process"),
    }
    match plan_upkeep(pending, false) {
        UpkeepPlan::MarkFinished(v) => assert_eq!(v.len(), 3),
        _ => panic!("expected mark finished"),
    }
    let mut m = initial_meta("pp_waiting", "2024", 10);
    mark_finished(&mut m);
    assert_eq!(m.status, "finish");
    assert_eq!(m.size_bytes, 10);
}
