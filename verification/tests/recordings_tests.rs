use stripchat_recorder::meta::initial_meta;
use stripchat_recorder::queue::PpQueue;
use stripchat_recorder::recordings::{
    active_entry, begin_delete, is_listed, list_recordings, listing_size, mime_for, output_file, sidecar_paths,
    stale_size, ActiveSession, FileQuery, MetaListing,
};

fn listing(path: &str, status: &str, started: &str, is_dir: bool, exists: bool, measured: Option<u64>) -> MetaListing {
    let mut meta = initial_meta(status, started, 100);
    meta.video_path = Some(path.to_string());
    MetaListing { meta, is_dir, exists, measured_size: measured, existing_outputs: Vec::new() }
}

#[test]
fn active_recording_entry() {
    let s = ActiveSession {
        session_dir: "/out/alice/alice_20240101_000000".to_string(),
        started_at: "2024-01-01T00:00:00+00:00".to_string(),
        elapsed_secs: 42,
        size_bytes: 1000,
    };
    let stats = vec![("/out/alice/alice_20240101_000000".to_string(), (7u64, 1u64))];
    let f = active_entry(s, &stats);
    assert_eq!(f.name, "alice_20240101_000000");
    assert_eq!(f.username, "alice");
    assert!(f.is_recording);
    assert_eq!(f.status.as_deref(), Some("recording"));
    assert_eq!(f.record_duration_secs, Some(42));
    assert_eq!(f.segments_downloaded, Some(7));
    assert_eq!(f.segments_failed, Some(1));
}

#[test]
fn list_is_newest_first_without_duplicates() {
    let sessions = vec![ActiveSession {
        session_dir: "/out/bob/bob_20240103_000000".to_string(),
        started_at: "2024-01-03T00:00:00+00:00".to_string(),
        elapsed_secs: 1,
        size_bytes: 5,
    }];
    let listings = vec![
        listing("/out/alice/alice_20240101_000000.mp4", "finish", "2024-01-01T00:00:00+00:00", false, true, Some(500)),
        listing("/out/bob/bob_20240103_000000", "pp_waiting", "2024-01-03T00:00:00+00:00", true, true, Some(9)),
        listing("/out/carol/carol_20240102_000000.mp4", "pp_waiting", "2024-01-02T00:00:00+00:00", false, false, None),
        listing("/out/dave/dave_20240104_000000.mp4", "recording", "2024-01-04T00:00:00+00:00", false, true, None),
    ];
    let mut q = PpQueue::new();
    q.enqueue("/out/carol/carol_20240102_000000.mp4");
    q.start("/out/carol/carol_20240102_000000.mp4", 2);
    let files = list_recordings(sessions, &Vec::new(), listings, &q);
    let names: Vec<&str> = files.iter().map(|f| f.name.as_str()).collect();
    assert_eq!(names, vec!["bob_20240103_000000", "carol_20240102_000000.mp4", "alice_20240101_000000.mp4"]);
    assert_eq!(files[1].status.as_deref(), Some("running"));
    assert_eq!(files[1].size_bytes, 100);
    assert_eq!(files[2].size_bytes, 500);
    assert_eq!(files[2].status.as_deref(), Some("finish"));
    assert_eq!(files[2].username, "alice");
}

#[test]
fn listing_rules() {
    let l = listing("/out/a/a_1.mp4", "finish", "t", false, true, Some(300));
    assert_eq!(listing_size(&l), 300);
    assert_eq!(stale_size(&l), Some(300));
    let same = listing("/out/a/a_1.mp4", "finish", "t", false, true, Some(100));
    assert_eq!(stale_size(&same), None);
    let dir = listing("/out/a/a_1", "pp_waiting", "t", true, true, Some(300));
    assert_eq!(stale_size(&dir), None);
    assert!(is_listed(&l, &Vec::new()));
    assert!(!is_listed(&l, &vec!["a_1".to_string()]));
}

#[test]
fn deleting_bookkeeping() {
    let mut q = PpQueue::new();
    assert_eq!(begin_delete(&mut q, "/v/a.mp4", true).unwrap_err(), "录制中，无法删除");
    q.enqueue("/v/a.mp4");
    assert!(begin_delete(&mut q, "/v/a.mp4", false).is_ok());
    assert!(!q.is_queued("/v/a.mp4"));
    assert!(q.is_cancelled("/v/a.mp4"));
    assert_eq!(
        sidecar_paths("/v/a.mp4"),
        vec!["/v/a.webp".to_string(), "/v/a.jpg".to_string(), "/v/a.jpeg".to_string(), "/v/a.png".to_string()]
    );
}

#[test]
fn output_files() {
    assert_eq!(mime_for("/x/a.webp"), "image/webp");
    assert_eq!(mime_for("/x/a.jpeg"), "image/jpeg");
    assert_eq!(mime_for("/x/a.png"), "image/png");
    assert_eq!(mime_for("/x/a.bin"), "application/octet-stream");
    let q = FileQuery { video_path: "/v/a.mp4".to_string(), module_id: "contact_sheet".to_string() };
    assert_eq!(output_file(&q, None, &Vec::new()).unwrap_err(), "recording not found");
    assert_eq!(output_file(&q, Some(None), &Vec::new()).unwrap_err(), "module output not found");
}
