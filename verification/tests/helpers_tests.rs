use stripchat_recorder::path::{file_name, file_stem, parent};
use stripchat_recorder::bundle::{infer_initial_path, pack_bundle, session_dir_for, unpack_bundle};
use stripchat_recorder::community::{compare_versions, verify_checksum};
use stripchat_recorder::disk::disk_space;
use stripchat_recorder::meta::username_from_path;
use stripchat_recorder::monitor::dead_streamers_message;
use stripchat_recorder::offline::{escape_drawtext, to_ascii_status};
use stripchat_recorder::recorder::{plan_recording, segment_path, RecorderError};
use stripchat_recorder::scan::{parse_timestamp_from_stem, session_dir_timestamp_from_stem};
use stripchat_recorder::update::semver_gt;

#[test]
fn bundles_round_trip() {
    let b = pack_bundle("/v/a.mp4", "/v/a.webp");
    assert_eq!(b, "/v/a.mp4\n/v/a.webp");
    assert_eq!(unpack_bundle(&b), ("/v/a.mp4".to_string(), Some("/v/a.webp".to_string())));
    assert_eq!(unpack_bundle("/v/a.mp4"), ("/v/a.mp4".to_string(), None));
    assert_eq!(session_dir_for("/out/u/u_1.mp4").as_deref(), Some("/out/u/u_1"));
    assert_eq!(infer_initial_path("/out/u/u_1.mp4", true), "/out/u/u_1");
    assert_eq!(infer_initial_path("/out/u/u_1.mp4", false), "/out/u/u_1.mp4");
}

#[test]
fn checksums_use_sha256() {
    let data = b"abc".to_vec();
    let digest = "ba7816bf8f01cfea414140de5dae2223b00361a396177a9cb410ff61f20015ad";
    assert!(verify_checksum("m", &data, Some(digest)).is_ok());
    assert!(verify_checksum("m", &data, Some(&digest.to_uppercase())).is_ok());
    assert!(verify_checksum("m", &data, Some("00")).is_err());
    assert!(verify_checksum("m", &data, None).is_ok());
}

#[test]
fn versions() {
    assert_eq!(compare_versions("1.2.0", "1.10"), -1);
    assert_eq!(compare_versions("1.2", "1.2.0"), 0);
    assert_eq!(compare_versions("2", "1.9.9"), 1);
    assert!(semver_gt("1.3.0", "1.2.9"));
    assert!(!semver_gt("1.2.9", "1.3.0"));
    assert!(!semver_gt("1.2.0", "1.2.0"));
}

#[test]
fn disk_usage() {
    let d = disk_space(100, 30);
    assert_eq!((d.total_bytes, d.available_bytes, d.used_bytes), (100, 30, 70));
    assert_eq!(disk_space(10, 30).used_bytes, 0);
}

#[test]
fn paths_and_names() {
    assert_eq!(username_from_path("/out/alice/alice_1.mp4"), "alice");
    assert_eq!(username_from_path("a.mp4"), "unknown");
    assert_eq!(segment_path("/out/a/a_1", "a", 42), "/out/a/a_1/a_segment000042.ts");
    assert_eq!(segment_path("/out/a/a_1", "a", 1234567), "/out/a/a_1/a_segment1234567.ts");
    assert_eq!(session_dir_timestamp_from_stem("alice_20240101_123456"), "20240101_123456");
    assert_eq!(session_dir_timestamp_from_stem("alice"), "alice");
    assert!(parse_timestamp_from_stem("alice_20240101_123456").is_some());
    assert_eq!(parse_timestamp_from_stem("alice"), None);
    assert_eq!(parse_timestamp_from_stem("alice_20241301_123456"), None);
}

#[test]
fn recording_plan() {
    assert_eq!(plan_recording(false, 0, 9, "/out", "a", "20240101_000000").unwrap(), "/out/a/a_20240101_000000");
    assert!(matches!(plan_recording(true, 0, 0, "/out", "a", "t"), Err(RecorderError::AlreadyRecording(_))));
    assert!(matches!(plan_recording(false, 2, 2, "/out", "a", "t"), Err(RecorderError::MaxConcurrent)));
}

#[test]
fn offline_frame_texts() {
    assert_eq!(escape_drawtext("a:b'c[d]\\"), "a\\:b\\'c\\[d\\]\\\\");
    assert_eq!(to_ascii_status("私密秀"), "Private Show");
}

#[test]
fn dead_streamer_notice() {
    assert_eq!(
        dead_streamers_message(&vec!["a".to_string()]),
        "Streamer a cannot be found by username or internal ID (possibly renamed, deleted, or banned). Future polls will be skipped."
    );
    assert_eq!(
        dead_streamers_message(&vec!["a".to_string(), "b".to_string()]),
        "2 streamers cannot be found (possibly renamed, deleted, or banned). Future polls will be skipped: a, b"
    );
}

#[test]
fn timestamp_from_stem_keeps_local_date_and_time() {
    if let Some(s) = parse_timestamp_from_stem("alice_20240102_030405") {
        assert_eq!(&s[..19], "2024-01-02T03:04:05");
    }
    assert_eq!(parse_timestamp_from_stem("alice_2024_0304"), None);
    assert_eq!(parse_timestamp_from_stem("plain"), None);
}

#[test]
fn paths_read_as_std_path_reads_them() {
    let v = |s: &str| s.chars().collect::<Vec<char>>();
    let s = |o: Option<Vec<char>>| o.map(|c| c.into_iter().collect::<String>());
    // a file directly under the root has the root as its parent
    assert_eq!(s(parent(&v("/a.mp4"))).as_deref(), Some("/"));
    assert_eq!(s(parent(&v("/"))), None);
    assert_eq!(s(parent(&v(""))), None);
    assert_eq!(s(parent(&v("a"))).as_deref(), Some(""));
    assert_eq!(s(parent(&v("/a//b/"))).as_deref(), Some("/a"));
    assert_eq!(s(parent(&v("./a"))).as_deref(), Some("."));
    // trailing `.` components do not count
    assert_eq!(s(file_name(&v("foo.txt/."))).as_deref(), Some("foo.txt"));
    assert_eq!(s(parent(&v("foo.txt/."))).as_deref(), Some(""));
    assert_eq!(s(file_stem(&v("foo.txt/."))).as_deref(), Some("foo"));
    assert_eq!(s(file_name(&v("/a/b/./"))).as_deref(), Some("b"));
    assert_eq!(s(parent(&v("/a/./b"))).as_deref(), Some("/a"));
    assert_eq!(s(file_name(&v("."))), None);
    assert_eq!(s(file_name(&v("/a/.."))), None);
    assert_eq!(s(parent(&v("/.."))).as_deref(), Some("/"));
}

#[test]
fn recordings_under_the_root_and_dotted_paths() {
    assert_eq!(session_dir_for("/a.mp4").as_deref(), Some("/a"));
    assert_eq!(infer_initial_path("/a.mp4", true), "/a");
    assert_eq!(username_from_path("/a.mp4"), "unknown");
    assert_eq!(username_from_path("foo.txt/."), "unknown");
}
