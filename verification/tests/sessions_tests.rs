use stripchat_recorder::auth::{ClientIp, TokenStore};
use stripchat_recorder::auth_flow::{authorize, AuthDecision};
use stripchat_recorder::media::{m3u8_append_text, m3u8_path, resolution_from_probe};
use stripchat_recorder::recorder::RecorderError;
use stripchat_recorder::sessions::{merge_dir_entries, path_lies_in, SessionRegistry};
use stripchat_recorder::update::is_docker;

#[test]
fn start_stop_and_locks() {
    let mut r = SessionRegistry::new();
    r.start("alice", "/out/alice/alice_20240101_000000", "2024-01-01T00:00:00+00:00");
    assert!(r.is_recording("alice"));
    assert!(!r.is_recording("bob"));
    assert_eq!(r.active_count(), 1);
    assert!(r.is_file_locked("/out/alice/alice_20240101_000000/alice_segment000001.ts"));
    assert!(r.is_file_locked("/out/alice/alice_20240101_000000/"));
    assert!(!r.is_file_locked("/out/alice/alice_20240101_000000.mp4"));
    assert!(!r.is_file_locked("/out/alice"));
    assert_eq!(
        r.get_active_sessions(),
        vec![("/out/alice/alice_20240101_000000".to_string(), "2024-01-01T00:00:00+00:00".to_string())]
    );
    assert!(matches!(r.request_stop("bob", true), Err(RecorderError::NotRecording(u)) if u == "bob"));
    assert!(r.request_stop("alice", true).is_ok());
    assert!(!r.session_ended("alice"));
    assert!(!r.is_recording("alice"));
    assert!(r.naturally_stopped.is_empty());
    r.start("alice", "/out/alice/alice_2", "t");
    assert!(r.session_ended("alice"));
    assert_eq!(r.naturally_stopped, vec!["alice".to_string()]);
}

#[test]
fn path_components() {
    assert!(path_lies_in("/a/b/c", "/a/b"));
    assert!(path_lies_in("/a//b/./c", "/a/b/"));
    assert!(!path_lies_in("/a/bc", "/a/b"));
    assert!(!path_lies_in("a/b", "/a"));
}

#[test]
fn merging_directories() {
    let e = merge_dir_entries(&vec!["/out/u/u_1".to_string()], &vec!["/out/v/v_2".to_string()]);
    assert_eq!(e.len(), 2);
    assert_eq!((e[0].username.as_str(), e[0].stem.as_str(), e[0].status.as_str()), ("u", "u_1", "merging"));
    assert_eq!((e[1].username.as_str(), e[1].stem.as_str(), e[1].status.as_str()), ("v", "v_2", "waiting"));
}

#[test]
fn login_check() {
    let ip = ClientIp::V4(1);
    let mut open = TokenStore::new(false);
    assert_eq!(authorize(&mut open, "/api/streamers", None, ip, 0), AuthDecision::Pass);
    let mut s = TokenStore::new(true);
    assert_eq!(authorize(&mut s, "/index.html", None, ip, 0), AuthDecision::Pass);
    assert_eq!(authorize(&mut s, "/api/auth/login", None, ip, 0), AuthDecision::Pass);
    assert_eq!(authorize(&mut s, "/api/locales", None, ip, 0), AuthDecision::Pass);
    assert_eq!(authorize(&mut s, "/api/auth/change-password", None, ip, 0), AuthDecision::Unauthorized);
    assert_eq!(authorize(&mut s, "/api/streamers", Some("Bearer nope"), ip, 0), AuthDecision::Unauthorized);
    s.create_session_with("tok".to_string(), ip, 0);
    assert_eq!(authorize(&mut s, "/api/streamers", Some("Bearer tok"), ip, 1), AuthDecision::Pass);
    assert_eq!(authorize(&mut s, "/api/streamers", Some("Bearer tok"), ClientIp::V4(2), 1), AuthDecision::IpMismatch);
    assert_eq!(AuthDecision::IpMismatch.refusal_text(), Some("IP mismatch"));
    assert_eq!(AuthDecision::Pass.refusal_text(), None);
}

#[test]
fn segment_playlist_text() {
    assert_eq!(m3u8_path("/out/u/u_1"), "/out/u/u_1/playlist.m3u8");
    assert_eq!(
        m3u8_append_text(true, "/out/u/u_1/u_segment000001.ts").as_deref(),
        Some("#EXTM3U\n#EXT-X-VERSION:3\n#EXT-X-MEDIA-SEQUENCE:0\n#EXTINF:0,\nu_segment000001.ts\n")
    );
    assert_eq!(m3u8_append_text(false, "/out/u/u_1/s.ts").as_deref(), Some("#EXTINF:0,\ns.ts\n"));
}

#[test]
fn probe_resolution() {
    assert_eq!(resolution_from_probe("1920x1080\n").as_deref(), Some("1920x1080"));
    assert_eq!(resolution_from_probe("x"), None);
    assert_eq!(resolution_from_probe("0x1080"), None);
    assert_eq!(resolution_from_probe("1920x"), None);
    assert_eq!(resolution_from_probe("1x2x3"), None);
    assert_eq!(resolution_from_probe(""), None);
}

#[test]
fn container_detection() {
    assert!(is_docker(Some("1"), false, false, None));
    assert!(!is_docker(Some("0"), false, false, None));
    assert!(is_docker(None, true, false, None));
    assert!(is_docker(None, false, true, Some("0::/kubepods/besteffort")));
    assert!(!is_docker(None, false, false, Some("docker")));
    assert!(!is_docker(None, false, true, Some("0::/init.scope")));
}
