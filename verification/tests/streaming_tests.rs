use stripchat_recorder::hls::{decrypt_segment_url, extract_sequence, get_url_prefix, parse_master_playlist, parse_playlist};
use stripchat_recorder::stripchat::{
    api_endpoint, cdn_candidates, check_broadcast_response, extract_node_id, is_renamed, BroadcastError,
};

const ENCODED: &str = "https://media.example/b-hls-01/12345/12345_cdQaAlHmN6tr3uA_1234.mp4";
const DECODED: &str = "https://media.example/b-hls-01/12345/12345_segment-abc_1234.mp4";

#[test]
fn segment_name_decryption() {
    assert_eq!(decrypt_segment_url(ENCODED, "Zokee2OhPh9kugh4").as_deref(), Some(DECODED));
    assert_eq!(decrypt_segment_url("https://x/plain.mp4", "k"), None);
}

#[test]
fn master_playlist_variants() {
    let m = "#EXTM3U\n#EXT-X-MOUFLON:PSCH:v1:Zokee2OhPh9kugh4\n#EXT-X-STREAM-INF:BANDWIDTH=2000000,RESOLUTION=1280x720\nhttps://a/720.m3u8\n#EXT-X-STREAM-INF:BANDWIDTH=5000000,RESOLUTION=1920x1080\nhttps://a/1080.m3u8\r\n#EXT-X-STREAM-INF:BANDWIDTH=800000,RESOLUTION=854x480\nhttps://a/480.m3u8\n";
    let (url, pairs) = parse_master_playlist(m, 0, false).unwrap();
    assert_eq!(url, "https://a/1080.m3u8");
    assert_eq!(pairs, vec![("v1".to_string(), "Zokee2OhPh9kugh4".to_string())]);
    assert_eq!(parse_master_playlist(m, 720, false).unwrap().0, "https://a/720.m3u8");
    assert_eq!(parse_master_playlist(m, 600, true).unwrap().0, "https://a/720.m3u8");
    assert_eq!(parse_master_playlist(m, 600, false).unwrap().0, "https://a/480.m3u8");
    assert_eq!(parse_master_playlist(m, 2000, true).unwrap().0, "https://a/1080.m3u8");
    assert_eq!(parse_master_playlist("#EXTM3U\n", 0, false), None);
}

#[test]
fn media_playlist_segments() {
    let p = format!(
        "#EXTM3U\n#EXT-X-MOUFLON:PSCH:v1:Zokee2OhPh9kugh4\n#EXT-X-MAP:URI=\"init.mp4\"\n#EXTINF:2.000,\n#EXT-X-MOUFLON:URI:{}\nmedia.mp4\n#EXTINF:2.500,\nhttps://media.example/seg_1235.mp4\n#EXTINF:1.0,\nrel_1236.mp4\n",
        ENCODED
    );
    let keys = vec![("Zokee2OhPh9kugh4".to_string(), "Zokee2OhPh9kugh4".to_string())];
    let (segs, init) = parse_playlist(&p, "https://cdn/x", &keys);
    assert_eq!(init.as_deref(), Some("https://cdn/x/init.mp4"));
    assert_eq!(segs.len(), 3);
    assert_eq!(segs[0].url, DECODED);
    assert_eq!(segs[0].sequence, 1234);
    assert_eq!(segs[0].duration_text.as_deref(), Some("2.000"));
    assert_eq!(segs[1].url, "https://media.example/seg_1235.mp4");
    assert_eq!(segs[1].sequence, 1235);
    assert_eq!(segs[2].url, "https://cdn/x/rel_1236.mp4");
    // without the key, the encoded URL is kept
    let (plain, _) = parse_playlist(&p, "https://cdn/x", &Vec::new());
    assert_eq!(plain[0].url, ENCODED);
}

#[test]
fn url_pieces() {
    assert_eq!(get_url_prefix("https://a/b/c.m3u8"), "https://a/b");
    assert_eq!(get_url_prefix("nosep"), "nosep");
    assert_eq!(extract_sequence("https://a/b/x_y_00042.mp4"), Some(42));
    assert_eq!(extract_sequence("https://a/b/x.mp4"), None);
}

#[test]
fn cdn_domains() {
    assert_eq!(extract_node_id("https://b-hls-11.doppiocdn.live/hls/1/1.m3u8").as_deref(), Some("b-hls-11"));
    assert_eq!(extract_node_id("http://x/y"), None);
    let c = cdn_candidates("https://edge.doppiocdn.net/a/doppiocdn.net/b");
    assert_eq!(c.len(), 5);
    assert_eq!(c[0], "https://edge.doppiocdn.com/a/doppiocdn.com/b");
    assert_eq!(c[2], "https://edge.doppiocdn.net/a/doppiocdn.net/b");
    assert_eq!(cdn_candidates("https://other.example/x"), vec!["https://other.example/x".to_string()]);
}

#[test]
fn endpoints_and_answers() {
    let e = api_endpoint(Some("mirror.example"), Some("http"));
    assert_eq!(e.api_url("https://stripchat.com/api/x"), "http://mirror.example/api/x");
    let plain = api_endpoint(Some(""), None);
    assert_eq!(plain.api_url("https://stripchat.com/api/x"), "https://stripchat.com/api/x");
    assert!(check_broadcast_response(200, true, true, None, None, "u").is_ok());
    match check_broadcast_response(404, false, true, Some("An error occurred"), Some("User not found"), "u") {
        Err(BroadcastError::UserNotFound(m)) => assert_eq!(m, "用户 u 不存在"),
        _ => panic!("expected user not found"),
    }
    match check_broadcast_response(502, false, false, None, None, "u") {
        Err(BroadcastError::Other(m)) => assert_eq!(m, "API 返回 502 (u)"),
        _ => panic!("expected other"),
    }
    assert!(!is_renamed("Alice", "alice"));
    assert!(is_renamed("Alicia", "alice"));
}
