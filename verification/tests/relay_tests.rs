use stripchat_recorder::relay::{
    already_sent, frame_segment, worker_after_cdn, worker_after_info, worker_start, FeedStep, InfoOutcome, LiveFeed,
    WorkerStep, IDLE_POLL_MS, MAX_FAILURES, RETRY_POLL_MS,
};

#[test]
fn worker_prefers_cached_model_id() {
    assert!(matches!(worker_start(Some(9)), WorkerStep::TryCdn { model_id: 9 }));
    assert!(matches!(worker_start(None), WorkerStep::FetchInfo { known_model_id: None }));
    assert!(matches!(worker_after_cdn(9, None), WorkerStep::FetchInfo { known_model_id: Some(9) }));
    match worker_after_cdn(9, Some("https://h/p.m3u8".to_string())) {
        WorkerStep::Feed { playlist_url, model_id, backfill } => {
            assert_eq!(playlist_url, "https://h/p.m3u8");
            assert_eq!(model_id, 9);
            assert_eq!(backfill, None);
        },
        _ => panic!("expected feed"),
    }
}

#[test]
fn worker_after_stream_info() {
    let live = InfoOutcome::Live { playlist_url: "u".to_string(), model_id: None };
    assert!(matches!(worker_after_info(None, live), WorkerStep::Feed { model_id: 0, backfill: None, .. }));
    let live = InfoOutcome::Live { playlist_url: "u".to_string(), model_id: None };
    assert!(matches!(worker_after_info(Some(4), live), WorkerStep::Feed { model_id: 4, .. }));
    let live = InfoOutcome::Live { playlist_url: "u".to_string(), model_id: Some(8) };
    assert!(matches!(worker_after_info(Some(4), live), WorkerStep::Feed { model_id: 8, backfill: Some(8), .. }));
    match worker_after_info(None, InfoOutcome::Offline { status: "off".to_string() }) {
        WorkerStep::Offline { status } => assert_eq!(status, "off"),
        _ => panic!("expected offline"),
    }
    assert!(matches!(worker_after_info(None, InfoOutcome::Failed), WorkerStep::Error));
}

#[test]
fn feed_stops_after_three_failures() {
    let mut f = LiveFeed::new("https://cdn/a/b/playlist.m3u8", 0);
    assert_eq!(f.url_prefix, "https://cdn/a/b");
    assert_eq!(MAX_FAILURES, 3);
    assert!(matches!(f.on_poll(None), FeedStep::FetchInfo { known_model_id: None }));
    assert!(matches!(f.on_info(InfoOutcome::Failed), FeedStep::Poll { wait_ms } if wait_ms == RETRY_POLL_MS));
    assert!(matches!(f.on_poll(None), FeedStep::FetchInfo { .. }));
    assert!(matches!(f.on_poll(None), FeedStep::Stop));
}

#[test]
fn feed_success_resets_failures() {
    let mut f = LiveFeed::new("https://cdn/a/p.m3u8", 5);
    assert!(matches!(f.on_poll(None), FeedStep::RefreshCdn { model_id: 5 }));
    assert_eq!(f.consecutive_failures, 1);
    assert!(matches!(f.on_poll(Some(true)), FeedStep::Poll { wait_ms: 0 }));
    assert_eq!(f.consecutive_failures, 0);
    assert!(matches!(f.on_poll(Some(false)), FeedStep::Poll { wait_ms } if wait_ms == IDLE_POLL_MS));
}

#[test]
fn feed_refresh_switches_url() {
    let mut f = LiveFeed::new("https://cdn/a/p.m3u8", 5);
    f.on_poll(None);
    assert!(matches!(f.on_cdn(None), FeedStep::FetchInfo { known_model_id: Some(5) }));
    assert!(matches!(f.on_cdn(Some("https://cdn2/x/q.m3u8".to_string())), FeedStep::Poll { .. }));
    assert_eq!(f.current_url, "https://cdn2/x/q.m3u8");
    assert_eq!(f.url_prefix, "https://cdn2/x");
    assert_eq!(f.consecutive_failures, 0);
    let step = f.on_info(InfoOutcome::Live { playlist_url: "https://c3/y/r.m3u8".to_string(), model_id: Some(6) });
    assert!(matches!(step, FeedStep::Backfill { model_id: 6, .. }));
    assert_eq!(f.url_prefix, "https://c3/y");
    match f.on_info(InfoOutcome::Offline { status: "private".to_string() }) {
        FeedStep::StopOffline { status } => assert_eq!(status, "private"),
        _ => panic!("expected stop"),
    }
}

#[test]
fn segments_and_framing() {
    assert!(already_sent(3, &vec![1, 2, 3]));
    assert!(!already_sent(4, &vec![1, 2, 3]));
    assert_eq!(frame_segment(&Some(vec![1, 2]), vec![3, 4]), vec![1, 2, 3, 4]);
    assert_eq!(frame_segment(&None, vec![3, 4]), vec![3, 4]);
}
