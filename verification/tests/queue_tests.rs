use stripchat_recorder::queue::{resolve_concurrency, system_info, MetaRecord, PpQueue};

#[test]
fn concurrency_resolution() {
    assert_eq!(resolve_concurrency(0, 4), 4);
    assert_eq!(resolve_concurrency(3, 4), 3);
    assert_eq!(resolve_concurrency(20, 4), 8);
    assert_eq!(resolve_concurrency(0, 1), 1);
    let info = system_info(6);
    assert_eq!(info.cpu_count, 6);
    assert_eq!(info.max_pp_concurrent_cap, 24);
    assert_eq!(info.max_concurrent_cap, 24);
}

#[test]
fn queue_lifecycle() {
    let mut q = PpQueue::new();
    q.enqueue("/v/a.mp4");
    assert!(q.is_queued("/v/a.mp4"));
    assert_eq!(q.get_status("/v/a.mp4").as_deref(), Some("waiting"));
    q.start("/v/a.mp4", 3);
    assert_eq!(q.get_status("/v/a.mp4").as_deref(), Some("running"));
    q.progress("/v/a.mp4", 5000, 7, "ts_merge", 1, 3);
    let t = &q.tasks[0].1;
    assert_eq!(t.pct_hundredths, 5000);
    assert_eq!(t.module_name, "ts_merge");
    assert_eq!(t.done, 1);
    assert_eq!(t.status, "running");
    // progress of an unknown task changes nothing
    q.progress("/v/none.mp4", 1, 1, "x", 1, 1);
    assert_eq!(q.tasks.len(), 1);
    q.finish("/v/a.mp4");
    assert!(!q.is_queued("/v/a.mp4"));
    assert_eq!(q.get_status("/v/a.mp4"), None);
}

#[test]
fn cancel_flags() {
    let mut q = PpQueue::new();
    assert!(!q.is_cancelled("/v/a.mp4"));
    // cancelling a path without a flag does nothing
    q.cancel("/v/a.mp4");
    assert!(!q.is_cancelled("/v/a.mp4"));
    q.enqueue("/v/a.mp4");
    assert!(!q.make_cancel_flag("/v/a.mp4"));
    q.cancel("/v/a.mp4");
    assert!(q.is_cancelled("/v/a.mp4"));
    // enqueueing again keeps the existing flag
    q.enqueue("/v/a.mp4");
    assert!(q.is_cancelled("/v/a.mp4"));
    assert!(q.make_cancel_flag("/v/a.mp4"));
    q.clear_cancel_flag("/v/a.mp4");
    assert!(!q.is_cancelled("/v/a.mp4"));
}

#[test]
fn permits_and_load_adjustment() {
    let mut q = PpQueue::new();
    q.set_concurrency(0, 2);
    assert_eq!(q.max_permits, 2);
    assert!(q.try_acquire());
    assert!(q.try_acquire());
    assert!(!q.try_acquire());
    assert_eq!(q.running, 2);
    q.release();
    assert_eq!(q.running, 1);
    assert_eq!(q.available, 1);
    // a lower ceiling leaves no free permit while one task runs
    assert_eq!(q.adjust_for_load(0), 1);
    assert_eq!(q.current_permits(), 0);
    assert!(!q.try_acquire());
    // the ceiling back at two: free = ceiling - running
    assert_eq!(q.adjust_for_load(10), 2);
    assert_eq!(q.current_permits(), 1);
    assert_eq!(q.adjusted_permits, 2);
    assert_eq!(q.max_permits, 2);
    assert!(q.try_acquire());
    assert_eq!(q.running_count(), 2);
    assert_eq!(q.adjust_for_load(1), 1);
    assert_eq!(q.current_permits(), 0);
    q.release();
    assert_eq!(q.current_permits(), 0);
    q.release();
    assert_eq!(q.current_permits(), 1);
}

#[test]
fn all_tasks_merges_finished_records() {
    let mut q = PpQueue::new();
    q.enqueue("/v/a.mp4");
    let records = vec![
        MetaRecord { status: "finish".to_string(), video_path: Some("/v/a.mp4".to_string()) },
        MetaRecord { status: "finish".to_string(), video_path: Some("/v/b.mp4".to_string()) },
        MetaRecord { status: "pp_error".to_string(), video_path: Some("/v/c.mp4".to_string()) },
        MetaRecord { status: "recording".to_string(), video_path: Some("/v/d.mp4".to_string()) },
        MetaRecord { status: "pp_error".to_string(), video_path: Some("/v/b.mp4".to_string()) },
        MetaRecord { status: "finish".to_string(), video_path: None },
    ];
    let mut all = q.get_all_tasks(&records);
    all.sort_by(|x, y| x.path.cmp(&y.path));
    assert_eq!(all.len(), 3);
    assert_eq!(all[0].path, "/v/a.mp4");
    assert_eq!(all[0].status, "waiting");
    assert!(all[0].from_memory);
    assert_eq!(all[1].path, "/v/b.mp4");
    assert_eq!(all[1].status, "done");
    assert_eq!(all[1].pct_hundredths, 10000);
    assert!(!all[1].from_memory);
    assert_eq!(all[2].path, "/v/c.mp4");
    assert_eq!(all[2].status, "error");
    assert_eq!(all[2].pct_hundredths, 0);
}

#[test]
fn queue_counts_permits_and_tracks_paths() {
    let mut q = PpQueue::new();
    assert_eq!(q.current_permits(), 1);
    assert_eq!(q.running_count(), 0);
    assert!(!q.is_tracked("/v/a.mp4"));
    q.enqueue("/v/a.mp4");
    assert!(q.is_tracked("/v/a.mp4"));
    assert!(q.try_acquire());
    assert_eq!(q.current_permits(), 0);
    assert_eq!(q.running_count(), 1);
    q.release();
    assert_eq!(q.current_permits(), 1);
    assert_eq!(q.running_count(), 0);
}
