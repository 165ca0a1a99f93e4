use stripchat_recorder::app_state::{
    default_language, default_mouflon_sync_url, default_sc_mirror_scheme, default_server_port, first_start_pipeline,
    settings_change, AppData, MouflonKeysStore, Settings,
};
use stripchat_recorder::pipeline::{ParamValue, PipelineConfig};

fn data() -> AppData {
    AppData {
        settings: Settings::defaults("/opt/app"),
        streamers: Vec::new(),
        mouflon_keys: MouflonKeysStore { keys: Vec::new(), auto_synced_at: None, manual_updated_at: None },
        pipeline: PipelineConfig { version: "1".to_string(), nodes: Vec::new() },
    }
}

#[test]
fn settings_defaults() {
    let s = Settings::defaults("/opt/app");
    assert_eq!(s.output_dir, "/opt/app/recordings");
    assert_eq!(s.poll_interval_secs, 30);
    assert!(s.auto_record);
    assert_eq!(s.sc_mirror_scheme, "https");
    assert_eq!(s.language, "zh-CN");
    assert_eq!(s.server_port, 3030);
    assert_eq!(s.max_tmp_dir_gb_milli, 50_000);
    assert_eq!(s.mouflon_sync_url.as_deref(), Some("https://mouflon.chantrail.com"));
    assert!(!s.setup_done);
    assert!(s.admin_password_hash.is_none());
    assert_eq!(default_language(), "zh-CN");
    assert_eq!(default_sc_mirror_scheme(), "https");
    assert_eq!(default_server_port(), 3030);
    assert_eq!(default_mouflon_sync_url().as_deref(), Some("https://mouflon.chantrail.com"));
}

#[test]
fn settings_change_detection() {
    let a = Settings::defaults("/x");
    let mut b = Settings::defaults("/x");
    assert_eq!(settings_change(&a, &b), (false, false));
    b.poll_interval_secs = 60;
    assert_eq!(settings_change(&a, &b), (true, false));
    b.mouflon_sync_token = Some("t".to_string());
    assert_eq!(settings_change(&a, &b), (true, true));
}

#[test]
fn add_streamer_and_refuse_duplicate() {
    let mut d = data();
    assert!(d.add_streamer("alice", Some(7), "2024-01-01T00:00:00+00:00").is_ok());
    assert_eq!(d.streamers.len(), 1);
    assert_eq!(d.streamers[0].username, "alice");
    assert!(d.streamers[0].auto_record);
    assert_eq!(d.streamers[0].model_id, Some(7));
    let e = d.add_streamer("alice", None, "later").unwrap_err();
    assert_eq!(e, "模特 alice 已存在");
    assert_eq!(d.streamers.len(), 1);
}

#[test]
fn backfill_keeps_existing_id() {
    let mut d = data();
    d.add_streamer("bob", None, "t").unwrap();
    assert!(d.backfill_model_id("bob", 42));
    assert_eq!(d.streamers[0].model_id, Some(42));
    assert!(!d.backfill_model_id("bob", 43));
    assert_eq!(d.streamers[0].model_id, Some(42));
    assert!(!d.backfill_model_id("nobody", 1));
}

#[test]
fn rename_follows_and_refuses_taken_names() {
    let mut d = data();
    d.add_streamer("old", Some(1), "t").unwrap();
    d.add_streamer("other", Some(2), "t").unwrap();
    assert_eq!(d.rename_streamer("old", "other").unwrap_err(), "无法改名：other 已存在于追踪列表中");
    assert!(d.rename_streamer("old", "new").is_ok());
    assert_eq!(d.streamers[0].username, "new");
    assert_eq!(d.streamers[0].model_id, Some(1));
}

#[test]
fn dead_streamers_and_removal() {
    let mut d = data();
    d.add_streamer("a", None, "t").unwrap();
    d.add_streamer("b", None, "t").unwrap();
    d.add_streamer("c", None, "t").unwrap();
    assert!(d.mark_streamer_dead("b"));
    assert!(!d.mark_streamer_dead("b"));
    assert_eq!(d.dead_streamers(), vec!["b".to_string()]);
    d.set_auto_record("c", false);
    assert!(!d.streamers[2].auto_record);
    d.remove_streamer("b");
    let names: Vec<&str> = d.streamers.iter().map(|s| s.username.as_str()).collect();
    assert_eq!(names, vec!["a", "c"]);
}

#[test]
fn manual_mouflon_keys() {
    let mut d = data();
    d.add_mouflon_key("pk", "pd", "2024-01-01T00:00:00+00:00");
    assert_eq!(d.mouflon_keys.keys, vec![("pk".to_string(), "pd".to_string())]);
    assert_eq!(d.mouflon_keys.manual_updated_at.as_deref(), Some("2024-01-01T00:00:00+00:00"));
    d.add_mouflon_key("pk", "pd2", "later");
    assert_eq!(d.mouflon_keys.keys, vec![("pk".to_string(), "pd2".to_string())]);
    d.remove_mouflon_key("pk", "last");
    assert!(d.mouflon_keys.keys.is_empty());
    assert_eq!(d.mouflon_keys.manual_updated_at.as_deref(), Some("last"));
}

#[test]
fn source_keys_merge_on_new_timestamp() {
    let mut store = MouflonKeysStore {
        keys: vec![("a".to_string(), "local".to_string()), ("z".to_string(), "mine".to_string())],
        auto_synced_at: None,
        manual_updated_at: None,
    };
    let source = vec![("a".to_string(), "remote".to_string()), ("b".to_string(), "rb".to_string())];
    assert!(store.merge_source_keys(&source, "2024-01-01T08:00:00+08:00"));
    // source keys overwrite local ones; keys held only locally stay
    assert_eq!(
        store.keys,
        vec![
            ("a".to_string(), "remote".to_string()),
            ("z".to_string(), "mine".to_string()),
            ("b".to_string(), "rb".to_string())
        ]
    );
    // the time is recorded in UTC
    assert_eq!(store.auto_synced_at.as_deref(), Some("2024-01-01T00:00:00+00:00"));
    // the same instant, written otherwise: skipped, even with a key missing
    let more = vec![("c".to_string(), "rc".to_string())];
    assert!(!store.merge_source_keys(&more, "2024-01-01T00:00:00Z"));
    assert_eq!(store.keys.len(), 3);
    assert_eq!(store.auto_synced_at.as_deref(), Some("2024-01-01T00:00:00+00:00"));
    // a new instant takes the missing key in
    assert!(store.merge_source_keys(&more, "2024-01-02T00:00:00Z"));
    assert_eq!(store.keys.len(), 4);
}

#[test]
fn unparsable_source_time_is_kept_as_given() {
    let mut store = MouflonKeysStore { keys: Vec::new(), auto_synced_at: None, manual_updated_at: None };
    assert!(store.merge_source_keys(&Vec::new(), "yesterday"));
    assert_eq!(store.auto_synced_at.as_deref(), Some("yesterday"));
}

#[test]
fn admin_password_round_trip() {
    let mut d = data();
    assert!(!d.has_admin_password());
    assert!(!d.verify_admin_password("abc12!"));
    d.set_admin_password("abc12!").unwrap();
    assert!(d.has_admin_password());
    assert!(d.settings.admin_password_hash.as_deref().unwrap().starts_with("$argon2id$"));
    assert!(d.verify_admin_password("abc12!"));
    assert!(!d.verify_admin_password("abc12?"));
}

#[test]
fn first_start_pipeline_merges_recordings() {
    let p = first_start_pipeline();
    assert_eq!(p.version, "1");
    assert_eq!(p.nodes.len(), 1);
    let n = &p.nodes[0];
    assert_eq!(n.module_id, "ts_merge");
    assert!(n.enabled);
    assert!(matches!(&n.params[0].1, ParamValue::Text(t) if t == "mp4"));
    assert_eq!(n.params[0].0, "format");
    assert!(matches!(&n.params[1].1, ParamValue::Json(t) if t == "true"));
    assert_eq!(n.inputs[0].0, 0);
    assert_eq!(n.inputs[0].1.node_id, "0");
}

#[test]
fn setting_password_keeps_other_settings() {
    let mut d = data();
    let before = d.settings.clone();
    assert!(d.set_admin_password("Secret123").is_ok());
    assert!(d.verify_admin_password("Secret123"));
    assert!(!d.verify_admin_password("Secret124"));
    assert_eq!(d.settings.output_dir, before.output_dir);
    assert_eq!(d.settings.server_port, before.server_port);
    assert_eq!(d.settings.language, before.language);
}
