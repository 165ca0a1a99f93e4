use stripchat_recorder::discovery::{apply_port_defaults, builtin_module_infos, text_or, Discovered, ModuleInfo};
use stripchat_recorder::pipeline::PortType;
use stripchat_recorder::scheduler::{
    cleanup_message, config_check_step, midnight_wait, sync_url, LookupOutcome, SyncAttempts, SyncOutcome, SyncStep,
    UpdateNotifier,
};

#[test]
fn midnight() {
    assert_eq!(midnight_wait(0), 86400);
    assert_eq!(midnight_wait(-5), 86400);
    assert_eq!(midnight_wait(120), 120);
}

#[test]
fn sync_url_needs_text() {
    assert_eq!(sync_url(&None), None);
    assert_eq!(sync_url(&Some(String::new())), None);
    assert_eq!(sync_url(&Some("https://k".to_string())).as_deref(), Some("https://k"));
}

#[test]
fn sync_retries_then_gives_up() {
    let mut a = SyncAttempts::new();
    assert!(matches!(a.on_outcome(SyncOutcome::Failed("e1".to_string())), SyncStep::Retry));
    assert!(matches!(a.on_outcome(SyncOutcome::Failed("e2".to_string())), SyncStep::Retry));
    assert!(matches!(a.on_outcome(SyncOutcome::Failed("e3".to_string())), SyncStep::Retry));
    match a.on_outcome(SyncOutcome::Failed("boom".to_string())) {
        SyncStep::GiveUp(m) => assert_eq!(m, "Mouflon 密钥同步失败（已重试 3 次）：boom"),
        _ => panic!("expected give up"),
    }
    let mut b = SyncAttempts::new();
    assert!(matches!(b.on_outcome(SyncOutcome::Updated), SyncStep::AnnounceUpdate));
    assert!(matches!(b.on_outcome(SyncOutcome::Unchanged), SyncStep::Done));
}

#[test]
fn cleanup_report() {
    assert_eq!(cleanup_message(0), None);
    assert_eq!(cleanup_message(3).as_deref(), Some("已清理 3 个孤立的 meta 文件（对应视频已不存在）"));
}

#[test]
fn release_announced_once() {
    let mut n = UpdateNotifier::new();
    assert_eq!(n.on_release("1.2.0", "1.2.0", false), None);
    assert_eq!(n.on_release("1.3.0", "1.2.0", false).as_deref(), Some("发现新版本 v1.3.0，前往关于页面下载更新"));
    assert_eq!(n.on_release("1.3.0", "1.2.0", false), None);
    assert_eq!(n.on_release("1.4.0", "1.2.0", true).as_deref(), Some("发现新版本 v1.4.0，请更新 Docker 镜像以升级"));
}

#[test]
fn config_check_attempts() {
    assert_eq!(config_check_step(1, LookupOutcome::Found), Some(false));
    assert_eq!(config_check_step(1, LookupOutcome::NotFound), Some(true));
    assert_eq!(config_check_step(1, LookupOutcome::Failed), None);
    assert_eq!(config_check_step(3, LookupOutcome::Failed), Some(true));
}

fn module(id: &str, version: &str) -> ModuleInfo {
    ModuleInfo {
        id: id.to_string(),
        name: id.to_string(),
        version: version.to_string(),
        description: String::new(),
        input_types: Vec::new(),
        output_types: vec![PortType::VideoFile],
        params_json: "[]".to_string(),
        i18n_json: None,
        official: false,
        reusable: false,
        exe_path: String::new(),
    }
}

#[test]
fn discovery_keeps_highest_version() {
    let mut d = Discovered::new();
    assert!(d.offer(module("b", "1.0.0"), "/m/b1".to_string()));
    assert!(d.offer(module("a", "0.1"), "/m/a".to_string()));
    assert!(d.offer(module("b", "1.2"), "/m/b2".to_string()));
    assert!(!d.offer(module("b", "1.2.0"), "/m/b3".to_string()));
    assert!(!d.offer(module("b", "1.1.9"), "/m/b4".to_string()));
    let builtins = builtin_module_infos(
        text_or(None, "Recording Input"),
        text_or(None, "desc"),
        text_or(Some("解包".to_string()), "Unpack Media Bundle"),
        "d2".to_string(),
    );
    let all = d.finish(builtins);
    let got: Vec<(&str, &str)> = all.iter().map(|m| (m.id.as_str(), m.exe_path.as_str())).collect();
    assert_eq!(
        got,
        vec![("a", "/m/a"), ("b", "/m/b2"), ("__builtin__recording_input", ""), ("__builtin__unpack", "")]
    );
    assert_eq!(all[2].name, "Recording Input");
    assert_eq!(all[3].name, "解包");
    assert_eq!(all[3].output_types, vec![PortType::VideoFile, PortType::ImageFile]);
}

#[test]
fn describe_defaults_ports() {
    let mut m = module("x", "1");
    apply_port_defaults(&mut m);
    assert_eq!(m.input_types, vec![PortType::AnyFile]);
    assert_eq!(m.output_types, vec![PortType::VideoFile]);
}
