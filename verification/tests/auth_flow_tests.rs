use stripchat_recorder::app_state::{AppData, MouflonKeysStore, Settings};
use stripchat_recorder::auth::{ClientIp, TokenStore};
use stripchat_recorder::auth_flow::{
    auth_status, bearer_token, change_password, init_password, login, logout, renew, ChangePasswordBody, PasswordBody,
};
use stripchat_recorder::pipeline::PipelineConfig;

const IP: ClientIp = ClientIp::V6(1);

fn data() -> AppData {
    AppData {
        settings: Settings::defaults("/app"),
        streamers: Vec::new(),
        mouflon_keys: MouflonKeysStore { keys: Vec::new(), auto_synced_at: None, manual_updated_at: None },
        pipeline: PipelineConfig { version: "1".to_string(), nodes: Vec::new() },
    }
}

fn body(p: &str) -> PasswordBody {
    PasswordBody { password: p.to_string() }
}

#[test]
fn first_password_then_login() {
    let mut d = data();
    let mut s = TokenStore::new(false);
    assert_eq!(init_password(&mut d, &mut s, body("abc")).unwrap_err(), "密码长度不能少于 6 位 / Password must be at least 6 characters");
    assert!(init_password(&mut d, &mut s, body("  abc12!  ")).is_ok());
    assert!(s.has_password());
    assert_eq!(init_password(&mut d, &mut s, body("xyz12!")).unwrap_err(), "管理员密码已设置");
    let st = auth_status(&d, &s, 0);
    assert!(st.password_set);
    assert!(!st.logged_in);
    assert_eq!(login(&d, &mut s, IP, body("wrong1!"), 1_000).unwrap_err(), "密码错误 / Wrong password");
    let tok = login(&d, &mut s, IP, body("abc12!"), 1_000).unwrap().token;
    assert_eq!(tok.len(), 64);
    assert!(auth_status(&d, &s, 2_000).logged_in);
    let header = format!("Bearer {}", tok);
    assert!(renew(&mut s, Some(&header), IP, 2_000).is_ok());
    assert_eq!(renew(&mut s, None, IP, 2_000).unwrap_err(), "缺少 Token / Missing token");
    assert_eq!(renew(&mut s, Some("Bearer x"), IP, 2_000).unwrap_err(), "Token 无效或已过期 / Token invalid or expired");
    logout(&mut s);
    assert!(!auth_status(&d, &s, 2_000).logged_in);
}

#[test]
fn repeated_wrong_passwords_lock_the_address() {
    let mut d = data();
    let mut s = TokenStore::new(false);
    init_password(&mut d, &mut s, body("abc12!")).unwrap();
    for _ in 0..4 {
        assert_eq!(login(&d, &mut s, IP, body("nope12!"), 5_000).unwrap_err(), "密码错误 / Wrong password");
    }
    assert_eq!(
        login(&d, &mut s, IP, body("nope12!"), 5_000).unwrap_err(),
        "密码错误次数过多，IP 已被封禁 900 秒 / Too many failures, IP locked for 900s"
    );
    assert_eq!(
        login(&d, &mut s, IP, body("abc12!"), 6_000).unwrap_err(),
        "登录失败次数过多，IP 已被临时封禁，请 899 秒后重试 / Too many failures, retry after 899s"
    );
    assert!(login(&d, &mut s, IP, body("abc12!"), 5_000 + 900_000).is_ok());
}

#[test]
fn change_password_flow() {
    let mut d = data();
    let mut s = TokenStore::new(false);
    init_password(&mut d, &mut s, body("abc12!")).unwrap();
    let tok = login(&d, &mut s, IP, body("abc12!"), 0).unwrap().token;
    let header = format!("Bearer {}", tok);
    let cp = |o: &str, n: &str| ChangePasswordBody { old_password: o.to_string(), new_password: n.to_string() };
    assert_eq!(change_password(&mut d, &mut s, None, IP, cp("abc12!", "new12!"), 1).unwrap_err(), "缺少 Token / Missing token");
    assert_eq!(
        change_password(&mut d, &mut s, Some(&header), ClientIp::V4(1), cp("abc12!", "new12!"), 1).unwrap_err(),
        "IP 与登录时不一致，请重新登录 / IP mismatch, please re-login"
    );
    assert_eq!(change_password(&mut d, &mut s, Some("Bearer bad"), IP, cp("abc12!", "new12!"), 1).unwrap_err(), "Token 无效 / Invalid token");
    assert_eq!(
        change_password(&mut d, &mut s, Some(&header), IP, cp("abc12!", "newpass"), 1).unwrap_err(),
        "密码必须包含数字 / Password must contain at least one digit"
    );
    assert_eq!(
        change_password(&mut d, &mut s, Some(&header), IP, cp("wrong1!", "new12!"), 1).unwrap_err(),
        "旧密码错误 / Wrong current password"
    );
    assert!(change_password(&mut d, &mut s, Some(&header), IP, cp("abc12!", " new12! "), 1).is_ok());
    assert!(!s.is_logged_in(2));
    assert!(d.verify_admin_password("new12!"));
    assert!(!d.verify_admin_password("abc12!"));
}

#[test]
fn bearer_header() {
    assert_eq!(bearer_token(Some("Bearer abc")).as_deref(), Some("abc"));
    assert_eq!(bearer_token(Some("Basic abc")), None);
    assert_eq!(bearer_token(None), None);
}
