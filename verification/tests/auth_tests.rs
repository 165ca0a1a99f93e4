use stripchat_recorder::auth::{
    validate_password_strength, ClientIp, PasswordError, TokenStore, VerifyResult, LOCKOUT_MS, MAX_FAIL,
    TOKEN_TTL_MS,
};

const IP: ClientIp = ClientIp::V4(0x7f000001);
const OTHER_IP: ClientIp = ClientIp::V4(0x0a000001);

#[test]
fn login_then_verify_is_valid() {
    let mut store = TokenStore::new(true);
    store.create_session_with("tok-1".to_string(), IP, 1_000);
    assert_eq!(store.verify("tok-1", IP, 2_000), VerifyResult::Valid);
    assert!(store.is_logged_in(2_000));
}

#[test]
fn token_is_bound_to_its_address() {
    let mut store = TokenStore::new(true);
    store.create_session_with("tok-1".to_string(), IP, 1_000);
    assert_eq!(store.verify("tok-1", OTHER_IP, 2_000), VerifyResult::IpMismatch);
}

#[test]
fn unknown_token_is_invalid() {
    let mut store = TokenStore::new(true);
    assert_eq!(store.verify("nope", IP, 2_000), VerifyResult::Invalid);
}

#[test]
fn token_expires_after_eight_hours() {
    let mut store = TokenStore::new(true);
    store.create_session_with("tok-1".to_string(), IP, 1_000);
    assert_eq!(TOKEN_TTL_MS, 8 * 3600 * 1000);
    assert_eq!(store.verify("tok-1", IP, 1_000 + TOKEN_TTL_MS + 1), VerifyResult::Expired);
    // an expired session is closed
    assert_eq!(store.verify("tok-1", IP, 1_000 + TOKEN_TTL_MS + 2), VerifyResult::Invalid);
}

#[test]
fn verify_keeps_session_alive() {
    let mut store = TokenStore::new(true);
    store.create_session_with("tok-1".to_string(), IP, 0);
    let late = TOKEN_TTL_MS - 10;
    assert_eq!(store.verify("tok-1", IP, late), VerifyResult::Valid);
    // the session now lasts past its original end
    assert_eq!(store.verify("tok-1", IP, TOKEN_TTL_MS + 1_000), VerifyResult::Valid);
}

#[test]
fn renew_gives_full_lifetime() {
    let mut store = TokenStore::new(true);
    store.create_session_with("tok-1".to_string(), IP, 0);
    assert!(store.renew("tok-1", IP, 1_000));
    assert!(!store.renew("tok-1", OTHER_IP, 1_000));
    assert!(!store.renew("other", IP, 1_000));
    assert_eq!(store.verify("tok-1", IP, 1_000 + TOKEN_TTL_MS), VerifyResult::Valid);
}

#[test]
fn at_most_five_sessions() {
    let mut store = TokenStore::new(true);
    for i in 0..6u64 {
        store.create_session_with(format!("tok-{}", i), IP, 1_000 + i);
    }
    assert_eq!(store.verify("tok-0", IP, 2_000), VerifyResult::Invalid);
    for i in 1..6u64 {
        assert_eq!(store.verify(&format!("tok-{}", i), IP, 2_000), VerifyResult::Valid);
    }
}

#[test]
fn clear_logs_everyone_out() {
    let mut store = TokenStore::new(true);
    store.create_session_with("tok-1".to_string(), IP, 0);
    store.clear();
    assert!(!store.is_logged_in(1));
    assert_eq!(store.verify("tok-1", IP, 1), VerifyResult::Invalid);
}

#[test]
fn fifth_failure_locks_out_for_fifteen_minutes() {
    let mut store = TokenStore::new(true);
    assert_eq!(MAX_FAIL, 5);
    for _ in 0..4 {
        assert!(!store.record_fail(IP, 10_000));
    }
    assert!(store.record_fail(IP, 10_000));
    assert!(store.is_locked(IP, 10_000));
    assert_eq!(store.lockout_remaining_secs(IP, 10_000), LOCKOUT_MS / 1000);
    assert_eq!(LOCKOUT_MS / 1000, 900);
    assert!(!store.is_locked(OTHER_IP, 10_000));
    // the lockout ends
    assert!(!store.is_locked(IP, 10_000 + LOCKOUT_MS));
    assert_eq!(store.lockout_remaining_secs(IP, 10_000 + LOCKOUT_MS), 0);
}

#[test]
fn login_clears_failures() {
    let mut store = TokenStore::new(true);
    for _ in 0..4 {
        store.record_fail(IP, 10_000);
    }
    store.create_session_with("tok".to_string(), IP, 10_000);
    assert!(!store.record_fail(IP, 10_001));
}

#[test]
fn fresh_tokens_are_64_hex_digits() {
    let mut store = TokenStore::new(true);
    let a = store.create_session(IP, 0);
    let b = store.create_session(IP, 0);
    assert_eq!(a.len(), 64);
    assert!(a.chars().all(|c| c.is_ascii_hexdigit() && !c.is_ascii_uppercase()));
    assert_ne!(a, b);
    assert_eq!(store.verify(&a, IP, 1), VerifyResult::Valid);
}

#[test]
fn password_strength_rules() {
    assert!(matches!(validate_password_strength("a1!"), Err(PasswordError::TooShort)));
    assert!(matches!(validate_password_strength("123456!"), Err(PasswordError::NoLetter)));
    assert!(matches!(validate_password_strength("abcdef!"), Err(PasswordError::NoDigit)));
    assert!(matches!(validate_password_strength("abc123"), Err(PasswordError::NoSpecial)));
    assert!(validate_password_strength("abc12!").is_ok());
    // six characters, counted as characters
    assert!(validate_password_strength("密码1a!x").is_ok());
    assert_eq!(
        PasswordError::TooShort.message(),
        "密码长度不能少于 6 位 / Password must be at least 6 characters"
    );
    assert_eq!(PasswordError::NoSpecial.message(), "密码必须包含特殊字符 / Password must contain at least one special character");
}

#[test]
fn failures_count_on_until_the_fifth_locks() {
    for n in 0..8u32 {
        let mut store = TokenStore::new(true);
        for k in 0..n {
            store.record_fail(IP, 1_000 + k as u64);
        }
        let locked = store.record_fail(IP, 2_000);
        assert_eq!(locked, n + 1 >= MAX_FAIL);
        if locked {
            assert!(store.lockout_remaining_secs(IP, 2_000) <= LOCKOUT_MS / 1000);
        }
    }
}

#[test]
fn login_resets_only_its_own_failures() {
    let mut store = TokenStore::new(true);
    for k in 0..4u64 {
        store.record_fail(IP, 1_000 + k);
        store.record_fail(OTHER_IP, 1_000 + k);
    }
    assert!(!store.is_locked(IP, 2_000));
    assert!(!store.is_locked(OTHER_IP, 2_000));
    let token = store.create_session(IP, 2_000);
    assert_eq!(token.len(), 64);
    assert!(token.chars().all(|c| c.is_ascii_hexdigit() && !c.is_ascii_uppercase()));
    assert!(matches!(store.verify(&token, IP, 2_001), VerifyResult::Valid));
    assert!(!store.record_fail(IP, 3_000));
    assert!(store.record_fail(OTHER_IP, 3_000));
}
