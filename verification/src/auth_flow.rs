//! The requests of the login API: status, first password, login, renewal,
//! logout and password change, over the settings and the token store.
//!
//! The caller reads the request (address, header, body) and writes the
//! answer; what is answered, and how the store changes, is decided here.
use vstd::prelude::*;
use crate::app_state::{AppData, accepts_password};
use crate::auth::{ClientIp, TokenStore, VerifyResult, create_spec, fail_index, locked_spec, password_check,
    password_error_text, record_fail_spec, session_index, store_wf, validate_password_strength, verify_spec,
    StoreV, TOKEN_TTL_MS};
use crate::text::{concat, decimal, decimal_string, from_chars, strip_prefix, to_chars, trim, trim_seq, has_prefix};

verus! {

/// Whether a password is set and whether someone is logged in.
#[derive(Debug, Clone)]
pub struct AuthStatusResponse {
    pub password_set: bool,
    pub logged_in: bool,
}

/// The token of a new session.
#[derive(Debug, Clone)]
pub struct LoginResponse {
    pub token: String,
}

/// A request body holding a password.
#[derive(Debug, Clone)]
pub struct PasswordBody {
    pub password: String,
}

/// A request body changing the password.
#[derive(Debug, Clone)]
pub struct ChangePasswordBody {
    pub old_password: String,
    pub new_password: String,
}

/// The status answer.
pub fn auth_status(data: &AppData, store: &TokenStore, now: u64) -> (r: AuthStatusResponse)
    ensures
        r.password_set == data.settings.admin_password_hash is Some,
        r.logged_in == exists|i: int| 0 <= i < store.sv().0.len() && now <= #[trigger] store.sv().0[i].2,
{
    AuthStatusResponse { password_set: data.has_admin_password(), logged_in: store.is_logged_in(now) }
}

/// The message refusing to set the first password twice.
pub open spec fn already_set_message() -> Seq<char> {
    "管理员密码已设置"@
}

/// Sets the first administrator password (trimmed); refused when one is
/// set already or when the password is too weak.
pub fn init_password(data: &mut AppData, store: &mut TokenStore, body: PasswordBody) -> (r: Result<(), String>)
    ensures
        old(data).settings.admin_password_hash is Some ==> (r matches Err(m) && m@ == already_set_message())
            && final(data).settings == old(data).settings && final(store).sv() == old(store).sv(),
        (old(data).settings.admin_password_hash is None && password_check(trim_seq(body.password@)) is Some)
            ==> (r matches Err(m) && m@ == password_error_text(password_check(trim_seq(body.password@))->0))
            && final(store).sv() == old(store).sv() && final(data).settings == old(data).settings,
        r is Ok ==> accepts_password(final(data).settings, trim_seq(body.password@))
            && final(store).sv() == (old(store).sv().0, true, old(store).sv().2),
        r is Ok ==> old(data).settings.admin_password_hash is None && password_check(trim_seq(body.password@)) is None,
{
    if data.has_admin_password() {
        proof {
            reveal_strlit("管理员密码已设置");
        }
        return Err("管理员密码已设置".to_owned());
    }
    let password = from_chars(&trim(&to_chars(body.password.as_str())));
    match validate_password_strength(password.as_str()) {
        Err(e) => {
            return Err(e.message().to_owned());
        },
        Ok(()) => {},
    }
    match data.set_admin_password(password.as_str()) {
        Err(m) => Err(m),
        Ok(()) => {
            store.mark_password_configured();
            Ok(())
        },
    }
}

/// The store after `is_locked` at `now` (an ended lockout is dropped).
pub open spec fn after_lock_check(st: StoreV, ip: ClientIp, now: u64) -> StoreV {
    let i = fail_index(st.2, ip);
    if i >= 0 && st.2[i].1.locked_until is Some && !locked_spec(st, ip, now) {
        (st.0, st.1, st.2.remove(i))
    } else {
        st
    }
}

/// Whole seconds left of the lockout of `ip` at `now`.
pub open spec fn remaining_secs(st: StoreV, ip: ClientIp, now: u64) -> int {
    let i = fail_index(st.2, ip);
    if i >= 0 && st.2[i].1.locked_until is Some && now < st.2[i].1.locked_until->0 {
        (st.2[i].1.locked_until->0 - now) / 1000
    } else {
        0
    }
}

/// The message refusing a login from an address that is locked out.
pub open spec fn locked_message(secs: nat) -> Seq<char> {
    "登录失败次数过多，IP 已被临时封禁，请 "@ + decimal(secs) + " 秒后重试 / Too many failures, retry after "@ + decimal(secs) + "s"@
}

/// The message of the failure that locks an address out.
pub open spec fn now_locked_message(secs: nat) -> Seq<char> {
    "密码错误次数过多，IP 已被封禁 "@ + decimal(secs) + " 秒 / Too many failures, IP locked for "@ + decimal(secs) + "s"@
}

/// The message of a wrong password.
pub open spec fn wrong_password_message() -> Seq<char> {
    "密码错误 / Wrong password"@
}

fn secs_text(secs: u64, head: &str, middle: &str, tail: &str) -> (r: String)
    ensures
        r@ == head@ + decimal(secs as nat) + middle@ + decimal(secs as nat) + tail@,
{
    let d = to_chars(decimal_string(secs).as_str());
    from_chars(&concat(&concat(&concat(&concat(&to_chars(head), &d), &to_chars(middle)), &d), &to_chars(tail)))
}

/// A login from `ip` at `now` with `password`: refused while the address
/// is locked out; a wrong password counts as a failure (the fifth locks
/// the address out); the right one opens a session bound to the address.
pub fn login(data: &AppData, store: &mut TokenStore, ip: ClientIp, body: PasswordBody, now: u64) -> (r: Result<LoginResponse, String>)
    requires
        store_wf(old(store).sv()),
        now <= u64::MAX - TOKEN_TTL_MS,
    ensures
        store_wf(final(store).sv()),
        locked_spec(old(store).sv(), ip, now) ==> final(store).sv() == old(store).sv()
            && (r matches Err(m) && m@ == locked_message(remaining_secs(old(store).sv(), ip, now) as nat)),
        ({
            let s1 = after_lock_check(old(store).sv(), ip, now);
            let s2 = record_fail_spec(s1, ip, now);
            &&& (!locked_spec(old(store).sv(), ip, now) && !accepts_password(data.settings, body.password@)) ==> final(store).sv() == s2
                && (locked_spec(s2, ip, now) ==> (r matches Err(m) && m@ == now_locked_message(remaining_secs(s2, ip, now) as nat)))
                && (!locked_spec(s2, ip, now) ==> (r matches Err(m) && m@ == wrong_password_message()))
            &&& (!locked_spec(old(store).sv(), ip, now) && accepts_password(data.settings, body.password@)) ==> (r matches Ok(resp)
                && final(store).sv() == create_spec(s1, resp.token@, ip, now))
        }),
{
    if store.is_locked(ip, now) {
        let secs = store.lockout_remaining_secs(ip, now);
        proof {
            reveal_strlit("登录失败次数过多，IP 已被临时封禁，请 ");
            reveal_strlit(" 秒后重试 / Too many failures, retry after ");
            reveal_strlit("s");
        }
        return Err(secs_text(secs, "登录失败次数过多，IP 已被临时封禁，请 ", " 秒后重试 / Too many failures, retry after ", "s"));
    }
    if !data.verify_admin_password(body.password.as_str()) {
        let locked = store.record_fail(ip, now);
        if locked {
            let secs = store.lockout_remaining_secs(ip, now);
            proof {
                reveal_strlit("密码错误次数过多，IP 已被封禁 ");
                reveal_strlit(" 秒 / Too many failures, IP locked for ");
                reveal_strlit("s");
            }
            return Err(secs_text(secs, "密码错误次数过多，IP 已被封禁 ", " 秒 / Too many failures, IP locked for ", "s"));
        }
        proof {
            reveal_strlit("密码错误 / Wrong password");
        }
        return Err("密码错误 / Wrong password".to_owned());
    }
    let token = store.create_session(ip, now);
    Ok(LoginResponse { token })
}

/// The token of an `Authorization` header of the form `Bearer {token}`.
pub fn bearer_token(header: Option<&str>) -> (r: Option<String>)
    ensures
        (header matches Some(h) && has_prefix(h@, "Bearer "@)) ==> (r matches Some(t) && t@ == header->0@.subrange(7, header->0@.len() as int)),
        !(header matches Some(h) && has_prefix(h@, "Bearer "@)) ==> r is None,
{
    proof {
        reveal_strlit("Bearer ");
    }
    match header {
        Some(h) => match strip_prefix(&to_chars(h), &to_chars("Bearer ")) {
            Some(t) => Some(from_chars(&t)),
            None => None,
        },
        None => None,
    }
}

/// The message of a request without a token.
pub open spec fn missing_token_message() -> Seq<char> {
    "缺少 Token / Missing token"@
}

/// Renews the session of the header's token for `ip` at `now`.
pub fn renew(store: &mut TokenStore, header: Option<&str>, ip: ClientIp, now: u64) -> (r: Result<(), String>)
    requires
        store_wf(old(store).sv()),
        now <= u64::MAX - TOKEN_TTL_MS,
    ensures
        store_wf(final(store).sv()),
        !(header matches Some(h) && has_prefix(h@, "Bearer "@)) ==> (r matches Err(m) && m@ == missing_token_message())
            && final(store).sv() == old(store).sv(),
        (header matches Some(h) && has_prefix(h@, "Bearer "@)) ==> ({
            let st = old(store).sv();
            let i = session_index(st.0, header->0@.subrange(7, header->0@.len() as int));
            let ok = i >= 0 && st.0[i].1 == ip && now <= st.0[i].2;
            &&& ok ==> r is Ok
            &&& !ok ==> (r matches Err(m) && m@ == "Token 无效或已过期 / Token invalid or expired"@) && final(store).sv() == st
        }),
{
    match bearer_token(header) {
        None => {
            proof {
                reveal_strlit("缺少 Token / Missing token");
            }
            Err("缺少 Token / Missing token".to_owned())
        },
        Some(t) => {
            if store.renew(t.as_str(), ip, now) {
                Ok(())
            } else {
                proof {
                    reveal_strlit("Token 无效或已过期 / Token invalid or expired");
                }
                Err("Token 无效或已过期 / Token invalid or expired".to_owned())
            }
        },
    }
}

/// Logs everyone out.
pub fn logout(store: &mut TokenStore)
    requires
        store_wf(old(store).sv()),
    ensures
        store_wf(final(store).sv()),
        final(store).sv() == (Seq::<crate::auth::SessionV>::empty(), old(store).sv().1, old(store).sv().2),
{
    store.clear();
}

/// Changes the administrator password: the header's token must be valid
/// for `ip`, the new password (trimmed) strong enough and the old one
/// right; then every session is closed.
pub fn change_password(
    data: &mut AppData,
    store: &mut TokenStore,
    header: Option<&str>,
    ip: ClientIp,
    body: ChangePasswordBody,
    now: u64,
) -> (r: Result<(), String>)
    requires
        store_wf(old(store).sv()),
        now <= u64::MAX - TOKEN_TTL_MS,
    ensures
        store_wf(final(store).sv()),
        !(header matches Some(h) && has_prefix(h@, "Bearer "@)) ==> (r matches Err(m) && m@ == missing_token_message())
            && final(data).settings == old(data).settings,
        (header matches Some(h) && has_prefix(h@, "Bearer "@)) ==> ({
            let (v, st) = verify_spec(old(store).sv(), header->0@.subrange(7, header->0@.len() as int), ip, now);
            let new_password = trim_seq(body.new_password@);
            &&& v is IpMismatch ==> (r matches Err(m) && m@ == "IP 与登录时不一致，请重新登录 / IP mismatch, please re-login"@)
                && final(data).settings == old(data).settings
            &&& (v is Invalid || v is Expired) ==> (r matches Err(m) && m@ == "Token 无效 / Invalid token"@)
                && final(data).settings == old(data).settings
            &&& (v is Valid && password_check(new_password) is Some) ==> (r matches Err(m) && m@ == password_error_text(password_check(new_password)->0))
                && final(data).settings == old(data).settings
            &&& (v is Valid && password_check(new_password) is None && !accepts_password(old(data).settings, body.old_password@))
                ==> (r matches Err(m) && m@ == "旧密码错误 / Wrong current password"@) && final(data).settings == old(data).settings
            &&& r is Ok ==> v is Valid && accepts_password(old(data).settings, body.old_password@)
                && accepts_password(final(data).settings, new_password)
                && final(store).sv() == (Seq::<crate::auth::SessionV>::empty(), st.1, st.2)
        }),
{
    let token = match bearer_token(header) {
        None => {
            proof {
                reveal_strlit("缺少 Token / Missing token");
            }
            return Err("缺少 Token / Missing token".to_owned());
        },
        Some(t) => t,
    };
    match store.verify(token.as_str(), ip, now) {
        VerifyResult::Valid => {},
        VerifyResult::IpMismatch => {
            proof {
                reveal_strlit("IP 与登录时不一致，请重新登录 / IP mismatch, please re-login");
            }
            return Err("IP 与登录时不一致，请重新登录 / IP mismatch, please re-login".to_owned());
        },
        _ => {
            proof {
                reveal_strlit("Token 无效 / Invalid token");
            }
            return Err("Token 无效 / Invalid token".to_owned());
        },
    }
    let new_password = from_chars(&trim(&to_chars(body.new_password.as_str())));
    match validate_password_strength(new_password.as_str()) {
        Err(e) => {
            return Err(e.message().to_owned());
        },
        Ok(()) => {},
    }
    if !data.verify_admin_password(body.old_password.as_str()) {
        proof {
            reveal_strlit("旧密码错误 / Wrong current password");
        }
        return Err("旧密码错误 / Wrong current password".to_owned());
    }
    match data.set_admin_password(new_password.as_str()) {
        Err(m) => Err(m),
        Ok(()) => {
            store.clear();
            Ok(())
        },
    }
}

/// Whether a request path needs no login: anything outside `/api/`, the
/// login API (but the password change), the event stream, and the
/// translations.
pub open spec fn open_path(path: Seq<char>) -> bool {
    ||| !has_prefix(path, "/api/"@)
    ||| (has_prefix(path, "/api/auth/"@) && path != "/api/auth/change-password"@)
    ||| path == "/api/events"@
    ||| has_prefix(path, "/api/locale/"@)
    ||| path == "/api/locales"@
}

/// What the login check does with a request.
#[derive(Debug, Clone, Copy, PartialEq, Eq, Structural)]
pub enum AuthDecision {
    /// The request goes through.
    Pass,
    /// No valid token: refused as unauthorized.
    Unauthorized,
    /// The token's session has expired.
    Expired,
    /// The token belongs to another address.
    IpMismatch,
}

/// The login check of a request for `path` from `ip` at `now` with an
/// `Authorization` header: open paths, and every path while no password is
/// set, go through; otherwise the header's bearer token must be valid for
/// the address (which keeps its session alive).
pub fn authorize(store: &mut TokenStore, path: &str, header: Option<&str>, ip: ClientIp, now: u64) -> (r: AuthDecision)
    requires
        store_wf(old(store).sv()),
        now <= u64::MAX - TOKEN_TTL_MS,
    ensures
        store_wf(final(store).sv()),
        (open_path(path@) || !old(store).sv().1) ==> r == AuthDecision::Pass && final(store).sv() == old(store).sv(),
        (!open_path(path@) && old(store).sv().1 && !(header matches Some(h) && has_prefix(h@, "Bearer "@)))
            ==> r == AuthDecision::Unauthorized && final(store).sv() == old(store).sv(),
        (!open_path(path@) && old(store).sv().1 && (header matches Some(h) && has_prefix(h@, "Bearer "@))) ==> ({
            let (v, st) = verify_spec(old(store).sv(), header->0@.subrange(7, header->0@.len() as int), ip, now);
            &&& final(store).sv() == st
            &&& r == (match v {
                VerifyResult::Valid => AuthDecision::Pass,
                VerifyResult::Expired => AuthDecision::Expired,
                VerifyResult::IpMismatch => AuthDecision::IpMismatch,
                VerifyResult::Invalid => AuthDecision::Unauthorized,
            })
        }),
{
    proof {
        reveal_strlit("/api/");
        reveal_strlit("/api/auth/");
        reveal_strlit("/api/auth/change-password");
        reveal_strlit("/api/events");
        reveal_strlit("/api/locale/");
        reveal_strlit("/api/locales");
    }
    let p = to_chars(path);
    let open = !crate::text::starts_with(&p, &to_chars("/api/"))
        || (crate::text::starts_with(&p, &to_chars("/api/auth/")) && !crate::text::str_eq(path, "/api/auth/change-password"))
        || crate::text::str_eq(path, "/api/events")
        || crate::text::starts_with(&p, &to_chars("/api/locale/"))
        || crate::text::str_eq(path, "/api/locales");
    if open || !store.has_password() {
        return AuthDecision::Pass;
    }
    match bearer_token(header) {
        None => AuthDecision::Unauthorized,
        Some(t) => match store.verify(t.as_str(), ip, now) {
            VerifyResult::Valid => AuthDecision::Pass,
            VerifyResult::Expired => AuthDecision::Expired,
            VerifyResult::IpMismatch => AuthDecision::IpMismatch,
            VerifyResult::Invalid => AuthDecision::Unauthorized,
        },
    }
}

impl AuthDecision {
    /// The text of a refusal (`None` when the request goes through).
    pub fn refusal_text(&self) -> (r: Option<&'static str>)
        ensures
            *self == AuthDecision::Pass ==> r is None,
            *self == AuthDecision::Unauthorized ==> (r matches Some(t) && t@ == "Unauthorized"@),
            *self == AuthDecision::Expired ==> (r matches Some(t) && t@ == "Token expired"@),
            *self == AuthDecision::IpMismatch ==> (r matches Some(t) && t@ == "IP mismatch"@),
    {
        proof {
            reveal_strlit("Unauthorized");
            reveal_strlit("Token expired");
            reveal_strlit("IP mismatch");
        }
        match self {
            AuthDecision::Pass => None,
            AuthDecision::Unauthorized => Some("Unauthorized"),
            AuthDecision::Expired => Some("Token expired"),
            AuthDecision::IpMismatch => Some("IP mismatch"),
        }
    }
}

} // verus!
