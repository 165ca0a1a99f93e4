//! Administrator authentication: login sessions bound to the client's IP
//! address, lockout of addresses after repeated failed logins, and the
//! password strength rule.
//!
//! A session lasts 8 hours and is extended to at least one more hour by
//! every request that presents it; at most 5 sessions are open at once (a
//! new login closes the oldest). After 5 failed logins an address is locked
//! out for 15 minutes. Times are milliseconds on a monotonic clock, passed
//! in by the caller.
use vstd::prelude::*;
use rand::RngExt;
use crate::text::{str_eq, to_chars};

verus! {

/// How long a session lasts after login: 8 hours.
pub const TOKEN_TTL_MS: u64 = 28_800_000;

/// How long a valid request keeps a session alive at least: 1 hour.
pub const TOKEN_RENEW_MS: u64 = 3_600_000;

/// Failed logins after which an address is locked out.
pub const MAX_FAIL: u32 = 5;

/// How long a lockout lasts: 15 minutes.
pub const LOCKOUT_MS: u64 = 900_000;

/// How many sessions may be open at once.
pub const MAX_SESSIONS: usize = 5;

/// A client address.
#[derive(Debug, Clone, Copy, PartialEq, Eq, Structural, Hash)]
pub enum ClientIp {
    V4(u32),
    V6(u128),
}

/// The outcome of checking a token.
#[derive(Debug, Clone, Copy, PartialEq, Eq, Structural)]
pub enum VerifyResult {
    /// The token is valid; the session was kept alive.
    Valid,
    /// No session has this token.
    Invalid,
    /// The session has expired; it is closed.
    Expired,
    /// The session belongs to another address.
    IpMismatch,
}

/// An open session.
#[derive(Debug, Clone)]
pub struct SessionEntry {
    pub token: String,
    pub bound_ip: ClientIp,
    pub expires_at: u64,
}

/// Failed logins of one address.
#[derive(Debug, Clone, Copy)]
pub struct FailEntry {
    pub count: u32,
    pub locked_until: Option<u64>,
}

/// The sessions and failed-login records.
#[derive(Debug, Clone)]
pub struct TokenStore {
    pub sessions: Vec<SessionEntry>,
    pub password_configured: bool,
    pub fail_map: Vec<(ClientIp, FailEntry)>,
}

/// A session as (token, address, expiry).
pub type SessionV = (Seq<char>, ClientIp, u64);

/// The view of the store: sessions, whether a password is set, and the
/// failure records per address.
pub type StoreV = (Seq<SessionV>, bool, Seq<(ClientIp, FailEntry)>);

impl TokenStore {
    /// The view of the store.
    pub open spec fn sv(&self) -> StoreV {
        (
            self.sessions@.map_values(|s: SessionEntry| (s.token@, s.bound_ip, s.expires_at)),
            self.password_configured,
            self.fail_map@,
        )
    }
}

/// Whether no address has two failure records, and at most `MAX_SESSIONS`
/// sessions are open.
pub open spec fn store_wf(st: StoreV) -> bool {
    &&& st.0.len() <= MAX_SESSIONS
    &&& forall|i: int, j: int| 0 <= i < j < st.2.len() ==> st.2[i].0 != st.2[j].0
}

/// Index of the first session with this token, or -1.
pub open spec fn session_index(ss: Seq<SessionV>, token: Seq<char>) -> int
    decreases ss.len(),
{
    if ss.len() == 0 {
        -1
    } else if session_index(ss.drop_last(), token) >= 0 {
        session_index(ss.drop_last(), token)
    } else if ss.last().0 == token {
        ss.len() - 1
    } else {
        -1
    }
}

/// Index of the failure record of an address, or -1.
pub open spec fn fail_index(fm: Seq<(ClientIp, FailEntry)>, ip: ClientIp) -> int
    decreases fm.len(),
{
    if fm.len() == 0 {
        -1
    } else if fail_index(fm.drop_last(), ip) >= 0 {
        fail_index(fm.drop_last(), ip)
    } else if fm.last().0 == ip {
        fm.len() - 1
    } else {
        -1
    }
}

/// `session_index` is the least index with the token, or -1.
pub proof fn lemma_session_index(ss: Seq<SessionV>, token: Seq<char>)
    ensures
        -1 <= session_index(ss, token) < ss.len(),
        session_index(ss, token) >= 0 ==> ss[session_index(ss, token)].0 == token,
        forall|j: int|
            0 <= j < ss.len() && (session_index(ss, token) < 0 || j < session_index(ss, token))
                ==> #[trigger] ss[j].0 != token,
    decreases ss.len(),
{
    if ss.len() > 0 {
        lemma_session_index(ss.drop_last(), token);
        assert forall|j: int| 0 <= j < ss.len() - 1 implies #[trigger] ss[j] == ss.drop_last()[j] by {}
    }
}

/// `fail_index` is the least index with the address, or -1.
pub proof fn lemma_fail_index(fm: Seq<(ClientIp, FailEntry)>, ip: ClientIp)
    ensures
        -1 <= fail_index(fm, ip) < fm.len(),
        fail_index(fm, ip) >= 0 ==> fm[fail_index(fm, ip)].0 == ip,
        forall|j: int|
            0 <= j < fm.len() && (fail_index(fm, ip) < 0 || j < fail_index(fm, ip)) ==> #[trigger] fm[j].0
                != ip,
    decreases fm.len(),
{
    if fm.len() > 0 {
        lemma_fail_index(fm.drop_last(), ip);
        assert forall|j: int| 0 <= j < fm.len() - 1 implies #[trigger] fm[j] == fm.drop_last()[j] by {}
    }
}

/// The failure records without the one of `ip`.
pub open spec fn without_ip(fm: Seq<(ClientIp, FailEntry)>, ip: ClientIp) -> Seq<(ClientIp, FailEntry)> {
    if fail_index(fm, ip) >= 0 {
        fm.remove(fail_index(fm, ip))
    } else {
        fm
    }
}

/// The store after a login from `ip` that was given `token`: the new
/// session is added (closing the oldest when `MAX_SESSIONS` are open) and
/// the failure record of `ip` is dropped.
pub open spec fn create_spec(st: StoreV, token: Seq<char>, ip: ClientIp, now: u64) -> StoreV {
    let ss = if st.0.len() >= MAX_SESSIONS {
        st.0.drop_first()
    } else {
        st.0
    };
    (ss.push((token, ip, (now + TOKEN_TTL_MS) as u64)), st.1, without_ip(st.2, ip))
}

/// The outcome of presenting `token` from `ip` at `now`, and the store
/// after it: no session with the token is `Invalid`; an expired one is
/// closed and `Expired`; one bound to another address is `IpMismatch`;
/// otherwise `Valid`, and the session lives at least one more hour.
pub open spec fn verify_spec(st: StoreV, token: Seq<char>, ip: ClientIp, now: u64) -> (VerifyResult, StoreV) {
    let i = session_index(st.0, token);
    if i < 0 {
        (VerifyResult::Invalid, st)
    } else {
        let s = st.0[i];
        if now > s.2 {
            (VerifyResult::Expired, (st.0.remove(i), st.1, st.2))
        } else if s.1 != ip {
            (VerifyResult::IpMismatch, st)
        } else {
            let renewed = if now + TOKEN_RENEW_MS > s.2 {
                (now + TOKEN_RENEW_MS) as u64
            } else {
                s.2
            };
            (VerifyResult::Valid, (st.0.update(i, (s.0, s.1, renewed)), st.1, st.2))
        }
    }
}

/// The failure record of `ip` after one more failed login.
pub open spec fn failed_entry(e: FailEntry, now: u64) -> FailEntry {
    let count = if e.count < u32::MAX {
        (e.count + 1) as u32
    } else {
        e.count
    };
    FailEntry {
        count,
        locked_until: if count >= MAX_FAIL {
            Some((now + LOCKOUT_MS) as u64)
        } else {
            e.locked_until
        },
    }
}

/// The store after a failed login from `ip` at `now`.
pub open spec fn record_fail_spec(st: StoreV, ip: ClientIp, now: u64) -> StoreV {
    let i = fail_index(st.2, ip);
    if i >= 0 {
        (st.0, st.1, st.2.update(i, (ip, failed_entry(st.2[i].1, now))))
    } else {
        (st.0, st.1, st.2.push((ip, failed_entry(FailEntry { count: 0, locked_until: None }, now))))
    }
}

/// Whether `ip` is locked out at `now` in the store.
pub open spec fn locked_spec(st: StoreV, ip: ClientIp, now: u64) -> bool {
    let i = fail_index(st.2, ip);
    i >= 0 && (st.2[i].1.locked_until matches Some(t) && now < t)
}

impl TokenStore {
    /// A store without sessions or failures.
    pub fn new(password_already_set: bool) -> (r: TokenStore)
        ensures
            r.sv() == (Seq::<SessionV>::empty(), password_already_set, Seq::<(ClientIp, FailEntry)>::empty()),
            store_wf(r.sv()),
    {
        let r = TokenStore { sessions: Vec::new(), password_configured: password_already_set, fail_map: Vec::new() };
        assert(r.sv().0 =~= Seq::<SessionV>::empty());
        r
    }

    /// Position of the failure record of `ip` (executable).
    fn find_fail(&self, ip: ClientIp) -> (r: Option<usize>)
        ensures
            r matches Some(i) ==> i as int == fail_index(self.fail_map@, ip) && i < self.fail_map@.len(),
            r is None ==> fail_index(self.fail_map@, ip) < 0,
    {
        proof {
            lemma_fail_index(self.fail_map@, ip);
        }
        let mut i: usize = 0;
        while i < self.fail_map.len()
            invariant
                i <= self.fail_map.len(),
                -1 <= fail_index(self.fail_map@, ip) < self.fail_map@.len(),
                fail_index(self.fail_map@, ip) >= 0 ==> self.fail_map@[fail_index(self.fail_map@, ip)].0 == ip,
                forall|j: int|
                    0 <= j < self.fail_map@.len() && (fail_index(self.fail_map@, ip) < 0 || j < fail_index(
                        self.fail_map@,
                        ip,
                    )) ==> #[trigger] self.fail_map@[j].0 != ip,
                forall|j: int| 0 <= j < i ==> #[trigger] self.fail_map@[j].0 != ip,
            decreases self.fail_map.len() - i,
        {
            if self.fail_map[i].0 == ip {
                return Some(i);
            }
            i += 1;
        }
        None
    }

    /// Position of the session with `token` (executable).
    fn find_session(&self, token: &str) -> (r: Option<usize>)
        ensures
            r matches Some(i) ==> i as int == session_index(self.sv().0, token@) && i < self.sessions@.len(),
            r is None ==> session_index(self.sv().0, token@) < 0,
    {
        let ghost ss = self.sv().0;
        proof {
            lemma_session_index(ss, token@);
        }
        let mut i: usize = 0;
        while i < self.sessions.len()
            invariant
                i <= self.sessions.len(),
                ss == self.sv().0,
                -1 <= session_index(ss, token@) < ss.len(),
                session_index(ss, token@) >= 0 ==> ss[session_index(ss, token@)].0 == token@,
                forall|j: int|
                    0 <= j < ss.len() && (session_index(ss, token@) < 0 || j < session_index(ss, token@))
                        ==> #[trigger] ss[j].0 != token@,
                forall|j: int| 0 <= j < i ==> #[trigger] ss[j].0 != token@,
            decreases self.sessions.len() - i,
        {
            if str_eq(self.sessions[i].token.as_str(), token) {
                assert(ss[i as int].0 == token@);
                return Some(i);
            }
            i += 1;
        }
        None
    }

    /// Opens a session for `ip` with the given token (see `create_spec`).
    pub fn create_session_with(&mut self, token: String, ip: ClientIp, now: u64)
        requires
            store_wf(old(self).sv()),
            now <= u64::MAX - TOKEN_TTL_MS,
        ensures
            final(self).sv() == create_spec(old(self).sv(), token@, ip, now),
            store_wf(final(self).sv()),
    {
        let ghost st = self.sv();
        assert(st.0.len() == self.sessions@.len());
        if self.sessions.len() >= MAX_SESSIONS {
            self.sessions.remove(0);
            assert(self.sv().0 =~= st.0.drop_first());
        }
        let ghost s1 = self.sv().0;
        self.sessions.push(SessionEntry { token, bound_ip: ip, expires_at: now + TOKEN_TTL_MS });
        assert(self.sv().0 =~= s1.push((token@, ip, (now + TOKEN_TTL_MS) as u64)));
        match self.find_fail(ip) {
            Some(i) => {
                self.fail_map.remove(i);
                proof {
                    let fm = st.2;
                    let r = fm.remove(i as int);
                    assert(self.fail_map@ =~= r);
                    assert forall|a: int, b: int| 0 <= a < b < r.len() implies r[a].0 != r[b].0 by {
                        let a2 = if a < i { a } else { a + 1 };
                        let b2 = if b < i { b } else { b + 1 };
                        assert(r[a] == fm[a2] && r[b] == fm[b2]);
                        assert(fm[a2].0 != fm[b2].0);
                    }
                }
            },
            None => {
                assert(self.fail_map@ == st.2);
            },
        }
        assert(self.sv().0.len() == self.sessions@.len());
        assert(self.sessions@.len() <= MAX_SESSIONS);
        assert(forall|a: int, b: int| 0 <= a < b < self.fail_map@.len() ==> self.fail_map@[a].0 != self.fail_map@[b].0);
        assert(store_wf(self.sv()));
    }

    /// Opens a session for `ip` with a fresh random token, which it returns
    /// (64 lowercase hexadecimal digits).
    pub fn create_session(&mut self, ip: ClientIp, now: u64) -> (token: String)
        requires
            store_wf(old(self).sv()),
            now <= u64::MAX - TOKEN_TTL_MS,
        ensures
            final(self).sv() == create_spec(old(self).sv(), token@, ip, now),
            store_wf(final(self).sv()),
            token@.len() == 64,
            forall|i: int| 0 <= i < 64 ==> crate::hex::is_hex_digit(#[trigger] token@[i]),
    {
        let token = new_token();
        self.create_session_with(token.clone(), ip, now);
        token
    }

    /// Checks a token presented from `ip` at `now` (see `verify_spec`).
    pub fn verify(&mut self, token: &str, ip: ClientIp, now: u64) -> (r: VerifyResult)
        requires
            store_wf(old(self).sv()),
            now <= u64::MAX - TOKEN_RENEW_MS,
        ensures
            (r, final(self).sv()) == verify_spec(old(self).sv(), token@, ip, now),
            store_wf(final(self).sv()),
    {
        let ghost st = self.sv();
        let i = match self.find_session(token) {
            Some(i) => i,
            None => {
                return VerifyResult::Invalid;
            },
        };
        if now > self.sessions[i].expires_at {
            self.sessions.remove(i);
            assert(self.sv().0 =~= st.0.remove(i as int));
            return VerifyResult::Expired;
        }
        if self.sessions[i].bound_ip != ip {
            return VerifyResult::IpMismatch;
        }
        let new_exp = now + TOKEN_RENEW_MS;
        if new_exp > self.sessions[i].expires_at {
            let mut s = self.sessions.remove(i);
            s.expires_at = new_exp;
            self.sessions.insert(i, s);
        }
        assert(self.sv().0 =~= st.0.update(i as int, (st.0[i as int].0, st.0[i as int].1, if now
            + TOKEN_RENEW_MS > st.0[i as int].2 {
            (now + TOKEN_RENEW_MS) as u64
        } else {
            st.0[i as int].2
        })));
        VerifyResult::Valid
    }

    /// Gives the session of `token`, when it belongs to `ip` and has not
    /// expired, a full lifetime again from `now`.
    pub fn renew(&mut self, token: &str, ip: ClientIp, now: u64) -> (r: bool)
        requires
            store_wf(old(self).sv()),
            now <= u64::MAX - TOKEN_TTL_MS,
        ensures
            ({
                let st = old(self).sv();
                let i = session_index(st.0, token@);
                let ok = i >= 0 && st.0[i].1 == ip && now <= st.0[i].2;
                &&& r == ok
                &&& ok ==> final(self).sv() == (st.0.update(i, (st.0[i].0, st.0[i].1, (now + TOKEN_TTL_MS) as u64)), st.1, st.2)
                &&& !ok ==> final(self).sv() == st
            }),
            store_wf(final(self).sv()),
    {
        let ghost st = self.sv();
        let i = match self.find_session(token) {
            Some(i) => i,
            None => {
                return false;
            },
        };
        if self.sessions[i].bound_ip == ip && now <= self.sessions[i].expires_at {
            let mut s = self.sessions.remove(i);
            s.expires_at = now + TOKEN_TTL_MS;
            self.sessions.insert(i, s);
            assert(self.sv().0 =~= st.0.update(i as int, (st.0[i as int].0, st.0[i as int].1, (now + TOKEN_TTL_MS) as u64)));
            return true;
        }
        false
    }

    /// Closes every session.
    pub fn clear(&mut self)
        requires
            store_wf(old(self).sv()),
        ensures
            final(self).sv() == (Seq::<SessionV>::empty(), old(self).sv().1, old(self).sv().2),
            store_wf(final(self).sv()),
    {
        self.sessions = Vec::new();
        assert(self.sv().0 =~= Seq::<SessionV>::empty());
    }

    /// Whether a session is open at `now`.
    pub fn is_logged_in(&self, now: u64) -> (r: bool)
        ensures
            r == exists|i: int| 0 <= i < self.sv().0.len() && now <= #[trigger] self.sv().0[i].2,
    {
        let ghost ss = self.sv().0;
        let mut i: usize = 0;
        while i < self.sessions.len()
            invariant
                i <= self.sessions.len(),
                ss == self.sv().0,
                forall|j: int| 0 <= j < i ==> now > #[trigger] ss[j].2,
            decreases self.sessions.len() - i,
        {
            if now <= self.sessions[i].expires_at {
                assert(now <= ss[i as int].2);
                return true;
            }
            i += 1;
        }
        false
    }

    /// Records that a password is set.
    pub fn mark_password_configured(&mut self)
        ensures
            final(self).sv() == (old(self).sv().0, true, old(self).sv().2),
    {
        self.password_configured = true;
    }

    /// Whether a password is set.
    pub fn has_password(&self) -> (r: bool)
        ensures
            r == self.sv().1,
    {
        self.password_configured
    }

    /// Records a failed login from `ip`; returns whether `ip` is now locked
    /// out. The fifth failure locks the address out for 15 minutes.
    pub fn record_fail(&mut self, ip: ClientIp, now: u64) -> (r: bool)
        requires
            store_wf(old(self).sv()),
            now <= u64::MAX - LOCKOUT_MS,
        ensures
            final(self).sv() == record_fail_spec(old(self).sv(), ip, now),
            r == locked_spec(final(self).sv(), ip, now),
            store_wf(final(self).sv()),
    {
        let ghost st = self.sv();
        proof {
            lemma_fail_index(st.2, ip);
        }
        let (i, e) = match self.find_fail(ip) {
            Some(i) => (i, self.fail_map[i].1),
            None => {
                self.fail_map.push((ip, FailEntry { count: 0, locked_until: None }));
                proof {
                    let fm = self.fail_map@;
                    assert forall|a: int, b: int| 0 <= a < b < fm.len() implies fm[a].0 != fm[b].0 by {
                        if b == fm.len() - 1 {
                            assert(st.2[a].0 != ip);
                        } else {
                            assert(fm[a] == st.2[a] && fm[b] == st.2[b]);
                        }
                    }
                    lemma_fail_index(fm, ip);
                    if fail_index(fm, ip) < fm.len() - 1 && fail_index(fm, ip) >= 0 {
                        assert(fm[fail_index(fm, ip)] == st.2[fail_index(fm, ip)]);
                    }
                }
                (self.fail_map.len() - 1, FailEntry { count: 0, locked_until: None })
            },
        };
        let count = if e.count < u32::MAX {
            e.count + 1
        } else {
            e.count
        };
        let locked_until = if count >= MAX_FAIL {
            Some(now + LOCKOUT_MS)
        } else {
            e.locked_until
        };
        let ne = FailEntry { count, locked_until };
        self.fail_map.set(i, (ip, ne));
        proof {
            let fm = self.fail_map@;
            assert forall|a: int, b: int| 0 <= a < b < fm.len() implies fm[a].0 != fm[b].0 by {}
            lemma_fail_index(fm, ip);
            assert(fm[i as int].0 == ip);
            let fi = fail_index(fm, ip);
            if fi != i {
                if fi < 0 {
                    assert(fm[i as int].0 != ip);
                } else if fi < i {
                    assert(fm[fi].0 != fm[i as int].0);
                } else {
                    assert(fm[i as int].0 != ip);
                }
            }
            assert(fail_index(fm, ip) == i);
        }
        match ne.locked_until {
            Some(t) => now < t,
            None => false,
        }
    }

    /// Whether `ip` is locked out at `now`. A lockout that has ended is
    /// dropped with the address's failure record.
    pub fn is_locked(&mut self, ip: ClientIp, now: u64) -> (r: bool)
        requires
            store_wf(old(self).sv()),
        ensures
            r == locked_spec(old(self).sv(), ip, now),
            ({
                let st = old(self).sv();
                let i = fail_index(st.2, ip);
                if i >= 0 && st.2[i].1.locked_until is Some && !r {
                    final(self).sv() == (st.0, st.1, st.2.remove(i))
                } else {
                    final(self).sv() == st
                }
            }),
            store_wf(final(self).sv()),
    {
        let ghost st = self.sv();
        match self.find_fail(ip) {
            Some(i) => match self.fail_map[i].1.locked_until {
                Some(until) => {
                    if now < until {
                        return true;
                    }
                    self.fail_map.remove(i);
                    proof {
                        let fm = st.2;
                        let r = fm.remove(i as int);
                        assert forall|a: int, b: int| 0 <= a < b < r.len() implies r[a].0 != r[b].0 by {
                            let a2 = if a < i { a } else { a + 1 };
                            let b2 = if b < i { b } else { b + 1 };
                            assert(r[a] == fm[a2] && r[b] == fm[b2]);
                        }
                    }
                    false
                },
                None => false,
            },
            None => false,
        }
    }

    /// Whole seconds left of the lockout of `ip` at `now` (0 when not locked).
    pub fn lockout_remaining_secs(&self, ip: ClientIp, now: u64) -> (r: u64)
        ensures
            ({
                let st = self.sv();
                let i = fail_index(st.2, ip);
                if i >= 0 && st.2[i].1.locked_until is Some && now < st.2[i].1.locked_until->0 {
                    r == (st.2[i].1.locked_until->0 - now) / 1000
                } else {
                    r == 0
                }
            }),
    {
        match self.find_fail(ip) {
            Some(i) => match self.fail_map[i].1.locked_until {
                Some(until) => {
                    if now < until {
                        (until - now) / 1000
                    } else {
                        0
                    }
                },
                None => 0,
            },
            None => 0,
        }
    }
}

/// 32 random bytes (`rand::rng().random::<[u8; 32]>()`); nothing is known
/// of their values.
#[verifier::external_body]
fn random_bytes32() -> (r: Vec<u8>)
    ensures
        r@.len() == 32,
{
    let bytes: [u8; 32] = rand::rng().random();
    bytes.to_vec()
}

/// A fresh session token: 32 random bytes as 64 lowercase hexadecimal digits.
pub fn new_token() -> (r: String)
    ensures
        r@.len() == 64,
        forall|i: int| 0 <= i < 64 ==> crate::hex::is_hex_digit(#[trigger] r@[i]),
{
    crate::hex::hex_string(&random_bytes32())
}


/// The Unicode `Alphabetic` property of `c`.
pub uninterp spec fn alphabetic(c: char) -> bool;

/// The Unicode numeric property of `c` (general categories `Nd`, `Nl`, `No`).
pub uninterp spec fn numeric(c: char) -> bool;

/// `char::is_alphabetic`: whether `c` has the Unicode `Alphabetic` property.
#[verifier::external_body]
fn is_alphabetic(c: char) -> (r: bool)
    ensures
        r == alphabetic(c),
{
    c.is_alphabetic()
}

/// `char::is_numeric`: whether `c` is in one of the Unicode numeric
/// categories (`Nd`, `Nl`, `No`).
#[verifier::external_body]
fn is_numeric(c: char) -> (r: bool)
    ensures
        r == numeric(c),
{
    c.is_numeric()
}

/// Why a password is refused.
#[derive(Debug, Clone, Copy, PartialEq, Eq, Structural)]
pub enum PasswordError {
    /// Fewer than 6 characters.
    TooShort,
    /// No letter.
    NoLetter,
    /// No ASCII digit.
    NoDigit,
    /// No character that is neither a letter nor a number.
    NoSpecial,
}

/// The message shown for a refused password.
pub open spec fn password_error_text(e: PasswordError) -> Seq<char> {
    match e {
        PasswordError::TooShort => "密码长度不能少于 6 位 / Password must be at least 6 characters"@,
        PasswordError::NoLetter => "密码必须包含字母 / Password must contain at least one letter"@,
        PasswordError::NoDigit => "密码必须包含数字 / Password must contain at least one digit"@,
        PasswordError::NoSpecial => "密码必须包含特殊字符 / Password must contain at least one special character"@,
    }
}

impl PasswordError {
    /// The message shown for the refusal.
    pub fn message(&self) -> (r: &'static str)
        ensures
            r@ == password_error_text(*self),
            *self is TooShort ==> r@ == "密码长度不能少于 6 位 / Password must be at least 6 characters"@,
            *self is NoLetter ==> r@ == "密码必须包含字母 / Password must contain at least one letter"@,
            *self is NoDigit ==> r@ == "密码必须包含数字 / Password must contain at least one digit"@,
            *self is NoSpecial ==> r@ == "密码必须包含特殊字符 / Password must contain at least one special character"@,
    {
        match self {
            PasswordError::TooShort => "密码长度不能少于 6 位 / Password must be at least 6 characters",
            PasswordError::NoLetter => "密码必须包含字母 / Password must contain at least one letter",
            PasswordError::NoDigit => "密码必须包含数字 / Password must contain at least one digit",
            PasswordError::NoSpecial => "密码必须包含特殊字符 / Password must contain at least one special character",
        }
    }
}

/// The password rule: at least 6 characters, with a letter, an ASCII digit,
/// and a character that is neither a letter nor a number; the first rule
/// broken, in that order, is the one reported.
pub open spec fn password_check(p: Seq<char>) -> Option<PasswordError> {
    if p.len() < 6 {
        Some(PasswordError::TooShort)
    } else if !(exists|i: int| 0 <= i < p.len() && alphabetic(#[trigger] p[i])) {
        Some(PasswordError::NoLetter)
    } else if !(exists|i: int| 0 <= i < p.len() && crate::text::is_digit(#[trigger] p[i])) {
        Some(PasswordError::NoDigit)
    } else if !(exists|i: int| 0 <= i < p.len() && !(alphabetic(#[trigger] p[i]) || numeric(p[i]))) {
        Some(PasswordError::NoSpecial)
    } else {
        None
    }
}

/// Checks a password against the strength rule.
pub fn validate_password_strength(password: &str) -> (r: Result<(), PasswordError>)
    ensures
        r is Ok <==> password_check(password@) is None,
        r matches Err(e) ==> password_check(password@) == Some(e),
{
    let p = to_chars(password);
    if p.len() < 6 {
        return Err(PasswordError::TooShort);
    }
    let mut has_letter = false;
    let mut has_digit = false;
    let mut has_special = false;
    let mut i: usize = 0;
    while i < p.len()
        invariant
            i <= p.len(),
            has_letter == exists|j: int| 0 <= j < i && alphabetic(#[trigger] p@[j]),
            has_digit == exists|j: int| 0 <= j < i && crate::text::is_digit(#[trigger] p@[j]),
            has_special == exists|j: int| 0 <= j < i && !(alphabetic(#[trigger] p@[j]) || numeric(p@[j])),
        decreases p.len() - i,
    {
        let c = p[i];
        let a = is_alphabetic(c);
        let n = is_numeric(c);
        if a {
            has_letter = true;
        }
        if '0' <= c && c <= '9' {
            has_digit = true;
        }
        if !(a || n) {
            has_special = true;
        }
        proof {
            assert(p@[i as int] == c);
        }
        i += 1;
    }
    if !has_letter {
        return Err(PasswordError::NoLetter);
    }
    if !has_digit {
        return Err(PasswordError::NoDigit);
    }
    if !has_special {
        return Err(PasswordError::NoSpecial);
    }
    Ok(())
}

} // verus!

verus! {

// ───────────────────────── laws ─────────────────────────

/// The session opened by a login is the last one, and the first with its
/// token when no other open session holds that token.
proof fn lemma_new_session_index(st: StoreV, token: Seq<char>, ip: ClientIp, t0: u64)
    requires
        store_wf(st),
        t0 <= u64::MAX - TOKEN_TTL_MS,
        forall|i: int| 0 <= i < st.0.len() ==> (#[trigger] st.0[i]).0 != token,
    ensures
        session_index(create_spec(st, token, ip, t0).0, token) == create_spec(st, token, ip, t0).0.len() - 1,
        create_spec(st, token, ip, t0).0.last() == (token, ip, (t0 + TOKEN_TTL_MS) as u64),
{
    let s1 = create_spec(st, token, ip, t0);
    lemma_session_index(s1.0, token);
    let base = if st.0.len() >= MAX_SESSIONS { st.0.drop_first() } else { st.0 };
    assert forall|i: int| 0 <= i < base.len() implies (#[trigger] base[i]).0 != token by {
        if st.0.len() >= MAX_SESSIONS {
            assert(base[i] == st.0[i + 1]);
        }
    }
    let k = session_index(s1.0, token);
    if k != base.len() {
        if k >= 0 {
            assert(s1.0[k] == base[k]);
        } else {
            assert(s1.0[base.len() as int].0 == token);
        }
    }
}

/// A token just issued to `ip` is accepted from `ip` until its lifetime
/// ends (when no other open session holds the same token).
pub proof fn law_login_then_verify(st: StoreV, token: Seq<char>, ip: ClientIp, t0: u64, t: u64)
    requires
        store_wf(st),
        t0 <= u64::MAX - TOKEN_TTL_MS,
        t0 <= t <= t0 + TOKEN_TTL_MS,
        forall|i: int| 0 <= i < st.0.len() ==> (#[trigger] st.0[i]).0 != token,
    ensures
        verify_spec(create_spec(st, token, ip, t0), token, ip, t).0 == VerifyResult::Valid,
{
    lemma_new_session_index(st, token, ip, t0);
}

/// A token presented from an address other than the one it was issued
/// to is refused as `IpMismatch` while it is alive.
pub proof fn law_login_other_ip(st: StoreV, token: Seq<char>, ip: ClientIp, other: ClientIp, t0: u64, t: u64)
    requires
        store_wf(st),
        t0 <= u64::MAX - TOKEN_TTL_MS,
        t0 <= t <= t0 + TOKEN_TTL_MS,
        other != ip,
        forall|i: int| 0 <= i < st.0.len() ==> (#[trigger] st.0[i]).0 != token,
    ensures
        verify_spec(create_spec(st, token, ip, t0), token, other, t).0 == VerifyResult::IpMismatch,
{
    lemma_new_session_index(st, token, ip, t0);
}

/// Once its lifetime has passed, a session's token is refused as
/// `Expired` and the session is closed.
pub proof fn law_login_expires(st: StoreV, token: Seq<char>, ip: ClientIp, t0: u64, t: u64)
    requires
        store_wf(st),
        t0 <= u64::MAX - TOKEN_TTL_MS,
        t > t0 + TOKEN_TTL_MS,
        forall|i: int| 0 <= i < st.0.len() ==> (#[trigger] st.0[i]).0 != token,
    ensures
        verify_spec(create_spec(st, token, ip, t0), token, ip, t).0 == VerifyResult::Expired,
        verify_spec(create_spec(st, token, ip, t0), token, ip, t).1.0.len() == create_spec(st, token, ip, t0).0.len() - 1,
{
    lemma_new_session_index(st, token, ip, t0);
}

/// A valid request never shortens its session: the expiry becomes the
/// later of the old expiry and one hour from now.
pub proof fn law_verify_extends(st: StoreV, token: Seq<char>, ip: ClientIp, now: u64)
    requires
        store_wf(st),
        now <= u64::MAX - TOKEN_RENEW_MS,
        verify_spec(st, token, ip, now).0 == VerifyResult::Valid,
    ensures
        ({
            let i = session_index(st.0, token);
            let after = verify_spec(st, token, ip, now).1.0[i].2;
            &&& after >= st.0[i].2
            &&& after >= now + TOKEN_RENEW_MS
        }),
{
    lemma_session_index(st.0, token);
}

/// The failure records after failed logins from `ip` at the given times.
pub open spec fn fails_at(st: StoreV, ip: ClientIp, times: Seq<u64>) -> StoreV
    decreases times.len(),
{
    if times.len() == 0 {
        st
    } else {
        record_fail_spec(fails_at(st, ip, times.drop_last()), ip, times.last())
    }
}

/// After `k` failures from an address that had no record, its record
/// counts `k` failures and is unique.
proof fn lemma_fail_count(st: StoreV, ip: ClientIp, times: Seq<u64>)
    requires
        store_wf(st),
        fail_index(st.2, ip) < 0,
        times.len() <= MAX_FAIL,
        forall|i: int| 0 <= i < times.len() ==> #[trigger] times[i] <= u64::MAX - LOCKOUT_MS,
    ensures
        store_wf(fails_at(st, ip, times)),
        times.len() > 0 ==> fail_index(fails_at(st, ip, times).2, ip) >= 0
            && fails_at(st, ip, times).2[fail_index(fails_at(st, ip, times).2, ip)].1.count == times.len(),
    decreases times.len(),
{
    lemma_fail_index(st.2, ip);
    if times.len() > 0 {
        let prev = fails_at(st, ip, times.drop_last());
        lemma_fail_count(st, ip, times.drop_last());
        lemma_fail_index(prev.2, ip);
        let cur = record_fail_spec(prev, ip, times.last());
        let i = fail_index(prev.2, ip);
        if i >= 0 {
            assert forall|a: int, b: int| 0 <= a < b < cur.2.len() implies cur.2[a].0 != cur.2[b].0 by {}
            lemma_fail_index(cur.2, ip);
            if fail_index(cur.2, ip) != i {
                if fail_index(cur.2, ip) >= 0 && fail_index(cur.2, ip) < i {
                    assert(cur.2[fail_index(cur.2, ip)] == prev.2[fail_index(cur.2, ip)]);
                } else {
                    assert(cur.2[i].0 == ip);
                }
            }
        } else {
            assert(times.drop_last().len() == 0);
            assert(prev == st);
            assert forall|a: int, b: int| 0 <= a < b < cur.2.len() implies cur.2[a].0 != cur.2[b].0 by {
                if b == cur.2.len() - 1 {
                    assert(prev.2[a].0 != ip);
                } else {
                    assert(cur.2[a] == prev.2[a] && cur.2[b] == prev.2[b]);
                }
            }
            lemma_fail_index(cur.2, ip);
            if fail_index(cur.2, ip) != prev.2.len() {
                if fail_index(cur.2, ip) >= 0 {
                    assert(cur.2[fail_index(cur.2, ip)] == prev.2[fail_index(cur.2, ip)]);
                } else {
                    assert(cur.2[prev.2.len() as int].0 == ip);
                }
            }
        }
    }
}

/// Five failed logins in a row from an address lock it out for 15 minutes
/// from the fifth.
pub proof fn law_lockout_after_max_fail(st: StoreV, ip: ClientIp, times: Seq<u64>, t: u64)
    requires
        store_wf(st),
        fail_index(st.2, ip) < 0,
        times.len() == MAX_FAIL,
        forall|i: int| 0 <= i < times.len() ==> #[trigger] times[i] <= u64::MAX - LOCKOUT_MS,
        times.last() <= t < times.last() + LOCKOUT_MS,
    ensures
        locked_spec(fails_at(st, ip, times), ip, t),
{
    lemma_fail_count(st, ip, times);
    let prev = fails_at(st, ip, times.drop_last());
    assert forall|i: int| 0 <= i < times.drop_last().len() implies #[trigger] times.drop_last()[i] <= u64::MAX - LOCKOUT_MS by {
        assert(times.drop_last()[i] == times[i]);
    }
    lemma_fail_count(st, ip, times.drop_last());
    lemma_fail_index(prev.2, ip);
    let cur = fails_at(st, ip, times);
    lemma_fail_index(cur.2, ip);
    let i = fail_index(prev.2, ip);
    if fail_index(cur.2, ip) != i {
        if fail_index(cur.2, ip) >= 0 && fail_index(cur.2, ip) < i {
            assert(cur.2[fail_index(cur.2, ip)] == prev.2[fail_index(cur.2, ip)]);
        } else {
            assert(cur.2[i].0 == ip);
        }
    }
}

/// The failure record of `ip` (a blank one when there is none).
pub open spec fn fail_entry_of(fm: Seq<(ClientIp, FailEntry)>, ip: ClientIp) -> FailEntry {
    let i = fail_index(fm, ip);
    if i >= 0 {
        fm[i].1
    } else {
        FailEntry { count: 0, locked_until: None }
    }
}

/// One more failure turns the record of `ip` into `failed_entry` of it.
proof fn lemma_fail_step(st: StoreV, ip: ClientIp, now: u64)
    requires
        store_wf(st),
    ensures
        store_wf(record_fail_spec(st, ip, now)),
        fail_index(record_fail_spec(st, ip, now).2, ip) >= 0,
        fail_entry_of(record_fail_spec(st, ip, now).2, ip) == failed_entry(fail_entry_of(st.2, ip), now),
{
    lemma_fail_index(st.2, ip);
    let cur = record_fail_spec(st, ip, now);
    let i = fail_index(st.2, ip);
    if i >= 0 {
        assert forall|a: int, b: int| 0 <= a < b < cur.2.len() implies cur.2[a].0 != cur.2[b].0 by {}
        lemma_fail_index(cur.2, ip);
        if fail_index(cur.2, ip) != i {
            if fail_index(cur.2, ip) >= 0 && fail_index(cur.2, ip) < i {
                assert(cur.2[fail_index(cur.2, ip)] == st.2[fail_index(cur.2, ip)]);
            } else {
                assert(cur.2[i].0 == ip);
            }
        }
    } else {
        assert forall|a: int, b: int| 0 <= a < b < cur.2.len() implies cur.2[a].0 != cur.2[b].0 by {
            if b == cur.2.len() - 1 {
                assert(st.2[a].0 != ip);
            } else {
                assert(cur.2[a] == st.2[a] && cur.2[b] == st.2[b]);
            }
        }
        lemma_fail_index(cur.2, ip);
        if fail_index(cur.2, ip) != st.2.len() {
            if fail_index(cur.2, ip) >= 0 {
                assert(cur.2[fail_index(cur.2, ip)] == st.2[fail_index(cur.2, ip)]);
            } else {
                assert(cur.2[st.2.len() as int].0 == ip);
            }
        }
    }
}

/// Failures from an address that is not locked out count on from its
/// earlier ones; the record is locked from the failure that reaches
/// `MAX_FAIL`, until `LOCKOUT_MS` after the last one.
proof fn lemma_fails_from(st: StoreV, ip: ClientIp, times: Seq<u64>)
    requires
        store_wf(st),
        fail_entry_of(st.2, ip).locked_until is None,
        fail_entry_of(st.2, ip).count + times.len() <= u32::MAX,
    ensures
        store_wf(fails_at(st, ip, times)),
        times.len() > 0 ==> fail_entry_of(fails_at(st, ip, times).2, ip).count == fail_entry_of(st.2, ip).count
            + times.len() && fail_entry_of(fails_at(st, ip, times).2, ip).locked_until == (if fail_entry_of(
            st.2,
            ip,
        ).count + times.len() >= MAX_FAIL {
            Some((times.last() + LOCKOUT_MS) as u64)
        } else {
            None
        }),
    decreases times.len(),
{
    if times.len() > 0 {
        let prev = fails_at(st, ip, times.drop_last());
        lemma_fails_from(st, ip, times.drop_last());
        lemma_fail_step(prev, ip, times.last());
        if times.drop_last().len() == 0 {
            assert(prev == st);
        }
    }
}

/// Failed logins from an address that is not locked out count on from its
/// earlier failures: from the last of them until `LOCKOUT_MS` after it, the
/// address is locked out exactly when its count has reached `MAX_FAIL`.
/// (`record_fail` answers `locked_spec` at the time of the failure.)
pub proof fn law_lockout_from_count(st: StoreV, ip: ClientIp, times: Seq<u64>, t: u64)
    requires
        store_wf(st),
        times.len() > 0,
        forall|i: int| 0 <= i < times.len() ==> #[trigger] times[i] <= u64::MAX - LOCKOUT_MS,
        fail_entry_of(st.2, ip).locked_until is None,
        fail_entry_of(st.2, ip).count + times.len() <= u32::MAX,
        times.last() <= t < times.last() + LOCKOUT_MS,
    ensures
        locked_spec(fails_at(st, ip, times), ip, t) == (fail_entry_of(st.2, ip).count + times.len() >= MAX_FAIL),
        fail_entry_of(fails_at(st, ip, times).2, ip).count == fail_entry_of(st.2, ip).count + times.len(),
        fail_entry_of(fails_at(st, ip, times).2, ip).locked_until == (if fail_entry_of(st.2, ip).count + times.len()
            >= MAX_FAIL {
            Some((times.last() + LOCKOUT_MS) as u64)
        } else {
            None
        }),
{
    lemma_fails_from(st, ip, times);
    assert(times[times.len() - 1] <= u64::MAX - LOCKOUT_MS);
}

/// A login resets the failure count of its own address and of no other:
/// afterwards `ip` has no failure record (its next failure counts from
/// zero) while every other address keeps its record as it was.
pub proof fn law_login_resets_own_failures(st: StoreV, token: Seq<char>, ip: ClientIp, other: ClientIp, now: u64)
    requires
        store_wf(st),
        ip != other,
    ensures
        fail_entry_of(create_spec(st, token, ip, now).2, ip) == (FailEntry { count: 0, locked_until: None }),
        fail_entry_of(create_spec(st, token, ip, now).2, other) == fail_entry_of(st.2, other),
{
    lemma_fail_index(st.2, ip);
    lemma_fail_index(st.2, other);
    let fm = create_spec(st, token, ip, now).2;
    lemma_fail_index(fm, ip);
    lemma_fail_index(fm, other);
    let i = fail_index(st.2, ip);
    let j = fail_index(st.2, other);
    if i >= 0 {
        assert(fm == st.2.remove(i));
        // the address's own record is gone
        if fail_index(fm, ip) >= 0 {
            let k = fail_index(fm, ip);
            let k2 = if k < i { k } else { k + 1 };
            assert(fm[k] == st.2[k2]);
            if k2 < i {
                assert(st.2[k2].0 != ip);
            } else {
                assert(st.2[i].0 != st.2[k2].0);
            }
        }
        // the other address's record moves by at most one place
        if j >= 0 {
            assert(j != i);
            let jj = if j < i { j } else { j - 1 };
            assert(fm[jj] == st.2[j]);
            let fj = fail_index(fm, other);
            if fj != jj {
                if fj >= 0 && fj < jj {
                    let f2 = if fj < i { fj } else { fj + 1 };
                    assert(fm[fj] == st.2[f2]);
                } else {
                    assert(fm[jj].0 == other);
                }
            }
        } else {
            if fail_index(fm, other) >= 0 {
                let k = fail_index(fm, other);
                let k2 = if k < i { k } else { k + 1 };
                assert(fm[k] == st.2[k2]);
            }
        }
    } else {
        assert(fm == st.2);
    }
}

/// A successful login clears the lockout of its address.
pub proof fn law_login_clears_lockout(st: StoreV, token: Seq<char>, ip: ClientIp, now: u64, t: u64)
    requires
        store_wf(st),
        now <= u64::MAX - TOKEN_TTL_MS,
    ensures
        !locked_spec(create_spec(st, token, ip, now), ip, t),
{
    lemma_fail_index(st.2, ip);
    let fm = create_spec(st, token, ip, now).2;
    lemma_fail_index(fm, ip);
    let i = fail_index(st.2, ip);
    if fail_index(fm, ip) >= 0 {
        let k = fail_index(fm, ip);
        if i >= 0 {
            let k2 = if k < i { k } else { k + 1 };
            assert(fm[k] == st.2[k2]);
            assert(st.2[k2].0 == ip);
            if k2 != i {
                if k2 < i {
                    assert(st.2[k2].0 != ip);
                } else {
                    assert(st.2[i].0 != st.2[k2].0);
                }
            }
        } else {
            assert(fm[k] == st.2[k]);
        }
    }
}

/// A login keeps at most `MAX_SESSIONS` sessions: when that many are
/// open, the oldest is closed for the new one.
pub proof fn law_session_cap(st: StoreV, token: Seq<char>, ip: ClientIp, now: u64)
    requires
        store_wf(st),
        now <= u64::MAX - TOKEN_TTL_MS,
    ensures
        create_spec(st, token, ip, now).0.len() <= MAX_SESSIONS,
        st.0.len() == MAX_SESSIONS ==> create_spec(st, token, ip, now).0 == st.0.drop_first().push((token, ip, (now + TOKEN_TTL_MS) as u64)),
{
}

} // verus!
