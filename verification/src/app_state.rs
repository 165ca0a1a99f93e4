//! The application's persisted data: settings, the streamers followed, the
//! stream decryption keys and the pipeline, and the rules by which they change.
//!
//! The caller holds the data behind a lock, reads and writes the JSON files
//! and performs the network requests; the changes are made here.
use vstd::prelude::*;
use crate::assoc::{find_key, get_spec, key_index, keys_unique, lemma_key_index, lemma_put_unique, put, put_spec};
use crate::path::{join, join_seq_path};
use crate::pipeline::{NodeInputRef, ParamValue, PipelineConfig, PipelineNode, default_pipeline_version};
use crate::queue::lemma_put_other;
use crate::text::{concat, from_chars, str_eq, to_chars};

verus! {

// ───────────────────────── settings ─────────────────────────

/// The user's settings.
#[derive(Debug, Clone)]
pub struct Settings {
    /// Where segment directories are written.
    pub output_dir: String,
    /// Seconds between polls of the streamers' status.
    pub poll_interval_secs: u64,
    /// Whether new streamers are recorded automatically.
    pub auto_record: bool,
    pub api_proxy_url: Option<String>,
    pub cdn_proxy_url: Option<String>,
    pub sc_mirror_url: Option<String>,
    /// `https` or `http`.
    pub sc_mirror_scheme: String,
    /// Recordings at once (0 = no limit).
    pub max_concurrent: usize,
    /// Size limit of the post-processing scratch directory, in thousandths
    /// of a gigabyte (0 = no limit).
    pub max_tmp_dir_gb_milli: u64,
    /// `zh-CN` or `en-US`.
    pub language: String,
    pub server_port: u16,
    /// Where the decryption keys are synchronised from (none = never).
    pub mouflon_sync_url: Option<String>,
    pub mouflon_sync_token: Option<String>,
    /// Whether the first-start wizard was completed.
    pub setup_done: bool,
    /// The administrator password's hash (PHC string), once set.
    pub admin_password_hash: Option<String>,
}

/// Where the decryption keys are synchronised from by default.
pub fn default_mouflon_sync_url() -> (r: Option<String>)
    ensures
        r matches Some(u) && u@ == "https://mouflon.chantrail.com"@,
{
    Some("https://mouflon.chantrail.com".to_owned())
}

/// The default mirror scheme.
pub fn default_sc_mirror_scheme() -> (r: String)
    ensures
        r@ == "https"@,
{
    "https".to_owned()
}

/// The default size limit of the scratch directory: 50 GB, in thousandths.
pub fn default_max_tmp_dir_gb_milli() -> (r: u64)
    ensures
        r == 50000,
{
    50000
}

/// The default interface language.
pub fn default_language() -> (r: String)
    ensures
        r@ == "zh-CN"@,
{
    "zh-CN".to_owned()
}

/// The default listening port.
pub fn default_server_port() -> (r: u16)
    ensures
        r == 3030,
{
    3030
}

impl Settings {
    /// The settings of a first start, for a program installed in `exe_dir`:
    /// recordings go to `recordings` beside the program, polled every 30 s,
    /// recorded automatically, without proxies or mirror.
    pub fn defaults(exe_dir: &str) -> (r: Settings)
        ensures
            r.output_dir@ == join_seq_path(exe_dir@, "recordings"@),
            r.poll_interval_secs == 30,
            r.auto_record,
            r.api_proxy_url is None && r.cdn_proxy_url is None && r.sc_mirror_url is None,
            r.sc_mirror_scheme@ == "https"@,
            r.max_concurrent == 0,
            r.max_tmp_dir_gb_milli == 50000,
            r.language@ == "zh-CN"@,
            r.server_port == 3030,
            r.mouflon_sync_url matches Some(u) && u@ == "https://mouflon.chantrail.com"@,
            r.mouflon_sync_token is None,
            !r.setup_done,
            r.admin_password_hash is None,
    {
        Settings {
            output_dir: from_chars(&join(&to_chars(exe_dir), &to_chars("recordings"))),
            poll_interval_secs: 30,
            auto_record: true,
            api_proxy_url: None,
            cdn_proxy_url: None,
            sc_mirror_url: None,
            sc_mirror_scheme: default_sc_mirror_scheme(),
            max_concurrent: 0,
            max_tmp_dir_gb_milli: default_max_tmp_dir_gb_milli(),
            language: default_language(),
            server_port: default_server_port(),
            mouflon_sync_url: default_mouflon_sync_url(),
            mouflon_sync_token: None,
            setup_done: false,
            admin_password_hash: None,
        }
    }
}

/// Two optional strings are the same.
pub fn opt_str_eq(a: &Option<String>, b: &Option<String>) -> (r: bool)
    ensures
        r == (match (a, b) {
            (Some(x), Some(y)) => x@ == y@,
            (None, None) => true,
            _ => false,
        }),
{
    match (a, b) {
        (Some(x), Some(y)) => str_eq(x.as_str(), y.as_str()),
        (None, None) => true,
        _ => false,
    }
}

/// What changing the settings from `old` to `new` must tell the rest of
/// the program: whether the poll interval changed (the monitor restarts its
/// timer), and whether the key synchronisation URL or token changed (a
/// synchronisation runs at once).
pub fn settings_change(old: &Settings, new: &Settings) -> (r: (bool, bool))
    ensures
        r.0 == (old.poll_interval_secs != new.poll_interval_secs),
        r.1 == !(opt_view_eq(old.mouflon_sync_url, new.mouflon_sync_url) && opt_view_eq(old.mouflon_sync_token, new.mouflon_sync_token)),
{
    (
        old.poll_interval_secs != new.poll_interval_secs,
        !(opt_str_eq(&old.mouflon_sync_url, &new.mouflon_sync_url) && opt_str_eq(&old.mouflon_sync_token, &new.mouflon_sync_token)),
    )
}

/// Two optional strings have the same text.
pub open spec fn opt_view_eq(a: Option<String>, b: Option<String>) -> bool {
    match (a, b) {
        (Some(x), Some(y)) => x@ == y@,
        (None, None) => true,
        _ => false,
    }
}

// ───────────────────────── streamers ─────────────────────────

/// A streamer followed.
#[derive(Debug, Clone)]
pub struct StreamerData {
    /// The username (lower case).
    pub username: String,
    pub auto_record: bool,
    /// When it was added (RFC 3339).
    pub added_at: String,
    /// The site's stable id of the streamer, used to follow a rename.
    pub model_id: Option<i64>,
    /// Whether it can no longer be found (by name or id); it is then not polled.
    pub is_dead: bool,
}

/// Position of the first streamer named `u`, or -1.
pub open spec fn user_index(s: Seq<StreamerData>, u: Seq<char>) -> int
    decreases s.len(),
{
    if s.len() == 0 {
        -1
    } else if user_index(s.drop_last(), u) >= 0 {
        user_index(s.drop_last(), u)
    } else if s.last().username@ == u {
        s.len() - 1
    } else {
        -1
    }
}

/// `user_index` is the least position of the name, or -1 when it is absent.
pub proof fn lemma_user_index(s: Seq<StreamerData>, u: Seq<char>)
    ensures
        -1 <= user_index(s, u) < s.len(),
        user_index(s, u) >= 0 ==> s[user_index(s, u)].username@ == u,
        forall|j: int| 0 <= j < s.len() && (user_index(s, u) < 0 || j < user_index(s, u)) ==> #[trigger] s[j].username@ != u,
    decreases s.len(),
{
    if s.len() > 0 {
        lemma_user_index(s.drop_last(), u);
        assert forall|j: int| 0 <= j < s.len() - 1 implies #[trigger] s[j] == s.drop_last()[j] by {}
    }
}

/// Position of the first streamer named `u` (executable).
pub fn find_streamer(s: &Vec<StreamerData>, u: &str) -> (r: Option<usize>)
    ensures
        r matches Some(i) ==> i as int == user_index(s@, u@),
        r is None ==> user_index(s@, u@) == -1,
{
    proof {
        lemma_user_index(s@, u@);
    }
    let mut i: usize = 0;
    while i < s.len()
        invariant
            i <= s@.len(),
            forall|j: int| 0 <= j < i ==> #[trigger] s@[j].username@ != u@,
            -1 <= user_index(s@, u@) < s@.len(),
            user_index(s@, u@) >= 0 ==> s@[user_index(s@, u@)].username@ == u@,
            forall|j: int| 0 <= j < s@.len() && (user_index(s@, u@) < 0 || j < user_index(s@, u@)) ==> #[trigger] s@[j].username@ != u@,
        decreases s.len() - i,
    {
        if str_eq(s[i].username.as_str(), u) {
            return Some(i);
        }
        i += 1;
    }
    None
}

/// No two streamers followed share a name.
pub open spec fn users_unique(s: Seq<StreamerData>) -> bool {
    forall|i: int, j: int| 0 <= i < j < s.len() ==> s[i].username@ != s[j].username@
}

/// Replaces the streamer at `i`.
fn replace_at(s: &mut Vec<StreamerData>, i: usize, x: StreamerData)
    requires
        i < old(s)@.len(),
    ensures
        final(s)@ == old(s)@.update(i as int, x),
{
    let ghost o = s@;
    s.remove(i);
    s.insert(i, x);
    assert(s@ =~= o.update(i as int, x));
}

/// The streamers of `s` not named `u`, in order.
pub open spec fn without_user(s: Seq<StreamerData>, u: Seq<char>) -> Seq<StreamerData>
    decreases s.len(),
{
    if s.len() == 0 {
        seq![]
    } else {
        let p = without_user(s.drop_last(), u);
        if s.last().username@ == u {
            p
        } else {
            p.push(s.last())
        }
    }
}

/// The names of the streamers no longer found, in order.
pub open spec fn dead_names(s: Seq<StreamerData>) -> Seq<Seq<char>>
    decreases s.len(),
{
    if s.len() == 0 {
        seq![]
    } else {
        let p = dead_names(s.drop_last());
        if s.last().is_dead {
            p.push(s.last().username@)
        } else {
            p
        }
    }
}

/// The message refusing to add a streamer already followed.
pub open spec fn exists_message(u: Seq<char>) -> Seq<char> {
    "模特 "@ + u + " 已存在"@
}

/// The message refusing a rename to a name already followed.
pub open spec fn rename_taken_message(u: Seq<char>) -> Seq<char> {
    "无法改名："@ + u + " 已存在于追踪列表中"@
}

// ───────────────────────── decryption keys ─────────────────────────

/// The stream decryption keys (`pkey` to `pdkey`) and when they changed.
#[derive(Debug, Clone)]
pub struct MouflonKeysStore {
    pub keys: Vec<(String, String)>,
    /// When the synchronisation source last changed its keys (RFC 3339).
    pub auto_synced_at: Option<String>,
    /// When a key was last added or removed by hand (RFC 3339).
    pub manual_updated_at: Option<String>,
}

/// The instant an RFC 3339 text denotes (`DateTime::parse_from_rfc3339`),
/// as seconds since the Unix epoch and nanoseconds.
pub uninterp spec fn rfc3339_instant(s: Seq<char>) -> Option<(i64, u32)>;

/// The UTC RFC 3339 text of the instant an RFC 3339 text denotes
/// (`DateTime::parse_from_rfc3339`, then `with_timezone(&Utc).to_rfc3339()`).
pub uninterp spec fn rfc3339_utc_text(s: Seq<char>) -> Option<Seq<char>>;

/// Calls `chrono::DateTime::parse_from_rfc3339` on `s` and gives the
/// instant as (`timestamp`, `timestamp_subsec_nanos`); two texts denote the
/// same instant exactly when these pairs are equal (chrono compares the UTC
/// date and time). The result is named, not stated.
#[verifier::external_body]
fn parse_instant(s: &str) -> (r: Option<(i64, u32)>)
    ensures
        r == rfc3339_instant(s@),
{
    chrono::DateTime::parse_from_rfc3339(s).ok().map(|dt| (dt.timestamp(), dt.timestamp_subsec_nanos()))
}

/// Calls `chrono::DateTime::parse_from_rfc3339` on `s` and writes the
/// instant back with `to_rfc3339` in UTC. The result is named, not stated.
#[verifier::external_body]
fn utc_text(s: &str) -> (r: Option<String>)
    ensures
        r matches Some(t) ==> rfc3339_utc_text(s@) == Some(t@),
        r is None ==> rfc3339_utc_text(s@) is None,
{
    chrono::DateTime::parse_from_rfc3339(s).ok().map(|dt| dt.with_timezone(&chrono::Utc).to_rfc3339())
}

/// Whether the source's `updated_at` denotes the instant of the last
/// synchronisation (`local`).
pub open spec fn same_instant(updated_at: Seq<char>, local: Option<String>) -> bool {
    &&& rfc3339_instant(updated_at) is Some
    &&& local matches Some(l) && rfc3339_instant(l@) == rfc3339_instant(updated_at)
}

/// The key of `p` after a merge: the source's value when the source names
/// `p` (the last pair naming it), otherwise the local one.
pub open spec fn merged_key(local: Seq<(String, String)>, source: Seq<(String, String)>, p: Seq<char>) -> Option<String> {
    match last_value(source, source.len() as int, p) {
        Some(v) => Some(v),
        None => get_spec(local, p),
    }
}

/// The value of the last of the first `n` pairs whose key is `p`.
pub open spec fn last_value(s: Seq<(String, String)>, n: int, p: Seq<char>) -> Option<String>
    decreases n,
{
    if n <= 0 {
        None
    } else if s[n - 1].0@ == p {
        Some(s[n - 1].1)
    } else {
        last_value(s, n - 1, p)
    }
}

impl MouflonKeysStore {
    /// No key is held twice.
    pub open spec fn wf(&self) -> bool {
        keys_unique(self.keys@)
    }

    /// The key of `p`.
    pub open spec fn key_of(&self, p: Seq<char>) -> Option<String> {
        get_spec(self.keys@, p)
    }

    /// Takes in the keys of the synchronisation source. When `updated_at`
    /// denotes the instant of the last synchronisation, nothing is done and
    /// nothing changed. Otherwise every source key takes the source's value
    /// (keys only held locally stay), the time is recorded (as UTC text, or
    /// as given when it does not parse), and the store changed.
    pub fn merge_source_keys(&mut self, source: &Vec<(String, String)>, updated_at: &str) -> (changed: bool)
        requires
            old(self).wf(),
        ensures
            final(self).wf(),
            same_instant(updated_at@, old(self).auto_synced_at) ==> !changed && *final(self) == *old(self),
            !same_instant(updated_at@, old(self).auto_synced_at) ==> changed
                && (forall|p: Seq<char>| #[trigger] final(self).key_of(p) == merged_key(old(self).keys@, source@, p))
                && (final(self).auto_synced_at matches Some(t) && t@ == (match rfc3339_utc_text(updated_at@) {
                    Some(u) => u,
                    None => updated_at@,
                })),
            final(self).manual_updated_at == old(self).manual_updated_at,
    {
        let same = match parse_instant(updated_at) {
            Some(w) => match &self.auto_synced_at {
                Some(l) => match parse_instant(l.as_str()) {
                    Some(lt) => lt.0 == w.0 && lt.1 == w.1,
                    None => false,
                },
                None => false,
            },
            None => false,
        };
        assert(same == same_instant(updated_at@, self.auto_synced_at));
        if same {
            return false;
        }
        let ghost old_keys = self.keys@;
        let ghost old_manual = self.manual_updated_at;
        let mut j: usize = 0;
        while j < source.len()
            invariant
                j <= source@.len(),
                keys_unique(self.keys@),
                forall|p: Seq<char>| #[trigger] get_spec(self.keys@, p) == (match last_value(source@, j as int, p) {
                    Some(v) => Some(v),
                    None => get_spec(old_keys, p),
                }),
                self.manual_updated_at == old_manual,
            decreases source.len() - j,
        {
            let kk = source[j].0.clone();
            let vv = source[j].1.clone();
            let ghost before = self.keys@;
            proof {
                lemma_put_unique(self.keys@, kk, vv);
                assert forall|p: Seq<char>| p != kk@ implies get_spec(put_spec(self.keys@, kk, vv), p) == get_spec(self.keys@, p) by {
                    lemma_put_other(self.keys@, kk, vv, p);
                }
            }
            put(&mut self.keys, kk, vv);
            proof {
                assert forall|p: Seq<char>| #[trigger] get_spec(self.keys@, p) == (match last_value(source@, j + 1, p) {
                    Some(v) => Some(v),
                    None => get_spec(old_keys, p),
                }) by {
                    if p != source@[j as int].0@ {
                        assert(get_spec(self.keys@, p) == get_spec(before, p));
                        assert(last_value(source@, j + 1, p) == last_value(source@, j as int, p));
                    } else {
                        assert(last_value(source@, j + 1, p) == Some(source@[j as int].1));
                    }
                }
            }
            j += 1;
        }
        let t = match utc_text(updated_at) {
            Some(t) => t,
            None => updated_at.to_owned(),
        };
        self.auto_synced_at = Some(t);
        true
    }
}

// ───────────────────────── the data ─────────────────────────

/// Everything the application keeps in its configuration files.
#[derive(Debug, Clone)]
pub struct AppData {
    pub settings: Settings,
    pub streamers: Vec<StreamerData>,
    pub mouflon_keys: MouflonKeysStore,
    pub pipeline: PipelineConfig,
}

impl AppData {
    /// Follows the streamer `username` (recorded automatically when the
    /// settings say so), added at `added_at`; refused when it is followed already.
    pub fn add_streamer(&mut self, username: &str, model_id: Option<i64>, added_at: &str) -> (r: Result<(), String>)
        ensures
            user_index(old(self).streamers@, username@) >= 0 ==> (r matches Err(m) && m@ == exists_message(username@))
                && final(self).streamers@ == old(self).streamers@,
            user_index(old(self).streamers@, username@) < 0 ==> r is Ok
                && final(self).streamers@.len() == old(self).streamers@.len() + 1
                && final(self).streamers@.drop_last() == old(self).streamers@
                && final(self).streamers@.last().username@ == username@
                && final(self).streamers@.last().auto_record == old(self).settings.auto_record
                && final(self).streamers@.last().added_at@ == added_at@
                && final(self).streamers@.last().model_id == model_id
                && !final(self).streamers@.last().is_dead,
            users_unique(old(self).streamers@) ==> users_unique(final(self).streamers@),
            final(self).settings == old(self).settings,
            final(self).mouflon_keys == old(self).mouflon_keys,
            final(self).pipeline == old(self).pipeline,
    {
        proof {
            lemma_user_index(self.streamers@, username@);
        }
        if find_streamer(&self.streamers, username).is_some() {
            proof {
                reveal_strlit("模特 ");
                reveal_strlit(" 已存在");
            }
            let m = concat(&concat(&to_chars("模特 "), &to_chars(username)), &to_chars(" 已存在"));
            return Err(from_chars(&m));
        }
        let s = StreamerData {
            username: username.to_owned(),
            auto_record: self.settings.auto_record,
            added_at: added_at.to_owned(),
            model_id,
            is_dead: false,
        };
        let ghost o = self.streamers@;
        self.streamers.push(s);
        assert(self.streamers@.drop_last() =~= o);
        proof {
            if users_unique(o) {
                assert forall|i: int, j: int| 0 <= i < j < self.streamers@.len() implies self.streamers@[i].username@ != self.streamers@[j].username@ by {
                    if j == o.len() {
                        assert(o[i].username@ != username@);
                    } else {
                        assert(self.streamers@[i] == o[i] && self.streamers@[j] == o[j]);
                    }
                }
            }
        }
        Ok(())
    }

    /// Records the model id of `username` when it has none yet (an existing
    /// id is kept); tells whether it changed.
    pub fn backfill_model_id(&mut self, username: &str, model_id: i64) -> (changed: bool)
        ensures
            ({
                let i = user_index(old(self).streamers@, username@);
                if i >= 0 && old(self).streamers@[i].model_id is None {
                    changed && final(self).streamers@ == old(self).streamers@.update(i, StreamerData {
                        model_id: Some(model_id),
                        ..old(self).streamers@[i]
                    })
                } else {
                    !changed && final(self).streamers@ == old(self).streamers@
                }
            }),
            final(self).settings == old(self).settings,
            final(self).mouflon_keys == old(self).mouflon_keys,
            final(self).pipeline == old(self).pipeline,
    {
        proof {
            lemma_user_index(self.streamers@, username@);
        }
        match find_streamer(&self.streamers, username) {
            Some(i) => {
                if self.streamers[i].model_id.is_none() {
                    let old_s = self.streamers.remove(i);
                    let ghost mid = self.streamers@;
                    let s = StreamerData { model_id: Some(model_id), ..old_s };
                    self.streamers.insert(i, s);
                    true
                } else {
                    false
                }
            },
            None => false,
        }
    }

    /// Renames the streamer `old_name` to `new_name`, keeping the rest of
    /// its record; refused when `new_name` is followed already.
    pub fn rename_streamer(&mut self, old_name: &str, new_name: &str) -> (r: Result<(), String>)
        ensures
            user_index(old(self).streamers@, new_name@) >= 0 ==> (r matches Err(m) && m@ == rename_taken_message(new_name@))
                && final(self).streamers@ == old(self).streamers@,
            user_index(old(self).streamers@, new_name@) < 0 ==> r is Ok && ({
                let i = user_index(old(self).streamers@, old_name@);
                if i >= 0 {
                    final(self).streamers@.len() == old(self).streamers@.len()
                        && (forall|j: int| 0 <= j < old(self).streamers@.len() && j != i ==> #[trigger] final(self).streamers@[j] == old(self).streamers@[j])
                        && final(self).streamers@[i].username@ == new_name@
                        && final(self).streamers@[i].auto_record == old(self).streamers@[i].auto_record
                        && final(self).streamers@[i].added_at == old(self).streamers@[i].added_at
                        && final(self).streamers@[i].model_id == old(self).streamers@[i].model_id
                        && final(self).streamers@[i].is_dead == old(self).streamers@[i].is_dead
                } else {
                    final(self).streamers@ == old(self).streamers@
                }
            }),
            users_unique(old(self).streamers@) ==> users_unique(final(self).streamers@),
            final(self).settings == old(self).settings,
            final(self).mouflon_keys == old(self).mouflon_keys,
            final(self).pipeline == old(self).pipeline,
    {
        proof {
            lemma_user_index(self.streamers@, new_name@);
        }
        if find_streamer(&self.streamers, new_name).is_some() {
            proof {
                reveal_strlit("无法改名：");
                reveal_strlit(" 已存在于追踪列表中");
            }
            let m = concat(&concat(&to_chars("无法改名："), &to_chars(new_name)), &to_chars(" 已存在于追踪列表中"));
            return Err(from_chars(&m));
        }
        proof {
            lemma_user_index(self.streamers@, old_name@);
        }
        match find_streamer(&self.streamers, old_name) {
            Some(i) => {
                let ghost o = self.streamers@;
                let old_s = self.streamers.remove(i);
                let s = StreamerData { username: new_name.to_owned(), ..old_s };
                self.streamers.insert(i, s);
                proof {
                    let n = self.streamers@;
                    assert(n =~= o.update(i as int, s));
                    if users_unique(o) {
                        assert forall|a: int, b: int| 0 <= a < b < n.len() implies n[a].username@ != n[b].username@ by {
                            if a == i {
                                assert(o[b].username@ != new_name@);
                            } else if b == i {
                                assert(o[a].username@ != new_name@);
                            } else {
                                assert(n[a] == o[a] && n[b] == o[b]);
                            }
                        }
                    }
                }
            },
            None => {},
        }
        Ok(())
    }

    /// Marks `username` as no longer found; tells whether it changed.
    pub fn mark_streamer_dead(&mut self, username: &str) -> (changed: bool)
        ensures
            ({
                let i = user_index(old(self).streamers@, username@);
                if i >= 0 && !old(self).streamers@[i].is_dead {
                    changed && final(self).streamers@ == old(self).streamers@.update(i, StreamerData {
                        is_dead: true,
                        ..old(self).streamers@[i]
                    })
                } else {
                    !changed && final(self).streamers@ == old(self).streamers@
                }
            }),
            final(self).settings == old(self).settings,
            final(self).mouflon_keys == old(self).mouflon_keys,
            final(self).pipeline == old(self).pipeline,
    {
        proof {
            lemma_user_index(self.streamers@, username@);
        }
        match find_streamer(&self.streamers, username) {
            Some(i) => {
                if !self.streamers[i].is_dead {
                    let old_s = self.streamers.remove(i);
                    let s = StreamerData { is_dead: true, ..old_s };
                    self.streamers.insert(i, s);
                    true
                } else {
                    false
                }
            },
            None => false,
        }
    }

    /// The usernames of the streamers no longer found, in order.
    pub fn dead_streamers(&self) -> (r: Vec<String>)
        ensures
            crate::text::strs_view(r@) == dead_names(self.streamers@),
    {
        let mut r: Vec<String> = Vec::new();
        let mut j: usize = 0;
        while j < self.streamers.len()
            invariant
                j <= self.streamers@.len(),
                crate::text::strs_view(r@) == dead_names(self.streamers@.subrange(0, j as int)),
            decreases self.streamers.len() - j,
        {
            proof {
                let t = self.streamers@.subrange(0, j + 1);
                assert(t.drop_last() =~= self.streamers@.subrange(0, j as int));
                assert(t.last() == self.streamers@[j as int]);
            }
            if self.streamers[j].is_dead {
                r.push(self.streamers[j].username.clone());
            }
            j += 1;
            proof {
                assert(crate::text::strs_view(r@) =~= dead_names(self.streamers@.subrange(0, j as int)));
            }
        }
        assert(self.streamers@.subrange(0, self.streamers@.len() as int) =~= self.streamers@);
        r
    }

    /// Stops following `username`.
    pub fn remove_streamer(&mut self, username: &str)
        ensures
            final(self).streamers@ == without_user(old(self).streamers@, username@),
            final(self).settings == old(self).settings,
            final(self).mouflon_keys == old(self).mouflon_keys,
            final(self).pipeline == old(self).pipeline,
    {
        let ghost o = self.streamers@;
        let mut kept: Vec<StreamerData> = Vec::new();
        let mut all: Vec<StreamerData> = Vec::new();
        std::mem::swap(&mut all, &mut self.streamers);
        let n = all.len();
        let mut rest = crate::recordings::reversed(all);
        assert(rest@ =~= o.subrange(0, n as int).reverse());
        let mut k: usize = 0;
        while rest.len() > 0
            invariant
                k + rest@.len() == n,
                n == o.len(),
                rest@ == o.subrange(k as int, n as int).reverse(),
                kept@ == without_user(o.subrange(0, k as int), username@),
            decreases rest.len(),
        {
            let x = rest.pop().unwrap();
            proof {
                assert(x == o[k as int]);
                assert(rest@ =~= o.subrange(k + 1, n as int).reverse());
                assert(o.subrange(0, k + 1).drop_last() =~= o.subrange(0, k as int));
                assert(o.subrange(0, k + 1).last() == o[k as int]);
            }
            if !str_eq(x.username.as_str(), username) {
                kept.push(x);
            }
            k += 1;
        }
        assert(o.subrange(0, n as int) =~= o);
        self.streamers = kept;
    }

    /// Sets whether `username` is recorded automatically.
    pub fn set_auto_record(&mut self, username: &str, enabled: bool)
        ensures
            ({
                let i = user_index(old(self).streamers@, username@);
                if i >= 0 {
                    final(self).streamers@ == old(self).streamers@.update(i, StreamerData {
                        auto_record: enabled,
                        ..old(self).streamers@[i]
                    })
                } else {
                    final(self).streamers@ == old(self).streamers@
                }
            }),
            final(self).settings == old(self).settings,
            final(self).mouflon_keys == old(self).mouflon_keys,
            final(self).pipeline == old(self).pipeline,
    {
        proof {
            lemma_user_index(self.streamers@, username@);
        }
        match find_streamer(&self.streamers, username) {
            Some(i) => {
                let old_s = self.streamers.remove(i);
                let s = StreamerData { auto_record: enabled, ..old_s };
                self.streamers.insert(i, s);
            },
            None => {},
        }
    }

    /// Adds or replaces the key of `pkey` by hand, at `now`.
    pub fn add_mouflon_key(&mut self, pkey: &str, pdkey: &str, now: &str)
        requires
            old(self).mouflon_keys.wf(),
        ensures
            final(self).mouflon_keys.wf(),
            final(self).mouflon_keys.key_of(pkey@) matches Some(v) && v@ == pdkey@,
            forall|p: Seq<char>| p != pkey@ ==> #[trigger] final(self).mouflon_keys.key_of(p) == old(self).mouflon_keys.key_of(p),
            final(self).mouflon_keys.manual_updated_at matches Some(t) && t@ == now@,
            final(self).mouflon_keys.auto_synced_at == old(self).mouflon_keys.auto_synced_at,
            final(self).streamers == old(self).streamers,
            final(self).settings == old(self).settings,
            final(self).pipeline == old(self).pipeline,
    {
        let k = pkey.to_owned();
        let v = pdkey.to_owned();
        proof {
            lemma_put_unique(self.mouflon_keys.keys@, k, v);
            assert forall|p: Seq<char>| p != pkey@ implies get_spec(put_spec(self.mouflon_keys.keys@, k, v), p) == get_spec(self.mouflon_keys.keys@, p) by {
                lemma_put_other(self.mouflon_keys.keys@, k, v, p);
            }
        }
        put(&mut self.mouflon_keys.keys, k, v);
        self.mouflon_keys.manual_updated_at = Some(now.to_owned());
    }

    /// Removes the key of `pkey` by hand, at `now`.
    pub fn remove_mouflon_key(&mut self, pkey: &str, now: &str)
        requires
            old(self).mouflon_keys.wf(),
        ensures
            final(self).mouflon_keys.wf(),
            final(self).mouflon_keys.key_of(pkey@) is None,
            forall|p: Seq<char>| p != pkey@ ==> #[trigger] final(self).mouflon_keys.key_of(p) == old(self).mouflon_keys.key_of(p),
            final(self).mouflon_keys.manual_updated_at matches Some(t) && t@ == now@,
            final(self).mouflon_keys.auto_synced_at == old(self).mouflon_keys.auto_synced_at,
            final(self).streamers == old(self).streamers,
            final(self).settings == old(self).settings,
            final(self).pipeline == old(self).pipeline,
    {
        crate::queue::remove_key(&mut self.mouflon_keys.keys, pkey);
        self.mouflon_keys.manual_updated_at = Some(now.to_owned());
    }

    /// Whether an administrator password was set.
    pub fn has_admin_password(&self) -> (r: bool)
        ensures
            r == self.settings.admin_password_hash is Some,
    {
        self.settings.admin_password_hash.is_some()
    }
}

// ───────────────────────── the administrator password ─────────────────────────

/// Whether `password` matches the PHC hash string `hash` under Argon2
/// (`PasswordHash::new`, then `Argon2::default().verify_password`); false
/// when the hash does not parse.
pub uninterp spec fn argon2_matches(password: Seq<char>, hash: Seq<char>) -> bool;

/// Calls `Argon2::default().hash_password` on the password's bytes, which
/// draws a random salt, and writes the hash as a PHC string; on failure,
/// the error's text. The string depends on the salt: what is stated is the
/// round trip the crate documents, that the password verifies against it.
#[verifier::external_body]
fn argon2_hash(password: &str) -> (r: Result<String, String>)
    ensures
        r matches Ok(h) ==> argon2_matches(password@, h@),
{
    argon2::PasswordHasher::hash_password(&argon2::Argon2::default(), password.as_bytes())
        .map(|h| h.to_string())
        .map_err(|e| e.to_string())
}

/// Calls `argon2::PasswordHash::new` on `hash` and, when it parses,
/// `Argon2::default().verify_password` with the password's bytes. The
/// result is named, not stated.
#[verifier::external_body]
fn argon2_verify(password: &str, hash: &str) -> (r: bool)
    ensures
        r == argon2_matches(password@, hash@),
{
    match argon2::PasswordHash::new(hash) {
        Ok(parsed) => argon2::PasswordVerifier::verify_password(&argon2::Argon2::default(), password.as_bytes(), &parsed).is_ok(),
        Err(_) => false,
    }
}

/// Whether the settings' administrator password is `password` (never when none is set).
pub open spec fn accepts_password(settings: Settings, password: Seq<char>) -> bool {
    match settings.admin_password_hash {
        Some(h) => argon2_matches(password, h@),
        None => false,
    }
}

/// The message of a password that could not be hashed.
pub open spec fn hash_failed_message(error: Seq<char>) -> Seq<char> {
    "密码哈希失败: "@ + error
}

impl AppData {
    /// Sets the administrator password: its Argon2 hash (fresh salt) is kept.
    /// A password set this way is the one that verifies afterwards.
    pub fn set_admin_password(&mut self, password: &str) -> (r: Result<(), String>)
        ensures
            r is Ok ==> accepts_password(final(self).settings, password@),
            r is Ok ==> final(self).settings == (Settings {
                admin_password_hash: final(self).settings.admin_password_hash,
                ..old(self).settings
            }),
            r is Err ==> final(self).settings.admin_password_hash == old(self).settings.admin_password_hash,
            r matches Err(m) ==> *final(self) == *old(self) && exists|e: Seq<char>| m@ == hash_failed_message(e),
            final(self).streamers == old(self).streamers,
            final(self).mouflon_keys == old(self).mouflon_keys,
            final(self).pipeline == old(self).pipeline,
            final(self).settings.output_dir == old(self).settings.output_dir,
            final(self).settings.auto_record == old(self).settings.auto_record,
            final(self).settings.poll_interval_secs == old(self).settings.poll_interval_secs,
    {
        match argon2_hash(password) {
            Ok(h) => {
                self.settings.admin_password_hash = Some(h);
                Ok(())
            },
            Err(e) => {
                proof {
                    reveal_strlit("密码哈希失败: ");
                }
                let m = from_chars(&concat(&to_chars("密码哈希失败: "), &to_chars(e.as_str())));
                assert(m@ == hash_failed_message(e@));
                Err(m)
            },
        }
    }

    /// Whether `password` is the administrator password (false when none is set).
    pub fn verify_admin_password(&self, password: &str) -> (r: bool)
        ensures
            r == accepts_password(self.settings, password@),
    {
        match &self.settings.admin_password_hash {
            Some(h) => argon2_verify(password, h.as_str()),
            None => false,
        }
    }
}

/// The pipeline of a first start (no pipeline file yet): one enabled
/// `ts_merge` node fed by the recording, writing `mp4`, split by streamer.
pub fn first_start_pipeline() -> (r: PipelineConfig)
    ensures
        r.nodes@.len() == 1,
        r.nodes@[0].module_id@ == "ts_merge"@,
        r.nodes@[0].node_id is None,
        r.nodes@[0].enabled,
        r.nodes@[0].params@.len() == 2,
        r.nodes@[0].params@[0].0@ == "format"@,
        r.nodes@[0].params@[0].1 matches ParamValue::Text(t) && t@ == "mp4"@,
        r.nodes@[0].params@[1].0@ == "split_by_streamer"@,
        r.nodes@[0].params@[1].1 matches ParamValue::Json(t) && t@ == "true"@,
        r.nodes@[0].inputs@.len() == 1,
        r.nodes@[0].inputs@[0].0 == 0,
        r.nodes@[0].inputs@[0].1.node_id@ == "0"@,
        r.nodes@[0].inputs@[0].1.port == 0,
{
    let mut params: Vec<(String, ParamValue)> = Vec::new();
    params.push(("format".to_owned(), ParamValue::Text("mp4".to_owned())));
    params.push(("split_by_streamer".to_owned(), ParamValue::Json("true".to_owned())));
    let mut inputs: Vec<(usize, NodeInputRef)> = Vec::new();
    inputs.push((0, NodeInputRef { node_id: "0".to_owned(), port: 0 }));
    let node = PipelineNode { module_id: "ts_merge".to_owned(), node_id: None, params, enabled: true, inputs };
    let mut nodes: Vec<PipelineNode> = Vec::new();
    nodes.push(node);
    PipelineConfig { version: default_pipeline_version(), nodes }
}

/// A key pair added by hand.
#[derive(Debug, Clone)]
pub struct MouflonKeyBody {
    pub pkey: String,
    pub pdkey: String,
}

} // verus!
