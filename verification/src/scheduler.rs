//! The background tasks' decisions: when the daily key synchronisation
//! runs and how it retries, what the metadata cleanup reports, and when a
//! new release is announced.
//!
//! The caller sleeps, performs the requests and sends the notifications.
use vstd::prelude::*;
use crate::text::{concat, decimal, decimal_string, from_chars, to_chars};
use crate::update::{semver_gt, semver_gt_spec};

verus! {

/// Seconds in a day.
pub const SECS_PER_DAY: u64 = 86400;

/// Seconds between attempts of a failed key synchronisation.
pub const SYNC_RETRY_SECS: u64 = 300;

/// Retries of a failed key synchronisation before it is given up (so at
/// most one more attempt than this).
pub const SYNC_MAX_RETRIES: u32 = 3;

/// Seconds between two metadata cleanups.
pub const META_CLEANUP_SECS: u64 = 3600;

/// Seconds between two upkeep runs of the output directory.
pub const UPKEEP_SECS: u64 = 300;

/// Seconds before the first release check.
pub const FIRST_UPDATE_CHECK_SECS: u64 = 60;

/// Seconds between release checks.
pub const UPDATE_CHECK_SECS: u64 = 86400;

/// How long to sleep until the next midnight (UTC), given the seconds
/// until then (a negative or zero count waits a whole day).
pub fn midnight_wait(secs_until: i64) -> (r: u64)
    ensures
        secs_until <= 0 ==> r == SECS_PER_DAY,
        secs_until > 0 ==> r == secs_until,
{
    if secs_until <= 0 {
        SECS_PER_DAY
    } else {
        secs_until as u64
    }
}

/// The synchronisation URL when one is configured and not empty.
pub fn sync_url(configured: &Option<String>) -> (r: Option<String>)
    ensures
        (configured matches Some(u) && u@.len() > 0) ==> (r matches Some(x) && x@ == configured->0@),
        !(configured matches Some(u) && u@.len() > 0) ==> r is None,
{
    match configured {
        Some(u) => {
            if u.as_str().is_empty() {
                None
            } else {
                Some(u.clone())
            }
        },
        None => None,
    }
}

/// What a synchronisation attempt answered.
#[derive(Debug, Clone)]
pub enum SyncOutcome {
    /// The keys changed.
    Updated,
    /// The keys were up to date.
    Unchanged,
    /// The attempt failed with this error.
    Failed(String),
}

/// What follows a synchronisation attempt.
#[derive(Debug, Clone)]
pub enum SyncStep {
    /// Tell the interface the keys changed; done until the next run.
    AnnounceUpdate,
    /// Done until the next run.
    Done,
    /// Try again after `SYNC_RETRY_SECS`.
    Retry,
    /// Give up, and notify the user with this message.
    GiveUp(String),
}

/// The message notifying a synchronisation that failed every attempt.
pub open spec fn sync_failed_message(error: Seq<char>) -> Seq<char> {
    "Mouflon 密钥同步失败（已重试 "@ + decimal(SYNC_MAX_RETRIES as nat) + " 次）："@ + error
}

/// The attempts of one synchronisation run.
#[derive(Debug, Clone)]
pub struct SyncAttempts {
    pub failed: u32,
}

impl SyncAttempts {
    /// A run that has not tried yet.
    pub fn new() -> (r: SyncAttempts)
        ensures
            r.failed == 0,
    {
        SyncAttempts { failed: 0 }
    }

    /// An attempt came back: a success ends the run; a failure is retried
    /// up to `SYNC_MAX_RETRIES` times, and given up when the attempt after the
    /// last retry fails too.
    pub fn on_outcome(&mut self, outcome: SyncOutcome) -> (r: SyncStep)
        requires
            old(self).failed <= SYNC_MAX_RETRIES,
        ensures
            outcome is Updated ==> r is AnnounceUpdate && final(self).failed == old(self).failed,
            outcome is Unchanged ==> r is Done && final(self).failed == old(self).failed,
            outcome matches SyncOutcome::Failed(e) ==> final(self).failed == old(self).failed + 1
                && (final(self).failed > SYNC_MAX_RETRIES ==> (r matches SyncStep::GiveUp(m) && m@ == sync_failed_message(e@)))
                && (final(self).failed <= SYNC_MAX_RETRIES ==> r is Retry),
    {
        match outcome {
            SyncOutcome::Updated => SyncStep::AnnounceUpdate,
            SyncOutcome::Unchanged => SyncStep::Done,
            SyncOutcome::Failed(e) => {
                self.failed = self.failed + 1;
                if self.failed > SYNC_MAX_RETRIES {
                    proof {
                        reveal_strlit("Mouflon 密钥同步失败（已重试 ");
                        reveal_strlit(" 次）：");
                    }
                    let m = concat(
                        &concat(
                            &concat(&to_chars("Mouflon 密钥同步失败（已重试 "), &to_chars(decimal_string(SYNC_MAX_RETRIES as u64).as_str())),
                            &to_chars(" 次）："),
                        ),
                        &to_chars(e.as_str()),
                    );
                    SyncStep::GiveUp(from_chars(&m))
                } else {
                    SyncStep::Retry
                }
            },
        }
    }
}

/// The message reporting `count` orphaned metadata files deleted.
pub open spec fn cleanup_message_spec(count: nat) -> Seq<char> {
    "已清理 "@ + decimal(count) + " 个孤立的 meta 文件（对应视频已不存在）"@
}

/// What the metadata cleanup reports: nothing when it deleted nothing.
pub fn cleanup_message(count: u64) -> (r: Option<String>)
    ensures
        count == 0 ==> r is None,
        count > 0 ==> (r matches Some(m) && m@ == cleanup_message_spec(count as nat)),
{
    if count == 0 {
        return None;
    }
    proof {
        reveal_strlit("已清理 ");
        reveal_strlit(" 个孤立的 meta 文件（对应视频已不存在）");
    }
    let m = concat(
        &concat(&to_chars("已清理 "), &to_chars(decimal_string(count).as_str())),
        &to_chars(" 个孤立的 meta 文件（对应视频已不存在）"),
    );
    Some(from_chars(&m))
}

/// The message announcing release `latest`, for a Docker installation or not.
pub open spec fn update_message_spec(latest: Seq<char>, is_docker: bool) -> Seq<char> {
    if is_docker {
        "发现新版本 v"@ + latest + "，请更新 Docker 镜像以升级"@
    } else {
        "发现新版本 v"@ + latest + "，前往关于页面下载更新"@
    }
}

/// The release checks of this process: the last release announced.
#[derive(Debug, Clone)]
pub struct UpdateNotifier {
    pub last_notified: Option<String>,
}

impl UpdateNotifier {
    /// Nothing announced yet.
    pub fn new() -> (r: UpdateNotifier)
        ensures
            r.last_notified is None,
    {
        UpdateNotifier { last_notified: None }
    }

    /// A check found release `latest` while `current` runs: it is announced
    /// (with the message to show) when it is newer and was not announced
    /// before; it then counts as announced.
    pub fn on_release(&mut self, latest: &str, current: &str, is_docker: bool) -> (r: Option<String>)
        ensures
            (semver_gt_spec(latest@, current@) && !(old(self).last_notified matches Some(l) && l@ == latest@)) ==> (r matches Some(m)
                && m@ == update_message_spec(latest@, is_docker))
                && (final(self).last_notified matches Some(l) && l@ == latest@),
            !(semver_gt_spec(latest@, current@) && !(old(self).last_notified matches Some(l) && l@ == latest@)) ==> r is None
                && final(self).last_notified == old(self).last_notified,
    {
        let already = match &self.last_notified {
            Some(l) => crate::text::str_eq(l.as_str(), latest),
            None => false,
        };
        if semver_gt(latest, current) && !already {
            proof {
                reveal_strlit("发现新版本 v");
                reveal_strlit("，请更新 Docker 镜像以升级");
                reveal_strlit("，前往关于页面下载更新");
            }
            let head = concat(&to_chars("发现新版本 v"), &to_chars(latest));
            let m = if is_docker {
                concat(&head, &to_chars("，请更新 Docker 镜像以升级"))
            } else {
                concat(&head, &to_chars("，前往关于页面下载更新"))
            };
            self.last_notified = Some(latest.to_owned());
            Some(from_chars(&m))
        } else {
            None
        }
    }
}

/// Lookups of one streamer in the configuration check before it counts as missing.
pub const CONFIG_CHECK_ATTEMPTS: u32 = 3;

/// Seconds between two lookups of the configuration check.
pub const CONFIG_CHECK_RETRY_SECS: u64 = 10;

/// What a lookup of a followed streamer answered.
#[derive(Debug, Clone)]
pub enum LookupOutcome {
    Found,
    NotFound,
    Failed,
}

/// The configuration check after lookup number `attempt` of a streamer:
/// whether it is missing (`Some`), or `None` to look again after
/// `CONFIG_CHECK_RETRY_SECS`. A streamer not found is missing; one whose
/// every lookup failed counts as missing too.
pub fn config_check_step(attempt: u32, outcome: LookupOutcome) -> (r: Option<bool>)
    requires
        1 <= attempt <= CONFIG_CHECK_ATTEMPTS,
    ensures
        outcome is Found ==> r == Some(false),
        outcome is NotFound ==> r == Some(true),
        outcome is Failed ==> r == (if attempt < CONFIG_CHECK_ATTEMPTS { None::<bool> } else { Some(true) }),
{
    match outcome {
        LookupOutcome::Found => Some(false),
        LookupOutcome::NotFound => Some(true),
        LookupOutcome::Failed => {
            if attempt < CONFIG_CHECK_ATTEMPTS {
                None
            } else {
                Some(true)
            }
        },
    }
}

} // verus!
