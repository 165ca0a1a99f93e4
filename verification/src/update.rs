//! Self-update: the platform name, version comparison, choosing the release
//! asset, and download progress reporting.
use vstd::prelude::*;
use crate::text::{concat, from_chars, parse_u64, parse_unsigned, split_char, split_seq, str_eq, to_chars, views};

verus! {

/// The platform name used in release asset names: `windows-x86_64`,
/// `linux-x86_64`, `linux-aarch64`, `darwin-x86_64`, `darwin-aarch64`, or
/// `unknown`, for the operating system and architecture (as
/// `std::env::consts::OS` and `ARCH` name them).
pub open spec fn platform_spec(os: Seq<char>, arch: Seq<char>) -> Seq<char> {
    if os == "windows"@ && arch == "x86_64"@ {
        "windows-x86_64"@
    } else if os == "linux"@ && arch == "x86_64"@ {
        "linux-x86_64"@
    } else if os == "linux"@ && arch == "aarch64"@ {
        "linux-aarch64"@
    } else if os == "macos"@ && arch == "x86_64"@ {
        "darwin-x86_64"@
    } else if os == "macos"@ && arch == "aarch64"@ {
        "darwin-aarch64"@
    } else {
        "unknown"@
    }
}

/// The platform name for an operating system and architecture.
pub fn current_platform(os: &str, arch: &str) -> (r: &'static str)
    ensures
        r@ == platform_spec(os@, arch@),
{
    if str_eq(os, "windows") && str_eq(arch, "x86_64") {
        "windows-x86_64"
    } else if str_eq(os, "linux") && str_eq(arch, "x86_64") {
        "linux-x86_64"
    } else if str_eq(os, "linux") && str_eq(arch, "aarch64") {
        "linux-aarch64"
    } else if str_eq(os, "macos") && str_eq(arch, "x86_64") {
        "darwin-x86_64"
    } else if str_eq(os, "macos") && str_eq(arch, "aarch64") {
        "darwin-aarch64"
    } else {
        "unknown"
    }
}

/// The version triple of `major.minor.patch[-suffix]`: the first two pieces
/// between dots, and the rest up to its first `-` (0 when missing); `None`
/// when a number does not parse.
pub open spec fn version_triple(v: Seq<char>) -> Option<(nat, nat, nat)> {
    let parts = split_seq(v, '.');
    let a = parse_unsigned(parts[0], u64::MAX as nat);
    let b = if parts.len() >= 2 {
        parse_unsigned(parts[1], u64::MAX as nat)
    } else {
        None
    };
    let rest = if parts.len() >= 3 {
        crate::text::join_seq(parts.subrange(2, parts.len() as int), '.')
    } else {
        "0"@
    };
    let c = parse_unsigned(split_seq(rest, '-')[0], u64::MAX as nat);
    match (a, b, c) {
        (Some(a), Some(b), Some(c)) => Some((a, b, c)),
        _ => None,
    }
}

/// Whether the triple `x` is greater than `y`, lexicographically.
pub open spec fn triple_gt(x: (nat, nat, nat), y: (nat, nat, nat)) -> bool {
    x.0 > y.0 || (x.0 == y.0 && (x.1 > y.1 || (x.1 == y.1 && x.2 > y.2)))
}

/// Whether `latest` is newer than `current`: compared as version triples
/// when both parse, otherwise newer whenever the strings differ.
pub open spec fn semver_gt_spec(latest: Seq<char>, current: Seq<char>) -> bool {
    match (version_triple(latest), version_triple(current)) {
        (Some(x), Some(y)) => triple_gt(x, y),
        _ => latest != current,
    }
}

/// The version triple of a version string (executable).
fn parse_version(v: &str) -> (r: Option<(u64, u64, u64)>)
    ensures
        r matches Some(t) ==> version_triple(v@) == Some((t.0 as nat, t.1 as nat, t.2 as nat)),
        r is None ==> version_triple(v@) is None,
{
    proof {
        reveal_strlit("0");
        crate::text::lemma_split_nonempty(v@, '.');
    }
    let parts = split_char(&to_chars(v), '.');
    assert(views(parts@).len() == parts@.len());
    assert(views(parts@)[0] == parts@[0]@);
    let a = parse_u64(&parts[0]);
    let b = if parts.len() >= 2 {
        assert(views(parts@)[1] == parts@[1]@);
        parse_u64(&parts[1])
    } else {
        None
    };
    let rest: Vec<char> = if parts.len() >= 3 {
        let mut tail: Vec<Vec<char>> = Vec::new();
        let mut i: usize = 2;
        while i < parts.len()
            invariant
                2 <= i <= parts.len(),
                views(tail@) == views(parts@).subrange(2, i as int),
            decreases parts.len() - i,
        {
            let ghost before = views(tail@);
            let piece = crate::text::slice(&parts[i], 0, parts[i].len());
            assert(piece@ =~= parts@[i as int]@);
            tail.push(piece);
            assert(views(tail@) =~= before.push(parts@[i as int]@));
            assert(views(parts@)[i as int] == parts@[i as int]@);
            assert(views(tail@) =~= views(parts@).subrange(2, i + 1));
            i += 1;
        }
        crate::text::join_char(&tail, '.')
    } else {
        to_chars("0")
    };
    proof {
        crate::text::lemma_split_nonempty(rest@, '-');
    }
    let pieces = split_char(&rest, '-');
    assert(views(pieces@).len() == pieces@.len());
    assert(views(pieces@)[0] == pieces@[0]@);
    let c = parse_u64(&pieces[0]);
    match (a, b, c) {
        (Some(a), Some(b), Some(c)) => Some((a, b, c)),
        _ => None,
    }
}

/// Whether the release version `latest` is newer than `current`.
pub fn semver_gt(latest: &str, current: &str) -> (r: bool)
    ensures
        r == semver_gt_spec(latest@, current@),
{
    match (parse_version(latest), parse_version(current)) {
        (Some(x), Some(y)) => x.0 > y.0 || (x.0 == y.0 && (x.1 > y.1 || (x.1 == y.1 && x.2 > y.2))),
        _ => !str_eq(latest, current),
    }
}

/// No version is newer than itself.
pub proof fn law_semver_irreflexive(v: Seq<char>)
    ensures
        !semver_gt_spec(v, v),
{
}

/// Of two versions that both parse, at most one is newer than the other.
pub proof fn law_semver_asymmetric(a: Seq<char>, b: Seq<char>)
    requires
        version_triple(a) is Some,
        version_triple(b) is Some,
    ensures
        !(semver_gt_spec(a, b) && semver_gt_spec(b, a)),
{
}

/// Information about the latest release.
#[derive(Debug, Clone)]
pub struct ReleaseInfo {
    pub latest_version: String,
    pub release_url: String,
    pub release_notes: String,
    pub published_at: String,
    pub download_url: Option<String>,
    pub download_size: Option<u64>,
}

/// What the update check reports.
#[derive(Debug, Clone)]
pub struct UpdateInfo {
    pub current_version: String,
    pub platform: String,
    pub is_docker: bool,
    pub release: Option<ReleaseInfo>,
    pub asset_names: Vec<String>,
}

/// Progress of an update.
#[derive(Debug, Clone)]
pub enum UpdateProgress {
    Idle,
    Downloading { downloaded: u64, total: u64, pct: Option<u8> },
    Installing,
    Done,
    Error { message: String },
}

/// The version named by a release tag: the tag without its leading `v`s.
pub open spec fn tag_version(tag: Seq<char>) -> Seq<char>
    decreases tag.len(),
{
    if tag.len() > 0 && tag[0] == 'v' {
        tag_version(tag.subrange(1, tag.len() as int))
    } else {
        tag
    }
}

/// The version named by a release tag (executable).
pub fn release_version(tag: &str) -> (r: String)
    ensures
        r@ == tag_version(tag@),
{
    let v = to_chars(tag);
    let mut i: usize = 0;
    assert(v@.subrange(0, v@.len() as int) =~= v@);
    while i < v.len() && v[i] == 'v'
        invariant
            i <= v.len(),
            tag_version(v@) == tag_version(v@.subrange(i as int, v@.len() as int)),
        decreases v.len() - i,
    {
        assert(v@.subrange(i as int, v@.len() as int).subrange(1, (v@.len() - i) as int) =~= v@.subrange(i + 1, v@.len() as int));
        i += 1;
    }
    from_chars(&crate::text::slice(&v, i, v.len()))
}

/// The name of the release asset for a platform: `StripchatRecorder-server-{platform}.zip`.
pub fn asset_name(platform: &str) -> (r: String)
    ensures
        r@ == "StripchatRecorder-server-"@ + platform@ + ".zip"@,
{
    from_chars(&concat(&concat(&to_chars("StripchatRecorder-server-"), &to_chars(platform)), &to_chars(".zip")))
}

/// The download URL and size of the first asset named `name`; each asset is
/// (name, download URL, size). No such asset gives neither.
pub fn select_asset(assets: &Vec<(String, String, Option<u64>)>, name: &str) -> (r: (Option<String>, Option<u64>))
    ensures
        ({
            let i = choose|i: int| 0 <= i < assets@.len() && assets@[i].0@ == name@ && forall|j: int| 0 <= j < i ==> assets@[j].0@ != name@;
            if exists|i: int| 0 <= i < assets@.len() && (#[trigger] assets@[i]).0@ == name@ {
                (r.0 matches Some(u) && u@ == assets@[i].1@) && r.1 == assets@[i].2
            } else {
                r.0 is None && r.1 is None
            }
        }),
{
    let mut i: usize = 0;
    while i < assets.len()
        invariant
            i <= assets.len(),
            forall|j: int| 0 <= j < i ==> (#[trigger] assets@[j]).0@ != name@,
        decreases assets.len() - i,
    {
        if str_eq(assets[i].0.as_str(), name) {
            let ghost k = choose|k: int| 0 <= k < assets@.len() && assets@[k].0@ == name@ && forall|j: int| 0 <= j < k ==> assets@[j].0@ != name@;
            assert(0 <= i < assets@.len() && assets@[i as int].0@ == name@ && forall|j: int| 0 <= j < i ==> assets@[j].0@ != name@);
            proof {
                if k != i {
                    if k < i {
                        assert(assets@[k].0@ != name@);
                    } else {
                        assert(assets@[i as int].0@ != name@);
                    }
                }
            }
            return (Some(assets[i].1.clone()), assets[i].2);
        }
        i += 1;
    }
    (None, None)
}

// ───────────────────────── download progress ─────────────────────────

/// Milliseconds between progress reports.
pub const THROTTLE_MS: u64 = 200;

/// Bytes between progress reports when the total size is unknown.
pub const BYTES_THRESHOLD: u64 = 524_288;

/// The percentage downloaded: `None` when the total is unknown (0),
/// otherwise `downloaded * 100 / total`, at most 100.
pub open spec fn pct_spec(downloaded: u64, total: u64) -> Option<u8> {
    if total == 0 {
        None
    } else {
        let p = (downloaded * 100) / (total as int);
        Some(if p > 100 {
            100u8
        } else {
            p as u8
        })
    }
}

/// What has been downloaded and reported so far.
#[derive(Debug, Clone)]
pub struct DownloadTracker {
    pub downloaded: u64,
    pub total: u64,
    pub last_pct: Option<u8>,
    pub last_emit_bytes: u64,
}

impl DownloadTracker {
    /// A download of `total` bytes (0 when unknown) that has not started;
    /// returns it with the first report.
    pub fn start(total: u64) -> (r: (DownloadTracker, UpdateProgress))
        ensures
            r.0.downloaded == 0,
            r.0.total == total,
            r.0.last_pct == (if total > 0 { Some(0u8) } else { None }),
            r.0.last_emit_bytes == 0,
            r.1 == (UpdateProgress::Downloading { downloaded: 0, total, pct: if total > 0 { Some(0u8) } else { None } }),
    {
        let pct = if total > 0 { Some(0u8) } else { None };
        (DownloadTracker { downloaded: 0, total, last_pct: pct, last_emit_bytes: 0 }, UpdateProgress::Downloading { downloaded: 0, total, pct })
    }

    /// Takes in a chunk of `len` bytes; `elapsed_ms` is the time since the
    /// last report. Returns the report to send, if one is due: when 200 ms
    /// have passed, when the percentage changed, or, with an unknown total,
    /// when 512 KiB arrived since the last report.
    pub fn on_chunk(&mut self, len: u64, elapsed_ms: u64) -> (r: Option<UpdateProgress>)
        requires
            old(self).downloaded + len <= u64::MAX / 100,
            old(self).last_emit_bytes <= old(self).downloaded,
        ensures
            final(self).downloaded == old(self).downloaded + len,
            final(self).total == old(self).total,
            final(self).last_emit_bytes <= final(self).downloaded,
            ({
                let d = final(self).downloaded;
                let pct = pct_spec(d, old(self).total);
                let due = elapsed_ms >= THROTTLE_MS || pct != old(self).last_pct || (old(self).total == 0 && d - old(self).last_emit_bytes >= BYTES_THRESHOLD);
                &&& due ==> r == Some(UpdateProgress::Downloading { downloaded: d, total: old(self).total, pct }) && final(self).last_pct == pct && final(self).last_emit_bytes == d
                &&& !due ==> r is None && final(self).last_pct == old(self).last_pct && final(self).last_emit_bytes == old(self).last_emit_bytes
            }),
    {
        self.downloaded = self.downloaded + len;
        let d = self.downloaded;
        let pct: Option<u8> = if self.total == 0 {
            None
        } else {
            let p = (d * 100) / self.total;
            Some(if p > 100 { 100u8 } else { p as u8 })
        };
        let pct_changed = match (pct, self.last_pct) {
            (Some(a), Some(b)) => a != b,
            (None, None) => false,
            _ => true,
        };
        let bytes_due = self.total == 0 && d - self.last_emit_bytes >= BYTES_THRESHOLD;
        if elapsed_ms >= THROTTLE_MS || pct_changed || bytes_due {
            self.last_pct = pct;
            self.last_emit_bytes = d;
            Some(UpdateProgress::Downloading { downloaded: d, total: self.total, pct })
        } else {
            None
        }
    }

    /// The report sent when the download ends: 100% when the total is known.
    pub fn finish(&self) -> (r: UpdateProgress)
        ensures
            r == (UpdateProgress::Downloading { downloaded: self.downloaded, total: self.total, pct: if self.total > 0 { Some(100u8) } else { None } }),
    {
        UpdateProgress::Downloading { downloaded: self.downloaded, total: self.total, pct: if self.total > 0 { Some(100u8) } else { None } }
    }
}

/// A request to download and install an update.
#[derive(Debug, Clone)]
pub struct StartDownloadBody {
    pub download_url: String,
}

/// Whether the program runs in a container: `IS_DOCKER` is `1`, or
/// `/.dockerenv` exists, or (on Linux) the init process's control groups
/// mention `docker` or `kubepods`.
pub fn is_docker(env_is_docker: Option<&str>, dockerenv_exists: bool, linux: bool, cgroup: Option<&str>) -> (r: bool)
    ensures
        r == ((env_is_docker matches Some(v) && v@ == "1"@) || dockerenv_exists
            || (linux && (cgroup matches Some(c) && (crate::text::contains_seq(c@, "docker"@) || crate::text::contains_seq(c@, "kubepods"@))))),
{
    proof {
        reveal_strlit("1");
        reveal_strlit("docker");
        reveal_strlit("kubepods");
    }
    let env = match env_is_docker {
        Some(v) => str_eq(v, "1"),
        None => false,
    };
    if env || dockerenv_exists {
        return true;
    }
    if linux {
        match cgroup {
            Some(c) => {
                let cv = to_chars(c);
                crate::text::contains(&cv, &to_chars("docker")) || crate::text::contains(&cv, &to_chars("kubepods"))
            },
            None => false,
        }
    } else {
        false
    }
}

/// Of two versions that both parse, with different version triples, one is
/// newer than the other: every difference in major, minor or patch number
/// makes one of them newer (none is ignored).
pub proof fn law_semver_total(a: Seq<char>, b: Seq<char>)
    requires
        version_triple(a) is Some,
        version_triple(b) is Some,
        version_triple(a) != version_triple(b),
    ensures
        semver_gt_spec(a, b) || semver_gt_spec(b, a),
{
    let x = version_triple(a)->0;
    let y = version_triple(b)->0;
    assert(x != y);
    if x.0 == y.0 && x.1 == y.1 && x.2 == y.2 {
        assert(x == y);
    }
}

/// Which of two parsed versions is newer is decided by the first of the
/// major, minor and patch numbers in which they differ: a greater major is
/// newer; with the same major, a greater minor; with the same major and
/// minor, a greater patch (a patch release is newer).
pub proof fn law_semver_first_difference(a: Seq<char>, b: Seq<char>)
    requires
        version_triple(a) is Some,
        version_triple(b) is Some,
    ensures
        ({
            let x = version_triple(a)->0;
            let y = version_triple(b)->0;
            &&& x.0 > y.0 ==> semver_gt_spec(a, b)
            &&& x.0 < y.0 ==> !semver_gt_spec(a, b)
            &&& (x.0 == y.0 && x.1 > y.1) ==> semver_gt_spec(a, b)
            &&& (x.0 == y.0 && x.1 < y.1) ==> !semver_gt_spec(a, b)
            &&& (x.0 == y.0 && x.1 == y.1 && x.2 > y.2) ==> semver_gt_spec(a, b)
            &&& (x.0 == y.0 && x.1 == y.1 && x.2 <= y.2) ==> !semver_gt_spec(a, b)
        }),
{
}

/// Being newer is transitive for versions that parse.
pub proof fn law_semver_transitive(a: Seq<char>, b: Seq<char>, c: Seq<char>)
    requires
        version_triple(a) is Some,
        version_triple(b) is Some,
        version_triple(c) is Some,
        semver_gt_spec(a, b),
        semver_gt_spec(b, c),
    ensures
        semver_gt_spec(a, c),
{
}

} // verus!
