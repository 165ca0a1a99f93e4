//! Community modules: where they are downloaded from, how their files are
//! named and recognised, checksum verification, and version comparison.
use vstd::prelude::*;
use crate::text::{concat, ends_with, from_chars, parse_u64, parse_unsigned, split_char, split_seq,
    starts_with, str_eq, to_ascii_lowercase, to_chars, views};

verus! {

/// The platform name for an operating system and architecture (see
/// `update::current_platform`).
pub fn current_platform(os: &str, arch: &str) -> (r: &'static str)
    ensures
        r@ == crate::update::platform_spec(os@, arch@),
{
    crate::update::current_platform(os, arch)
}

/// A module of the community registry.
#[derive(Debug, Clone)]
pub struct RegistryModule {
    pub id: String,
    pub name: String,
    pub description: String,
    pub author: String,
    pub tags: Vec<String>,
    pub license: String,
    pub latest_version: String,
    /// Platform name -> download URL.
    pub downloads: Vec<(String, String)>,
    /// Platform name -> SHA-256 of the download, in hexadecimal.
    pub sha256: Vec<(String, String)>,
    pub repo: String,
}

/// `s` without its trailing `/` characters.
pub open spec fn trim_end_slashes(s: Seq<char>) -> Seq<char>
    decreases s.len(),
{
    if s.len() > 0 && s.last() == '/' {
        trim_end_slashes(s.drop_last())
    } else {
        s
    }
}

/// A download URL behind a mirror: `{mirror without trailing /}/{url}`,
/// or the URL itself when no (or an empty) mirror is set.
pub open spec fn mirror_spec(url: Seq<char>, mirror: Option<Seq<char>>) -> Seq<char> {
    match mirror {
        Some(m) => if m.len() > 0 {
            trim_end_slashes(m).push('/') + url
        } else {
            url
        },
        None => url,
    }
}

/// A download URL behind a mirror.
pub fn apply_mirror(url: &str, mirror: Option<&str>) -> (r: String)
    ensures
        r@ == mirror_spec(url@, match mirror {
            Some(m) => Some(m@),
            None => None,
        }),
{
    match mirror {
        Some(m) => {
            let mv = to_chars(m);
            if mv.len() == 0 {
                return url.to_owned();
            }
            let mut t = crate::path::trim_end_separators(&mv);
            assert(crate::path::trim_end_seps(mv@) == trim_end_slashes(mv@)) by {
                lemma_trim_slashes_same(mv@);
            }
            t.push('/');
            from_chars(&concat(&t, &to_chars(url)))
        },
        None => url.to_owned(),
    }
}

/// Trimming separators of paths and slashes of URLs is the same.
proof fn lemma_trim_slashes_same(s: Seq<char>)
    ensures
        crate::path::trim_end_seps(s) == trim_end_slashes(s),
    decreases s.len(),
{
    if s.len() > 0 && s.last() == '/' {
        lemma_trim_slashes_same(s.drop_last());
    }
}

/// Whether a file name belongs to module `id`: on Windows `{id}.exe` or
/// `{id}-*.exe`; elsewhere `{id}` or `{id}-*`.
pub open spec fn module_file_spec(id: Seq<char>, name: Seq<char>, windows: bool) -> bool {
    if windows {
        name == id + ".exe"@ || (crate::text::has_prefix(name, id.push('-')) && crate::text::has_suffix(name, ".exe"@))
    } else {
        name == id || crate::text::has_prefix(name, id.push('-'))
    }
}

/// Whether the file at `path` belongs to module `module_id` (`windows`:
/// whether the program runs on Windows, where modules end in `.exe`).
pub fn is_module_file(module_id: &str, path: &str, windows: bool) -> (r: bool)
    ensures
        r == match crate::path::file_name_seq(path@) {
            Some(n) => module_file_spec(module_id@, n, windows),
            None => false,
        },
{
    let name = match crate::path::file_name(&to_chars(path)) {
        Some(n) => n,
        None => {
            return false;
        },
    };
    let id = to_chars(module_id);
    let mut dash = to_chars(module_id);
    dash.push('-');
    if windows {
        let exe = concat(&id, &to_chars(".exe"));
        crate::text::chars_eq(&name, &exe) || (starts_with(&name, &dash) && ends_with(&name, &to_chars(".exe")))
    } else {
        crate::text::chars_eq(&name, &id) || starts_with(&name, &dash)
    }
}

/// The files among `files` that belong to module `id`, in order.
pub open spec fn module_files_spec(files: Seq<String>, id: Seq<char>, windows: bool) -> Seq<Seq<char>>
    decreases files.len(),
{
    if files.len() == 0 {
        seq![]
    } else {
        let prev = module_files_spec(files.drop_last(), id, windows);
        let keep = match crate::path::file_name_seq(files.last()@) {
            Some(n) => module_file_spec(id, n, windows),
            None => false,
        };
        if keep {
            prev.push(files.last()@)
        } else {
            prev
        }
    }
}

/// Whether the file at `path` belongs to module `id`.
pub open spec fn belongs_to_module(path: Seq<char>, id: Seq<char>, windows: bool) -> bool {
    match crate::path::file_name_seq(path) {
        Some(n) => module_file_spec(id, n, windows),
        None => false,
    }
}

/// Uninstalling is idempotent: once the files of a module are gone from the
/// listing, uninstalling it again selects nothing; and the selected files
/// are exactly those that belong to it, so no other file is touched.
pub proof fn law_uninstall_idempotent(files: Seq<String>, id: Seq<char>, windows: bool)
    ensures
        (forall|i: int| 0 <= i < files.len() ==> !belongs_to_module(#[trigger] files[i]@, id, windows))
            ==> module_files_spec(files, id, windows) == Seq::<Seq<char>>::empty(),
        forall|x: Seq<char>| #[trigger] module_files_spec(files, id, windows).contains(x) ==> belongs_to_module(x, id, windows),
    decreases files.len(),
{
    if files.len() > 0 {
        law_uninstall_idempotent(files.drop_last(), id, windows);
        let prev = module_files_spec(files.drop_last(), id, windows);
        if forall|i: int| 0 <= i < files.len() ==> !belongs_to_module(#[trigger] files[i]@, id, windows) {
            assert forall|i: int| 0 <= i < files.drop_last().len() implies !belongs_to_module(#[trigger] files.drop_last()[i]@, id, windows) by {
                assert(files.drop_last()[i] == files[i]);
            }
            assert(!belongs_to_module(files[files.len() - 1]@, id, windows));
        }
        assert forall|x: Seq<char>| #[trigger] module_files_spec(files, id, windows).contains(x) implies belongs_to_module(x, id, windows) by {
            let cur = module_files_spec(files, id, windows);
            let k = choose|k: int| 0 <= k < cur.len() && cur[k] == x;
            if k < prev.len() {
                assert(prev[k] == x);
                assert(prev.contains(x));
            }
        }
    }
}

/// The module files to delete when uninstalling `module_id`: those among
/// the files of the modules directory (`files`, full paths) that belong to it.
pub fn uninstall_module(module_id: &str, files: &Vec<String>, windows: bool) -> (r: Vec<String>)
    ensures
        crate::text::strs_view(r@) == module_files_spec(files@, module_id@, windows),
{
    let mut r: Vec<String> = Vec::new();
    let mut i: usize = 0;
    while i < files.len()
        invariant
            i <= files.len(),
            crate::text::strs_view(r@) == module_files_spec(files@.take(i as int), module_id@, windows),
        decreases files.len() - i,
    {
        assert(files@.take(i + 1).drop_last() =~= files@.take(i as int));
        let ghost before = crate::text::strs_view(r@);
        if is_module_file(module_id, files[i].as_str(), windows) {
            r.push(files[i].clone());
            assert(crate::text::strs_view(r@) =~= before.push(files@[i as int]@));
        }
        i += 1;
    }
    assert(files@.take(i as int) =~= files@);
    r
}

/// The file name of an installed module: `{id}-{platform}-{version}`, with
/// `.exe` on Windows.
pub fn module_file_name(id: &str, platform: &str, version: &str, windows: bool) -> (r: String)
    ensures
        r@ == id@ + "-"@ + platform@ + "-"@ + version@ + (if windows { ".exe"@ } else { ""@ }),
{
    proof {
        reveal_strlit("");
        assert(""@ =~= Seq::<char>::empty());
    }
    let a = concat(&concat(&concat(&concat(&to_chars(id), &to_chars("-")), &to_chars(platform)), &to_chars("-")), &to_chars(version));
    let ext = if windows { to_chars(".exe") } else { to_chars("") };
    from_chars(&concat(&a, &ext))
}

/// The download URL of a module for a platform, or the refusal when the
/// module offers none.
pub fn download_url_for(module: &RegistryModule, platform: &str) -> (r: Result<String, String>)
    ensures
        crate::assoc::get_spec(module.downloads@, platform@) matches Some(u) ==> (r matches Ok(s) && s@ == u@),
        crate::assoc::get_spec(module.downloads@, platform@) is None ==> (r matches Err(e) && e@ == "模块 '"@ + module.id@ + "' 不支持当前平台 ("@ + platform@ + ")"@),
{
    proof {
        crate::assoc::lemma_key_index(module.downloads@, platform@);
    }
    match crate::assoc::find_key(&module.downloads, platform) {
        Some(i) => Ok(module.downloads[i].1.clone()),
        None => Err(from_chars(&concat(&concat(&concat(&concat(&to_chars("模块 '"), &to_chars(module.id.as_str())), &to_chars("' 不支持当前平台 (")), &to_chars(platform)), &to_chars(")")))),
    }
}

/// Checks downloaded module bytes against the expected SHA-256 (hexadecimal,
/// any ASCII case); with no expected value the download is accepted.
pub fn verify_checksum(module_id: &str, data: &Vec<u8>, expected: Option<&str>) -> (r: Result<(), String>)
    ensures
        expected is None ==> r is Ok,
        expected matches Some(e) ==> ({
            let actual = crate::hex::hex_seq(crate::crypto::sha256_digest(data@));
            &&& (r is Ok <==> crate::text::ascii_lower_seq(e@) == actual)
            &&& r matches Err(m) ==> m@ == "模块 '"@ + module_id@ + "' sha256 校验失败：期望 "@ + e@ + "，实际 "@ + actual
        }),
{
    match expected {
        None => Ok(()),
        Some(e) => {
            let digest = crate::crypto::sha256(data.as_slice());
            let actual = crate::hex::hex_string(&digest);
            proof {
                crate::hex::lemma_hex_seq(digest@);
                assert forall|i: int| 0 <= i < actual@.len() implies crate::text::ascii_lower(#[trigger] actual@[i]) == actual@[i] by {}
                assert(crate::text::ascii_lower_seq(actual@) =~= actual@);
            }
            let el = to_ascii_lowercase(&to_chars(e));
            if crate::text::chars_eq(&el, &to_chars(actual.as_str())) {
                Ok(())
            } else {
                Err(from_chars(&concat(&concat(&concat(&concat(&concat(&to_chars("模块 '"), &to_chars(module_id)), &to_chars("' sha256 校验失败：期望 ")), &to_chars(e)), &to_chars("，实际 ")), &to_chars(actual.as_str()))))
            }
        },
    }
}

// ───────────────────────── versions ─────────────────────────

/// The numbers of a dotted version: each piece between dots as a `u64`,
/// 0 when it does not parse.
pub open spec fn version_numbers(s: Seq<char>) -> Seq<nat> {
    split_seq(s, '.').map_values(|g: Seq<char>| match parse_unsigned(g, u64::MAX as nat) {
        Some(n) => n,
        None => 0,
    })
}

/// The `i`-th number of a version, 0 past its end.
pub open spec fn nth_number(v: Seq<nat>, i: int) -> nat {
    if 0 <= i < v.len() {
        v[i]
    } else {
        0
    }
}

/// Comparison of two number lists from position `i` up to `len`.
pub open spec fn compare_from(a: Seq<nat>, b: Seq<nat>, i: int, len: int) -> int
    decreases len - i,
{
    if i >= len {
        0
    } else if nth_number(a, i) < nth_number(b, i) {
        -1
    } else if nth_number(a, i) > nth_number(b, i) {
        1
    } else {
        compare_from(a, b, i + 1, len)
    }
}

/// How two dotted versions compare: -1, 0 or 1, number by number, missing
/// numbers counting as 0.
pub open spec fn compare_spec(a: Seq<char>, b: Seq<char>) -> int {
    let va = version_numbers(a);
    let vb = version_numbers(b);
    compare_from(va, vb, 0, if va.len() >= vb.len() { va.len() as int } else { vb.len() as int })
}

/// The numbers of a dotted version (executable).
fn version_numbers_exec(s: &str) -> (r: Vec<u64>)
    ensures
        r@.map_values(|x: u64| x as nat) == version_numbers(s@),
{
    let parts = split_char(&to_chars(s), '.');
    let mut r: Vec<u64> = Vec::new();
    let mut i: usize = 0;
    while i < parts.len()
        invariant
            i <= parts.len(),
            r@.map_values(|x: u64| x as nat) == views(parts@).take(i as int).map_values(|g: Seq<char>| match parse_unsigned(g, u64::MAX as nat) {
                Some(n) => n,
                None => 0,
            }),
        decreases parts.len() - i,
    {
        let n = match parse_u64(&parts[i]) {
            Some(n) => n,
            None => 0,
        };
        let ghost before = r@.map_values(|x: u64| x as nat);
        r.push(n);
        assert(views(parts@).take(i + 1) =~= views(parts@).take(i as int).push(parts@[i as int]@));
        assert(r@.map_values(|x: u64| x as nat) =~= before.push(n as nat));
        assert(r@.map_values(|x: u64| x as nat) =~= views(parts@).take(i + 1).map_values(|g: Seq<char>| match parse_unsigned(g, u64::MAX as nat) {
            Some(n) => n,
            None => 0,
        }));
        i += 1;
    }
    assert(views(parts@).take(i as int) =~= views(parts@));
    r
}

/// Compares two dotted versions: -1 when `a` is older, 0 when equal, 1 when newer.
pub fn compare_versions(a: &str, b: &str) -> (r: i32)
    ensures
        r as int == compare_spec(a@, b@),
{
    let va = version_numbers_exec(a);
    let vb = version_numbers_exec(b);
    let ghost sa = va@.map_values(|x: u64| x as nat);
    let ghost sb = vb@.map_values(|x: u64| x as nat);
    let len = if va.len() >= vb.len() { va.len() } else { vb.len() };
    let mut i: usize = 0;
    while i < len
        invariant
            i <= len,
            len as int == (if sa.len() >= sb.len() { sa.len() as int } else { sb.len() as int }),
            sa == va@.map_values(|x: u64| x as nat),
            sb == vb@.map_values(|x: u64| x as nat),
            sa == version_numbers(a@),
            sb == version_numbers(b@),
            compare_from(sa, sb, 0, len as int) == compare_from(sa, sb, i as int, len as int),
        decreases len - i,
    {
        let xa: u64 = if i < va.len() { va[i] } else { 0 };
        let xb: u64 = if i < vb.len() { vb[i] } else { 0 };
        assert(xa as nat == nth_number(sa, i as int));
        assert(xb as nat == nth_number(sb, i as int));
        if xa < xb {
            assert(compare_from(sa, sb, i as int, len as int) == -1);
            return -1;
        }
        if xa > xb {
            assert(compare_from(sa, sb, i as int, len as int) == 1);
            return 1;
        }
        i += 1;
    }
    0
}

/// Every version compares equal to itself.
pub proof fn law_compare_reflexive(a: Seq<char>)
    ensures
        compare_spec(a, a) == 0,
{
    let v = version_numbers(a);
    lemma_compare_self(v, 0, v.len() as int);
}

/// Comparing a list with itself gives 0.
proof fn lemma_compare_self(v: Seq<nat>, i: int, len: int)
    ensures
        compare_from(v, v, i, len) == 0,
    decreases len - i,
{
    if i < len {
        lemma_compare_self(v, i + 1, len);
    }
}

/// Swapping the operands negates the comparison.
pub proof fn law_compare_antisymmetric(a: Seq<char>, b: Seq<char>)
    ensures
        compare_spec(a, b) == -compare_spec(b, a),
{
    let va = version_numbers(a);
    let vb = version_numbers(b);
    let len = if va.len() >= vb.len() { va.len() as int } else { vb.len() as int };
    lemma_compare_swap(va, vb, 0, len);
}

/// Swapping the lists negates the comparison.
proof fn lemma_compare_swap(a: Seq<nat>, b: Seq<nat>, i: int, len: int)
    ensures
        compare_from(a, b, i, len) == -compare_from(b, a, i, len),
    decreases len - i,
{
    if i < len {
        lemma_compare_swap(a, b, i + 1, len);
    }
}

/// Whether the module already found is kept over another executable that
/// declares the same id: it is, unless the other's version is higher.
pub fn keep_existing_module(existing_version: &str, new_version: &str) -> (r: bool)
    ensures
        r == (compare_spec(existing_version@, new_version@) >= 0),
{
    compare_versions(existing_version, new_version) >= 0
}

/// The modules directory beside the program: `{exe_dir}/modules`.
pub fn modules_dir(exe_dir: &str) -> (r: String)
    ensures
        r@ == crate::path::join_seq_path(exe_dir@, "modules"@),
{
    from_chars(&crate::path::join(&to_chars(exe_dir), &to_chars("modules")))
}

/// A request to uninstall a module.
#[derive(Debug, Clone)]
pub struct UninstallModuleBody {
    pub module_id: String,
}

} // verus!
