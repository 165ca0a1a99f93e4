//! Browsing directories to pick an output directory: what a listing shows,
//! in what order, and which new directory names are accepted.
//!
//! The caller resolves and reads directories and creates them; the listing
//! and the checks are made here.
use vstd::prelude::*;
use crate::path::{join, join_seq_path, parent, parent_seq};
use crate::segment_merge::{seq_lt, str_lt, lemma_seq_lt_irreflexive, lemma_seq_lt_transitive};
use crate::stripchat::{lowercase, to_lowercase};
use crate::text::{contains_char, from_chars, has_prefix, starts_with, str_eq, to_chars, trim, trim_seq};
use crate::recordings::reversed;

verus! {

broadcast use vstd::seq_lib::group_to_multiset_ensures;

/// A directory shown in a listing.
#[derive(Debug, Clone)]
pub struct DirEntryInfo {
    pub name: String,
    pub path: String,
}

impl View for DirEntryInfo {
    type V = (Seq<char>, Seq<char>);

    open spec fn view(&self) -> (Seq<char>, Seq<char>) {
        (self.name@, self.path@)
    }
}

/// A listing: the directory, its parent, the directories in it, and
/// whether it lists drives instead.
#[derive(Debug, Clone)]
pub struct ListDirResult {
    pub path: String,
    pub parent: Option<String>,
    pub dirs: Vec<DirEntryInfo>,
    pub is_drives: bool,
}

/// The directory to list: the one asked for when it names a directory,
/// otherwise the home directory.
pub fn pick_dir(requested: &str, is_dir: bool, home: &str) -> (r: String)
    ensures
        (trim_seq(requested@).len() == 0 || !is_dir) ==> r@ == home@,
        !(trim_seq(requested@).len() == 0 || !is_dir) ==> r@ == requested@,
{
    if trim(&to_chars(requested)).len() == 0 || !is_dir {
        home.to_owned()
    } else {
        requested.to_owned()
    }
}

/// A path without the Windows verbatim prefix: `\\?\UNC\server\share`
/// becomes `\\server\share` and `\\?\C:\x` becomes `C:\x` (only on Windows).
pub open spec fn strip_verbatim_spec(p: Seq<char>, windows: bool) -> Seq<char> {
    if !windows {
        p
    } else if has_prefix(p, "\\\\?\\UNC\\"@) {
        "\\\\"@ + p.subrange(8, p.len() as int)
    } else if has_prefix(p, "\\\\?\\"@) {
        p.subrange(4, p.len() as int)
    } else {
        p
    }
}

/// A path without the Windows verbatim prefix (executable).
pub fn strip_verbatim_prefix(p: &str, windows: bool) -> (r: String)
    ensures
        r@ == strip_verbatim_spec(p@, windows),
{
    if !windows {
        return p.to_owned();
    }
    proof {
        reveal_strlit("\\\\?\\UNC\\");
        reveal_strlit("\\\\?\\");
        reveal_strlit("\\\\");
    }
    let v = to_chars(p);
    match crate::text::strip_prefix(&v, &to_chars("\\\\?\\UNC\\")) {
        Some(rest) => from_chars(&crate::text::concat(&to_chars("\\\\"), &rest)),
        None => match crate::text::strip_prefix(&v, &to_chars("\\\\?\\")) {
            Some(rest) => from_chars(&rest),
            None => p.to_owned(),
        },
    }
}

/// The entries of a listing of `dir`: its subdirectories `names` that do
/// not start with a dot, each with its path.
pub open spec fn visible_entries(dir: Seq<char>, names: Seq<String>) -> Seq<(Seq<char>, Seq<char>)>
    decreases names.len(),
{
    if names.len() == 0 {
        seq![]
    } else {
        let p = visible_entries(dir, names.drop_last());
        let n = names.last()@;
        if n.len() > 0 && n[0] == '.' {
            p
        } else {
            p.push((n, join_seq_path(dir, n)))
        }
    }
}

/// Entries in the order of their lowercased names.
pub open spec fn by_lowercase_name(s: Seq<(Seq<char>, Seq<char>)>) -> bool {
    forall|i: int, j: int| 0 <= i < j < s.len() ==> !seq_lt(lowercase(#[trigger] s[j].0), lowercase(#[trigger] s[i].0))
}

/// The views of entries.
pub open spec fn entry_views(s: Seq<DirEntryInfo>) -> Seq<(Seq<char>, Seq<char>)> {
    s.map_values(|e: DirEntryInfo| e@)
}

/// The listing of the directory `dir` (already resolved) whose
/// subdirectories are `names`: hidden ones left out, ordered by lowercased name.
pub fn dir_listing(dir: &str, names: &Vec<String>) -> (r: ListDirResult)
    ensures
        r.path@ == dir@,
        (match parent_seq(dir@) {
            Some(p) => r.parent matches Some(q) && q@ == p,
            None => r.parent is None,
        }),
        by_lowercase_name(entry_views(r.dirs@)),
        entry_views(r.dirs@).to_multiset() == visible_entries(dir@, names@).to_multiset(),
        !r.is_drives,
{
    let d = to_chars(dir);
    let mut entries: Vec<DirEntryInfo> = Vec::new();
    let mut i: usize = 0;
    while i < names.len()
        invariant
            i <= names@.len(),
            d@ == dir@,
            entry_views(entries@) == visible_entries(dir@, names@.subrange(0, i as int)),
        decreases names.len() - i,
    {
        let n = to_chars(names[i].as_str());
        let ghost before = entries@;
        proof {
            let t = names@.subrange(0, i + 1);
            assert(t.drop_last() =~= names@.subrange(0, i as int));
            assert(t.last() == names@[i as int]);
        }
        if !(n.len() > 0 && n[0] == '.') {
            let e = DirEntryInfo { name: names[i].clone(), path: from_chars(&join(&d, &n)) };
            entries.push(e);
            assert(entry_views(entries@) =~= entry_views(before).push(e@));
        }
        i += 1;
    }
    assert(names@.subrange(0, names@.len() as int) =~= names@);
    let dirs = sort_by_lowercase_name(entries);
    let par = match parent(&d) {
        Some(p) => Some(from_chars(&p)),
        None => None,
    };
    ListDirResult { path: dir.to_owned(), parent: par, dirs, is_drives: false }
}

/// `entries` ordered by lowercased name.
pub fn sort_by_lowercase_name(entries: Vec<DirEntryInfo>) -> (r: Vec<DirEntryInfo>)
    ensures
        by_lowercase_name(entry_views(r@)),
        entry_views(r@).to_multiset() == entry_views(entries@).to_multiset(),
{
    let ghost f0 = entries@;
    let n = entries.len();
    let mut rev = reversed(entries);
    let mut r: Vec<DirEntryInfo> = Vec::new();
    let mut k: usize = 0;
    while rev.len() > 0
        invariant
            k + rev@.len() == n,
            n == f0.len(),
            rev@ == f0.subrange(k as int, n as int).reverse(),
            by_lowercase_name(entry_views(r@)),
            entry_views(r@).to_multiset() == entry_views(f0.subrange(0, k as int)).to_multiset(),
        decreases rev.len(),
    {
        let x = rev.pop().unwrap();
        proof {
            assert(x == f0[k as int]);
            assert(rev@ =~= f0.subrange(k + 1, n as int).reverse());
        }
        let xk = to_lowercase(x.name.as_str());
        let mut pos: usize = 0;
        let mut found = false;
        while pos < r.len() && !found
            invariant
                pos <= r@.len(),
                xk@ == lowercase(x.name@),
                forall|i: int| 0 <= i < pos ==> !seq_lt(xk@, lowercase(#[trigger] r@[i].name@)),
                found ==> pos < r@.len() && seq_lt(xk@, lowercase(r@[pos as int].name@)),
            decreases r.len() - pos + (if found { 0int } else { 1int }),
        {
            let rk = to_lowercase(r[pos].name.as_str());
            if str_lt(xk.as_str(), rk.as_str()) {
                found = true;
            } else {
                pos += 1;
            }
        }
        let ghost old_r = r@;
        let ghost xv = x@;
        let ghost ov = entry_views(old_r);
        proof {
            assert forall|j: int| pos <= j < ov.len() implies !seq_lt(lowercase(#[trigger] ov[j].0), lowercase(xv.0)) by {
                assert(ov[j] == old_r[j]@);
                assert(ov[pos as int] == old_r[pos as int]@);
                if seq_lt(lowercase(ov[j].0), lowercase(xv.0)) {
                    lemma_seq_lt_irreflexive(lowercase(ov[pos as int].0));
                    if j > pos {
                        assert(!seq_lt(lowercase(ov[j].0), lowercase(ov[pos as int].0)));
                    }
                    lemma_seq_lt_transitive(lowercase(ov[j].0), lowercase(xv.0), lowercase(ov[pos as int].0));
                }
            }
            assert forall|i: int| 0 <= i < pos implies !seq_lt(lowercase(xv.0), lowercase(#[trigger] ov[i].0)) by {
                assert(ov[i] == old_r[i]@);
            }
        }
        r.insert(pos, x);
        proof {
            let nv = entry_views(r@);
            assert(nv =~= ov.insert(pos as int, xv));
            assert forall|i: int, j: int| 0 <= i < j < nv.len() implies !seq_lt(lowercase(#[trigger] nv[j].0), lowercase(#[trigger] nv[i].0)) by {
                if j < pos {
                    assert(nv[i] == ov[i] && nv[j] == ov[j]);
                } else if j == pos {
                    assert(nv[i] == ov[i]);
                } else if i < pos {
                    assert(nv[i] == ov[i] && nv[j] == ov[j - 1]);
                } else if i == pos {
                    assert(nv[j] == ov[j - 1]);
                } else {
                    assert(nv[i] == ov[i - 1] && nv[j] == ov[j - 1]);
                }
            }
            vstd::seq_lib::to_multiset_insert(ov, pos as int, xv);
            assert(entry_views(f0.subrange(0, k + 1)) =~= entry_views(f0.subrange(0, k as int)).push(xv));
            vstd::seq_lib::to_multiset_build(entry_views(f0.subrange(0, k as int)), xv);
        }
        k += 1;
    }
    assert(f0.subrange(0, n as int) =~= f0);
    r
}

/// The drive letters.
pub open spec fn drive_letter(i: int) -> char {
    (65 + i) as char
}

/// The list of drives: on Windows each letter `X` whose root `X:\` is a
/// directory (`present[i]` for the `i`-th letter from `A`), named `X:`;
/// elsewhere the root `/`.
pub fn list_drives_inner(windows: bool, present: &Vec<bool>) -> (r: ListDirResult)
    requires
        windows ==> present@.len() == 26,
    ensures
        r.path@.len() == 0,
        r.parent is None,
        r.is_drives,
        !windows ==> r.dirs@.len() == 1 && r.dirs@[0].name@ == "/"@ && r.dirs@[0].path@ == "/"@,
        windows ==> entry_views(r.dirs@) == drive_entries(present@, 26),
{
    proof {
        reveal_strlit("/");
        reveal_strlit("");
    }
    let mut dirs: Vec<DirEntryInfo> = Vec::new();
    if windows {
        let letters = to_chars("ABCDEFGHIJKLMNOPQRSTUVWXYZ");
        proof {
            reveal_strlit("ABCDEFGHIJKLMNOPQRSTUVWXYZ");
            assert forall|i: int| 0 <= i < 26 implies #[trigger] letters@[i] == drive_letter(i) by {
                assert("ABCDEFGHIJKLMNOPQRSTUVWXYZ"@ =~= seq!['A', 'B', 'C', 'D', 'E', 'F', 'G', 'H', 'I', 'J', 'K', 'L', 'M', 'N', 'O', 'P', 'Q', 'R', 'S', 'T', 'U', 'V', 'W', 'X', 'Y', 'Z']);
            }
        }
        let mut i: usize = 0;
        while i < 26
            invariant
                i <= 26,
                present@.len() == 26,
                letters@.len() == 26,
                forall|j: int| 0 <= j < 26 ==> #[trigger] letters@[j] == drive_letter(j),
                entry_views(dirs@) == drive_entries(present@, i as int),
            decreases 26 - i,
        {
            let ghost before = dirs@;
            if present[i] {
                let c = letters[i];
                let mut name: Vec<char> = Vec::new();
                name.push(c);
                name.push(':');
                let mut root = name.clone();
                root.push('\\');
                let e = DirEntryInfo { name: from_chars(&name), path: from_chars(&root) };
                dirs.push(e);
                proof {
                    assert(name@ =~= seq![drive_letter(i as int), ':']);
                    assert(root@ =~= seq![drive_letter(i as int), ':', '\\']);
                    assert(entry_views(dirs@) =~= entry_views(before).push(e@));
                }
            }
            i += 1;
        }
    } else {
        dirs.push(DirEntryInfo { name: "/".to_owned(), path: "/".to_owned() });
    }
    ListDirResult { path: String::new(), parent: None, dirs, is_drives: true }
}

/// The drives among the first `n` letters that are present.
pub open spec fn drive_entries(present: Seq<bool>, n: int) -> Seq<(Seq<char>, Seq<char>)>
    decreases n,
{
    if n <= 0 {
        seq![]
    } else {
        let p = drive_entries(present, n - 1);
        if present[n - 1] {
            p.push((seq![drive_letter(n - 1), ':'], seq![drive_letter(n - 1), ':', '\\']))
        } else {
            p
        }
    }
}

/// The message refusing an empty directory name.
pub open spec fn empty_name_message() -> Seq<char> {
    "目录名不能为空"@
}

/// The message refusing a directory name with a separator.
pub open spec fn separator_message() -> Seq<char> {
    "目录名不能包含路径分隔符"@
}

/// The directory to create for the name `name` in `parent`: the name is
/// trimmed, and refused when empty, when it holds `/` or `\`, or when it is `..`.
pub fn new_dir_path(parent_dir: &str, name: &str) -> (r: Result<String, String>)
    ensures
        trim_seq(name@).len() == 0 ==> (r matches Err(m) && m@ == empty_name_message()),
        trim_seq(name@).len() > 0 && (trim_seq(name@).contains('/') || trim_seq(name@).contains('\\') || trim_seq(name@) == ".."@)
            ==> (r matches Err(m) && m@ == separator_message()),
        trim_seq(name@).len() > 0 && !(trim_seq(name@).contains('/') || trim_seq(name@).contains('\\') || trim_seq(name@) == ".."@)
            ==> (r matches Ok(p) && p@ == join_seq_path(parent_dir@, trim_seq(name@))),
{
    let t = trim(&to_chars(name));
    if t.len() == 0 {
        proof {
            reveal_strlit("目录名不能为空");
        }
        return Err("目录名不能为空".to_owned());
    }
    let dots = to_chars("..");
    proof {
        reveal_strlit("..");
    }
    if contains_char(&t, '/') || contains_char(&t, '\\') || crate::text::chars_eq(&t, &dots) {
        proof {
            reveal_strlit("目录名不能包含路径分隔符");
        }
        return Err("目录名不能包含路径分隔符".to_owned());
    }
    Ok(from_chars(&join(&to_chars(parent_dir), &t)))
}

/// A request to list a directory (empty for the home directory).
#[derive(Debug, Clone)]
pub struct ListDirQuery {
    pub path: String,
}

/// A request to create a directory `name` in `parent`.
#[derive(Debug, Clone)]
pub struct CreateDirBody {
    pub parent: String,
    pub name: String,
}

} // verus!
