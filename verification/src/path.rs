//! File-system paths as character sequences.
//!
//! A path is a string whose components are separated by `/`, read as
//! `std::path::Path` reads it on Unix: trailing separators and trailing `.`
//! components do not count (a leading `.` does, and a leading `/` is the
//! root), and a run of separators is one separator. These functions follow
//! `Path` on such strings: `file_name`, `parent`, `file_stem`, `extension`
//! and `join`.
use vstd::prelude::*;
use crate::text::{concat, last_index, lemma_last_index, rfind_char, slice};

verus! {

/// `s` without its trailing `/` characters.
pub open spec fn trim_end_seps(s: Seq<char>) -> Seq<char>
    decreases s.len(),
{
    if s.len() > 0 && s.last() == '/' {
        trim_end_seps(s.drop_last())
    } else {
        s
    }
}

/// `s` without what `Path::components` does not count at its end: trailing
/// separators (but not a lone root `/`) and trailing `.` components that
/// follow a separator.
pub open spec fn trim_tail(s: Seq<char>) -> Seq<char>
    decreases s.len(),
{
    if s.len() > 1 && s.last() == '/' {
        trim_tail(s.drop_last())
    } else if s.len() >= 2 && s.last() == '.' && s[s.len() - 2] == '/' {
        trim_tail(s.drop_last())
    } else {
        s
    }
}

/// The last component of `s`, if it names a file or directory (not the
/// root, `.` or `..`).
pub open spec fn file_name_seq(s: Seq<char>) -> Option<Seq<char>> {
    let t = trim_tail(s);
    let name = t.subrange(last_index(t, '/') + 1, t.len() as int);
    if name.len() == 0 || name == seq!['.', '.'] || name == seq!['.'] {
        None
    } else {
        Some(name)
    }
}

/// `s` without its last component: `None` for an empty path or the root
/// alone; the empty path for a single relative component; otherwise what
/// comes before the last component, itself without a trailing separator or
/// `.` (so the root `/` for a component directly under it).
pub open spec fn parent_seq(s: Seq<char>) -> Option<Seq<char>> {
    let t = trim_tail(s);
    if t.len() == 0 || t == seq!['/'] {
        None
    } else if last_index(t, '/') < 0 {
        Some(seq![])
    } else {
        Some(trim_tail(t.subrange(0, last_index(t, '/') + 1)))
    }
}

/// The part of a file name before its last `.`; the whole name when it has
/// no `.` or when its only `.` is the first character.
pub open spec fn stem_of_name(name: Seq<char>) -> Seq<char> {
    if last_index(name, '.') <= 0 {
        name
    } else {
        name.subrange(0, last_index(name, '.'))
    }
}

/// The part of a file name after its last `.`, when that `.` is not the first character.
pub open spec fn ext_of_name(name: Seq<char>) -> Option<Seq<char>> {
    if last_index(name, '.') <= 0 {
        None
    } else {
        Some(name.subrange(last_index(name, '.') + 1, name.len() as int))
    }
}

/// `Path::file_stem`.
pub open spec fn file_stem_seq(s: Seq<char>) -> Option<Seq<char>> {
    match file_name_seq(s) {
        Some(name) => Some(stem_of_name(name)),
        None => None,
    }
}

/// `Path::extension`.
pub open spec fn extension_seq(s: Seq<char>) -> Option<Seq<char>> {
    match file_name_seq(s) {
        Some(name) => ext_of_name(name),
        None => None,
    }
}

/// `Path::join`: `b` when it is absolute, otherwise `a`, a separator when
/// `a` is not empty and does not already end with one, then `b`.
pub open spec fn join_seq_path(a: Seq<char>, b: Seq<char>) -> Seq<char> {
    if b.len() > 0 && b[0] == '/' {
        b
    } else if a.len() == 0 || a.last() == '/' {
        a + b
    } else {
        a.push('/') + b
    }
}

/// `s` without its trailing separators (executable).
pub fn trim_end_separators(s: &Vec<char>) -> (r: Vec<char>)
    ensures
        r@ == trim_end_seps(s@),
{
    let mut i: usize = s.len();
    assert(s@.subrange(0, s@.len() as int) == s@);
    while i > 0 && s[i - 1] == '/'
        invariant
            i <= s.len(),
            trim_end_seps(s@) == trim_end_seps(s@.subrange(0, i as int)),
        decreases i,
    {
        assert(s@.subrange(0, i as int).drop_last() == s@.subrange(0, i - 1));
        i -= 1;
    }
    slice(s, 0, i)
}

/// `s` without its uncounted tail (executable).
pub fn trim_tail_exec(s: &Vec<char>) -> (r: Vec<char>)
    ensures
        r@ == trim_tail(s@),
{
    let mut i: usize = s.len();
    assert(s@.subrange(0, s@.len() as int) == s@);
    while (i > 1 && s[i - 1] == '/') || (i >= 2 && s[i - 1] == '.' && s[i - 2] == '/')
        invariant
            i <= s.len(),
            trim_tail(s@) == trim_tail(s@.subrange(0, i as int)),
        decreases i,
    {
        assert(s@.subrange(0, i as int).drop_last() == s@.subrange(0, i - 1));
        i -= 1;
    }
    slice(s, 0, i)
}

/// `Path::file_name`.
pub fn file_name(s: &Vec<char>) -> (r: Option<Vec<char>>)
    ensures
        r matches Some(v) ==> file_name_seq(s@) == Some(v@),
        r is None ==> file_name_seq(s@) is None,
{
    let t = trim_tail_exec(s);
    proof {
        lemma_last_index(t@, '/');
    }
    let start: usize = match rfind_char(&t, '/') {
        Some(i) => {
            assert(i < t@.len());
            i + 1
        },
        None => 0,
    };
    let name = slice(&t, start, t.len());
    if name.len() == 0 || (name.len() == 2 && name[0] == '.' && name[1] == '.') || (name.len() == 1 && name[0] == '.') {
        proof {
            if name.len() == 2 {
                assert(name@ =~= seq!['.', '.']);
            }
            if name.len() == 1 {
                assert(name@ =~= seq!['.']);
            }
        }
        None
    } else {
        proof {
            if name@ == seq!['.', '.'] {
                assert(name@[0] == '.' && name@[1] == '.');
            }
            if name@ == seq!['.'] {
                assert(name@[0] == '.');
            }
        }
        Some(name)
    }
}

/// `Path::parent`.
pub fn parent(s: &Vec<char>) -> (r: Option<Vec<char>>)
    ensures
        r matches Some(v) ==> parent_seq(s@) == Some(v@),
        r is None ==> parent_seq(s@) is None,
{
    let t = trim_tail_exec(s);
    if t.len() == 0 || (t.len() == 1 && t[0] == '/') {
        proof {
            if t.len() == 1 {
                assert(t@ =~= seq!['/']);
            }
        }
        return None;
    }
    proof {
        lemma_last_index(t@, '/');
        if t@ == seq!['/'] {
            assert(t@[0] == '/');
        }
    }
    match rfind_char(&t, '/') {
        Some(i) => Some(trim_tail_exec(&slice(&t, 0, i + 1))),
        None => {
            let e: Vec<char> = Vec::new();
            assert(e@ =~= seq![]);
            Some(e)
        },
    }
}

/// The stem of a file name (executable).
pub fn stem_of(name: &Vec<char>) -> (r: Vec<char>)
    ensures
        r@ == stem_of_name(name@),
{
    proof {
        lemma_last_index(name@, '.');
    }
    match rfind_char(name, '.') {
        Some(i) => {
            if i == 0 {
                name.clone()
            } else {
                slice(name, 0, i)
            }
        },
        None => name.clone(),
    }
}

/// The extension of a file name (executable).
pub fn ext_of(name: &Vec<char>) -> (r: Option<Vec<char>>)
    ensures
        r matches Some(v) ==> ext_of_name(name@) == Some(v@),
        r is None ==> ext_of_name(name@) is None,
{
    proof {
        lemma_last_index(name@, '.');
    }
    match rfind_char(name, '.') {
        Some(i) => {
            if i == 0 {
                None
            } else {
                assert(i < name.len());
                Some(slice(name, i + 1, name.len()))
            }
        },
        None => None,
    }
}

/// `Path::file_stem`.
pub fn file_stem(s: &Vec<char>) -> (r: Option<Vec<char>>)
    ensures
        r matches Some(v) ==> file_stem_seq(s@) == Some(v@),
        r is None ==> file_stem_seq(s@) is None,
{
    match file_name(s) {
        Some(n) => Some(stem_of(&n)),
        None => None,
    }
}

/// `Path::extension`.
pub fn extension(s: &Vec<char>) -> (r: Option<Vec<char>>)
    ensures
        r matches Some(v) ==> extension_seq(s@) == Some(v@),
        r is None ==> extension_seq(s@) is None,
{
    match file_name(s) {
        Some(n) => ext_of(&n),
        None => None,
    }
}

/// `Path::join`.
pub fn join(a: &Vec<char>, b: &Vec<char>) -> (r: Vec<char>)
    ensures
        r@ == join_seq_path(a@, b@),
{
    if b.len() > 0 && b[0] == '/' {
        b.clone()
    } else if a.len() == 0 || a[a.len() - 1] == '/' {
        concat(a, b)
    } else {
        let mut a2 = a.clone();
        a2.push('/');
        concat(&a2, b)
    }
}

} // verus!
