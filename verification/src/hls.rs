//! HLS playlists: choosing a variant from a master playlist, and reading
//! the segments of a media playlist.
use vstd::prelude::*;
use crate::text::{
    concat, find_char, first_index, from_chars, has_prefix, last_index, lemma_first_index,
    lemma_last_index, parse_u32, parse_u64, parse_unsigned, rfind_char, slice, split_char, split_seq,
    strip_prefix, to_chars, trim, trim_seq, views,
};

verus! {

// ───────────────────────── small pieces ─────────────────────────

/// Everything before the last `/` of a URL (the whole URL when it has none).
pub open spec fn url_prefix_spec(url: Seq<char>) -> Seq<char> {
    if last_index(url, '/') >= 0 {
        url.subrange(0, last_index(url, '/'))
    } else {
        url
    }
}

/// The base URL of a playlist: everything before its last `/`.
pub fn get_url_prefix(url: &str) -> (r: String)
    ensures
        r@ == url_prefix_spec(url@),
{
    let v = to_chars(url);
    proof {
        lemma_last_index(v@, '/');
    }
    match rfind_char(&v, '/') {
        Some(i) => from_chars(&slice(&v, 0, i)),
        None => url.to_owned(),
    }
}

/// `s` after its last `c` (all of `s` when it has none).
pub open spec fn after_last(s: Seq<char>, c: char) -> Seq<char> {
    s.subrange(last_index(s, c) + 1, s.len() as int)
}

/// `s` before its first `c` (all of `s` when it has none).
pub open spec fn before_first(s: Seq<char>, c: char) -> Seq<char> {
    if first_index(s, c) >= 0 {
        s.subrange(0, first_index(s, c))
    } else {
        s
    }
}

/// The sequence number in a segment URL: in the file name (after the last
/// `/`), the part after the last `_`, up to its first `.`, as a `u32`.
pub open spec fn sequence_spec(url: Seq<char>) -> Option<nat> {
    parse_unsigned(before_first(after_last(after_last(url, '/'), '_'), '.'), u32::MAX as nat)
}

/// `s` after its last `c` (executable).
fn after_last_exec(s: &Vec<char>, c: char) -> (r: Vec<char>)
    ensures
        r@ == after_last(s@, c),
{
    proof {
        lemma_last_index(s@, c);
    }
    match rfind_char(s, c) {
        Some(i) => {
            assert(i < s.len());
            slice(s, i + 1, s.len())
        },
        None => slice(s, 0, s.len()),
    }
}

/// `s` before its first `c` (executable).
fn before_first_exec(s: &Vec<char>, c: char) -> (r: Vec<char>)
    ensures
        r@ == before_first(s@, c),
{
    proof {
        lemma_first_index(s@, c);
    }
    match find_char(s, c) {
        Some(i) => slice(s, 0, i),
        None => slice(s, 0, s.len()),
    }
}

/// The sequence number in a segment URL.
pub fn extract_sequence(url: &str) -> (r: Option<u32>)
    ensures
        r matches Some(n) ==> sequence_spec(url@) == Some(n as nat),
        r is None ==> sequence_spec(url@) is None,
{
    let v = to_chars(url);
    let f = after_last_exec(&v, '/');
    let l = after_last_exec(&f, '_');
    let n = before_first_exec(&l, '.');
    parse_u32(&n)
}

// ───────────────────────── master playlists ─────────────────────────

/// Line breaks made uniform: `\r\n` and a lone `\r` become `\n`.
pub open spec fn normalize_breaks(s: Seq<char>) -> Seq<char>
    decreases s.len(),
{
    if s.len() == 0 {
        s
    } else if s[0] == '\r' && s.len() > 1 && s[1] == '\n' {
        seq!['\n'] + normalize_breaks(s.subrange(2, s.len() as int))
    } else if s[0] == '\r' {
        seq!['\n'] + normalize_breaks(s.subrange(1, s.len() as int))
    } else {
        seq![s[0]] + normalize_breaks(s.subrange(1, s.len() as int))
    }
}

/// The trimmed lines of a playlist.
pub open spec fn playlist_lines(s: Seq<char>) -> Seq<Seq<char>> {
    split_seq(normalize_breaks(s), '\n').map_values(|l: Seq<char>| trim_seq(l))
}

/// Line breaks made uniform (executable).
fn normalize_breaks_exec(s: &Vec<char>) -> (r: Vec<char>)
    ensures
        r@ == normalize_breaks(s@),
{
    let mut r: Vec<char> = Vec::new();
    let mut i: usize = 0;
    assert(s@.subrange(0, s@.len() as int) =~= s@);
    assert(r@ + normalize_breaks(s@) =~= normalize_breaks(s@));
    while i < s.len()
        invariant
            i <= s.len(),
            r@ + normalize_breaks(s@.subrange(i as int, s@.len() as int)) == normalize_breaks(s@),
        decreases s.len() - i,
    {
        let ghost rest = s@.subrange(i as int, s@.len() as int);
        if s[i] == '\r' && i + 1 < s.len() && s[i + 1] == '\n' {
            assert(rest.subrange(2, rest.len() as int) =~= s@.subrange(i + 2, s@.len() as int));
            r.push('\n');
            assert(r@ + normalize_breaks(s@.subrange(i + 2, s@.len() as int)) =~= r@.drop_last()
                + normalize_breaks(rest));
            i += 2;
        } else {
            assert(rest.subrange(1, rest.len() as int) =~= s@.subrange(i + 1, s@.len() as int));
            if s[i] == '\r' {
                r.push('\n');
            } else {
                r.push(s[i]);
            }
            assert(r@ + normalize_breaks(s@.subrange(i + 1, s@.len() as int)) =~= r@.drop_last()
                + normalize_breaks(rest));
            i += 1;
        }
    }
    assert(s@.subrange(i as int, s@.len() as int) =~= Seq::<char>::empty());
    assert(r@ + normalize_breaks(Seq::<char>::empty()) =~= r@);
    r
}

/// The trimmed lines of a playlist (executable).
fn playlist_lines_exec(s: &str) -> (r: Vec<Vec<char>>)
    ensures
        views(r@) == playlist_lines(s@),
{
    let pieces = split_char(&normalize_breaks_exec(&to_chars(s)), '\n');
    let mut r: Vec<Vec<char>> = Vec::new();
    let mut i: usize = 0;
    while i < pieces.len()
        invariant
            i <= pieces.len(),
            views(r@) == views(pieces@).take(i as int).map_values(|l: Seq<char>| trim_seq(l)),
        decreases pieces.len() - i,
    {
        let ghost before = r@;
        r.push(trim(&pieces[i]));
        assert(views(r@) =~= views(before).push(trim_seq(pieces@[i as int]@)));
        assert(views(pieces@).take(i + 1) =~= views(pieces@).take(i as int).push(pieces@[i as int]@));
        assert(views(pieces@).take(i + 1).map_values(|l: Seq<char>| trim_seq(l)) =~= views(pieces@).take(
            i as int,
        ).map_values(|l: Seq<char>| trim_seq(l)).push(trim_seq(pieces@[i as int]@)));
        i += 1;
    }
    assert(views(pieces@).take(i as int) =~= views(pieces@));
    r
}

/// The scheme/key pair of a `#EXT-X-MOUFLON:PSCH:{scheme}:{key}` line: the
/// text after the tag, split at its first `:`.
pub open spec fn psch_pair(line: Seq<char>) -> Option<(Seq<char>, Seq<char>)> {
    let tag = "#EXT-X-MOUFLON:PSCH:"@;
    if has_prefix(line, tag) {
        let rest = line.subrange(tag.len() as int, line.len() as int);
        let i = first_index(rest, ':');
        if i >= 0 {
            Some((rest.subrange(0, i), rest.subrange(i + 1, rest.len() as int)))
        } else {
            None
        }
    } else {
        None
    }
}

/// The scheme/key pairs announced in a master playlist, in order.
pub open spec fn psch_pairs(lines: Seq<Seq<char>>) -> Seq<(Seq<char>, Seq<char>)>
    decreases lines.len(),
{
    if lines.len() == 0 {
        seq![]
    } else {
        match psch_pair(lines.last()) {
            Some(p) => psch_pairs(lines.drop_last()).push(p),
            None => psch_pairs(lines.drop_last()),
        }
    }
}

/// A variant stream: its URL, bandwidth, and the smaller side of its resolution.
#[derive(Debug, Clone)]
pub struct Variant {
    pub url: String,
    pub bandwidth: u64,
    pub height: Option<u32>,
}

/// The view of a variant.
pub type VariantV = (Seq<char>, u64, Option<u32>);

/// The text after `p` of the first piece that starts with `p` once trimmed.
pub open spec fn first_attr(segs: Seq<Seq<char>>, p: Seq<char>) -> Option<Seq<char>>
    decreases segs.len(),
{
    if segs.len() == 0 {
        None
    } else if has_prefix(trim_seq(segs[0]), p) {
        Some(trim_seq(segs[0]).subrange(p.len() as int, trim_seq(segs[0]).len() as int))
    } else {
        first_attr(segs.drop_first(), p)
    }
}

/// The bandwidth in the attributes of a `#EXT-X-STREAM-INF` line: the value
/// of the first `BANDWIDTH=` attribute, 0 when missing or not a `u64`.
pub open spec fn bandwidth_of(attrs: Seq<char>) -> u64 {
    match first_attr(split_seq(attrs, ','), "BANDWIDTH="@) {
        Some(v) => match parse_unsigned(v, u64::MAX as nat) {
            Some(n) => n as u64,
            None => 0,
        },
        None => 0,
    }
}

/// The height in the attributes of a `#EXT-X-STREAM-INF` line: the smaller
/// of width and height of the first `RESOLUTION={w}x{h}` attribute.
pub open spec fn height_of(attrs: Seq<char>) -> Option<u32> {
    match first_attr(split_seq(attrs, ','), "RESOLUTION="@) {
        Some(v) => {
            let i = first_index(v, 'x');
            if i < 0 {
                None
            } else {
                match (
                    parse_unsigned(v.subrange(0, i), u32::MAX as nat),
                    parse_unsigned(v.subrange(i + 1, v.len() as int), u32::MAX as nat),
                ) {
                    (Some(w), Some(h)) => Some(if w <= h {
                        w as u32
                    } else {
                        h as u32
                    }),
                    _ => None,
                }
            }
        },
        None => None,
    }
}

/// The variants of a master playlist and the attributes waiting for their
/// URL line: a `#EXT-X-STREAM-INF` line sets the pending attributes, the
/// next line that is neither empty nor a comment takes them as its variant,
/// and any other line drops them.
pub open spec fn variants_state(lines: Seq<Seq<char>>) -> (Seq<VariantV>, Option<(u64, Option<u32>)>)
    decreases lines.len(),
{
    if lines.len() == 0 {
        (seq![], None)
    } else {
        let (vs, pending) = variants_state(lines.drop_last());
        let l = lines.last();
        let tag = "#EXT-X-STREAM-INF:"@;
        if has_prefix(l, tag) {
            let attrs = l.subrange(tag.len() as int, l.len() as int);
            (vs, Some((bandwidth_of(attrs), height_of(attrs))))
        } else if l.len() > 0 && l[0] != '#' {
            match pending {
                Some((b, h)) => (vs.push((l, b, h)), None),
                None => (vs, None),
            }
        } else {
            (vs, None)
        }
    }
}

/// Index of the variant with the greatest bandwidth (the last one among
/// equals) among the first `n`, or -1.
pub open spec fn max_bw_index(vs: Seq<VariantV>, n: int) -> int
    decreases n,
{
    if n <= 0 {
        -1
    } else {
        let b = max_bw_index(vs, n - 1);
        if b < 0 || vs[n - 1].1 >= vs[b].1 {
            n - 1
        } else {
            b
        }
    }
}

/// Index of the variant at or below `pref` with the greatest (height,
/// bandwidth) (the last one among equals) among the first `n`, or -1.
pub open spec fn below_index(vs: Seq<VariantV>, n: int, pref: u32) -> int
    decreases n,
{
    if n <= 0 {
        -1
    } else {
        let b = below_index(vs, n - 1, pref);
        let v = vs[n - 1];
        if v.2 matches Some(h) && h <= pref && (b < 0 || h > vs[b].2->0 || (h == vs[b].2->0 && v.1
            >= vs[b].1)) {
            n - 1
        } else {
            b
        }
    }
}

/// Index of the variant at or above `pref` with the least height, and
/// among those the greatest bandwidth (the first one among equals), among
/// the first `n`, or -1.
pub open spec fn above_index(vs: Seq<VariantV>, n: int, pref: u32) -> int
    decreases n,
{
    if n <= 0 {
        -1
    } else {
        let b = above_index(vs, n - 1, pref);
        let v = vs[n - 1];
        if v.2 matches Some(h) && h >= pref && (b < 0 || h < vs[b].2->0 || (h == vs[b].2->0 && v.1
            > vs[b].1)) {
            n - 1
        } else {
            b
        }
    }
}

/// The chosen variant: with no preference, the greatest bandwidth; else the
/// best at or below the preferred height (or, when higher is preferred, the
/// closest at or above), falling back to the other side and then to the
/// greatest bandwidth.
pub open spec fn choose_variant(vs: Seq<VariantV>, pref: u32, prefers_higher: bool) -> int {
    let n = vs.len() as int;
    if pref == 0 {
        max_bw_index(vs, n)
    } else {
        let below = below_index(vs, n, pref);
        let above = above_index(vs, n, pref);
        let chosen = if prefers_higher {
            if above >= 0 {
                above
            } else {
                below
            }
        } else {
            if below >= 0 {
                below
            } else {
                above
            }
        };
        if chosen >= 0 {
            chosen
        } else {
            max_bw_index(vs, n)
        }
    }
}

/// Indices found by the selection folds are variant indices.
proof fn lemma_indices_in_range(vs: Seq<VariantV>, n: int, pref: u32)
    requires
        0 <= n <= vs.len(),
    ensures
        -1 <= max_bw_index(vs, n) < n,
        -1 <= below_index(vs, n, pref) < n,
        below_index(vs, n, pref) >= 0 ==> vs[below_index(vs, n, pref)].2 is Some,
        -1 <= above_index(vs, n, pref) < n,
        above_index(vs, n, pref) >= 0 ==> vs[above_index(vs, n, pref)].2 is Some,
        n > 0 ==> max_bw_index(vs, n) >= 0,
    decreases n,
{
    if n > 0 {
        lemma_indices_in_range(vs, n - 1, pref);
    }
}

} // verus!

verus! {

/// The scheme/key pair of a line, if it announces one (executable).
fn psch_pair_exec(line: &Vec<char>) -> (r: Option<(String, String)>)
    ensures
        r matches Some(p) ==> psch_pair(line@) == Some((p.0@, p.1@)),
        r is None ==> psch_pair(line@) is None,
{
    proof {
        reveal_strlit("#EXT-X-MOUFLON:PSCH:");
    }
    match strip_prefix(line, &to_chars("#EXT-X-MOUFLON:PSCH:")) {
        Some(rest) => {
            proof {
                lemma_first_index(rest@, ':');
            }
            match find_char(&rest, ':') {
                Some(i) => Some((from_chars(&slice(&rest, 0, i)), from_chars(&slice(&rest, i + 1, rest.len())))),
                None => None,
            }
        },
        None => None,
    }
}

/// The text after `p` of the first trimmed piece that starts with `p` (executable).
fn first_attr_exec(segs: &Vec<Vec<char>>, p: &Vec<char>) -> (r: Option<Vec<char>>)
    ensures
        r matches Some(v) ==> first_attr(views(segs@), p@) == Some(v@),
        r is None ==> first_attr(views(segs@), p@) is None,
{
    let mut i: usize = 0;
    assert(views(segs@).skip(0) =~= views(segs@));
    while i < segs.len()
        invariant
            i <= segs.len(),
            first_attr(views(segs@), p@) == first_attr(views(segs@).skip(i as int), p@),
        decreases segs.len() - i,
    {
        assert(views(segs@).skip(i as int)[0] == segs@[i as int]@);
        assert(views(segs@).skip(i as int).drop_first() =~= views(segs@).skip(i + 1));
        let t = trim(&segs[i]);
        match crate::text::strip_prefix(&t, p) {
            Some(rest) => {
                return Some(rest);
            },
            None => {},
        }
        i += 1;
    }
    assert(views(segs@).skip(i as int) =~= Seq::<Seq<char>>::empty());
    None
}

/// The bandwidth in stream attributes (executable).
fn bandwidth_exec(attrs: &Vec<char>) -> (r: u64)
    ensures
        r == bandwidth_of(attrs@),
{
    proof {
        reveal_strlit("BANDWIDTH=");
    }
    let segs = split_char(attrs, ',');
    match first_attr_exec(&segs, &to_chars("BANDWIDTH=")) {
        Some(v) => match parse_u64(&v) {
            Some(n) => n,
            None => 0,
        },
        None => 0,
    }
}

/// The height in stream attributes (executable).
fn height_exec(attrs: &Vec<char>) -> (r: Option<u32>)
    ensures
        r == height_of(attrs@),
{
    proof {
        reveal_strlit("RESOLUTION=");
    }
    let segs = split_char(attrs, ',');
    match first_attr_exec(&segs, &to_chars("RESOLUTION=")) {
        Some(v) => {
            proof {
                lemma_first_index(v@, 'x');
            }
            match find_char(&v, 'x') {
                Some(i) => {
                    let w = parse_u32(&slice(&v, 0, i));
                    let h = parse_u32(&slice(&v, i + 1, v.len()));
                    match (w, h) {
                        (Some(w), Some(h)) => Some(if w <= h {
                            w
                        } else {
                            h
                        }),
                        _ => None,
                    }
                },
                None => None,
            }
        },
        None => None,
    }
}

/// The variants of a master playlist, from its lines (executable).
fn collect_variants(lines: &Vec<Vec<char>>) -> (r: Vec<Variant>)
    ensures
        r@.map_values(|v: Variant| (v.url@, v.bandwidth, v.height)) == variants_state(views(lines@)).0,
{
    proof {
        reveal_strlit("#EXT-X-STREAM-INF:");
    }
    let mut vs: Vec<Variant> = Vec::new();
    let mut pending: Option<(u64, Option<u32>)> = None;
    let mut i: usize = 0;
    while i < lines.len()
        invariant
            i <= lines.len(),
            (vs@.map_values(|v: Variant| (v.url@, v.bandwidth, v.height)), pending) == variants_state(
                views(lines@).take(i as int),
            ),
        decreases lines.len() - i,
    {
        assert(views(lines@).take(i + 1).drop_last() =~= views(lines@).take(i as int));
        assert(views(lines@).take(i + 1).last() == lines@[i as int]@);
        let l = &lines[i];
        let ghost before = vs@.map_values(|v: Variant| (v.url@, v.bandwidth, v.height));
        match strip_prefix(l, &to_chars("#EXT-X-STREAM-INF:")) {
            Some(attrs) => {
                pending = Some((bandwidth_exec(&attrs), height_exec(&attrs)));
            },
            None => {
                if l.len() > 0 && l[0] != '#' {
                    match pending {
                        Some((b, h)) => {
                            vs.push(Variant { url: from_chars(l), bandwidth: b, height: h });
                            assert(vs@.map_values(|v: Variant| (v.url@, v.bandwidth, v.height)) =~= before.push(
                                (l@, b, h),
                            ));
                        },
                        None => {},
                    }
                }
                pending = None;
            },
        }
        i += 1;
    }
    assert(views(lines@).take(i as int) =~= views(lines@));
    vs
}

/// The variant index chosen for a preferred height (executable).
fn choose_variant_exec(vs: &Vec<Variant>, pref: u32, prefers_higher: bool) -> (r: Option<usize>)
    ensures
        ({
            let vv = vs@.map_values(|v: Variant| (v.url@, v.bandwidth, v.height));
            let c = choose_variant(vv, pref, prefers_higher);
            &&& r matches Some(i) ==> i as int == c && i < vs@.len()
            &&& r is None ==> c < 0
        }),
{
    let ghost vv = vs@.map_values(|v: Variant| (v.url@, v.bandwidth, v.height));
    let mut best: Option<usize> = None;
    let mut below: Option<usize> = None;
    let mut above: Option<usize> = None;
    let mut i: usize = 0;
    while i < vs.len()
        invariant
            i <= vs.len(),
            vv == vs@.map_values(|v: Variant| (v.url@, v.bandwidth, v.height)),
            (match best {
                Some(b) => b as int == max_bw_index(vv, i as int),
                None => max_bw_index(vv, i as int) == -1,
            }),
            (match below {
                Some(b) => b as int == below_index(vv, i as int, pref),
                None => below_index(vv, i as int, pref) == -1,
            }),
            (match above {
                Some(b) => b as int == above_index(vv, i as int, pref),
                None => above_index(vv, i as int, pref) == -1,
            }),
        decreases vs.len() - i,
    {
        proof {
            lemma_indices_in_range(vv, i as int, pref);
        }
        let v = &vs[i];
        match best {
            Some(b) => {
                if v.bandwidth >= vs[b].bandwidth {
                    best = Some(i);
                }
            },
            None => {
                best = Some(i);
            },
        }
        match v.height {
            Some(h) => {
                if h <= pref {
                    match below {
                        Some(b) => {
                            let hb = match vs[b].height {
                                Some(x) => x,
                                None => 0,
                            };
                            if h > hb || (h == hb && v.bandwidth >= vs[b].bandwidth) {
                                below = Some(i);
                            }
                        },
                        None => {
                            below = Some(i);
                        },
                    }
                }
                if h >= pref {
                    match above {
                        Some(b) => {
                            let hb = match vs[b].height {
                                Some(x) => x,
                                None => 0,
                            };
                            if h < hb || (h == hb && v.bandwidth > vs[b].bandwidth) {
                                above = Some(i);
                            }
                        },
                        None => {
                            above = Some(i);
                        },
                    }
                }
            },
            None => {},
        }
        i += 1;
    }
    proof {
        lemma_indices_in_range(vv, vs.len() as int, pref);
    }
    if pref == 0 {
        return best;
    }
    let chosen = if prefers_higher {
        match above {
            Some(a) => Some(a),
            None => below,
        }
    } else {
        match below {
            Some(b) => Some(b),
            None => above,
        }
    };
    match chosen {
        Some(c) => Some(c),
        None => best,
    }
}

/// The result of reading a master playlist: the chosen variant's URL and
/// the scheme/key pairs announced, or `None` when it has no variant.
pub open spec fn master_spec(playlist: Seq<char>, pref: u32, prefers_higher: bool) -> Option<(Seq<char>, Seq<(Seq<char>, Seq<char>)>)> {
    let lines = playlist_lines(playlist);
    let vs = variants_state(lines).0;
    let c = choose_variant(vs, pref, prefers_higher);
    if c >= 0 {
        Some((vs[c].0, psch_pairs(lines)))
    } else {
        None
    }
}

/// Reads a master playlist: picks the variant for the preferred height
/// (0: the greatest bandwidth) and collects the announced scheme/key pairs.
pub fn parse_master_playlist(playlist: &str, preferred_resolution: u32, prefers_higher: bool) -> (r: Option<(String, Vec<(String, String)>)>)
    ensures
        r matches Some(p) ==> master_spec(playlist@, preferred_resolution, prefers_higher) == Some(
            (p.0@, p.1@.map_values(|q: (String, String)| (q.0@, q.1@))),
        ),
        r is None ==> master_spec(playlist@, preferred_resolution, prefers_higher) is None,
{
    let lines = playlist_lines_exec(playlist);
    let mut pairs: Vec<(String, String)> = Vec::new();
    let mut i: usize = 0;
    while i < lines.len()
        invariant
            i <= lines.len(),
            pairs@.map_values(|q: (String, String)| (q.0@, q.1@)) == psch_pairs(views(lines@).take(i as int)),
        decreases lines.len() - i,
    {
        assert(views(lines@).take(i + 1).drop_last() =~= views(lines@).take(i as int));
        assert(views(lines@).take(i + 1).last() == lines@[i as int]@);
        let ghost before = pairs@.map_values(|q: (String, String)| (q.0@, q.1@));
        match psch_pair_exec(&lines[i]) {
            Some(p) => {
                let ghost pv = (p.0@, p.1@);
                pairs.push(p);
                assert(pairs@.map_values(|q: (String, String)| (q.0@, q.1@)) =~= before.push(pv));
            },
            None => {},
        }
        i += 1;
    }
    assert(views(lines@).take(i as int) =~= views(lines@));
    let vs = collect_variants(&lines);
    match choose_variant_exec(&vs, preferred_resolution, prefers_higher) {
        Some(k) => Some((vs[k].url.clone(), pairs)),
        None => None,
    }
}

} // verus!

verus! {

// ───────────────────────── segment URLs ─────────────────────────

/// `s` reversed.
pub open spec fn reversed(s: Seq<char>) -> Seq<char> {
    Seq::new(s.len(), |i: int| s[s.len() - 1 - i])
}

/// `s` followed by as many `=` as bring its UTF-8 length to a multiple of four.
pub open spec fn padded(s: Seq<char>) -> Seq<char> {
    s + Seq::new(((4 - crate::text::utf8_len(s) % 4) % 4) as nat, |i: int| '=')
}

/// `data` XOR the key repeated.
pub open spec fn xor_with(data: Seq<u8>, key: Seq<u8>) -> Seq<u8> {
    Seq::new(data.len(), |i: int| data[i] ^ key[i % key.len() as int])
}

/// The decrypted form of a segment URL: the name part that the segment
/// pattern captures is reversed, padded, Base64-decoded, XORed with the
/// SHA-256 of the key, and decoded as UTF-8; every occurrence of the name
/// part is then replaced by that text. `None` when the pattern does not
/// match or the Base64 is invalid.
pub open spec fn decrypt_spec(encoded_url: Seq<char>, key_bytes: Seq<u8>) -> Option<Seq<char>> {
    match crate::crypto::segment_key_capture(encoded_url) {
        Some(enc) => match crate::crypto::base64_standard_decode(padded(reversed(enc))) {
            Some(bytes) => {
                let plain = crate::crypto::utf8_lossy(
                    xor_with(bytes, crate::crypto::sha256_digest(key_bytes)),
                );
                Some(crate::text::replace_all(encoded_url, enc, plain))
            },
            None => None,
        },
        None => None,
    }
}

/// Decrypts a segment URL with a key (see `decrypt_spec`).
pub fn decrypt_segment_url(encoded_url: &str, key: &str) -> (r: Option<String>)
    ensures
        r matches Some(u) ==> decrypt_spec(encoded_url@, vstd::utf8::encode_utf8(key@)) == Some(u@),
        r is None ==> decrypt_spec(encoded_url@, vstd::utf8::encode_utf8(key@)) is None,
{
    let enc = match crate::crypto::capture_segment_key(encoded_url) {
        Some(e) => e,
        None => {
            return None;
        },
    };
    let ev = to_chars(enc.as_str());
    let mut rev: Vec<char> = Vec::new();
    let mut i: usize = ev.len();
    while i > 0
        invariant
            i <= ev.len(),
            rev@ =~= reversed(ev@).take((ev.len() - i) as int),
        decreases i,
    {
        rev.push(ev[i - 1]);
        i -= 1;
    }
    assert(reversed(ev@).take(ev.len() as int) =~= reversed(ev@));
    let m = crate::text::utf8_len_mod4(&rev);
    let pad: usize = (4 - m) % 4;
    let ghost base = rev@;
    let mut k: usize = 0;
    while k < pad
        invariant
            k <= pad,
            pad <= 3,
            rev@ =~= base + Seq::new(k as nat, |j: int| '='),
        decreases pad - k,
    {
        rev.push('=');
        k += 1;
    }
    assert(rev@ =~= padded(reversed(enc@)));
    let bytes = match crate::crypto::base64_decode(from_chars(&rev).as_str()) {
        Some(b) => b,
        None => {
            return None;
        },
    };
    let digest = crate::crypto::sha256(key.as_bytes());
    let mut plain: Vec<u8> = Vec::new();
    let mut j: usize = 0;
    while j < bytes.len()
        invariant
            j <= bytes.len(),
            digest@.len() == 32,
            plain@ =~= xor_with(bytes@, digest@).take(j as int),
        decreases bytes.len() - j,
    {
        plain.push(bytes[j] ^ digest[j % 32]);
        j += 1;
    }
    assert(xor_with(bytes@, digest@).take(j as int) =~= xor_with(bytes@, digest@));
    let text = crate::crypto::from_utf8_lossy(&plain);
    if ev.len() == 0 {
        return Some(encoded_url.to_owned());
    }
    Some(from_chars(&crate::text::replace_all_exec(&to_chars(encoded_url), &ev, &to_chars(text.as_str()))))
}

} // verus!

verus! {

// ───────────────────────── media playlists ─────────────────────────

/// `l` without one trailing `\r`.
pub open spec fn strip_cr(l: Seq<char>) -> Seq<char> {
    if l.len() > 0 && l.last() == '\r' {
        l.drop_last()
    } else {
        l
    }
}

/// The lines of `s` as `str::lines` gives them: split at `\n`, without a
/// final empty piece, each without one trailing `\r`.
pub open spec fn std_lines(s: Seq<char>) -> Seq<Seq<char>> {
    let parts = split_seq(s, '\n');
    let kept = if parts.last().len() == 0 {
        parts.drop_last()
    } else {
        parts
    };
    kept.map_values(
        |l: Seq<char>| strip_cr(l),
    )
}

/// One segment of a media playlist. `duration_text` is the duration given
/// by the `#EXTINF` line before it (`None` when there was none).
#[derive(Debug, Clone)]
pub struct HlsSegment {
    pub url: String,
    pub sequence: u32,
    pub duration_text: Option<String>,
}

/// The view of a segment.
pub type SegmentV = (Seq<char>, u32, Option<Seq<char>>);

/// `s` without every leading copy of `p` (`str::trim_start_matches`).
pub open spec fn trim_start_all(s: Seq<char>, p: Seq<char>) -> Seq<char>
    decreases s.len(),
{
    if p.len() > 0 && has_prefix(s, p) {
        trim_start_all(s.subrange(p.len() as int, s.len() as int), p)
    } else {
        s
    }
}

/// `prefix/path`.
pub open spec fn under(prefix: Seq<char>, path: Seq<char>) -> Seq<char> {
    prefix.push('/') + path
}

/// A URL that a segment line gives: absolute when it starts with `http`,
/// otherwise under the playlist's base URL.
pub open spec fn absolute(prefix: Seq<char>, path: Seq<char>) -> Seq<char> {
    if has_prefix(path, "http"@) {
        path
    } else {
        under(prefix, path)
    }
}

/// The segment URL of a `#EXT-X-MOUFLON:URI:` line: made absolute with
/// `https:`, then decrypted with the current key when there is one (the
/// encrypted URL is kept when it cannot be decrypted).
pub open spec fn mouflon_url(uri_line: Seq<char>, key: Option<Seq<char>>) -> Seq<char> {
    let raw = trim_start_all(uri_line, "#EXT-X-MOUFLON:URI:"@);
    let encoded = if has_prefix(raw, "https://"@) {
        raw
    } else if has_prefix(raw, "//"@) {
        "https:"@ + raw
    } else {
        "https://"@ + raw
    };
    match key {
        Some(k) => match decrypt_spec(encoded, vstd::utf8::encode_utf8(k)) {
            Some(u) => u,
            None => encoded,
        },
        None => encoded,
    }
}

/// The state after reading the first lines of a media playlist: segments,
/// header URL, current decryption key, and pending duration.
pub type PlaylistState = (Seq<SegmentV>, Option<Seq<char>>, Option<Seq<char>>, Option<Seq<char>>);

/// The key announced by a `#EXT-X-MOUFLON:PSCH` line (its fourth piece
/// between colons), looked up among the known keys; lines with fewer
/// pieces keep the current key.
pub open spec fn next_key(line: Seq<char>, keys: Seq<(String, String)>, cur: Option<Seq<char>>) -> Option<Seq<char>> {
    if crate::text::contains_seq(line, "#EXT-X-MOUFLON:PSCH"@) && split_seq(line, ':').len() >= 4 {
        match crate::assoc::get_spec(keys, split_seq(line, ':')[3]) {
            Some(k) => Some(k@),
            None => None,
        }
    } else {
        cur
    }
}

/// The header URL announced by an `EXT-X-MAP:URI` line: the text between
/// its first two `"`, made absolute.
pub open spec fn next_header(line: Seq<char>, prefix: Seq<char>, cur: Option<Seq<char>>) -> Option<Seq<char>> {
    let a = first_index(line, '"');
    let rest = line.subrange(a + 1, line.len() as int);
    let b = first_index(rest, '"');
    if crate::text::contains_seq(line, "EXT-X-MAP:URI"@) && a >= 0 && b >= 0 {
        Some(absolute(prefix, rest.subrange(0, b)))
    } else {
        cur
    }
}

/// The playlist state after the first `n` lines.
pub open spec fn playlist_state(lines: Seq<Seq<char>>, n: int, prefix: Seq<char>, keys: Seq<(String, String)>) -> PlaylistState
    decreases n,
{
    if n <= 0 {
        (seq![], None, None, None)
    } else {
        let (segs, header, key0, dur0) = playlist_state(lines, n - 1, prefix, keys);
        let line = lines[n - 1];
        let key = next_key(line, keys, key0);
        let dur = if has_prefix(line, "#EXTINF:"@) {
            Some(split_seq(line.subrange(8, line.len() as int), ',')[0])
        } else {
            dur0
        };
        let hdr = next_header(line, prefix, header);
        if line.len() == 0 || line[0] == '#' {
            (segs, hdr, key, dur)
        } else {
            let url = if n >= 2 && has_prefix(lines[n - 2], "#EXT-X-MOUFLON:URI:"@) {
                mouflon_url(lines[n - 2], key)
            } else {
                absolute(prefix, line)
            };
            let seq_no = match sequence_spec(url) {
                Some(s) => s as u32,
                None => segs.len() as u32,
            };
            (segs.push((url, seq_no, dur)), hdr, key, None)
        }
    }
}

} // verus!

verus! {

/// The lines of `s` as `str::lines` gives them (executable).
fn std_lines_exec(s: &str) -> (r: Vec<Vec<char>>)
    ensures
        views(r@) == std_lines(s@),
{
    let parts = split_char(&to_chars(s), '\n');
    proof {
        crate::text::lemma_split_nonempty(s@, '\n');
    }
    assert(views(parts@).len() == parts@.len());
    let n: usize = if parts[parts.len() - 1].len() == 0 {
        parts.len() - 1
    } else {
        parts.len()
    };
    let ghost kept = if views(parts@).last().len() == 0 {
        views(parts@).drop_last()
    } else {
        views(parts@)
    };
    assert(kept =~= views(parts@).take(n as int));
    let mut r: Vec<Vec<char>> = Vec::new();
    let mut i: usize = 0;
    while i < n
        invariant
            i <= n,
            n <= parts.len(),
            kept == views(parts@).take(n as int),
            views(r@) == kept.take(i as int).map_values(
                |l: Seq<char>| strip_cr(l),
            ),
        decreases n - i,
    {
        let p = &parts[i];
        let line = if p.len() > 0 && p[p.len() - 1] == '\r' {
            slice(p, 0, p.len() - 1)
        } else {
            slice(p, 0, p.len())
        };
        let ghost before = views(r@);
        assert(kept[i as int] == p@);
        assert(line@ =~= strip_cr(p@));
        r.push(line);
        assert(views(r@) =~= before.push(strip_cr(p@)));
        assert(kept.take(i + 1) =~= kept.take(i as int).push(p@));
        assert(views(r@) =~= kept.take(i + 1).map_values(
            |l: Seq<char>| strip_cr(l),
        ));
        i += 1;
    }
    assert(kept.take(n as int) =~= kept);
    r
}

/// `s` without every leading copy of `p` (executable).
fn trim_start_all_exec(s: &Vec<char>, p: &Vec<char>) -> (r: Vec<char>)
    ensures
        r@ == trim_start_all(s@, p@),
{
    let mut cur = slice(s, 0, s.len());
    assert(cur@ =~= s@);
    if p.len() == 0 {
        return cur;
    }
    while crate::text::starts_with(&cur, p)
        invariant
            p@.len() > 0,
            trim_start_all(cur@, p@) == trim_start_all(s@, p@),
        decreases cur@.len(),
    {
        cur = slice(&cur, p.len(), cur.len());
    }
    cur
}

/// `prefix/path` made absolute (executable).
fn absolute_exec(prefix: &str, path: &Vec<char>) -> (r: String)
    ensures
        r@ == absolute(prefix@, path@),
{
    proof {
        reveal_strlit("http");
    }
    if crate::text::starts_with(path, &to_chars("http")) {
        from_chars(path)
    } else {
        let mut pre = to_chars(prefix);
        pre.push('/');
        from_chars(&concat(&pre, path))
    }
}

/// The segment URL of a `#EXT-X-MOUFLON:URI:` line (executable).
fn mouflon_url_exec(uri_line: &Vec<char>, key: &Option<String>) -> (r: String)
    ensures
        r@ == mouflon_url(uri_line@, match key {
            Some(k) => Some(k@),
            None => None,
        }),
{
    proof {
        reveal_strlit("#EXT-X-MOUFLON:URI:");
        reveal_strlit("https://");
        reveal_strlit("//");
        reveal_strlit("https:");
    }
    let raw = trim_start_all_exec(uri_line, &to_chars("#EXT-X-MOUFLON:URI:"));
    let encoded = if crate::text::starts_with(&raw, &to_chars("https://")) {
        from_chars(&raw)
    } else if crate::text::starts_with(&raw, &to_chars("//")) {
        from_chars(&concat(&to_chars("https:"), &raw))
    } else {
        from_chars(&concat(&to_chars("https://"), &raw))
    };
    match key {
        Some(k) => match decrypt_segment_url(encoded.as_str(), k.as_str()) {
            Some(u) => u,
            None => encoded,
        },
        None => encoded,
    }
}

/// The next decryption key (executable).
fn next_key_exec(line: &Vec<char>, keys: &Vec<(String, String)>, cur: Option<String>) -> (r: Option<String>)
    ensures
        (match r {
            Some(k) => Some(k@),
            None => None,
        }) == next_key(line@, keys@, match cur {
            Some(k) => Some(k@),
            None => None,
        }),
{
    proof {
        reveal_strlit("#EXT-X-MOUFLON:PSCH");
    }
    if crate::text::contains(line, &to_chars("#EXT-X-MOUFLON:PSCH")) {
        let parts = split_char(line, ':');
        if parts.len() >= 4 {
            assert(views(parts@)[3] == parts@[3]@);
            proof {
                crate::assoc::lemma_key_index(keys@, parts@[3]@);
            }
            return match crate::assoc::find_key(keys, from_chars(&parts[3]).as_str()) {
                Some(i) => Some(keys[i].1.clone()),
                None => None,
            };
        }
    }
    cur
}

/// The next header URL (executable).
fn next_header_exec(line: &Vec<char>, prefix: &str, cur: Option<String>) -> (r: Option<String>)
    ensures
        (match r {
            Some(k) => Some(k@),
            None => None,
        }) == next_header(line@, prefix@, match cur {
            Some(k) => Some(k@),
            None => None,
        }),
{
    proof {
        reveal_strlit("EXT-X-MAP:URI");
        lemma_first_index(line@, '"');
    }
    if crate::text::contains(line, &to_chars("EXT-X-MAP:URI")) {
        match find_char(line, '"') {
            Some(a) => {
                assert(a < line.len());
                let rest = slice(line, a + 1, line.len());
                proof {
                    lemma_first_index(rest@, '"');
                }
                match find_char(&rest, '"') {
                    Some(b) => {
                        return Some(absolute_exec(prefix, &slice(&rest, 0, b)));
                    },
                    None => {},
                }
            },
            None => {},
        }
    }
    cur
}

/// Reads a media playlist: its segments (URL, sequence number, duration
/// text), and the URL of its initialization header, if it names one.
/// `mouflon_keys` maps key names to keys for the encrypted segment names.
pub fn parse_playlist(playlist: &str, url_prefix: &str, mouflon_keys: &Vec<(String, String)>) -> (r: (Vec<HlsSegment>, Option<String>))
    ensures
        ({
            let lines = std_lines(playlist@);
            let st = playlist_state(lines, lines.len() as int, url_prefix@, mouflon_keys@);
            &&& r.0@.map_values(|s: HlsSegment| (s.url@, s.sequence, match s.duration_text {
                Some(d) => Some(d@),
                None => None,
            })) == st.0
            &&& (match r.1 {
                Some(h) => Some(h@),
                None => None,
            }) == st.1
        }),
{
    proof {
        reveal_strlit("#EXTINF:");
        reveal_strlit("#EXT-X-MOUFLON:URI:");
    }
    let lines = std_lines_exec(playlist);
    let ghost lv = views(lines@);
    let mut segs: Vec<HlsSegment> = Vec::new();
    let mut header: Option<String> = None;
    let mut key: Option<String> = None;
    let mut dur: Option<String> = None;
    let mut i: usize = 0;
    while i < lines.len()
        invariant
            i <= lines.len(),
            lv == views(lines@),
            "#EXTINF:"@.len() == 8,
            ({
                let st = playlist_state(lv, i as int, url_prefix@, mouflon_keys@);
                &&& segs@.map_values(|s: HlsSegment| (s.url@, s.sequence, match s.duration_text {
                    Some(d) => Some(d@),
                    None => None,
                })) == st.0
                &&& (match header {
                    Some(h) => Some(h@),
                    None => None,
                }) == st.1
                &&& (match key {
                    Some(h) => Some(h@),
                    None => None,
                }) == st.2
                &&& (match dur {
                    Some(h) => Some(h@),
                    None => None,
                }) == st.3
            }),
        decreases lines.len() - i,
    {
        let line = &lines[i];
        assert(lv.len() == lines@.len());
        assert(lv[i as int] == line@);
        key = next_key_exec(line, mouflon_keys, key);
        match strip_prefix(line, &to_chars("#EXTINF:")) {
            Some(rest) => {
                let pieces = split_char(&rest, ',');
                proof {
                    crate::text::lemma_split_nonempty(rest@, ',');
                }
                assert(views(pieces@).len() == pieces@.len());
                assert(views(pieces@)[0] == pieces@[0]@);
                dur = Some(from_chars(&pieces[0]));
            },
            None => {},
        }
        header = next_header_exec(line, url_prefix, header);
        if !(line.len() == 0 || line[0] == '#') {
            let url = if i >= 1 && crate::text::starts_with(&lines[i - 1], &to_chars("#EXT-X-MOUFLON:URI:")) {
                assert(lv[i - 1] == lines@[i - 1]@);
                mouflon_url_exec(&lines[i - 1], &key)
            } else {
                absolute_exec(url_prefix, line)
            };
            let seq_no: u32 = match extract_sequence(url.as_str()) {
                Some(s) => s,
                None => segs.len() as u32,
            };
            let ghost before = segs@.map_values(|s: HlsSegment| (s.url@, s.sequence, match s.duration_text {
                Some(d) => Some(d@),
                None => None,
            }));
            let ghost dv = match &dur {
                Some(d) => Some(d@),
                None => None,
            };
            let ghost uv = url@;
            segs.push(HlsSegment { url, sequence: seq_no, duration_text: dur });
            dur = None;
            assert(segs@.map_values(|s: HlsSegment| (s.url@, s.sequence, match s.duration_text {
                Some(d) => Some(d@),
                None => None,
            })) =~= before.push((uv, seq_no, dv)));
        }
        i += 1;
    }
    (segs, header)
}

/// Whether the variant has a known height of at most `pref`.
pub open spec fn at_or_below(v: VariantV, pref: u32) -> bool {
    v.2 is Some && v.2->0 <= pref
}

/// Whether the variant has a known height of at least `pref`.
pub open spec fn at_or_above(v: VariantV, pref: u32) -> bool {
    v.2 is Some && v.2->0 >= pref
}

/// `below_index` finds, among the first `n` variants, one at or below
/// `pref` whose height no other such variant exceeds, when there is one.
proof fn lemma_below_index(vs: Seq<VariantV>, n: int, pref: u32)
    requires
        0 <= n <= vs.len(),
    ensures
        -1 <= below_index(vs, n, pref) < n,
        below_index(vs, n, pref) >= 0 ==> at_or_below(vs[below_index(vs, n, pref)], pref),
        forall|k: int| 0 <= k < n && #[trigger] at_or_below(vs[k], pref) ==> below_index(vs, n, pref) >= 0
            && vs[k].2->0 <= vs[below_index(vs, n, pref)].2->0,
    decreases n,
{
    if n > 0 {
        lemma_below_index(vs, n - 1, pref);
    }
}

/// `above_index` finds, among the first `n` variants, one at or above
/// `pref` whose height no other such variant undercuts, when there is one.
proof fn lemma_above_index(vs: Seq<VariantV>, n: int, pref: u32)
    requires
        0 <= n <= vs.len(),
    ensures
        -1 <= above_index(vs, n, pref) < n,
        above_index(vs, n, pref) >= 0 ==> at_or_above(vs[above_index(vs, n, pref)], pref),
        forall|k: int| 0 <= k < n && #[trigger] at_or_above(vs[k], pref) ==> above_index(vs, n, pref) >= 0
            && vs[above_index(vs, n, pref)].2->0 <= vs[k].2->0,
    decreases n,
{
    if n > 0 {
        lemma_above_index(vs, n - 1, pref);
    }
}

/// `max_bw_index` finds, among the first `n` variants, one whose bandwidth
/// no other exceeds.
proof fn lemma_max_bw_index(vs: Seq<VariantV>, n: int)
    requires
        0 <= n <= vs.len(),
    ensures
        n == 0 ==> max_bw_index(vs, n) == -1,
        n > 0 ==> 0 <= max_bw_index(vs, n) < n,
        forall|k: int| 0 <= k < n ==> #[trigger] vs[k].1 <= vs[max_bw_index(vs, n)].1,
    decreases n,
{
    if n > 0 {
        lemma_max_bw_index(vs, n - 1);
    }
}

/// The variant chosen for a preferred height `pref` (0: none):
/// - with no preference, a variant of the greatest bandwidth;
/// - preferring lower: the variant at or below `pref` closest to it when
///   there is one; else the one at or above `pref` closest to it;
/// - preferring higher: the same with the two sides swapped;
/// - with no variant of known height, one of the greatest bandwidth.
/// No playlist without variants has a choice.
pub proof fn law_variant_closest_to_preference(vs: Seq<VariantV>, pref: u32, prefers_higher: bool)
    ensures
        vs.len() == 0 ==> choose_variant(vs, pref, prefers_higher) < 0,
        vs.len() > 0 ==> 0 <= choose_variant(vs, pref, prefers_higher) < vs.len(),
        ({
            let c = choose_variant(vs, pref, prefers_higher);
            let has_below = exists|k: int| 0 <= k < vs.len() && #[trigger] at_or_below(vs[k], pref);
            let has_above = exists|k: int| 0 <= k < vs.len() && #[trigger] at_or_above(vs[k], pref);
            &&& (pref == 0 && vs.len() > 0) ==> forall|k: int| 0 <= k < vs.len() ==> #[trigger] vs[k].1 <= vs[c].1
            &&& (pref != 0 && !prefers_higher && has_below) ==> at_or_below(vs[c], pref)
                && forall|k: int| 0 <= k < vs.len() && #[trigger] at_or_below(vs[k], pref) ==> vs[k].2->0 <= vs[c].2->0
            &&& (pref != 0 && !prefers_higher && !has_below && has_above) ==> at_or_above(vs[c], pref)
                && forall|k: int| 0 <= k < vs.len() && #[trigger] at_or_above(vs[k], pref) ==> vs[c].2->0 <= vs[k].2->0
            &&& (pref != 0 && prefers_higher && has_above) ==> at_or_above(vs[c], pref)
                && forall|k: int| 0 <= k < vs.len() && #[trigger] at_or_above(vs[k], pref) ==> vs[c].2->0 <= vs[k].2->0
            &&& (pref != 0 && prefers_higher && !has_above && has_below) ==> at_or_below(vs[c], pref)
                && forall|k: int| 0 <= k < vs.len() && #[trigger] at_or_below(vs[k], pref) ==> vs[k].2->0 <= vs[c].2->0
            &&& (pref != 0 && !has_below && !has_above && vs.len() > 0) ==> forall|k: int| 0 <= k < vs.len()
                ==> #[trigger] vs[k].1 <= vs[c].1
        }),
{
    let n = vs.len() as int;
    lemma_below_index(vs, n, pref);
    lemma_above_index(vs, n, pref);
    lemma_max_bw_index(vs, n);
    let b = below_index(vs, n, pref);
    let a = above_index(vs, n, pref);
    if b >= 0 {
        assert(at_or_below(vs[b], pref));
    }
    if a >= 0 {
        assert(at_or_above(vs[a], pref));
    }
}

} // verus!
