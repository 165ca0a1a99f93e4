//! The picture shown while a streamer is offline: the text drawn on it and
//! the font used.
use vstd::prelude::*;
use crate::text::{concat, from_chars, str_eq, to_chars, vec_contains_str};

verus! {

/// The fonts with CJK glyphs that are tried, in order.
pub open spec fn font_candidates() -> Seq<Seq<char>> {
    seq![
        "C:/Windows/Fonts/msyh.ttc"@,
        "C:/Windows/Fonts/msyhbd.ttc"@,
        "C:/Windows/Fonts/simsun.ttc"@,
        "C:/Windows/Fonts/simhei.ttf"@,
        "C:/Windows/Fonts/STZHONGS.TTF"@,
        "/usr/share/fonts/truetype/noto/NotoSansCJK-Regular.ttc"@,
        "/usr/share/fonts/opentype/noto/NotoSansCJK-Regular.ttc"@,
        "/usr/share/fonts/noto-cjk/NotoSansCJK-Regular.ttc"@,
        "/usr/share/fonts/truetype/wqy/wqy-microhei.ttc"@,
        "/usr/share/fonts/truetype/wqy/wqy-zenhei.ttc"@,
        "/usr/share/fonts/wenquanyi/wqy-microhei/wqy-microhei.ttc"@,
        "/System/Library/Fonts/PingFang.ttc"@,
        "/Library/Fonts/Arial Unicode.ttf"@,
    ]
}

/// The font paths that are tried, in order (their existence is checked by the caller).
pub fn cjk_font_candidates() -> (r: Vec<&'static str>)
    ensures
        r@.map_values(|s: &str| s@) == font_candidates(),
{
    let v: Vec<&'static str> = vec![
        "C:/Windows/Fonts/msyh.ttc",
        "C:/Windows/Fonts/msyhbd.ttc",
        "C:/Windows/Fonts/simsun.ttc",
        "C:/Windows/Fonts/simhei.ttf",
        "C:/Windows/Fonts/STZHONGS.TTF",
        "/usr/share/fonts/truetype/noto/NotoSansCJK-Regular.ttc",
        "/usr/share/fonts/opentype/noto/NotoSansCJK-Regular.ttc",
        "/usr/share/fonts/noto-cjk/NotoSansCJK-Regular.ttc",
        "/usr/share/fonts/truetype/wqy/wqy-microhei.ttc",
        "/usr/share/fonts/truetype/wqy/wqy-zenhei.ttc",
        "/usr/share/fonts/wenquanyi/wqy-microhei/wqy-microhei.ttc",
        "/System/Library/Fonts/PingFang.ttc",
        "/Library/Fonts/Arial Unicode.ttf",
    ];
    assert(v@.map_values(|s: &str| s@) =~= font_candidates());
    v
}

/// The first candidate font that is among `existing`.
pub open spec fn first_font(existing: Seq<Seq<char>>) -> Option<Seq<char>> {
    let c = font_candidates();
    if exists|i: int| 0 <= i < c.len() && existing.contains(#[trigger] c[i]) {
        let i = choose|i: int| 0 <= i < c.len() && existing.contains(c[i]) && forall|j: int| 0 <= j < i ==> !existing.contains(#[trigger] c[j]);
        Some(c[i])
    } else {
        None
    }
}

/// The first candidate font that exists; `existing` lists the candidate
/// paths that exist on disk.
pub fn find_cjk_font(existing: &Vec<String>) -> (r: Option<String>)
    ensures
        r matches Some(f) ==> first_font(crate::text::strs_view(existing@)) == Some(f@),
        r is None ==> first_font(crate::text::strs_view(existing@)) is None,
{
    let cands = cjk_font_candidates();
    let ghost c = font_candidates();
    let ghost ex = crate::text::strs_view(existing@);
    let mut i: usize = 0;
    while i < cands.len()
        invariant
            i <= cands.len(),
            cands@.map_values(|s: &str| s@) == c,
            c == font_candidates(),
            ex == crate::text::strs_view(existing@),
            forall|j: int| 0 <= j < i ==> !ex.contains(#[trigger] c[j]),
        decreases cands.len() - i,
    {
        assert(cands@[i as int]@ == c[i as int]);
        if vec_contains_str(existing, cands[i]) {
            proof {
                let k = choose|k: int| 0 <= k < c.len() && ex.contains(c[k]) && forall|j: int| 0 <= j < k ==> !ex.contains(#[trigger] c[j]);
                assert(0 <= i < c.len() && ex.contains(c[i as int]) && forall|j: int| 0 <= j < i ==> !ex.contains(#[trigger] c[j]));
                if k != i {
                    if k < i {
                        assert(!ex.contains(c[k]));
                    } else {
                        assert(!ex.contains(c[i as int]));
                    }
                }
            }
            return Some(cands[i].to_owned());
        }
        i += 1;
    }
    None
}

/// The English form of a Chinese status text; other texts are kept.
pub open spec fn ascii_status_spec(s: Seq<char>) -> Seq<char> {
    if s == "公开秀"@ {
        "Public Show"@
    } else if s == "私密秀"@ {
        "Private Show"@
    } else if s == "票务秀"@ {
        "Ticket Show"@
    } else if s == "计时秀"@ {
        "Per-Minute Show"@
    } else if s == "群组秀"@ {
        "Group Show"@
    } else if s == "虚拟私密"@ {
        "Virtual Private"@
    } else if s == "P2P"@ {
        "P2P"@
    } else if s == "等待"@ {
        "Waiting"@
    } else if s == "离线"@ {
        "Offline"@
    } else if s == "获取状态失败"@ {
        "Status Unavailable"@
    } else {
        s
    }
}

/// The English form of a status text, for when no CJK font is available.
pub fn to_ascii_status(s: &str) -> (r: String)
    ensures
        r@ == ascii_status_spec(s@),
{
    if str_eq(s, "公开秀") {
        String::from_str("Public Show")
    } else if str_eq(s, "私密秀") {
        String::from_str("Private Show")
    } else if str_eq(s, "票务秀") {
        String::from_str("Ticket Show")
    } else if str_eq(s, "计时秀") {
        String::from_str("Per-Minute Show")
    } else if str_eq(s, "群组秀") {
        String::from_str("Group Show")
    } else if str_eq(s, "虚拟私密") {
        String::from_str("Virtual Private")
    } else if str_eq(s, "P2P") {
        String::from_str("P2P")
    } else if str_eq(s, "等待") {
        String::from_str("Waiting")
    } else if str_eq(s, "离线") {
        String::from_str("Offline")
    } else if str_eq(s, "获取状态失败") {
        String::from_str("Status Unavailable")
    } else {
        s.to_owned()
    }
}

/// How one character is written in an ffmpeg drawtext value: `\`, `'`, `:`,
/// `[` and `]` get a backslash in front.
pub open spec fn escape_char(c: char) -> Seq<char> {
    if c == '\\' || c == '\'' || c == ':' || c == '[' || c == ']' {
        seq!['\\', c]
    } else {
        seq![c]
    }
}

/// A text escaped for an ffmpeg drawtext value.
pub open spec fn escape_spec(s: Seq<char>) -> Seq<char>
    decreases s.len(),
{
    if s.len() == 0 {
        seq![]
    } else {
        escape_spec(s.drop_last()) + escape_char(s.last())
    }
}

/// A text escaped for an ffmpeg drawtext value.
pub fn escape_drawtext(s: &str) -> (r: String)
    ensures
        r@ == escape_spec(s@),
{
    let v = to_chars(s);
    let mut out: Vec<char> = Vec::new();
    let mut i: usize = 0;
    while i < v.len()
        invariant
            i <= v.len(),
            out@ == escape_spec(v@.take(i as int)),
        decreases v.len() - i,
    {
        assert(v@.take(i + 1).drop_last() =~= v@.take(i as int));
        let c = v[i];
        let ghost before = out@;
        if c == '\\' || c == '\'' || c == ':' || c == '[' || c == ']' {
            out.push('\\');
        }
        out.push(c);
        assert(out@ =~= before + escape_char(c));
        i += 1;
    }
    assert(v@.take(i as int) =~= v@);
    from_chars(&out)
}

/// A font path written in a drawtext value: backslashes become `/`, and
/// `:` gets a backslash in front.
pub open spec fn font_path_spec(s: Seq<char>) -> Seq<char>
    decreases s.len(),
{
    if s.len() == 0 {
        seq![]
    } else {
        font_path_spec(s.drop_last()) + if s.last() == '\\' {
            seq!['/']
        } else if s.last() == ':' {
            seq!['\\', ':']
        } else {
            seq![s.last()]
        }
    }
}

/// A font path written in a drawtext value (executable).
fn escape_font_path(s: &str) -> (r: Vec<char>)
    ensures
        r@ == font_path_spec(s@),
{
    let v = to_chars(s);
    let mut out: Vec<char> = Vec::new();
    let mut i: usize = 0;
    while i < v.len()
        invariant
            i <= v.len(),
            out@ == font_path_spec(v@.take(i as int)),
        decreases v.len() - i,
    {
        assert(v@.take(i + 1).drop_last() =~= v@.take(i as int));
        let c = v[i];
        let ghost before = out@;
        if c == '\\' {
            out.push('/');
        } else if c == ':' {
            out.push('\\');
            out.push(':');
        } else {
            out.push(c);
        }
        assert(out@ =~= before + (if c == '\\' { seq!['/'] } else if c == ':' { seq!['\\', ':'] } else { seq![c] }));
        i += 1;
    }
    assert(v@.take(i as int) =~= v@);
    out
}

/// The ffmpeg filter that draws the streamer's name and status on the
/// offline picture: with a CJK font when one exists (`existing_fonts` lists
/// the candidates present), otherwise without a font file and with the
/// status in English.
pub open spec fn drawtext_spec(username: Seq<char>, status: Seq<char>, font: Option<Seq<char>>) -> Seq<char> {
    match font {
        Some(f) => {
            let fe = font_path_spec(f);
            "drawtext=fontfile='"@ + fe + "':text='"@ + escape_spec(username)
                + "':fontcolor=white:fontsize=36:x=(w-text_w)/2:y=(h-text_h)/2-40,drawtext=fontfile='"@ + fe
                + "':text='"@ + escape_spec(status) + "':fontcolor=gray:fontsize=24:x=(w-text_w)/2:y=(h-text_h)/2+20"@
        },
        None => "drawtext=text='"@ + escape_spec(username)
            + "':fontcolor=white:fontsize=36:x=(w-text_w)/2:y=(h-text_h)/2-40,drawtext=text='"@
            + escape_spec(ascii_status_spec(status))
            + "':fontcolor=gray:fontsize=24:x=(w-text_w)/2:y=(h-text_h)/2+20"@,
    }
}

/// The ffmpeg filter that draws the name and status on the offline picture.
pub fn build_drawtext(username: &str, status_text: &str, existing_fonts: &Vec<String>) -> (r: String)
    ensures
        r@ == drawtext_spec(username@, status_text@, first_font(crate::text::strs_view(existing_fonts@))),
{
    let user = to_chars(escape_drawtext(username).as_str());
    match find_cjk_font(existing_fonts) {
        Some(font) => {
            let fe = escape_font_path(font.as_str());
            let status = to_chars(escape_drawtext(status_text).as_str());
            let mut v = to_chars("drawtext=fontfile='");
            v = concat(&v, &fe);
            v = concat(&v, &to_chars("':text='"));
            v = concat(&v, &user);
            v = concat(&v, &to_chars("':fontcolor=white:fontsize=36:x=(w-text_w)/2:y=(h-text_h)/2-40,drawtext=fontfile='"));
            v = concat(&v, &fe);
            v = concat(&v, &to_chars("':text='"));
            v = concat(&v, &status);
            v = concat(&v, &to_chars("':fontcolor=gray:fontsize=24:x=(w-text_w)/2:y=(h-text_h)/2+20"));
            from_chars(&v)
        },
        None => {
            let status = to_chars(escape_drawtext(to_ascii_status(status_text).as_str()).as_str());
            let mut v = to_chars("drawtext=text='");
            v = concat(&v, &user);
            v = concat(&v, &to_chars("':fontcolor=white:fontsize=36:x=(w-text_w)/2:y=(h-text_h)/2-40,drawtext=text='"));
            v = concat(&v, &status);
            v = concat(&v, &to_chars("':fontcolor=gray:fontsize=24:x=(w-text_w)/2:y=(h-text_h)/2+20"));
            from_chars(&v)
        },
    }
}

} // verus!
