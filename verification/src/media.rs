//! What the program reads from and writes for ffmpeg: the playlist kept
//! beside the segments of a recording, and the resolution ffprobe reports.
use vstd::prelude::*;
use crate::path::{file_name, file_name_seq, join, join_seq_path};
use crate::text::{concat, from_chars, has_prefix, has_suffix, parse_u32, parse_unsigned, split_char, split_seq,
    to_chars, trim, trim_seq, views};

verus! {

/// The header of a new segment playlist.
pub open spec fn m3u8_header() -> Seq<char> {
    "#EXTM3U\n#EXT-X-VERSION:3\n#EXT-X-MEDIA-SEQUENCE:0\n"@
}

/// The playlist file of a segment directory.
pub fn m3u8_path(session_dir: &str) -> (r: String)
    ensures
        r@ == join_seq_path(session_dir@, "playlist.m3u8"@),
{
    proof {
        reveal_strlit("playlist.m3u8");
    }
    from_chars(&join(&to_chars(session_dir), &to_chars("playlist.m3u8")))
}

/// The text appended to a segment playlist for the segment `ts_path`: the
/// header first when the playlist is new, then an entry naming the
/// segment's file; nothing when the path has no file name.
pub fn m3u8_append_text(needs_header: bool, ts_path: &str) -> (r: Option<String>)
    ensures
        file_name_seq(ts_path@) is None ==> r is None,
        file_name_seq(ts_path@) matches Some(n) ==> (r matches Some(t)
            && t@ == (if needs_header { m3u8_header() } else { Seq::<char>::empty() }) + "#EXTINF:0,\n"@ + n + "\n"@),
{
    proof {
        reveal_strlit("#EXTM3U\n#EXT-X-VERSION:3\n#EXT-X-MEDIA-SEQUENCE:0\n");
        reveal_strlit("#EXTINF:0,\n");
        reveal_strlit("\n");
    }
    match file_name(&to_chars(ts_path)) {
        None => None,
        Some(n) => {
            let head = if needs_header {
                to_chars("#EXTM3U\n#EXT-X-VERSION:3\n#EXT-X-MEDIA-SEQUENCE:0\n")
            } else {
                Vec::new()
            };
            let t = concat(&concat(&concat(&head, &to_chars("#EXTINF:0,\n")), &n), &to_chars("\n"));
            Some(from_chars(&t))
        },
    }
}

/// A positive `u32` in decimal notation.
pub open spec fn positive_u32(s: Seq<char>) -> bool {
    parse_unsigned(s, u32::MAX as nat) matches Some(v) && v > 0
}

/// The resolution ffprobe printed (`{width}x{height}`), when both numbers
/// are positive `u32`s.
pub open spec fn resolution_spec(output: Seq<char>) -> Option<Seq<char>> {
    let t = trim_seq(output);
    if t.len() == 0 || has_prefix(t, "x"@) || has_suffix(t, "x"@) {
        None
    } else {
        let parts = split_seq(t, 'x');
        if parts.len() == 2 && positive_u32(parts[0]) && positive_u32(parts[1]) {
            Some(t)
        } else {
            None
        }
    }
}

/// The resolution ffprobe printed (executable).
pub fn resolution_from_probe(output: &str) -> (r: Option<String>)
    ensures
        r matches Some(x) ==> resolution_spec(output@) == Some(x@),
        r is None ==> resolution_spec(output@) is None,
{
    proof {
        reveal_strlit("x");
    }
    let t = trim(&to_chars(output));
    let x = to_chars("x");
    if t.len() == 0 || crate::text::starts_with(&t, &x) || crate::text::ends_with(&t, &x) {
        return None;
    }
    let parts = split_char(&t, 'x');
    if parts.len() != 2 {
        return None;
    }
    let ok0 = match parse_u32(&parts[0]) {
        Some(v) => v > 0,
        None => false,
    };
    let ok1 = match parse_u32(&parts[1]) {
        Some(v) => v > 0,
        None => false,
    };
    proof {
        assert(views(parts@)[0] == parts@[0]@);
        assert(views(parts@)[1] == parts@[1]@);
    }
    if ok0 && ok1 {
        Some(from_chars(&t))
    } else {
        None
    }
}

} // verus!
