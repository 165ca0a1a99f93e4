//! Built-in pipeline nodes and the media-bundle path format.
//!
//! A media bundle carries a video path and an image path as one string
//! joined by a newline. The built-in `unpack` node splits it into a video
//! output (port 0) and an image output (port 1).
use vstd::prelude::*;
use crate::meta::PpExecCode;
use crate::pipeline::NodeResult;
use crate::text::{
    concat, decimal, decimal_string, first_index, from_chars, join_char, join_seq, lemma_first_index,
    lemma_join_split, find_char, slice, split_char, split_seq, strs_view, to_chars, trim, trim_seq,
    views,
};
use crate::path::{file_stem, file_stem_seq, join, join_seq_path, parent, parent_seq};

verus! {

/// Module id prefix of the built-in nodes.
pub const BUILTIN_PREFIX: &'static str = "__builtin__";

/// Module id of the recording input node.
pub const ID_RECORDING_INPUT: &'static str = "__builtin__recording_input";

/// Module id of the unpack node.
pub const ID_UNPACK: &'static str = "__builtin__unpack";

/// Separator between the video and the image path of a bundle.
pub const BUNDLE_SEP: char = '\n';

/// The bundle of a video path and an image path.
pub open spec fn pack_spec(video: Seq<char>, image: Seq<char>) -> Seq<char> {
    video.push('\n') + image
}

/// The video path and optional image path of a bundle: the text before the
/// first newline, and the trimmed text after it when not empty; without a
/// newline the whole string is the video path.
pub open spec fn unpack_spec(b: Seq<char>) -> (Seq<char>, Option<Seq<char>>) {
    let i = first_index(b, '\n');
    if i < 0 {
        (b, None)
    } else {
        let img = trim_seq(b.subrange(i + 1, b.len() as int));
        (b.subrange(0, i), if img.len() == 0 {
            None
        } else {
            Some(img)
        })
    }
}

/// Packs a video path and an image path into a bundle.
pub fn pack_bundle(video: &str, image: &str) -> (r: String)
    ensures
        r@ == pack_spec(video@, image@),
{
    let mut v = to_chars(video);
    v.push('\n');
    from_chars(&concat(&v, &to_chars(image)))
}

/// Splits a bundle into its video path and optional image path.
pub fn unpack_bundle(bundle: &str) -> (r: (String, Option<String>))
    ensures
        r.0@ == unpack_spec(bundle@).0,
        r.1 matches Some(i) ==> unpack_spec(bundle@).1 == Some(i@),
        r.1 is None ==> unpack_spec(bundle@).1 is None,
{
    let b = to_chars(bundle);
    proof {
        lemma_first_index(b@, '\n');
    }
    match find_char(&b, '\n') {
        Some(i) => {
            let video = from_chars(&slice(&b, 0, i));
            let img = trim(&slice(&b, i + 1, b.len()));
            if img.len() == 0 {
                (video, None)
            } else {
                (video, Some(from_chars(&img)))
            }
        },
        None => (bundle.to_owned(), None),
    }
}

/// Unpacking a packed bundle gives back its parts, when the video path holds
/// no newline and the image path is neither empty nor padded with whitespace.
pub proof fn lemma_unpack_pack(video: Seq<char>, image: Seq<char>)
    requires
        !video.contains('\n'),
        image.len() > 0,
        trim_seq(image) == image,
    ensures
        unpack_spec(pack_spec(video, image)) == (video, Some(image)),
{
    let b = pack_spec(video, image);
    lemma_first_index(b, '\n');
    let i = first_index(b, '\n');
    assert(b[video.len() as int] == '\n');
    if i < video.len() {
        assert(b[i] == video[i]);
    }
    assert(i == video.len());
    assert(b.subrange(0, i) =~= video);
    assert(b.subrange(i + 1, b.len() as int) =~= image);
}

/// A node result of the unpack node.
fn unpack_result(
    effective_id: &str,
    inputs: &Vec<String>,
    code: PpExecCode,
    message: String,
    outputs: Vec<String>,
) -> (r: NodeResult)
    ensures
        r.effective_id@ == effective_id@,
        r.module_id@ == ID_UNPACK@,
        r.code == code,
        r.message == message,
        r.outputs == outputs,
        r.inputs@ == inputs@,
{
    let mut ins: Vec<String> = Vec::new();
    let mut i: usize = 0;
    while i < inputs.len()
        invariant
            i <= inputs.len(),
            ins@ == inputs@.take(i as int),
        decreases inputs.len() - i,
    {
        ins.push(inputs[i].clone());
        assert(inputs@.take(i + 1) =~= inputs@.take(i as int).push(inputs@[i as int]));
        i += 1;
    }
    assert(inputs@.take(i as int) =~= inputs@);
    NodeResult {
        effective_id: effective_id.to_owned(),
        module_id: ID_UNPACK.to_owned(),
        code,
        message,
        outputs,
        inputs: ins,
    }
}

/// Runs the built-in unpack node on its inputs.
///
/// The first input is the bundle. `video_exists` and `image_exists` tell
/// whether the unpacked video path and image path exist on disk. Port 0 is
/// the video path, which must exist; port 1 is the image path, emitted only
/// when the bundle has one and it exists.
pub fn run_unpack(
    effective_id: &str,
    inputs: &Vec<String>,
    video_exists: bool,
    image_exists: bool,
) -> (r: NodeResult)
    ensures
        r.effective_id@ == effective_id@,
        r.module_id@ == ID_UNPACK@,
        r.inputs@ == inputs@,
        inputs@.len() == 0 ==> r.code is Error && r.outputs@.len() == 0 && r.message@
            == "unpack: no input provided"@,
        inputs@.len() > 0 && !video_exists ==> r.code is Error && r.outputs@.len() == 0
            && r.message@ == "unpack: video path not found: "@ + unpack_spec(inputs@[0]@).0,
        inputs@.len() > 0 && video_exists ==> {
            let (v, img) = unpack_spec(inputs@[0]@);
            &&& r.code is Okay
            &&& strs_view(r.outputs@) == (if img is Some && image_exists {
                seq![v, img->0]
            } else {
                seq![v]
            })
            &&& r.message@ == "unpacked "@ + decimal(r.outputs@.len() as nat) + " output(s)"@
        },
{
    if inputs.len() == 0 {
        return unpack_result(
            effective_id,
            inputs,
            PpExecCode::Error,
            String::from_str("unpack: no input provided"),
            Vec::new(),
        );
    }
    let (video, image) = unpack_bundle(inputs[0].as_str());
    if !video_exists {
        let msg = from_chars(&concat(&to_chars("unpack: video path not found: "), &to_chars(video.as_str())));
        return unpack_result(effective_id, inputs, PpExecCode::Error, msg, Vec::new());
    }
    let mut outputs: Vec<String> = Vec::new();
    outputs.push(video);
    match image {
        Some(img) => {
            if image_exists {
                outputs.push(img);
            }
        },
        None => {},
    }
    let n = decimal_string(outputs.len() as u64);
    let msg = from_chars(
        &concat(&concat(&to_chars("unpacked "), &to_chars(n.as_str())), &to_chars(" output(s)")),
    );
    assert(strs_view(outputs@) =~= (if unpack_spec(inputs@[0]@).1 is Some && image_exists {
        seq![unpack_spec(inputs@[0]@).0, unpack_spec(inputs@[0]@).1->0]
    } else {
        seq![unpack_spec(inputs@[0]@).0]
    }));
    unpack_result(effective_id, inputs, PpExecCode::Okay, msg, outputs)
}

/// The port-grouped form of a flat list of port paths: each path split at
/// the bundle separator.
pub open spec fn grouped_spec(paths: Seq<String>) -> Seq<Seq<Seq<char>>> {
    paths.map_values(|p: String| split_seq(p@, '\n'))
}

/// Groups a flat, port-ordered path list by port, splitting bundles into their parts.
pub fn group_paths_by_bundle(paths: &Vec<String>) -> (r: Vec<Vec<String>>)
    ensures
        r@.len() == paths@.len(),
        forall|i: int| 0 <= i < r@.len() ==> strs_view(#[trigger] r@[i]@) == split_seq(paths@[i]@, '\n'),
{
    let mut r: Vec<Vec<String>> = Vec::new();
    let mut i: usize = 0;
    while i < paths.len()
        invariant
            i <= paths.len(),
            r@.len() == i,
            forall|k: int| 0 <= k < i ==> strs_view(#[trigger] r@[k]@) == split_seq(paths@[k]@, '\n'),
        decreases paths.len() - i,
    {
        let pieces = split_char(&to_chars(paths[i].as_str()), '\n');
        let mut port: Vec<String> = Vec::new();
        let mut j: usize = 0;
        while j < pieces.len()
            invariant
                j <= pieces.len(),
                strs_view(port@) == views(pieces@).take(j as int),
            decreases pieces.len() - j,
        {
            let ghost before = port@;
            let piece = from_chars(&pieces[j]);
            port.push(piece);
            assert(strs_view(port@) =~= strs_view(before).push(pieces@[j as int]@));
            assert(views(pieces@).take(j + 1) =~= views(pieces@).take(j as int).push(
                pieces@[j as int]@,
            ));
            j += 1;
        }
        assert(views(pieces@).take(j as int) =~= views(pieces@));
        r.push(port);
        i += 1;
    }
    r
}

/// Joins each port's paths back into one path with the bundle separator.
pub fn ungroup_paths_from_bundle(grouped: &Vec<Vec<String>>) -> (r: Vec<String>)
    ensures
        r@.len() == grouped@.len(),
        forall|i: int| 0 <= i < r@.len() ==> (#[trigger] r@[i])@ == join_seq(strs_view(grouped@[i]@), '\n'),
{
    let mut r: Vec<String> = Vec::new();
    let mut i: usize = 0;
    while i < grouped.len()
        invariant
            i <= grouped.len(),
            r@.len() == i,
            forall|k: int| 0 <= k < i ==> (#[trigger] r@[k])@ == join_seq(strs_view(grouped@[k]@), '\n'),
        decreases grouped.len() - i,
    {
        let port = &grouped[i];
        let mut parts: Vec<Vec<char>> = Vec::new();
        let mut j: usize = 0;
        while j < port.len()
            invariant
                j <= port.len(),
                views(parts@) == strs_view(port@).take(j as int),
            decreases port.len() - j,
        {
            let ghost before = parts@;
            parts.push(to_chars(port[j].as_str()));
            assert(views(parts@) =~= views(before).push(port@[j as int]@));
            assert(strs_view(port@).take(j + 1) =~= strs_view(port@).take(j as int).push(
                port@[j as int]@,
            ));
            j += 1;
        }
        assert(strs_view(port@).take(j as int) =~= strs_view(port@));
        r.push(from_chars(&join_char(&parts, '\n')));
        i += 1;
    }
    r
}

/// Grouping then ungrouping gives back the flat path list.
pub proof fn lemma_ungroup_group(paths: Seq<String>, grouped: Seq<Seq<Seq<char>>>, flat: Seq<Seq<char>>)
    requires
        grouped.len() == paths.len(),
        forall|i: int| 0 <= i < grouped.len() ==> #[trigger] grouped[i] == split_seq(paths[i]@, '\n'),
        flat.len() == grouped.len(),
        forall|i: int| 0 <= i < flat.len() ==> #[trigger] flat[i] == join_seq(grouped[i], '\n'),
    ensures
        flat == strs_view(paths),
{
    assert forall|i: int| 0 <= i < flat.len() implies flat[i] == strs_view(paths)[i] by {
        lemma_join_split(paths[i]@, '\n');
        assert(grouped[i] == split_seq(paths[i]@, '\n'));
    }
    assert(flat =~= strs_view(paths));
}

/// The directory that holds the segments of a recording not yet merged:
/// beside the video, named by its stem.
pub open spec fn session_dir_spec(video_path: Seq<char>) -> Option<Seq<char>> {
    match (parent_seq(video_path), file_stem_seq(video_path)) {
        (Some(p), Some(stem)) => Some(join_seq_path(p, stem)),
        _ => None,
    }
}

/// The directory that would hold the unmerged segments of a recording.
pub fn session_dir_for(video_path: &str) -> (r: Option<String>)
    ensures
        r matches Some(d) ==> session_dir_spec(video_path@) == Some(d@),
        r is None ==> session_dir_spec(video_path@) is None,
{
    let v = to_chars(video_path);
    match (parent(&v), file_stem(&v)) {
        (Some(p), Some(stem)) => Some(from_chars(&join(&p, &stem))),
        _ => None,
    }
}

/// The first input of the pipeline for a recording: its segment directory
/// when that directory exists (`session_dir_is_dir`), so that merging runs
/// first; otherwise the video itself.
pub fn infer_initial_path(video_path: &str, session_dir_is_dir: bool) -> (r: String)
    ensures
        session_dir_spec(video_path@) is Some && session_dir_is_dir ==> r@ == session_dir_spec(
            video_path@,
        )->0,
        !(session_dir_spec(video_path@) is Some && session_dir_is_dir) ==> r@ == video_path@,
{
    match session_dir_for(video_path) {
        Some(d) => {
            if session_dir_is_dir {
                d
            } else {
                video_path.to_owned()
            }
        },
        None => video_path.to_owned(),
    }
}

} // verus!
