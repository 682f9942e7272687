use vstd::prelude::*;
use crate::edit::{clips_at_frame, drawn_at, duration_of, indexed_view, start_of};
use crate::json::{Json, JsonV};
use crate::json_props::group_json_lemmas;
use crate::outside::{base64_standard, encode_base64};
use crate::state::EditorState;
use crate::text::join;

verus! {

/// The clip a preview shows natively: the only visual clip at a frame.
pub struct PreviewClip {
    pub media_ref: String,
    pub clip_start_frame: i64,
    pub clip_duration_frames: i64,
    /// The clip's `mediaType`, `video` when it has none.
    pub media_type: String,
    pub clip: Json,
}

/// The media type of a clip as the preview reads it: its `mediaType`,
/// else `video`.
pub open spec fn preview_type(clip: JsonV) -> Seq<char> {
    match clip.str_field("mediaType"@) {
        Some(t) => t,
        None => "video"@,
    }
}

/// The media reference of a clip, empty when it has none.
pub open spec fn media_ref_of(clip: JsonV) -> Seq<char> {
    match clip.str_field("mediaRef"@) {
        Some(m) => m,
        None => Seq::empty(),
    }
}

/// The preview's view of the clip `clip`.
pub open spec fn preview_clip_matches(p: PreviewClip, clip: JsonV) -> bool {
    &&& p.clip.deep() == clip
    &&& p.media_ref@ == media_ref_of(clip)
    &&& p.clip_start_frame == start_of(clip)
    &&& p.clip_duration_frames == duration_of(clip)
    &&& p.media_type@ == preview_type(clip)
}

/// The clip the preview can follow at `frame`: the only visual clip shown
/// there, or none when no clip or several are shown; an error without an
/// open project.
pub fn preview_clip_at_frame(state: &EditorState, frame: i64) -> (r: Result<Option<PreviewClip>, String>)
    ensures
        match r {
            Err(e) => state@.project_path is None && e@ == "no project open"@,
            Ok(None) => state@.project_path is Some && drawn_at(state@.timeline, frame).len() != 1,
            Ok(Some(p)) => state@.project_path is Some && drawn_at(state@.timeline, frame).len() == 1
                && preview_clip_matches(p, drawn_at(state@.timeline, frame)[0].1),
        },
{
    broadcast use group_json_lemmas;

    if state.project_path.is_none() {
        return Err("no project open".to_owned());
    }
    let mut active = clips_at_frame(&state.timeline, frame);
    if active.len() != 1 {
        return Ok(None);
    }
    let ghost all = indexed_view(active@);
    let (_ti, clip) = active.remove(0);
    assert(clip.deep() == all[0].1);
    assert(all == drawn_at(state@.timeline, frame));
    proof {
        reveal_strlit("");
    }
    let media_ref: String = match clip.get("mediaRef") {
        Some(v) => match v.as_str() {
            Some(s) => s.clone(),
            None => "".to_owned(),
        },
        None => "".to_owned(),
    };
    let start: i64 = match clip.get("startFrame") {
        Some(v) => match v.as_i64() {
            Some(x) => x,
            None => 0,
        },
        None => 0,
    };
    let duration: i64 = match clip.get("durationFrames") {
        Some(v) => match v.as_i64() {
            Some(x) => x,
            None => 0,
        },
        None => 0,
    };
    let media_type: String = match clip.get("mediaType") {
        Some(v) => match v.as_str() {
            Some(s) => s.clone(),
            None => "video".to_owned(),
        },
        None => "video".to_owned(),
    };
    let p = PreviewClip {
        media_ref,
        clip_start_frame: start,
        clip_duration_frames: duration,
        media_type,
        clip,
    };
    assert(p.clip.deep() == all[0].1);
    assert(p.media_ref@ == media_ref_of(all[0].1));
    assert(p.clip_start_frame == start_of(all[0].1));
    assert(p.media_type@ == preview_type(all[0].1));
    assert(preview_clip_matches(p, all[0].1));
    Ok(Some(p))
}

/// Whether a preview shows a still image, and whether it can play the
/// media itself: a still image is a clip of type `image` or one whose file
/// has an image extension; native playback needs a video clip that is not
/// an image and whose file exists.
pub open spec fn preview_flags_spec(
    media_type: Seq<char>,
    path_is_image: bool,
    path_exists: bool,
) -> (bool, bool) {
    let is_image = media_type == "image"@ || path_is_image;
    (is_image, media_type == "video"@ && !is_image && path_exists)
}

/// Whether a preview shows a still image, and whether it can play the
/// media itself.
pub fn preview_flags(media_type: &str, path_is_image: bool, path_exists: bool) -> (r: (bool, bool))
    ensures
        r == preview_flags_spec(media_type@, path_is_image, path_exists),
{
    let t = media_type.to_owned();
    let is_image = t == "image".to_owned() || path_is_image;
    (is_image, t == "video".to_owned() && !is_image && path_exists)
}

/// What a frame of the preview is rendered from.
pub enum FrameSource {
    /// No clip is shown: a black frame.
    Black,
    /// The uppermost visual clip shown, from the media `media_ref`.
    Clip { media_ref: String, clip: Json },
}

/// What a frame of the preview is rendered from: black when no visual clip
/// is shown, else the last one shown (the uppermost track), which must
/// name its media.
pub fn frame_source(state: &EditorState, frame: i64) -> (r: Result<FrameSource, String>)
    ensures
        match r {
            Err(e) => (state@.project_path is None && e@ == "no project open"@) || (
            state@.project_path is Some && drawn_at(state@.timeline, frame).len() > 0
                && drawn_at(state@.timeline, frame).last().1.str_field("mediaRef"@) is None && e@
                == "no mediaRef"@),
            Ok(FrameSource::Black) => state@.project_path is Some && drawn_at(
                state@.timeline,
                frame,
            ).len() == 0,
            Ok(FrameSource::Clip { media_ref, clip }) => state@.project_path is Some && drawn_at(
                state@.timeline,
                frame,
            ).len() > 0 && clip.deep() == drawn_at(state@.timeline, frame).last().1 && Some(
                media_ref@,
            ) == clip.deep().str_field("mediaRef"@),
        },
{
    broadcast use group_json_lemmas;

    if state.project_path.is_none() {
        return Err("no project open".to_owned());
    }
    let mut active = clips_at_frame(&state.timeline, frame);
    if active.len() == 0 {
        return Ok(FrameSource::Black);
    }
    let ghost all = indexed_view(active@);
    let (_ti, clip) = active.pop().unwrap();
    assert(clip.deep() == all.last().1);
    let media_ref = match clip.get("mediaRef") {
        Some(v) => match v.as_str() {
            Some(s) => s.clone(),
            None => {
                return Err("no mediaRef".to_owned());
            },
        },
        None => {
            return Err("no mediaRef".to_owned());
        },
    };
    Ok(FrameSource::Clip { media_ref, clip })
}

/// The error reported when a clip's media file cannot be found.
pub fn media_not_found(media_ref: &str) -> (r: String)
    ensures
        r@ == "media not found: "@ + media_ref@,
{
    join("media not found: ", media_ref)
}

/// A rendered preview frame as the editor's window receives it: the JPEG
/// bytes in standard base64.
pub fn encode_frame(jpeg: &Vec<u8>) -> (r: String)
    requires
        4 * ((jpeg@.len() + 2) / 3) <= usize::MAX,
    ensures
        r@ == base64_standard(jpeg@),
        r@.len() == 4 * ((jpeg@.len() + 2) / 3),
{
    encode_base64(jpeg)
}

} // verus!
