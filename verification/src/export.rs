use vstd::prelude::*;
use crate::edit::{clips_of, duration_of, start_of, trim_start_of, tracks_of};
use crate::json::{deep_seq, opt_deep, Json, JsonV};
use crate::json_props::group_json_lemmas;
use crate::state::{ends_fit, timeline_frames, EditorState};


verus! {

/// What `get_timeline` reports: the frame rate given as `fps`, the size,
/// the number of frames, the tracks (none when absent), and that this
/// platform cannot generate media.
pub open spec fn timeline_summary_value(
    fps: JsonV,
    width: i64,
    height: i64,
    frames: int,
    tracks: JsonV,
) -> JsonV {
    JsonV::Object(
        seq![
            ("fps"@, fps),
            ("width"@, JsonV::Int(width)),
            ("height"@, JsonV::Int(height)),
            ("totalFrames"@, JsonV::Int(frames as i64)),
            ("tracks"@, tracks),
            ("canGenerate"@, JsonV::Bool(false)),
            ("platform"@, JsonV::Str("windows"@)),
        ],
    )
}

/// The timeline's `tracks` value, or an empty array when absent.
pub open spec fn tracks_value(t: JsonV) -> JsonV {
    match t.field("tracks"@) {
        Some(v) => v,
        None => JsonV::Array(Seq::empty()),
    }
}

/// The timeline summary of the editor state; `fps` is the frame rate as
/// the floating-point number the summary reports.
pub fn timeline_summary_json(state: &EditorState, fps: Json) -> (r: Json)
    requires
        ends_fit(state@.timeline),
    ensures
        r.deep() == timeline_summary_value(
            fps.deep(),
            crate::json::i64_or(state@.timeline.i64_field("width"@), 1920),
            crate::json::i64_or(state@.timeline.i64_field("height"@), 1080),
            timeline_frames(state@.timeline),
            tracks_value(state@.timeline),
        ),
{
    broadcast use group_json_lemmas;

    let ghost f = fps.deep();
    let w = state.width();
    let h = state.height();
    let total = state.total_frames();
    let tracks = match state.timeline.get("tracks") {
        Some(v) => v.copy(),
        None => Json::empty_array(),
    };
    let ghost tv = tracks.deep();
    let mut es: Vec<(String, Json)> = Vec::new();
    es.push(("fps".to_owned(), fps));
    es.push(("width".to_owned(), Json::Int(w)));
    es.push(("height".to_owned(), Json::Int(h)));
    es.push(("totalFrames".to_owned(), Json::Int(total)));
    es.push(("tracks".to_owned(), tracks));
    es.push(("canGenerate".to_owned(), Json::Bool(false)));
    es.push(("platform".to_owned(), Json::text("windows")));
    assert(Json::deep_entries(es@) =~= timeline_summary_value(
        f,
        w,
        h,
        timeline_frames(state@.timeline),
        tv,
    )->Object_0);
    Json::Object(es)
}

/// The encoder an export codec name selects: x265 for `h265` and `hevc`,
/// x264 otherwise.
pub open spec fn encoder_for(codec: Seq<char>) -> Seq<char> {
    if codec == "h265"@ || codec == "hevc"@ {
        "libx265"@
    } else {
        "libx264"@
    }
}

/// The encoder an export codec name selects.
pub fn video_encoder(codec: &str) -> (r: &'static str)
    ensures
        r@ == encoder_for(codec@),
{
    let c = codec.to_owned();
    if c == "h265".to_owned() || c == "hevc".to_owned() {
        "libx265"
    } else {
        "libx264"
    }
}

/// A clip that takes part in an export, before its media is located.
pub struct ExportLayer {
    pub media_ref: String,
    pub start_frame: i64,
    pub duration_frames: i64,
    pub trim_start_frame: i64,
    /// The clip's `speed` field, when present.
    pub speed: Option<Json>,
    /// The clip lies on an image track.
    pub on_image_track: bool,
}

/// The value of an [`ExportLayer`].
pub struct ExportLayerView {
    pub media_ref: Seq<char>,
    pub start_frame: i64,
    pub duration_frames: i64,
    pub trim_start_frame: i64,
    pub speed: Option<JsonV>,
    pub on_image_track: bool,
}

pub open spec fn layer_view(l: ExportLayer) -> ExportLayerView {
    ExportLayerView {
        media_ref: l.media_ref@,
        start_frame: l.start_frame,
        duration_frames: l.duration_frames,
        trim_start_frame: l.trim_start_frame,
        speed: opt_deep(l.speed),
        on_image_track: l.on_image_track,
    }
}

pub open spec fn layers_view(v: Seq<ExportLayer>) -> Seq<ExportLayerView> {
    Seq::new(v.len(), |i: int| layer_view(v[i]))
}

/// The kind of a track: its `type`, else `video`.
pub open spec fn track_kind(track: JsonV) -> Seq<char> {
    match track.str_field("type"@) {
        Some(t) => t,
        None => "video"@,
    }
}

/// A track takes part in an export: not hidden, of kind video or image,
/// and holding a `clips` array.
pub open spec fn track_exported(track: JsonV) -> bool {
    &&& track.bool_field("hidden"@) != Some(true)
    &&& (track_kind(track) == "video"@ || track_kind(track) == "image"@)
    &&& clips_of(track) is Some
}

/// The export layer of a clip on a track of kind `kind`.
pub open spec fn clip_layer(clip: JsonV, kind: Seq<char>) -> ExportLayerView {
    ExportLayerView {
        media_ref: match clip.str_field("mediaRef"@) {
            Some(m) => m,
            None => Seq::empty(),
        },
        start_frame: start_of(clip),
        duration_frames: duration_of(clip),
        trim_start_frame: trim_start_of(clip),
        speed: clip.field("speed"@),
        on_image_track: kind == "image"@,
    }
}

pub open spec fn clip_layers(clips: Seq<JsonV>, kind: Seq<char>) -> Seq<ExportLayerView> {
    Seq::new(clips.len(), |i: int| clip_layer(clips[i], kind))
}

/// The export layers of the tracks, in track order.
pub open spec fn track_layers(tracks: Seq<JsonV>) -> Seq<ExportLayerView>
    decreases tracks.len(),
{
    if tracks.len() == 0 {
        Seq::empty()
    } else {
        let rest = track_layers(tracks.drop_last());
        if track_exported(tracks.last()) {
            rest + clip_layers(clips_of(tracks.last())->0, track_kind(tracks.last()))
        } else {
            rest
        }
    }
}

/// The clips an export draws, in track order, or why there is nothing to
/// export: no open project, or no tracks.
pub fn export_layers(state: &EditorState) -> (r: Result<Vec<ExportLayer>, String>)
    ensures
        match r {
            Ok(v) => state@.project_path is Some && tracks_of(state@.timeline) is Some
                && layers_view(v@) == track_layers(tracks_of(state@.timeline)->0),
            Err(e) => (state@.project_path is None && e@ == "no project open"@) || (
            state@.project_path is Some && tracks_of(state@.timeline) is None && e@ == "no tracks"@),
        },
{
    broadcast use group_json_lemmas;

    if state.project_path.is_none() {
        return Err("no project open".to_owned());
    }
    let tracks = match state.timeline.get("tracks") {
        Some(v) => match v.as_array() {
            Some(a) => a,
            None => {
                return Err("no tracks".to_owned());
            },
        },
        None => {
            return Err("no tracks".to_owned());
        },
    };
    let ghost ts = deep_seq(tracks@);
    let video = "video".to_owned();
    let image = "image".to_owned();
    let mut layers: Vec<ExportLayer> = Vec::new();
    let mut ti: usize = 0;
    assert(layers_view(layers@) =~= track_layers(ts.take(0)));
    while ti < tracks.len()
        invariant
            ts == deep_seq(tracks@),
            ts.len() == tracks@.len(),
            video@ == "video"@,
            image@ == "image"@,
            ti <= tracks.len(),
            layers_view(layers@) == track_layers(ts.take(ti as int)),
        decreases tracks.len() - ti,
    {
        broadcast use group_json_lemmas;

        let track = &tracks[ti];
        assert(track.deep() == ts[ti as int]);
        assert(ts.take(ti + 1).drop_last() =~= ts.take(ti as int));
        assert(ts.take(ti + 1).last() == ts[ti as int]);
        let hidden = match track.get("hidden") {
            Some(h) => h.as_bool(),
            None => None,
        };
        let kind: String = match track.get("type") {
            Some(t) => match t.as_str() {
                Some(s) => s.clone(),
                None => "video".to_owned(),
            },
            None => "video".to_owned(),
        };
        let clips_opt = match track.get("clips") {
            Some(c) => c.as_array(),
            None => None,
        };
        let wanted = kind == video || kind == image;
        if hidden == Some(true) || !wanted || clips_opt.is_none() {
            ti = ti + 1;
            continue ;
        }
        let on_image = kind == image;
        let clips = clips_opt.unwrap();
        let ghost cs = deep_seq(clips@);
        let ghost base = layers_view(layers@);
        let mut ci: usize = 0;
        while ci < clips.len()
            invariant
                cs == deep_seq(clips@),
                cs.len() == clips@.len(),
                on_image == (kind@ == "image"@),
                ci <= clips.len(),
                layers_view(layers@) == base + clip_layers(cs, kind@).take(ci as int),
            decreases clips.len() - ci,
        {
            broadcast use group_json_lemmas;

            let clip = &clips[ci];
            assert(clip.deep() == cs[ci as int]);
            let media_ref: String = match clip.get("mediaRef") {
                Some(m) => match m.as_str() {
                    Some(s) => s.clone(),
                    None => "".to_owned(),
                },
                None => "".to_owned(),
            };
            proof {
                reveal_strlit("");
            }
            let start: i64 = match clip.get("startFrame") {
                Some(v) => match v.as_i64() {
                    Some(x) => x,
                    None => 0,
                },
                None => 0,
            };
            let dur: i64 = match clip.get("durationFrames") {
                Some(v) => match v.as_i64() {
                    Some(x) => x,
                    None => 0,
                },
                None => 0,
            };
            let trim: i64 = match clip.get("trimStartFrame") {
                Some(v) => match v.as_i64() {
                    Some(x) => x,
                    None => 0,
                },
                None => 0,
            };
            let speed: Option<Json> = match clip.get("speed") {
                Some(v) => Some(v.copy()),
                None => None,
            };
            let layer = ExportLayer {
                media_ref,
                start_frame: start,
                duration_frames: dur,
                trim_start_frame: trim,
                speed,
                on_image_track: on_image,
            };
            let ghost before = layers@;
            layers.push(layer);
            proof {
                let c = cs[ci as int];
                let lv = clip_layer(c, kind@);
                assert(layer_view(layer).media_ref == lv.media_ref);
                assert(layer_view(layer).start_frame == lv.start_frame);
                assert(layer_view(layer).duration_frames == lv.duration_frames);
                assert(layer_view(layer).trim_start_frame == lv.trim_start_frame);
                assert(layer_view(layer).speed == lv.speed);
                assert(layer_view(layer).on_image_track == lv.on_image_track);
            }
            assert(layer_view(layer) == clip_layer(cs[ci as int], kind@));
            assert(layers_view(layers@) =~= layers_view(before).push(layer_view(layer)));
            assert(clip_layers(cs, kind@).take(ci + 1) =~= clip_layers(cs, kind@).take(
                ci as int,
            ).push(clip_layer(cs[ci as int], kind@)));
            ci = ci + 1;
        }
        assert(clip_layers(cs, kind@).take(clips.len() as int) =~= clip_layers(cs, kind@));
        ti = ti + 1;
    }
    assert(ts.take(tracks.len() as int) =~= ts);
    Ok(layers)
}

} // verus!
