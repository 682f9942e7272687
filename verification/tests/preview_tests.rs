use palmier_pro::json::Json;
use palmier_pro::preview::{encode_frame, frame_source, media_not_found, preview_clip_at_frame, preview_flags, FrameSource};
use palmier_pro::state::EditorState;

fn text(s: &str) -> Json {
    Json::Str(s.to_string())
}

fn obj(entries: Vec<(&str, Json)>) -> Json {
    Json::Object(entries.into_iter().map(|(k, v)| (k.to_string(), v)).collect())
}

fn editor(tracks: Vec<Json>) -> EditorState {
    let mut s = EditorState::default();
    s.project_path = Some("/p".to_string());
    s.timeline.set("tracks", Json::Array(tracks));
    s
}

fn clip(id: &str, media: Option<&str>, start: i64, duration: i64) -> Json {
    let mut c = obj(vec![("id", text(id)), ("startFrame", Json::Int(start)), ("durationFrames", Json::Int(duration))]);
    if let Some(m) = media {
        c.set("mediaRef", text(m));
    }
    c
}

fn track(clips: Vec<Json>) -> Json {
    obj(vec![("type", text("video")), ("clips", Json::Array(clips))])
}

#[test]
fn encode_frame_is_standard_base64() {
    assert_eq!(encode_frame(&b"abc".to_vec()), "YWJj");
    assert_eq!(encode_frame(&b"ab".to_vec()), "YWI=");
    assert_eq!(encode_frame(&vec![]), "");
}

#[test]
fn frame_source_picks_the_uppermost_clip() {
    let s = editor(vec![track(vec![clip("a", Some("m1"), 0, 10)]), track(vec![clip("b", Some("m2"), 5, 10)])]);
    match frame_source(&s, 6).unwrap() {
        FrameSource::Clip { media_ref, clip } => {
            assert_eq!(media_ref, "m2");
            assert_eq!(clip.get("id"), Some(&text("b")));
        },
        FrameSource::Black => panic!("expected a clip"),
    }
    assert!(matches!(frame_source(&s, 50).unwrap(), FrameSource::Black));
}

#[test]
fn frame_source_errors() {
    let mut s = editor(vec![track(vec![clip("a", None, 0, 10)])]);
    assert!(matches!(frame_source(&s, 1), Err(e) if e == "no mediaRef"));
    s.project_path = None;
    assert!(matches!(frame_source(&s, 1), Err(e) if e == "no project open"));
    assert_eq!(media_not_found("m9"), "media not found: m9");
}

#[test]
fn preview_follows_a_single_clip() {
    let s = editor(vec![track(vec![clip("a", Some("m1"), 10, 20)])]);
    let p = preview_clip_at_frame(&s, 15).unwrap().unwrap();
    assert_eq!(p.media_ref, "m1");
    assert_eq!(p.clip_start_frame, 10);
    assert_eq!(p.clip_duration_frames, 20);
    assert_eq!(p.media_type, "video");
    assert!(preview_clip_at_frame(&s, 5).unwrap().is_none());
    let two = editor(vec![track(vec![clip("a", Some("m1"), 0, 20)]), track(vec![clip("b", Some("m2"), 0, 20)])]);
    assert!(preview_clip_at_frame(&two, 5).unwrap().is_none());
}

#[test]
fn preview_flags_for_media_types() {
    assert_eq!(preview_flags("video", false, true), (false, true));
    assert_eq!(preview_flags("video", false, false), (false, false));
    assert_eq!(preview_flags("video", true, true), (true, false));
    assert_eq!(preview_flags("image", false, true), (true, false));
    assert_eq!(preview_flags("audio", false, true), (false, false));
}
