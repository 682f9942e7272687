use palmier_pro::edit::{
    add_clips, clips_at_frame, find_clip, move_clip, remove_clip, set_clip_properties, split_clip,
    split_clip_with_id,
};
use palmier_pro::json::Json;

fn text(s: &str) -> Json {
    Json::Str(s.to_string())
}

fn obj(entries: Vec<(&str, Json)>) -> Json {
    Json::Object(entries.into_iter().map(|(k, v)| (k.to_string(), v)).collect())
}

fn clip(id: &str, start: i64, duration: i64) -> Json {
    obj(vec![
        ("id", text(id)),
        ("mediaRef", text("m1")),
        ("startFrame", Json::Int(start)),
        ("durationFrames", Json::Int(duration)),
    ])
}

fn track(kind: &str, clips: Vec<Json>) -> Json {
    obj(vec![("id", text("t")), ("type", text(kind)), ("clips", Json::Array(clips))])
}

fn timeline(tracks: Vec<Json>) -> Json {
    obj(vec![("fps", Json::Int(30)), ("tracks", Json::Array(tracks))])
}

fn is_uuid(s: &str) -> bool {
    let cs: Vec<char> = s.chars().collect();
    cs.len() == 36
        && cs.iter().enumerate().all(|(i, c)| {
            if i == 8 || i == 13 || i == 18 || i == 23 {
                *c == '-'
            } else {
                c.is_ascii_hexdigit() && !c.is_ascii_uppercase()
            }
        })
        && cs[14] == '4'
}

fn field<'a>(v: &'a Json, key: &str) -> Option<&'a Json> {
    v.get(key)
}

fn clips_of(t: &Json, ti: usize) -> Vec<Json> {
    let tracks = t.get("tracks").unwrap().as_array().unwrap();
    tracks[ti].get("clips").unwrap().as_array().unwrap().iter().map(|c| c.copy()).collect()
}

#[test]
fn move_clip_sets_start_frame() {
    let mut t = timeline(vec![track("video", vec![clip("a", 0, 10), clip("b", 10, 5)])]);
    assert_eq!(move_clip(&mut t, "b", 42), Ok(()));
    let cs = clips_of(&t, 0);
    assert_eq!(field(&cs[1], "startFrame"), Some(&Json::Int(42)));
    assert_eq!(field(&cs[0], "startFrame"), Some(&Json::Int(0)));
}

#[test]
fn move_clip_clamps_negative_start_to_zero() {
    let mut t = timeline(vec![track("video", vec![clip("a", 7, 10)])]);
    assert_eq!(move_clip(&mut t, "a", -5), Ok(()));
    assert_eq!(field(&clips_of(&t, 0)[0], "startFrame"), Some(&Json::Int(0)));
}

#[test]
fn move_clip_unknown_id_is_an_error() {
    let mut t = timeline(vec![track("video", vec![clip("a", 0, 10)])]);
    let before = t.copy();
    assert_eq!(move_clip(&mut t, "zz", 3), Err("clip not found: zz".to_string()));
    assert_eq!(t, before);
}

#[test]
fn move_clip_without_tracks_is_an_error() {
    let mut t = obj(vec![("fps", Json::Int(30))]);
    assert_eq!(move_clip(&mut t, "a", 3), Err("no tracks".to_string()));
}

#[test]
fn remove_clip_removes_from_first_track_holding_it() {
    let mut t = timeline(vec![
        track("video", vec![clip("a", 0, 10), clip("b", 10, 5), clip("a", 20, 5)]),
        track("audio", vec![clip("a", 0, 3)]),
    ]);
    assert_eq!(remove_clip(&mut t, "a"), Ok(()));
    let first = clips_of(&t, 0);
    assert_eq!(first.len(), 1);
    assert_eq!(field(&first[0], "id"), Some(&text("b")));
    assert_eq!(clips_of(&t, 1).len(), 1);
}

#[test]
fn remove_clip_unknown_id_is_an_error() {
    let mut t = timeline(vec![track("video", vec![clip("a", 0, 10)])]);
    assert_eq!(remove_clip(&mut t, "q"), Err("clip not found: q".to_string()));
}

#[test]
fn set_clip_properties_sets_each_field() {
    let mut t = timeline(vec![track("video", vec![clip("a", 0, 10)])]);
    let props = obj(vec![("volume", Json::Int(0)), ("startFrame", Json::Int(4))]);
    assert_eq!(set_clip_properties(&mut t, "a", &props), Ok(()));
    let c = &clips_of(&t, 0)[0];
    assert_eq!(field(c, "volume"), Some(&Json::Int(0)));
    assert_eq!(field(c, "startFrame"), Some(&Json::Int(4)));
    assert_eq!(field(c, "durationFrames"), Some(&Json::Int(10)));
}

#[test]
fn set_clip_properties_ignores_non_object_properties() {
    let mut t = timeline(vec![track("video", vec![clip("a", 0, 10)])]);
    let before = t.copy();
    assert_eq!(set_clip_properties(&mut t, "a", &Json::Int(3)), Ok(()));
    assert_eq!(t, before);
}

#[test]
fn split_clip_cuts_into_adjacent_parts() {
    let mut t = timeline(vec![track("video", vec![clip("a", 10, 30), clip("z", 50, 5)])]);
    let r = split_clip(&mut t, "a", 25, |trim: i64, left: i64, _speed: Option<Json>| trim + left);
    let new_id = r.expect("split succeeds");
    assert!(is_uuid(&new_id));
    let cs = clips_of(&t, 0);
    assert_eq!(cs.len(), 3);
    assert_eq!(field(&cs[0], "startFrame"), Some(&Json::Int(10)));
    assert_eq!(field(&cs[0], "durationFrames"), Some(&Json::Int(15)));
    assert_eq!(field(&cs[1], "id"), Some(&Json::Str(new_id.clone())));
    assert_eq!(field(&cs[1], "startFrame"), Some(&Json::Int(25)));
    assert_eq!(field(&cs[1], "durationFrames"), Some(&Json::Int(15)));
    assert_eq!(field(&cs[1], "trimStartFrame"), Some(&Json::Int(15)));
    assert_eq!(field(&cs[2], "id"), Some(&text("z")));
}

#[test]
fn split_clip_passes_speed_and_left_length() {
    let mut c = clip("a", 0, 100);
    c.set("speed", Json::Int(2));
    c.set("trimStartFrame", Json::Int(7));
    let mut t = timeline(vec![track("video", vec![c])]);
    let r = split_clip_with_id(&mut t, "a", 40, "right".to_string(), |trim: i64, left: i64, speed: Option<Json>| {
        let k = match speed {
            Some(Json::Int(k)) => k,
            _ => 1,
        };
        trim + left * k
    });
    assert_eq!(r, Ok("right".to_string()));
    let cs = clips_of(&t, 0);
    assert_eq!(field(&cs[1], "trimStartFrame"), Some(&Json::Int(87)));
}

#[test]
fn split_clip_outside_the_clip_is_an_error() {
    let mut t = timeline(vec![track("video", vec![clip("a", 10, 30)])]);
    let before = t.copy();
    let f = |trim: i64, left: i64, _s: Option<Json>| trim + left;
    assert_eq!(split_clip(&mut t, "a", 10, f), Err("split frame must be inside clip".to_string()));
    assert_eq!(split_clip(&mut t, "a", 40, f), Err("split frame must be inside clip".to_string()));
    assert_eq!(split_clip(&mut t, "b", 20, f), Err("clip not found: b".to_string()));
    assert_eq!(t, before);
}

#[test]
fn add_clips_grows_tracks_and_returns_ids() {
    let mut t = timeline(vec![]);
    let entries = vec![
        obj(vec![
            ("mediaRef", text("m1")),
            ("startFrame", Json::Int(0)),
            ("durationFrames", Json::Int(30)),
            ("trackIndex", Json::Int(1)),
        ]),
        obj(vec![
            ("mediaRef", text("m2")),
            ("startFrame", Json::Int(30)),
            ("durationFrames", Json::Int(10)),
        ]),
    ];
    let ids = add_clips(&mut t, &entries).expect("adds");
    assert_eq!(ids.len(), 2);
    assert!(ids.iter().all(|i| is_uuid(i)));
    assert_ne!(ids[0], ids[1]);
    let tracks = t.get("tracks").unwrap().as_array().unwrap();
    assert_eq!(tracks.len(), 2);
    let c1 = &clips_of(&t, 1)[0];
    assert_eq!(field(c1, "id"), Some(&Json::Str(ids[0].clone())));
    assert_eq!(field(c1, "mediaType"), Some(&text("video")));
    assert_eq!(field(c1, "trimStartFrame"), Some(&Json::Int(0)));
    let c0 = &clips_of(&t, 0)[0];
    assert_eq!(field(c0, "mediaRef"), Some(&text("m2")));
    assert_eq!(find_clip(&t, &ids[1]).map(|c| c.get("startFrame").unwrap().copy()), Some(Json::Int(30)));
}

#[test]
fn add_clips_takes_the_track_type() {
    let mut t = timeline(vec![track("audio", vec![])]);
    let entries = vec![obj(vec![
        ("mediaRef", text("m1")),
        ("startFrame", Json::Int(0)),
        ("durationFrames", Json::Int(3)),
        ("trackType", text("image")),
    ])];
    add_clips(&mut t, &entries).expect("adds");
    assert_eq!(field(&clips_of(&t, 0)[0], "mediaType"), Some(&text("audio")));
}

#[test]
fn add_clips_reports_missing_fields() {
    let mut t = timeline(vec![]);
    let no_ref = vec![obj(vec![("startFrame", Json::Int(0)), ("durationFrames", Json::Int(3))])];
    assert_eq!(add_clips(&mut t, &no_ref), Err("mediaRef required".to_string()));
    let no_start = vec![obj(vec![("mediaRef", text("m")), ("durationFrames", Json::Int(3))])];
    assert_eq!(add_clips(&mut t, &no_start), Err("startFrame required".to_string()));
    let no_dur = vec![obj(vec![("mediaRef", text("m")), ("startFrame", Json::Int(3))])];
    assert_eq!(add_clips(&mut t, &no_dur), Err("durationFrames required".to_string()));
    let mut bare = obj(vec![]);
    assert_eq!(add_clips(&mut bare, &no_dur), Err("no tracks".to_string()));
}

#[test]
fn add_clips_keeps_entries_before_an_error() {
    let mut t = timeline(vec![]);
    let entries = vec![
        obj(vec![("mediaRef", text("m")), ("startFrame", Json::Int(0)), ("durationFrames", Json::Int(3))]),
        obj(vec![("mediaRef", text("m"))]),
    ];
    assert_eq!(add_clips(&mut t, &entries), Err("startFrame required".to_string()));
    assert_eq!(clips_of(&t, 0).len(), 1);
}

#[test]
fn find_clip_gives_a_copy() {
    let t = timeline(vec![track("video", vec![clip("a", 0, 10)]), track("video", vec![clip("b", 3, 4)])]);
    assert_eq!(find_clip(&t, "b"), Some(clip("b", 3, 4)));
    assert_eq!(find_clip(&t, "c"), None);
}

#[test]
fn find_clip_stops_at_a_track_without_clips() {
    let t = timeline(vec![obj(vec![("id", text("x"))]), track("video", vec![clip("b", 3, 4)])]);
    assert_eq!(find_clip(&t, "b"), None);
}

#[test]
fn clips_at_frame_lists_visible_visual_clips() {
    let mut hidden = track("video", vec![clip("h", 0, 100)]);
    hidden.set("hidden", Json::Bool(true));
    let mut audio_clip = clip("s", 0, 100);
    audio_clip.set("mediaType", text("audio"));
    let t = timeline(vec![
        track("video", vec![clip("a", 0, 10), clip("b", 10, 10)]),
        hidden,
        track("audio", vec![audio_clip]),
        track("image", vec![clip("i", 5, 20)]),
    ]);
    let at = clips_at_frame(&t, 10);
    let ids: Vec<(usize, Json)> = at.into_iter().map(|(ti, c)| (ti, c.get("id").unwrap().copy())).collect();
    assert_eq!(ids, vec![(0, text("b")), (3, text("i"))]);
    assert!(clips_at_frame(&t, 200).is_empty());
}
