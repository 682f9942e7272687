use palmier_pro::import::{
    add_imported_to_timeline, ffprobe_beside, file_not_found, find_ffprobe, forward_slashes, import_failure,
    manifest_save_path, media_kind, media_kind_for_ext, media_source_json, new_manifest, new_media_entry,
    new_project_timeline, numbered_project_name, project_name,
};
use palmier_pro::json::Json;
use palmier_pro::state::EditorState;

fn text(s: &str) -> Json {
    Json::Str(s.to_string())
}

fn obj(entries: Vec<(&str, Json)>) -> Json {
    Json::Object(entries.into_iter().map(|(k, v)| (k.to_string(), v)).collect())
}

#[test]
fn media_kinds() {
    assert_eq!(media_kind("/a/clip.MOV"), Ok("video"));
    assert_eq!(media_kind("/a/song.mp3"), Ok("audio"));
    assert_eq!(media_kind("/a/anim.json"), Ok("lottie"));
    assert_eq!(media_kind("/a/noext"), Err("missing file extension".to_string()));
    assert_eq!(media_kind("/a/doc.txt"), Err("unsupported extension .txt".to_string()));
    assert_eq!(media_kind_for_ext(Some("Png")), Ok("image"));
    assert_eq!(media_kind_for_ext(None), Err("missing file extension".to_string()));
}

#[test]
fn new_project_documents() {
    assert_eq!(
        new_manifest(),
        obj(vec![("version", Json::Int(2)), ("entries", Json::Array(vec![])), ("folders", Json::Array(vec![]))])
    );
    let t = new_project_timeline();
    assert_eq!(t.get("fps"), Some(&Json::Int(30)));
    assert_eq!(t.get("settingsConfigured"), Some(&Json::Bool(false)));
    assert_eq!(t.get("tracks"), Some(&Json::Array(vec![])));
}

#[test]
fn project_names() {
    assert_eq!(project_name("  Trip  "), "Trip");
    assert_eq!(project_name("   "), "Untitled Project");
    let n = numbered_project_name("Trip");
    assert!(n.starts_with("Trip-"));
    assert_eq!(n.len(), 13);
}

#[test]
fn media_entries() {
    assert_eq!(forward_slashes("a\\b\\c.mp4"), "a/b/c.mp4");
    assert_eq!(
        media_source_json(Some("media\\x.mp4"), "C:\\p\\media\\x.mp4"),
        obj(vec![("project", obj(vec![("relativePath", text("media/x.mp4"))]))])
    );
    assert_eq!(
        media_source_json(None, "/abs/x.mp4"),
        obj(vec![("external", obj(vec![("absolutePath", text("/abs/x.mp4"))]))])
    );
    let e = new_media_entry("/proj/media/clip.mp4", "video", "/proj", Json::Int(3));
    assert_eq!(e.get("name"), Some(&text("clip")));
    assert_eq!(e.get("type"), Some(&text("video")));
    assert_eq!(e.get("duration"), Some(&Json::Int(3)));
    assert_eq!(e.get("source"), Some(&obj(vec![("project", obj(vec![("relativePath", text("media/clip.mp4"))]))])));
    assert_eq!(e.get("id").unwrap().as_str().unwrap().len(), 36);
    let outside = new_media_entry("/else/a.png", "image", "/proj", Json::Int(5));
    assert_eq!(outside.get("source"), Some(&obj(vec![("external", obj(vec![("absolutePath", text("/else/a.png"))]))])));
}

#[test]
fn import_messages() {
    assert_eq!(import_failure("/a/b/clip.mp4", "bad"), "clip.mp4: bad");
    assert_eq!(file_not_found("/x"), "file not found: /x");
}

#[test]
fn ffprobe_lookup() {
    let beside = ffprobe_beside("/opt/bin/ffmpeg");
    assert_eq!(beside, "/opt/bin/ffprobe");
    assert_eq!(ffprobe_beside("C:/tools/ffmpeg.exe"), "C:/tools/ffprobe.exe");
    assert_eq!(ffprobe_beside("ffmpeg"), "ffprobe");
    assert_eq!(ffprobe_beside("/x/my-ffmpeg-7"), "/x/my-ffprobe-7");
    assert_eq!(find_ffprobe(Ok("/usr/bin/ffprobe".to_string()), None, false), Ok("/usr/bin/ffprobe".to_string()));
    assert_eq!(find_ffprobe(Err("x".to_string()), Some(beside.clone()), true), Ok(beside.clone()));
    assert_eq!(
        find_ffprobe(Err("x".to_string()), Some(beside), false),
        Err("ffprobe not found (install FFmpeg)".to_string())
    );
    assert_eq!(find_ffprobe(Err("x".to_string()), None, true), Err("ffprobe not found (install FFmpeg)".to_string()));
}

#[test]
fn manifest_save_needs_project_and_manifest() {
    let mut s = EditorState::default();
    assert_eq!(manifest_save_path(&s), Err("no project".to_string()));
    s.project_path = Some("/p".to_string());
    assert_eq!(manifest_save_path(&s), Err("no manifest".to_string()));
    s.ensure_manifest();
    assert_eq!(manifest_save_path(&s), Ok("/p".to_string()));
}

#[test]
fn imported_media_goes_on_a_track_of_its_kind() {
    let mut s = EditorState::default();
    s.project_path = Some("/p".to_string());
    s.ensure_manifest();
    s.add_media_entry(obj(vec![("id", text("m1")), ("type", text("audio")), ("duration", Json::Int(2))]));
    let id = add_imported_to_timeline(&mut s, "m1", 12, |_d: Option<Json>| 60).unwrap();
    let tracks = s.timeline.get("tracks").unwrap().as_array().unwrap();
    assert_eq!(tracks.len(), 1);
    assert_eq!(tracks[0].get("type"), Some(&text("audio")));
    let c = &tracks[0].get("clips").unwrap().as_array().unwrap()[0];
    assert_eq!(c.get("id"), Some(&Json::Str(id)));
    assert_eq!(c.get("startFrame"), Some(&Json::Int(12)));
    assert_eq!(c.get("durationFrames"), Some(&Json::Int(60)));
    assert_eq!(s.undo_stack.len(), 1);
    assert_eq!(add_imported_to_timeline(&mut s, "zz", 0, |_d: Option<Json>| 1), Err("media not found".to_string()));
}

#[test]
fn an_added_entry_is_found_by_its_id() {
    let mut s = EditorState::default();
    s.ensure_manifest();
    let a = obj(vec![("id", text("a")), ("name", text("first"))]);
    let b = obj(vec![("id", text("b"))]);
    s.add_media_entry(a.copy());
    s.add_media_entry(b.copy());
    assert_eq!(palmier_pro::media::find_media_entry(s.manifest.as_ref(), "b"), Some(b));
    assert_eq!(palmier_pro::media::find_media_entry(s.manifest.as_ref(), "a"), Some(a));
}
