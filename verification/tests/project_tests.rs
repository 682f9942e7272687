use palmier_pro::json::Json;
use palmier_pro::project::{
    default_storage_directory, missing_timeline, package_root, trim_end_matches, ProjectError,
    ProjectPackage, TIMELINE_FILENAME,
};

fn text(s: &str) -> Json {
    Json::Str(s.to_string())
}

fn obj(entries: Vec<(&str, Json)>) -> Json {
    Json::Object(entries.into_iter().map(|(k, v)| (k.to_string(), v)).collect())
}

fn package() -> ProjectPackage {
    let clips = Json::Array(vec![
        obj(vec![("startFrame", Json::Int(0)), ("durationFrames", Json::Int(40))]),
        obj(vec![("endFrame", Json::Int(90)), ("startFrame", Json::Int(0)), ("durationFrames", Json::Int(10))]),
        obj(vec![("startFrame", Json::Int(500))]),
    ]);
    let timeline = obj(vec![
        ("fps", Json::Int(24)),
        ("width", Json::Int(1280)),
        ("tracks", Json::Array(vec![obj(vec![("clips", clips)]), obj(vec![("type", text("audio"))])])),
    ]);
    let manifest = obj(vec![("entries", Json::Array(vec![obj(vec![]), obj(vec![])]))]);
    ProjectPackage { path: "/home/u/Trip.palmier".to_string(), timeline, manifest: Some(manifest) }
}

#[test]
fn summary_counts_tracks_clips_media_and_frames() {
    let s = package().summary_named(Some("Trip.palmier".to_string()));
    assert_eq!(s.path, "/home/u/Trip.palmier");
    assert_eq!(s.name, "Trip");
    assert_eq!(s.fps, 24);
    assert_eq!(s.width, 1280);
    assert_eq!(s.height, 1080);
    assert_eq!(s.track_count, 2);
    assert_eq!(s.clip_count, 3);
    assert_eq!(s.media_count, 2);
    assert_eq!(s.total_frames, 90);
}

#[test]
fn summary_without_file_name_is_untitled() {
    let s = package().summary_named(None);
    assert_eq!(s.name, "Untitled Project");
}

#[test]
fn summary_takes_the_name_from_the_path() {
    let s = package().summary();
    assert_eq!(s.name, "Trip");
}

#[test]
fn trim_end_matches_removes_every_trailing_copy() {
    assert_eq!(trim_end_matches("a.palmier.palmier", ".palmier"), "a");
    assert_eq!(trim_end_matches("a.palmierx", ".palmier"), "a.palmierx");
    assert_eq!(trim_end_matches("abc", ""), "abc");
}

#[test]
fn error_messages() {
    assert_eq!(ProjectError::NotFound("p".to_string()).message(), "project not found: p");
    assert_eq!(ProjectError::InvalidTimeline("e".to_string()).message(), "invalid timeline JSON: e");
    assert_eq!(ProjectError::InvalidManifest("e".to_string()).message(), "invalid manifest JSON: e");
    assert_eq!(ProjectError::Io("disk".to_string()).message(), "io error: disk");
    match missing_timeline("/r") {
        ProjectError::NotFound(m) => assert_eq!(m, format!("missing {TIMELINE_FILENAME} in /r")),
        _ => panic!("expected not found"),
    }
}

#[test]
fn storage_directory_is_in_documents() {
    let d = default_storage_directory(Some("/home/u".to_string()));
    assert!(d == "/home/u/Documents/Palmier Pro" || d == "/home/u\\Documents\\Palmier Pro");
    let here = default_storage_directory(None);
    assert!(here == "./Palmier Pro" || here == ".\\Palmier Pro");
}

#[test]
fn package_root_of_a_file_is_its_directory() {
    assert_eq!(package_root("/a/b/project.json", false), "/a/b");
    assert_eq!(package_root("/a/b", true), "/a/b");
    assert_eq!(package_root("rel/dir/timeline.json", false), "rel/dir");
    assert_eq!(package_root("timeline.json", false), "");
}
