use palmier_pro::json::Json;
use palmier_pro::media::{clip_type_from_ext, find_media_entry, is_image_path, list_media, media_source, resolve_media_path, MediaSource};

fn text(s: &str) -> Json {
    Json::Str(s.to_string())
}

fn obj(entries: Vec<(&str, Json)>) -> Json {
    Json::Object(entries.into_iter().map(|(k, v)| (k.to_string(), v)).collect())
}

#[test]
fn clip_types_by_extension_in_any_case() {
    assert_eq!(clip_type_from_ext("MP4"), Some("video"));
    assert_eq!(clip_type_from_ext("mov"), Some("video"));
    assert_eq!(clip_type_from_ext("Wav"), Some("audio"));
    assert_eq!(clip_type_from_ext("PNG"), Some("image"));
    assert_eq!(clip_type_from_ext("heic"), Some("image"));
    assert_eq!(clip_type_from_ext("lottie"), Some("lottie"));
    assert_eq!(clip_type_from_ext("txt"), None);
}

#[test]
fn image_paths() {
    assert!(is_image_path("/a/b/photo.JPG"));
    assert!(is_image_path("x.webp"));
    assert!(!is_image_path("/a/b/movie.mp4"));
    assert!(!is_image_path("/a/b/noext"));
    assert!(!is_image_path(".png"));
    assert!(is_image_path("..png"));
    assert!(is_image_path("shot.Heic"));
}

#[test]
fn manifest_lookup() {
    let m = obj(vec![(
        "entries",
        Json::Array(vec![obj(vec![("id", text("a")), ("n", Json::Int(1))]), obj(vec![("id", text("a")), ("n", Json::Int(2))])]),
    )]);
    assert_eq!(find_media_entry(Some(&m), "a"), Some(obj(vec![("id", text("a")), ("n", Json::Int(1))])));
    assert_eq!(find_media_entry(Some(&m), "b"), None);
    assert_eq!(find_media_entry(None, "a"), None);
    assert_eq!(list_media(Some(&m)).len(), 2);
    assert!(list_media(None).is_empty());
    assert!(list_media(Some(&obj(vec![]))).is_empty());
}

#[test]
fn media_sources() {
    let ext = obj(vec![("external", obj(vec![("absolutePath", text("/x/y.mp4"))]))]);
    assert!(matches!(media_source(&ext), Some(MediaSource::External(p)) if p == "/x/y.mp4"));
    assert_eq!(resolve_media_path("/root", &ext), Some("/x/y.mp4".to_string()));
    let proj = obj(vec![("project", obj(vec![("relativePath", text("media/a.mp4"))]))]);
    assert!(matches!(media_source(&proj), Some(MediaSource::InProject(p)) if p == "media/a.mp4"));
    let joined = resolve_media_path("/root", &proj).unwrap();
    assert_eq!(joined, "/root/media/a.mp4");
    assert_eq!(resolve_media_path("/root/", &proj), Some("/root/media/a.mp4".to_string()));
    let broken = obj(vec![("external", obj(vec![])), ("project", obj(vec![("relativePath", text("a"))]))]);
    assert_eq!(resolve_media_path("/root", &broken), None);
}

#[test]
fn image_paths_agree_with_clip_types() {
    for ext in ["mov", "MP4", "m4v", "mp3", "wav", "aac", "m4a", "png", "Jpg", "jpeg", "tiff", "heic", "WEBP", "json", "lottie", "txt", ""] {
        let path = format!("/media/file.{ext}");
        assert_eq!(is_image_path(&path), clip_type_from_ext(ext) == Some("image"), "{path}");
    }
}
