use palmier_pro::json::Json;
use palmier_pro::project::ProjectPackage;
use palmier_pro::state::{frames_fit, timeline_total_frames, EditorState, UndoHistory, UNDO_LIMIT};

fn obj(entries: Vec<(&str, Json)>) -> Json {
    Json::Object(entries.into_iter().map(|(k, v)| (k.to_string(), v)).collect())
}

fn clip(start: i64, duration: i64) -> Json {
    obj(vec![("startFrame", Json::Int(start)), ("durationFrames", Json::Int(duration))])
}

#[test]
fn a_new_editor() {
    let s = EditorState::default();
    assert_eq!(s.project_path, None);
    assert_eq!(s.width(), 1920);
    assert_eq!(s.height(), 1080);
    assert_eq!(s.timeline.get("fps"), Some(&Json::Int(30)));
    assert_eq!(s.total_frames(), 0);
    assert_eq!(s.undo_stack.len(), 0);
}

#[test]
fn undo_goes_back_one_step_at_a_time() {
    let mut s = EditorState::default();
    s.timeline = obj(vec![("n", Json::Int(1))]);
    s.push_undo();
    s.timeline = obj(vec![("n", Json::Int(2))]);
    s.push_undo();
    s.timeline = obj(vec![("n", Json::Int(3))]);
    assert!(s.undo());
    assert_eq!(s.timeline, obj(vec![("n", Json::Int(2))]));
    assert!(s.undo());
    assert_eq!(s.timeline, obj(vec![("n", Json::Int(1))]));
    assert!(!s.undo());
    assert_eq!(s.timeline, obj(vec![("n", Json::Int(1))]));
}

#[test]
fn the_history_keeps_the_last_fifty() {
    let mut s = EditorState::default();
    for i in 0..60 {
        s.timeline = obj(vec![("n", Json::Int(i))]);
        s.push_undo();
    }
    assert_eq!(s.undo_stack.len(), UNDO_LIMIT);
    let mut last = Json::Null;
    let mut undos: u32 = 0;
    while s.undo() {
        last = s.timeline.copy();
        undos += 1;
    }
    assert_eq!(undos, 50);
    assert_eq!(last, obj(vec![("n", Json::Int(10))]));
}

#[test]
fn loading_a_package_clears_the_history() {
    let mut s = EditorState::default();
    s.push_undo();
    s.load_package(ProjectPackage { path: "/p".to_string(), timeline: obj(vec![]), manifest: None });
    assert_eq!(s.project_path, Some("/p".to_string()));
    assert_eq!(s.undo_stack.len(), 0);
    assert!(!s.undo());
}

#[test]
fn history_alone() {
    let mut h = UndoHistory::new();
    h.record(Json::Int(1));
    assert_eq!(h.len(), 1);
    assert_eq!(h.pop(), Some(Json::Int(1)));
    assert_eq!(h.pop(), None);
    h.record(Json::Int(2));
    h.clear();
    assert_eq!(h.len(), 0);
}

#[test]
fn total_frames_is_the_last_end() {
    let t = obj(vec![(
        "tracks",
        Json::Array(vec![
            obj(vec![("clips", Json::Array(vec![clip(0, 10), clip(30, 5)]))]),
            obj(vec![("clips", Json::Array(vec![clip(-20, 5)]))]),
        ]),
    )]);
    assert!(frames_fit(&t));
    assert_eq!(timeline_total_frames(&t), 35);
    let big = obj(vec![("tracks", Json::Array(vec![obj(vec![("clips", Json::Array(vec![clip(i64::MAX, 1)]))])]))]);
    assert!(!frames_fit(&big));
}
