use palmier_pro::json::Json;
use palmier_pro::state::EditorState;
use palmier_pro::mcp::tool_definitions;
use palmier_pro::tools::{call_tool, dispatch_tool_call, export_answer, finish_import, tool_fits_check, ToolStep};

fn text(s: &str) -> Json {
    Json::Str(s.to_string())
}

fn obj(entries: Vec<(&str, Json)>) -> Json {
    Json::Object(entries.into_iter().map(|(k, v)| (k.to_string(), v)).collect())
}

fn clip(id: &str, start: i64, duration: i64) -> Json {
    obj(vec![
        ("id", text(id)),
        ("mediaRef", text("m1")),
        ("startFrame", Json::Int(start)),
        ("durationFrames", Json::Int(duration)),
    ])
}

fn editor(project: Option<&str>, clips: Vec<Json>) -> EditorState {
    let mut s = EditorState::default();
    s.project_path = project.map(|p| p.to_string());
    s.timeline.set(
        "tracks",
        Json::Array(vec![obj(vec![("id", text("t1")), ("type", text("video")), ("clips", Json::Array(clips))])]),
    );
    s
}

fn same_trim(trim: i64, left: i64, _speed: Option<Json>) -> i64 {
    trim + left
}

fn run(s: &mut EditorState, name: &str, args: Json) -> ToolStep {
    assert!(tool_fits_check(s, name, &args));
    call_tool(s, name, &args, Json::Int(30), same_trim)
}

fn start_of(s: &EditorState, idx: usize) -> Json {
    let tracks = s.timeline.get("tracks").unwrap().as_array().unwrap();
    let clips = tracks[0].get("clips").unwrap().as_array().unwrap();
    clips[idx].get("startFrame").unwrap().copy()
}

fn reply(step: ToolStep) -> Result<Json, String> {
    match step {
        ToolStep::Reply(r) => r,
        _ => panic!("expected an answer"),
    }
}

fn saved(step: ToolStep) -> (String, Json) {
    match step {
        ToolStep::Save { path, answer } => (path, answer),
        _ => panic!("expected a save"),
    }
}

#[test]
fn move_clips_saves_then_answers_ok() {
    let mut s = editor(Some("/p/proj"), vec![clip("a", 0, 10)]);
    let step = run(&mut s, "move_clips", obj(vec![("clipId", text("a")), ("startFrame", Json::Int(12))]));
    let (path, answer) = saved(step);
    assert_eq!(path, "/p/proj");
    assert_eq!(answer, obj(vec![("ok", Json::Bool(true))]));
    assert_eq!(start_of(&s, 0), Json::Int(12));
    assert_eq!(s.undo_stack.len(), 1);
}

#[test]
fn undo_after_an_edit_restores_the_timeline() {
    let mut s = editor(Some("/p/proj"), vec![clip("a", 0, 10)]);
    let before = s.timeline.copy();
    run(&mut s, "move_clips", obj(vec![("clipId", text("a")), ("startFrame", Json::Int(12))]));
    let (_, answer) = saved(run(&mut s, "undo", obj(vec![])));
    assert_eq!(answer, obj(vec![("undone", Json::Bool(true))]));
    assert_eq!(s.timeline, before);
    assert_eq!(s.undo_stack.len(), 0);
}

#[test]
fn undo_with_nothing_to_undo() {
    let mut s = editor(Some("/p/proj"), vec![]);
    assert_eq!(reply(run(&mut s, "undo", obj(vec![]))), Ok(obj(vec![("undone", Json::Bool(false))])));
}

#[test]
fn an_edit_that_fails_still_records_the_timeline() {
    let mut s = editor(Some("/p/proj"), vec![clip("a", 0, 10)]);
    let r = reply(run(&mut s, "move_clips", obj(vec![("clipId", text("b")), ("startFrame", Json::Int(1))])));
    assert_eq!(r, Err("clip not found: b".to_string()));
    assert_eq!(s.undo_stack.len(), 1);
}

#[test]
fn missing_arguments_are_reported_without_recording() {
    let mut s = editor(Some("/p/proj"), vec![clip("a", 0, 10)]);
    let cases = vec![
        ("move_clips", obj(vec![("startFrame", Json::Int(1))]), "clipId required"),
        ("move_clips", obj(vec![("clipId", text("a"))]), "startFrame required"),
        ("set_clip_properties", obj(vec![("clipId", text("a"))]), "properties required"),
        ("split_clip", obj(vec![("clipId", text("a"))]), "atFrame required"),
        ("remove_clips", obj(vec![]), "clipIds required"),
        ("add_clips", obj(vec![]), "entries required"),
        ("import_media", obj(vec![]), "source required"),
        ("import_media", obj(vec![("source", obj(vec![]))]), "source.path required"),
        ("export_video", obj(vec![]), "outputPath required"),
    ];
    for (name, args, msg) in cases {
        assert_eq!(reply(run(&mut s, name, args)), Err(msg.to_string()));
    }
    assert_eq!(s.undo_stack.len(), 0);
}

#[test]
fn unknown_tool() {
    let mut s = editor(None, vec![]);
    assert_eq!(reply(run(&mut s, "fly", obj(vec![]))), Err("unknown tool: fly".to_string()));
}

#[test]
fn edits_without_a_project_answer_no_project_open() {
    let mut s = editor(None, vec![clip("a", 0, 10)]);
    let r = reply(run(&mut s, "remove_clips", obj(vec![("clipIds", Json::Array(vec![text("a")]))])));
    assert_eq!(r, Err("no project open".to_string()));
}

#[test]
fn remove_clips_skips_non_text_ids_and_stops_at_an_error() {
    let mut s = editor(Some("/p"), vec![clip("a", 0, 10), clip("b", 10, 10), clip("c", 20, 10)]);
    let (_, answer) = saved(run(
        &mut s,
        "remove_clips",
        obj(vec![("clipIds", Json::Array(vec![text("a"), Json::Int(5), text("c")]))]),
    ));
    assert_eq!(answer, obj(vec![("ok", Json::Bool(true))]));
    assert_eq!(start_of(&s, 0), Json::Int(10));
    let r = reply(run(&mut s, "remove_clips", obj(vec![("clipIds", Json::Array(vec![text("b"), text("x")]))])));
    assert_eq!(r, Err("clip not found: x".to_string()));
    let tracks = s.timeline.get("tracks").unwrap().as_array().unwrap();
    assert_eq!(tracks[0].get("clips").unwrap().as_array().unwrap().len(), 0);
}

#[test]
fn split_clip_answers_the_new_id() {
    let mut s = editor(Some("/p"), vec![clip("a", 0, 10)]);
    let (_, answer) = saved(run(&mut s, "split_clip", obj(vec![("clipId", text("a")), ("atFrame", Json::Int(4))])));
    let new_id = answer.get("newClipId").unwrap().as_str().unwrap().clone();
    assert_eq!(new_id.len(), 36);
    assert_eq!(start_of(&s, 1), Json::Int(4));
}

#[test]
fn add_clips_answers_clip_ids() {
    let mut s = editor(Some("/p"), vec![]);
    let entries = Json::Array(vec![obj(vec![
        ("mediaRef", text("m")),
        ("startFrame", Json::Int(5)),
        ("durationFrames", Json::Int(3)),
    ])]);
    let (_, answer) = saved(run(&mut s, "add_clips", obj(vec![("entries", entries)])));
    let ids = answer.get("clipIds").unwrap().as_array().unwrap();
    assert_eq!(ids.len(), 1);
    assert_eq!(start_of(&s, 0), Json::Int(5));
}

#[test]
fn set_clip_properties_tool() {
    let mut s = editor(Some("/p"), vec![clip("a", 0, 10)]);
    let args = obj(vec![("clipId", text("a")), ("properties", obj(vec![("startFrame", Json::Int(9))]))]);
    saved(run(&mut s, "set_clip_properties", args));
    assert_eq!(start_of(&s, 0), Json::Int(9));
}

#[test]
fn get_media_lists_manifest_entries() {
    let mut s = editor(Some("/p"), vec![]);
    assert_eq!(reply(run(&mut s, "get_media", obj(vec![]))), Ok(obj(vec![("entries", Json::Array(vec![]))])));
    s.manifest = Some(obj(vec![("entries", Json::Array(vec![obj(vec![("id", text("m1"))])]))]));
    assert_eq!(
        reply(run(&mut s, "get_media", obj(vec![]))),
        Ok(obj(vec![("entries", Json::Array(vec![obj(vec![("id", text("m1"))])]))]))
    );
}

#[test]
fn get_timeline_reports_the_summary() {
    let mut s = editor(Some("/p"), vec![clip("a", 5, 10)]);
    let summary = reply(run(&mut s, "get_timeline", obj(vec![]))).unwrap();
    assert_eq!(summary.get("fps"), Some(&Json::Int(30)));
    assert_eq!(summary.get("width"), Some(&Json::Int(1920)));
    assert_eq!(summary.get("totalFrames"), Some(&Json::Int(15)));
    assert_eq!(summary.get("canGenerate"), Some(&Json::Bool(false)));
    assert_eq!(summary.get("platform"), Some(&text("windows")));
}

#[test]
fn import_media_asks_for_the_import() {
    let mut s = editor(Some("/p"), vec![]);
    let args = obj(vec![("source", obj(vec![("path", text("C:/v/clip.mp4"))])), ("name", text("Intro"))]);
    match run(&mut s, "import_media", args) {
        ToolStep::Import { path, name } => {
            assert_eq!(path, "C:/v/clip.mp4");
            assert_eq!(name, Some("Intro".to_string()));
        },
        _ => panic!("expected an import"),
    }
}

#[test]
fn export_video_defaults_to_h264() {
    let mut s = editor(Some("/p"), vec![]);
    match run(&mut s, "export_video", obj(vec![("outputPath", text("/o.mp4"))])) {
        ToolStep::Export { output, codec } => {
            assert_eq!(output, "/o.mp4");
            assert_eq!(codec, "h264");
        },
        _ => panic!("expected an export"),
    }
    assert_eq!(
        export_answer("/o.mp4", "h265"),
        obj(vec![("outputPath", text("/o.mp4")), ("codec", text("h265"))])
    );
}

#[test]
fn finish_import_names_the_last_entry_and_saves() {
    let mut s = editor(Some("/p"), vec![]);
    s.manifest = Some(obj(vec![(
        "entries",
        Json::Array(vec![obj(vec![("id", text("m0"))]), obj(vec![("id", text("m1")), ("name", text("clip"))])]),
    )]));
    let (_, answer) = saved(finish_import(&mut s, vec!["m1".to_string()], Some("Intro".to_string())));
    assert_eq!(answer, obj(vec![("mediaRef", text("m1")), ("ids", Json::Array(vec![text("m1")]))]));
    let entries = s.manifest.as_ref().unwrap().get("entries").unwrap().as_array().unwrap();
    assert_eq!(entries[1].get("name"), Some(&text("Intro")));
    assert_eq!(entries[0].get("name"), None);
}

#[test]
fn finish_import_without_name_answers_at_once() {
    let mut s = editor(None, vec![]);
    let step = finish_import(&mut s, vec![], None);
    assert_eq!(reply(step), Ok(obj(vec![("mediaRef", text("")), ("ids", Json::Array(vec![]))])));
}

#[test]
fn tool_limits_are_checked() {
    let mut s = editor(Some("/p"), vec![clip("a", i64::MAX - 1, 5)]);
    assert!(!tool_fits_check(&s, "get_timeline", &obj(vec![])));
    assert!(!tool_fits_check(&s, "split_clip", &obj(vec![("clipId", text("a")), ("atFrame", Json::Int(3))])));
    assert!(tool_fits_check(&s, "split_clip", &obj(vec![("clipId", text("b"))])));
    s.timeline = obj(vec![("tracks", Json::Array(vec![]))]);
    let huge = obj(vec![("entries", Json::Array(vec![obj(vec![("trackIndex", Json::UInt(u64::MAX))])]))]);
    assert!(!tool_fits_check(&s, "add_clips", &huge));
}

#[test]
fn every_advertised_tool_is_dispatched() {
    for def in tool_definitions() {
        let name = def.get("name").unwrap().as_str().unwrap().to_string();
        let mut s = editor(Some("/p/proj"), vec![clip("a", 0, 10)]);
        let step = run(&mut s, &name, obj(vec![]));
        if let ToolStep::Reply(Err(e)) = step {
            assert!(!e.starts_with("unknown tool"), "{name}: {e}");
        }
    }
}

#[test]
fn dispatching_a_tool_call() {
    let mut s = editor(Some("/p/proj"), vec![clip("a", 0, 10)]);
    let missing = obj(vec![("arguments", obj(vec![]))]);
    assert!(matches!(dispatch_tool_call(&mut s, &missing, Json::Int(30), same_trim), Err(e) if e == "missing tool name"));
    let unknown = obj(vec![("name", text("fly"))]);
    match dispatch_tool_call(&mut s, &unknown, Json::Int(30), same_trim) {
        Ok(ToolStep::Reply(r)) => assert_eq!(r, Err("unknown tool: fly".to_string())),
        _ => panic!("expected an answer"),
    }
    let undo = obj(vec![("name", text("undo"))]);
    match dispatch_tool_call(&mut s, &undo, Json::Int(30), same_trim) {
        Ok(ToolStep::Reply(r)) => assert_eq!(r, Ok(obj(vec![("undone", Json::Bool(false))]))),
        _ => panic!("expected an answer"),
    }
    let mv = obj(vec![
        ("name", text("move_clips")),
        ("arguments", obj(vec![("clipId", text("a")), ("startFrame", Json::Int(4))])),
    ]);
    match dispatch_tool_call(&mut s, &mv, Json::Int(30), same_trim) {
        Ok(ToolStep::Save { path, .. }) => assert_eq!(path, "/p/proj"),
        _ => panic!("expected a save"),
    }
    assert_eq!(start_of(&s, 0), Json::Int(4));
}
