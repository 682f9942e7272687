use vstd::prelude::*;
use crate::edit::{
    add_clips, add_outcome, split_fits_check, track_indexes_check, move_clip, move_outcome,
    props_outcome, remove_clip, remove_outcome, set_clip_properties, split_clip, split_fits,
    split_outcome, split_source_args, text_result, texts_result, texts_view, track_indexes_bounded,
    unit_result,
};
use crate::export::{timeline_summary_json, timeline_summary_value, tracks_value};
use crate::import::single;
use crate::json::{
    deep_seq, i64_or, lemma_with_field_same, lemma_with_field_twice, opt_deep, Json, JsonV,
};
use crate::json_props::group_json_lemmas;
use crate::mcp::{json_result, tool_call_parts, tool_call_parts_spec};
use crate::media::{list_media, manifest_entries};
use crate::outside::is_uuid_text;
use crate::state::{
    ends_fit, frames_fit, pushed, record, timeline_frames, undone, EditorState, EditorView,
    UNDO_LIMIT,
};
use crate::text::{join, same_text};

verus! {

/// What a tool call asks of its caller once the editor state has been
/// updated.
pub enum ToolStep {
    /// Answer with this outcome.
    Reply(Result<Json, String>),
    /// Write the open project (found at `path`) to disk, then answer with
    /// `answer`, or with the error writing gave.
    Save { path: String, answer: Json },
    /// Import the media file at `path`, then hand the new ids and `name`
    /// to [`finish_import`].
    Import { path: String, name: Option<String> },
    /// Export the timeline to `output` with `codec`, then answer with
    /// [`export_answer`].
    Export { output: String, codec: String },
}

/// The value of a [`ToolStep`].
pub enum StepV {
    Reply(Result<JsonV, Seq<char>>),
    Save { path: Seq<char>, answer: JsonV },
    Import { path: Seq<char>, name: Option<Seq<char>> },
    Export { output: Seq<char>, codec: Seq<char> },
}

impl View for ToolStep {
    type V = StepV;

    open spec fn view(&self) -> StepV {
        match self {
            ToolStep::Reply(r) => StepV::Reply(json_result(*r)),
            ToolStep::Save { path, answer } => StepV::Save { path: path@, answer: answer.deep() },
            ToolStep::Import { path, name } => StepV::Import {
                path: path@,
                name: match name {
                    Some(n) => Some(n@),
                    None => None,
                },
            },
            ToolStep::Export { output, codec } => StepV::Export { output: output@, codec: codec@ },
        }
    }
}

pub open spec fn reply_err(e: Seq<char>) -> StepV {
    StepV::Reply(Err(e))
}

/// After a change, the project is saved before the answer goes out; with
/// no project open the answer is the error `no project open`.
pub open spec fn saved(s: EditorView, answer: JsonV) -> StepV {
    match s.project_path {
        Some(p) => StepV::Save { path: p, answer },
        None => reply_err("no project open"@),
    }
}

/// `{"ok": true}`.
pub open spec fn ok_answer() -> JsonV {
    JsonV::Object(seq![("ok"@, JsonV::Bool(true))])
}

/// Texts as an array of strings.
pub open spec fn str_items(v: Seq<Seq<char>>) -> Seq<JsonV> {
    Seq::new(v.len(), |i: int| JsonV::Str(v[i]))
}

/// The state after an edit of the timeline recorded in the history
/// (`p` is the state once recorded): the timeline the edit left, and on
/// success a save followed by `answer`, else the edit's error.
pub open spec fn edited(p: EditorView, out: (JsonV, Result<(), Seq<char>>), answer: JsonV) -> (
    EditorView,
    StepV,
) {
    let s1 = EditorView { timeline: out.0, ..p };
    match out.1 {
        Ok(_) => (s1, saved(s1, answer)),
        Err(e) => (s1, reply_err(e)),
    }
}

/// Removing each clip id of `ids` in turn, skipping items that are not
/// strings, and stopping at the first error.
pub open spec fn remove_all(t: JsonV, ids: Seq<JsonV>) -> (JsonV, Result<(), Seq<char>>)
    decreases ids.len(),
{
    if ids.len() == 0 {
        (t, Ok(()))
    } else {
        let prev = remove_all(t, ids.drop_last());
        if prev.1 is Err {
            prev
        } else {
            match ids.last().as_str() {
                Some(cid) => remove_outcome(prev.0, cid),
                None => prev,
            }
        }
    }
}

/// `get_timeline`: the summary of the timeline, with the frame rate `fps`.
pub open spec fn get_timeline_branch(s: EditorView, fps: JsonV) -> (EditorView, StepV) {
    (
        s,
        StepV::Reply(
            Ok(
                timeline_summary_value(
                    fps,
                    i64_or(s.timeline.i64_field("width"@), 1920),
                    i64_or(s.timeline.i64_field("height"@), 1080),
                    timeline_frames(s.timeline),
                    tracks_value(s.timeline),
                ),
            ),
        ),
    )
}

/// The entries of the media manifest, none without one.
pub open spec fn media_items(manifest: Option<JsonV>) -> Seq<JsonV> {
    match manifest_entries(manifest) {
        Some(es) => es,
        None => Seq::empty(),
    }
}

/// `get_media`: `{"entries": [...]}`.
pub open spec fn get_media_branch(s: EditorView) -> (EditorView, StepV) {
    (s, StepV::Reply(Ok(JsonV::Object(seq![("entries"@, JsonV::Array(media_items(s.manifest)))]))))
}

/// `import_media`: the file `source.path`, to be named `name` when given.
pub open spec fn import_step(args: JsonV) -> StepV {
    match args.field("source"@) {
        None => reply_err("source required"@),
        Some(src) => match src.str_field("path"@) {
            None => reply_err("source.path required"@),
            Some(p) => StepV::Import { path: p, name: args.str_field("name"@) },
        },
    }
}

/// `add_clips`: the entries added after recording the timeline; new ids
/// come from `fresh`. Answers `{"clipIds": [...]}`.
pub open spec fn add_branch(s: EditorView, args: JsonV, fresh: Seq<Seq<char>>) -> (EditorView, StepV) {
    match args.array_field("entries"@) {
        None => (s, reply_err("entries required"@)),
        Some(es) => {
            let p = pushed(s);
            let out = add_outcome(p.timeline, es, fresh);
            let s1 = EditorView { timeline: out.0, ..p };
            match out.1 {
                Ok(ids) => (
                    s1,
                    saved(s1, JsonV::Object(seq![("clipIds"@, JsonV::Array(str_items(ids)))])),
                ),
                Err(e) => (s1, reply_err(e)),
            }
        },
    }
}

/// `remove_clips`: each id of `clipIds` removed after recording the
/// timeline.
pub open spec fn remove_branch(s: EditorView, args: JsonV) -> (EditorView, StepV) {
    match args.array_field("clipIds"@) {
        None => (s, reply_err("clipIds required"@)),
        Some(ids) => edited(pushed(s), remove_all(s.timeline, ids), ok_answer()),
    }
}

/// `move_clips`: the clip `clipId` moved to `startFrame` after recording
/// the timeline.
pub open spec fn move_branch(s: EditorView, args: JsonV) -> (EditorView, StepV) {
    match args.str_field("clipId"@) {
        None => (s, reply_err("clipId required"@)),
        Some(id) => match args.i64_field("startFrame"@) {
            None => (s, reply_err("startFrame required"@)),
            Some(start) => edited(pushed(s), move_outcome(s.timeline, id, start), ok_answer()),
        },
    }
}

/// `set_clip_properties`: the fields of `properties` set on the clip
/// `clipId` after recording the timeline.
pub open spec fn props_branch(s: EditorView, args: JsonV) -> (EditorView, StepV) {
    match args.str_field("clipId"@) {
        None => (s, reply_err("clipId required"@)),
        Some(id) => match args.field("properties"@) {
            None => (s, reply_err("properties required"@)),
            Some(props) => edited(pushed(s), props_outcome(s.timeline, id, props), ok_answer()),
        },
    }
}

/// `split_clip`: the clip `clipId` cut at `atFrame` after recording the
/// timeline, the right part taking the id `new_id` and playing its source
/// from `trim_end`. Answers `{"newClipId": ...}`.
pub open spec fn split_branch(s: EditorView, args: JsonV, new_id: Seq<char>, trim_end: i64) -> (
    EditorView,
    StepV,
) {
    match args.str_field("clipId"@) {
        None => (s, reply_err("clipId required"@)),
        Some(id) => match args.i64_field("atFrame"@) {
            None => (s, reply_err("atFrame required"@)),
            Some(at) => {
                let p = pushed(s);
                let out = split_outcome(s.timeline, id, at, new_id, trim_end);
                let s1 = EditorView { timeline: out.0, ..p };
                match out.1 {
                    Ok(n) => (s1, saved(s1, JsonV::Object(seq![("newClipId"@, JsonV::Str(n))]))),
                    Err(e) => (s1, reply_err(e)),
                }
            },
        },
    }
}

/// `{"undone": b}`.
pub open spec fn undone_answer(b: bool) -> JsonV {
    JsonV::Object(seq![("undone"@, JsonV::Bool(b))])
}

/// `undo`: back one step; saved when there was one.
pub open spec fn undo_branch(s: EditorView) -> (EditorView, StepV) {
    let (s1, ok) = undone(s);
    if ok {
        (s1, saved(s1, undone_answer(true)))
    } else {
        (s1, StepV::Reply(Ok(undone_answer(false))))
    }
}

/// `export_video`: to `outputPath`, with `codec` or else `h264`.
pub open spec fn export_step(args: JsonV) -> StepV {
    match args.str_field("outputPath"@) {
        None => reply_err("outputPath required"@),
        Some(o) => StepV::Export {
            output: o,
            codec: match args.str_field("codec"@) {
                Some(c) => c,
                None => "h264"@,
            },
        },
    }
}

/// What the tool `name` does with `args` to the editor state `s`; `fps` is
/// the frame rate `get_timeline` reports, `fresh` the ids `add_clips`
/// takes, and `new_id` and `trim_end` the new clip's id and first source
/// frame of a split.
pub open spec fn tool_outcome(
    s: EditorView,
    name: Seq<char>,
    args: JsonV,
    fps: JsonV,
    fresh: Seq<Seq<char>>,
    new_id: Seq<char>,
    trim_end: i64,
) -> (EditorView, StepV) {
    if name == "split_clip"@ {
        split_branch(s, args, new_id, trim_end)
    } else if name == "get_timeline"@ {
        get_timeline_branch(s, fps)
    } else if name == "get_media"@ {
        get_media_branch(s)
    } else if name == "import_media"@ {
        (s, import_step(args))
    } else if name == "add_clips"@ {
        add_branch(s, args, fresh)
    } else if name == "remove_clips"@ {
        remove_branch(s, args)
    } else if name == "move_clips"@ {
        move_branch(s, args)
    } else if name == "set_clip_properties"@ {
        props_branch(s, args)
    } else if name == "undo"@ {
        undo_branch(s)
    } else if name == "export_video"@ {
        (s, export_step(args))
    } else {
        (s, reply_err("unknown tool: "@ + name))
    }
}

/// The arguments a split hands to the source-frame computation, when the
/// call is a split that reaches it.
pub open spec fn split_called(s: EditorView, name: Seq<char>, args: JsonV) -> Option<(i64, i64, Option<JsonV>)> {
    if name == "split_clip"@ {
        match (args.str_field("clipId"@), args.i64_field("atFrame"@)) {
            (Some(id), Some(at)) => if split_outcome(s.timeline, id, at, Seq::empty(), 0).1 is Ok {
                Some(split_source_args(s.timeline, id, at))
            } else {
                None
            },
            _ => None,
        }
    } else {
        None
    }
}

/// The machine limits of a tool call: the timeline's end frames fit in an
/// `i64` for `get_timeline`, the end of the clip to split does for
/// `split_clip`, and each track index asked for is below `usize::MAX` for
/// `add_clips`.
pub open spec fn tool_fits(s: EditorView, name: Seq<char>, args: JsonV) -> bool {
    if name == "split_clip"@ {
        match args.str_field("clipId"@) {
            Some(id) => split_fits(s.timeline, id),
            None => true,
        }
    } else if name == "get_timeline"@ {
        ends_fit(s.timeline)
    } else if name == "add_clips"@ {
        match args.array_field("entries"@) {
            Some(es) => track_indexes_bounded(es),
            None => true,
        }
    } else {
        true
    }
}

/// The tool call took the state from `s0` to `s1` and asked for `r`: as
/// [`tool_outcome`] says for some fresh ids, and, for a split, the source
/// frame `source_end` gave.
pub open spec fn tool_done<F: Fn(i64, i64, Option<Json>) -> i64>(
    s0: EditorView,
    name: Seq<char>,
    args: JsonV,
    fps: JsonV,
    source_end: F,
    s1: EditorView,
    r: StepV,
) -> bool {
    exists|fresh: Seq<Seq<char>>, new_id: Seq<char>, trim_end: i64|
        #![trigger tool_outcome(s0, name, args, fps, fresh, new_id, trim_end)]
        {
            &&& forall|i: int| 0 <= i < fresh.len() ==> is_uuid_text(#[trigger] fresh[i])
            &&& match split_called(s0, name, args) {
                Some((a, b, sp)) => is_uuid_text(new_id) && exists|speed: Option<Json>|
                    #![trigger call_ensures(source_end, (a, b, speed), trim_end)]
                    opt_deep(speed) == sp && call_ensures(source_end, (a, b, speed), trim_end),
                None => true,
            }
            &&& (s1, r) == tool_outcome(s0, name, args, fps, fresh, new_id, trim_end)
        }
}

/// Saving the project, then answering `answer`.
fn save_step(state: &EditorState, answer: Json) -> (r: ToolStep)
    ensures
        r@ == saved(state@, answer.deep()),
{
    match state.save_path() {
        Ok(path) => ToolStep::Save { path, answer },
        Err(e) => ToolStep::Reply(Err(e)),
    }
}

fn refused(msg: &str) -> (r: ToolStep)
    ensures
        r@ == reply_err(msg@),
{
    ToolStep::Reply(Err(msg.to_owned()))
}

/// `{"ok": true}`.
fn ok_json() -> (r: Json)
    ensures
        r.deep() == ok_answer(),
{
    single("ok", Json::Bool(true))
}

/// The texts as an array of strings.
fn text_array(v: Vec<String>) -> (r: Json)
    ensures
        r.deep() == JsonV::Array(str_items(texts_view(v@))),
{
    broadcast use group_json_lemmas;

    let ghost want = str_items(texts_view(v@));
    let mut out: Vec<Json> = Vec::new();
    let mut i: usize = 0;
    while i < v.len()
        invariant
            i <= v.len(),
            want == str_items(texts_view(v@)),
            deep_seq(out@) == want.take(i as int),
        decreases v.len() - i,
    {
        broadcast use group_json_lemmas;

        let ghost before = deep_seq(out@);
        out.push(Json::Str(v[i].clone()));
        assert(deep_seq(out@) =~= before.push(JsonV::Str(v@[i as int]@)));
        assert(want.take(i + 1) =~= want.take(i as int).push(want[i as int]));
        i = i + 1;
    }
    assert(want.take(v.len() as int) =~= want);
    Json::Array(out)
}

/// A removal that failed stays failed whatever ids follow.
proof fn lemma_remove_all_stops(t: JsonV, ids: Seq<JsonV>, n: int)
    requires
        0 <= n <= ids.len(),
        remove_all(t, ids.take(n)).1 is Err,
    ensures
        remove_all(t, ids) == remove_all(t, ids.take(n)),
    decreases ids.len(),
{
    if n == ids.len() {
        assert(ids.take(n) =~= ids);
    } else {
        assert(ids.drop_last().take(n) =~= ids.take(n));
        lemma_remove_all_stops(t, ids.drop_last(), n);
    }
}

/// Removes each clip id of `ids` in turn, skipping items that are not
/// strings, and stops at the first error.
fn remove_each(timeline: &mut Json, ids: &Vec<Json>) -> (r: Result<(), String>)
    ensures
        (final(timeline).deep(), unit_result(r)) == remove_all(old(timeline).deep(), deep_seq(ids@)),
{
    broadcast use group_json_lemmas;

    let ghost t0 = timeline.deep();
    let ghost all = deep_seq(ids@);
    assert(all.take(0) =~= Seq::<JsonV>::empty());
    let mut i: usize = 0;
    while i < ids.len()
        invariant
            i <= ids.len(),
            all == deep_seq(ids@),
            t0 == old(timeline).deep(),
            remove_all(t0, all.take(i as int)) == (timeline.deep(), Ok::<(), Seq<char>>(())),
        decreases ids.len() - i,
    {
        broadcast use group_json_lemmas;

        assert(all.take(i + 1).drop_last() =~= all.take(i as int));
        assert(all.take(i + 1).last() == ids@[i as int].deep());
        match ids[i].as_str() {
            Some(cid) => {
                let ghost tb = timeline.deep();
                assert(remove_all(t0, all.take(i + 1)) == remove_outcome(tb, cid@));
                let res = remove_clip(timeline, cid.as_str());
                match res {
                    Ok(()) => {},
                    Err(e) => {
                        proof {
                            lemma_remove_all_stops(t0, all, i + 1);
                        }
                        return Err(e);
                    },
                }
            },
            None => {},
        }
        i = i + 1;
    }
    assert(all.take(ids.len() as int) =~= all);
    Ok(())
}

fn tool_get_media(state: &EditorState) -> (r: ToolStep)
    ensures
        (state@, r@) == get_media_branch(state@),
{
    broadcast use group_json_lemmas;

    let items = list_media(state.manifest.as_ref());
    ToolStep::Reply(Ok(single("entries", Json::Array(items))))
}

fn import_request(args: &Json) -> (r: ToolStep)
    ensures
        r@ == import_step(args.deep()),
{
    let src = match args.get("source") {
        Some(v) => v,
        None => {
            return refused("source required");
        },
    };
    let path = match src.get("path") {
        Some(v) => match v.as_str() {
            Some(p) => p.clone(),
            None => {
                return refused("source.path required");
            },
        },
        None => {
            return refused("source.path required");
        },
    };
    let name = match args.get("name") {
        Some(v) => match v.as_str() {
            Some(n) => Some(n.clone()),
            None => None,
        },
        None => None,
    };
    ToolStep::Import { path, name }
}

fn export_request(args: &Json) -> (r: ToolStep)
    ensures
        r@ == export_step(args.deep()),
{
    let output = match args.get("outputPath") {
        Some(v) => match v.as_str() {
            Some(o) => o.clone(),
            None => {
                return refused("outputPath required");
            },
        },
        None => {
            return refused("outputPath required");
        },
    };
    let codec = match args.get("codec") {
        Some(v) => match v.as_str() {
            Some(c) => c.clone(),
            None => "h264".to_owned(),
        },
        None => "h264".to_owned(),
    };
    ToolStep::Export { output, codec }
}

fn tool_remove_clips(state: &mut EditorState, args: &Json) -> (r: ToolStep)
    ensures
        (final(state)@, r@) == remove_branch(old(state)@, args.deep()),
{
    let ids = match args.get("clipIds") {
        Some(v) => match v.as_array() {
            Some(a) => a,
            None => {
                return refused("clipIds required");
            },
        },
        None => {
            return refused("clipIds required");
        },
    };
    state.push_undo();
    match remove_each(&mut state.timeline, ids) {
        Ok(()) => save_step(state, ok_json()),
        Err(e) => ToolStep::Reply(Err(e)),
    }
}

fn tool_move_clip(state: &mut EditorState, args: &Json) -> (r: ToolStep)
    ensures
        (final(state)@, r@) == move_branch(old(state)@, args.deep()),
{
    let id = match args.get("clipId") {
        Some(v) => match v.as_str() {
            Some(s) => s,
            None => {
                return refused("clipId required");
            },
        },
        None => {
            return refused("clipId required");
        },
    };
    let start = match args.get("startFrame") {
        Some(v) => match v.as_i64() {
            Some(x) => x,
            None => {
                return refused("startFrame required");
            },
        },
        None => {
            return refused("startFrame required");
        },
    };
    state.push_undo();
    match move_clip(&mut state.timeline, id.as_str(), start) {
        Ok(()) => save_step(state, ok_json()),
        Err(e) => ToolStep::Reply(Err(e)),
    }
}

fn tool_set_properties(state: &mut EditorState, args: &Json) -> (r: ToolStep)
    ensures
        (final(state)@, r@) == props_branch(old(state)@, args.deep()),
{
    let id = match args.get("clipId") {
        Some(v) => match v.as_str() {
            Some(s) => s,
            None => {
                return refused("clipId required");
            },
        },
        None => {
            return refused("clipId required");
        },
    };
    let props = match args.get("properties") {
        Some(v) => v,
        None => {
            return refused("properties required");
        },
    };
    state.push_undo();
    match set_clip_properties(&mut state.timeline, id.as_str(), props) {
        Ok(()) => save_step(state, ok_json()),
        Err(e) => ToolStep::Reply(Err(e)),
    }
}

fn tool_undo(state: &mut EditorState) -> (r: ToolStep)
    ensures
        (final(state)@, r@) == undo_branch(old(state)@),
{
    if state.undo() {
        save_step(state, single("undone", Json::Bool(true)))
    } else {
        ToolStep::Reply(Ok(single("undone", Json::Bool(false))))
    }
}

fn tool_add_clips(state: &mut EditorState, args: &Json) -> (r: ToolStep)
    requires
        match args.deep().array_field("entries"@) {
            Some(es) => track_indexes_bounded(es),
            None => true,
        },
    ensures
        exists|fresh: Seq<Seq<char>>|
            #![trigger add_branch(old(state)@, args.deep(), fresh)]
            {
                &&& forall|i: int| 0 <= i < fresh.len() ==> is_uuid_text(#[trigger] fresh[i])
                &&& (final(state)@, r@) == add_branch(old(state)@, args.deep(), fresh)
            },
{
    let ghost s0 = state@;
    let ghost a = args.deep();
    let es = match args.get("entries") {
        Some(v) => match v.as_array() {
            Some(x) => x,
            None => {
                let r = refused("entries required");
                assert((state@, r@) == add_branch(s0, a, Seq::empty()));
                return r;
            },
        },
        None => {
            let r = refused("entries required");
            assert((state@, r@) == add_branch(s0, a, Seq::empty()));
            return r;
        },
    };
    let ghost ev = deep_seq(es@);
    state.push_undo();
    let ghost t1 = state@.timeline;
    let res = add_clips(&mut state.timeline, es);
    let ghost rv = texts_result(res);
    let ghost t2 = state@.timeline;
    let ghost fresh = choose|ids: Seq<Seq<char>>|
        {
            &&& forall|i: int| 0 <= i < ids.len() ==> is_uuid_text(#[trigger] ids[i])
            &&& (t2, rv) == add_outcome(t1, ev, ids)
        };
    assert(add_outcome(t1, ev, fresh) == (t2, rv));
    match res {
        Ok(ids) => {
            let ans = single("clipIds", text_array(ids));
            let r = save_step(state, ans);
            assert((state@, r@) == add_branch(s0, a, fresh));
            r
        },
        Err(e) => {
            let r = ToolStep::Reply(Err(e));
            assert((state@, r@) == add_branch(s0, a, fresh));
            r
        },
    }
}

fn tool_split_clip<F: Fn(i64, i64, Option<Json>) -> i64>(
    state: &mut EditorState,
    args: &Json,
    source_end: F,
) -> (r: ToolStep)
    requires
        match args.deep().str_field("clipId"@) {
            Some(id) => split_fits(old(state)@.timeline, id),
            None => true,
        },
        forall|a: i64, b: i64, c: Option<Json>| call_requires(source_end, (a, b, c)),
    ensures
        exists|new_id: Seq<char>, trim_end: i64|
            #![trigger split_branch(old(state)@, args.deep(), new_id, trim_end)]
            {
                &&& match split_called(old(state)@, "split_clip"@, args.deep()) {
                    Some((a, b, sp)) => is_uuid_text(new_id) && exists|speed: Option<Json>|
                        #![trigger call_ensures(source_end, (a, b, speed), trim_end)]
                        opt_deep(speed) == sp && call_ensures(source_end, (a, b, speed), trim_end),
                    None => true,
                }
                &&& (final(state)@, r@) == split_branch(old(state)@, args.deep(), new_id, trim_end)
            },
{
    let ghost s0 = state@;
    let ghost a = args.deep();
    let id = match args.get("clipId") {
        Some(v) => match v.as_str() {
            Some(x) => x,
            None => {
                let r = refused("clipId required");
                assert((state@, r@) == split_branch(s0, a, Seq::empty(), 0));
                return r;
            },
        },
        None => {
            let r = refused("clipId required");
            assert((state@, r@) == split_branch(s0, a, Seq::empty(), 0));
            return r;
        },
    };
    let at = match args.get("atFrame") {
        Some(v) => match v.as_i64() {
            Some(x) => x,
            None => {
                let r = refused("atFrame required");
                assert((state@, r@) == split_branch(s0, a, Seq::empty(), 0));
                return r;
            },
        },
        None => {
            let r = refused("atFrame required");
            assert((state@, r@) == split_branch(s0, a, Seq::empty(), 0));
            return r;
        },
    };
    state.push_undo();
    let ghost t1 = state@.timeline;
    let res = split_clip(&mut state.timeline, id.as_str(), at, source_end);
    let ghost rv = text_result(res);
    let ghost t2 = state@.timeline;
    let ghost (ts0, left, sp) = split_source_args(t1, id@, at);
    let ghost (new_id, speed_w, trim_end) = if split_outcome(t1, id@, at, Seq::empty(), 0).1 is Ok {
        choose|n: Seq<char>, speed: Option<Json>, te: i64|
            {
                &&& is_uuid_text(n)
                &&& opt_deep(speed) == sp
                &&& call_ensures(source_end, (ts0, left, speed), te)
                &&& (t2, rv) == split_outcome(t1, id@, at, n, te)
            }
    } else {
        (Seq::empty(), None, 0i64)
    };
    proof {
        if split_outcome(t1, id@, at, Seq::empty(), 0).1 is Ok {
            assert(split_called(s0, "split_clip"@, a) == Some((ts0, left, sp)));
            assert(is_uuid_text(new_id));
            assert(opt_deep(speed_w) == sp && call_ensures(source_end, (ts0, left, speed_w), trim_end));
            assert(exists|speed: Option<Json>|
                #![trigger call_ensures(source_end, (ts0, left, speed), trim_end)]
                opt_deep(speed) == sp && call_ensures(source_end, (ts0, left, speed), trim_end));
        } else {
            assert(split_called(s0, "split_clip"@, a) is None);
        }
    }
    assert((t2, rv) == split_outcome(t1, id@, at, new_id, trim_end));
    match res {
        Ok(n) => {
            let ans = single("newClipId", Json::Str(n));
            let r = save_step(state, ans);
            assert((state@, r@) == split_branch(s0, a, new_id, trim_end));
            assert(match split_called(s0, "split_clip"@, a) {
                Some((x, y, sp)) => is_uuid_text(new_id) && exists|speed: Option<Json>|
                    #![trigger call_ensures(source_end, (x, y, speed), trim_end)]
                    opt_deep(speed) == sp && call_ensures(source_end, (x, y, speed), trim_end),
                None => true,
            });
            r
        },
        Err(e) => {
            let r = ToolStep::Reply(Err(e));
            assert((state@, r@) == split_branch(s0, a, new_id, trim_end));
            r
        },
    }
}

/// Carries out the tool `name` with `args` on the editor state, and says
/// what the caller does next: answer, save then answer, import a file or
/// export the timeline.
///
/// An edit records the timeline in the undo history first, also when the
/// edit then fails. `fps` is the frame rate `get_timeline` reports, and
/// `source_end` computes where the right part of a split begins in its
/// source (see [`crate::edit::split_clip_with_id`]).
pub fn call_tool<F: Fn(i64, i64, Option<Json>) -> i64>(
    state: &mut EditorState,
    name: &str,
    args: &Json,
    fps: Json,
    source_end: F,
) -> (r: ToolStep)
    requires
        tool_fits(old(state)@, name@, args.deep()),
        forall|a: i64, b: i64, c: Option<Json>| call_requires(source_end, (a, b, c)),
    ensures
        tool_done(old(state)@, name@, args.deep(), fps.deep(), source_end, final(state)@, r@),
{
    let ghost s0 = state@;
    let ghost a = args.deep();
    let ghost f = fps.deep();
    let ghost none: Seq<Seq<char>> = Seq::empty();
    if same_text(name, "split_clip") {
        let r = tool_split_clip(state, args, source_end);
        proof {
            let (new_id, te) = choose|new_id: Seq<char>, trim_end: i64|
                {
                    &&& match split_called(s0, "split_clip"@, a) {
                        Some((x, y, sp)) => is_uuid_text(new_id) && exists|speed: Option<Json>|
                            #![trigger call_ensures(source_end, (x, y, speed), trim_end)]
                            opt_deep(speed) == sp && call_ensures(source_end, (x, y, speed), trim_end),
                        None => true,
                    }
                    &&& (state@, r@) == split_branch(s0, a, new_id, trim_end)
                };
            assert(tool_outcome(s0, name@, a, f, none, new_id, te) == split_branch(s0, a, new_id, te));
            assert(split_called(s0, name@, a) == split_called(s0, "split_clip"@, a));
        }
        return r;
    }
    let r = if same_text(name, "get_timeline") {
        ToolStep::Reply(Ok(timeline_summary_json(state, fps)))
    } else if same_text(name, "get_media") {
        tool_get_media(state)
    } else if same_text(name, "import_media") {
        import_request(args)
    } else if same_text(name, "add_clips") {
        let r = tool_add_clips(state, args);
        proof {
            let fresh = choose|fresh: Seq<Seq<char>>|
                {
                    &&& forall|i: int| 0 <= i < fresh.len() ==> is_uuid_text(#[trigger] fresh[i])
                    &&& (state@, r@) == add_branch(s0, a, fresh)
                };
            assert(tool_outcome(s0, name@, a, f, fresh, Seq::empty(), 0) == add_branch(s0, a, fresh));
            assert(split_called(s0, name@, a) is None);
        }
        return r;
    } else if same_text(name, "remove_clips") {
        tool_remove_clips(state, args)
    } else if same_text(name, "move_clips") {
        tool_move_clip(state, args)
    } else if same_text(name, "set_clip_properties") {
        tool_set_properties(state, args)
    } else if same_text(name, "undo") {
        tool_undo(state)
    } else if same_text(name, "export_video") {
        export_request(args)
    } else {
        ToolStep::Reply(Err(join("unknown tool: ", name)))
    };
    assert((state@, r@) == tool_outcome(s0, name@, a, f, none, Seq::empty(), 0));
    assert(split_called(s0, name@, a) is None);
    r
}

/// Whether a tool call stays within the machine limits that
/// [`call_tool`] needs (see [`tool_fits`]).
pub fn tool_fits_check(state: &EditorState, name: &str, args: &Json) -> (r: bool)
    ensures
        r == tool_fits(state@, name@, args.deep()),
{
    if same_text(name, "split_clip") {
        match args.get("clipId") {
            Some(v) => match v.as_str() {
                Some(id) => split_fits_check(&state.timeline, id.as_str()),
                None => true,
            },
            None => true,
        }
    } else if same_text(name, "get_timeline") {
        frames_fit(&state.timeline)
    } else if same_text(name, "add_clips") {
        match args.get("entries") {
            Some(v) => match v.as_array() {
                Some(es) => track_indexes_check(es),
                None => true,
            },
            None => true,
        }
    } else {
        true
    }
}

/// A two-entry object.
fn pair(k1: &str, v1: Json, k2: &str, v2: Json) -> (r: Json)
    ensures
        r.deep() == JsonV::Object(seq![(k1@, v1.deep()), (k2@, v2.deep())]),
{
    broadcast use group_json_lemmas;

    let ghost (a, b) = (v1.deep(), v2.deep());
    let mut es: Vec<(String, Json)> = Vec::new();
    es.push((k1.to_owned(), v1));
    es.push((k2.to_owned(), v2));
    assert(Json::deep_entries(es@) =~= seq![(k1@, a), (k2@, b)]);
    Json::Object(es)
}

/// What `export_video` answers once the export is written:
/// `{"outputPath": output, "codec": codec}`.
pub open spec fn export_answer_value(output: Seq<char>, codec: Seq<char>) -> JsonV {
    JsonV::Object(seq![("outputPath"@, JsonV::Str(output)), ("codec"@, JsonV::Str(codec))])
}

/// What `export_video` answers once the export is written.
pub fn export_answer(output: &str, codec: &str) -> (r: Json)
    ensures
        r.deep() == export_answer_value(output@, codec@),
{
    pair("outputPath", Json::text(output), "codec", Json::text(codec))
}

/// What `import_media` answers: the first new id (empty when there is
/// none) and all of them.
pub open spec fn import_answer(ids: Seq<Seq<char>>) -> JsonV {
    JsonV::Object(
        seq![
            ("mediaRef"@, JsonV::Str(
                if ids.len() > 0 {
                    ids[0]
                } else {
                    Seq::empty()
                },
            )),
            ("ids"@, JsonV::Array(str_items(ids))),
        ],
    )
}

/// A manifest entry named `name`: an object gets its `name` field set, and
/// `null` becomes an object holding only the name.
pub open spec fn renamed(e: JsonV, name: Seq<char>) -> JsonV {
    match e {
        JsonV::Null => JsonV::Object(seq![("name"@, JsonV::Str(name))]),
        _ => e.with_field("name"@, JsonV::Str(name)),
    }
}

/// The manifest with its last entry named `name`, when it has one.
pub open spec fn with_last_renamed(manifest: Option<JsonV>, name: Seq<char>) -> Option<JsonV> {
    match manifest {
        None => None,
        Some(m) => match m.array_field("entries"@) {
            Some(es) => if es.len() > 0 {
                Some(
                    m.with_field(
                        "entries"@,
                        JsonV::Array(es.update(es.len() - 1, renamed(es.last(), name))),
                    ),
                )
            } else {
                Some(m)
            },
            None => Some(m),
        },
    }
}

/// The manifest's last entry, if any, can take a name: it is an object or
/// `null`.
pub open spec fn last_nameable(manifest: Option<JsonV>) -> bool {
    match manifest_entries(manifest) {
        Some(es) => es.len() > 0 ==> (es.last() is Object || es.last() is Null),
        None => true,
    }
}

/// Names the manifest's last entry `name`.
fn rename_last(manifest: &mut Option<Json>, name: String)
    requires
        last_nameable(opt_deep(*old(manifest))),
    ensures
        opt_deep(*final(manifest)) == with_last_renamed(opt_deep(*old(manifest)), name@),
{
    broadcast use group_json_lemmas;

    match manifest.take() {
        None => {},
        Some(mut m) => {
            let ghost mv = m.deep();
            match m.take_array_field("entries") {
                Some(mut es) => {
                    let ghost ev = deep_seq(es@);
                    if es.len() > 0 {
                        let last = es.pop().unwrap();
                        let ghost lv = last.deep();
                        let named = match last {
                            Json::Null => single("name", Json::Str(name)),
                            mut o => {
                                o.set("name", Json::Str(name));
                                o
                            },
                        };
                        let ghost nv = named.deep();
                        assert(nv == renamed(lv, name@));
                        es.push(named);
                        assert(deep_seq(es@) =~= ev.update(ev.len() - 1, nv));
                    }
                    let ghost new_items = deep_seq(es@);
                    m.set("entries", Json::Array(es));
                    proof {
                        lemma_with_field_twice(mv, "entries"@, JsonV::Null, JsonV::Array(new_items));
                        if ev.len() == 0 {
                            assert(new_items =~= ev);
                            lemma_with_field_same(mv, "entries"@);
                        }
                    }
                },
                None => {},
            }
            *manifest = Some(m);
        },
    }
}

/// Ends an `import_media` call once the files are imported with the ids
/// `ids`: when the call gave a `name`, the last manifest entry takes it and
/// the project is saved before the answer.
pub fn finish_import(state: &mut EditorState, ids: Vec<String>, name: Option<String>) -> (r: ToolStep)
    requires
        name is Some ==> last_nameable(old(state)@.manifest),
    ensures
        match name {
            None => final(state)@ == old(state)@ && r@ == StepV::Reply(
                Ok(import_answer(texts_view(ids@))),
            ),
            Some(n) => final(state)@ == (EditorView {
                manifest: with_last_renamed(old(state)@.manifest, n@),
                ..old(state)@
            }) && r@ == saved(final(state)@, import_answer(texts_view(ids@))),
        },
{
    let ghost idv = texts_view(ids@);
    let first = if ids.len() > 0 {
        ids[0].clone()
    } else {
        String::new()
    };
    let ans = pair("mediaRef", Json::Str(first), "ids", text_array(ids));
    assert(ans.deep() == import_answer(idv));
    match name {
        None => ToolStep::Reply(Ok(ans)),
        Some(n) => {
            rename_last(&mut state.manifest, n);
            save_step(state, ans)
        },
    }
}

/// The tool names name different tools.
proof fn lemma_tool_names_differ()
    ensures
        "add_clips"@ != "split_clip"@,
        "add_clips"@ != "get_timeline"@,
        "add_clips"@ != "get_media"@,
        "add_clips"@ != "import_media"@,
        "remove_clips"@ != "split_clip"@,
        "remove_clips"@ != "get_timeline"@,
        "remove_clips"@ != "get_media"@,
        "remove_clips"@ != "import_media"@,
        "remove_clips"@ != "add_clips"@,
        "move_clips"@ != "split_clip"@,
        "move_clips"@ != "get_timeline"@,
        "move_clips"@ != "get_media"@,
        "move_clips"@ != "import_media"@,
        "move_clips"@ != "add_clips"@,
        "move_clips"@ != "remove_clips"@,
        "set_clip_properties"@ != "split_clip"@,
        "set_clip_properties"@ != "get_timeline"@,
        "set_clip_properties"@ != "get_media"@,
        "set_clip_properties"@ != "import_media"@,
        "set_clip_properties"@ != "add_clips"@,
        "set_clip_properties"@ != "remove_clips"@,
        "set_clip_properties"@ != "move_clips"@,
        "undo"@ != "split_clip"@,
        "undo"@ != "get_timeline"@,
        "undo"@ != "get_media"@,
        "undo"@ != "import_media"@,
        "undo"@ != "add_clips"@,
        "undo"@ != "remove_clips"@,
        "undo"@ != "move_clips"@,
        "undo"@ != "set_clip_properties"@,
{
    reveal_strlit("split_clip");
    reveal_strlit("get_timeline");
    reveal_strlit("get_media");
    reveal_strlit("import_media");
    reveal_strlit("add_clips");
    reveal_strlit("remove_clips");
    reveal_strlit("move_clips");
    reveal_strlit("set_clip_properties");
    reveal_strlit("undo");
    assert("split_clip"@[0] == 's' && "split_clip"@[1] == 'p');
    assert("get_timeline"@[0] == 'g');
    assert("get_media"@[0] == 'g');
    assert("import_media"@[0] == 'i');
    assert("add_clips"@[0] == 'a');
    assert("remove_clips"@[0] == 'r');
    assert("move_clips"@[0] == 'm');
    assert("set_clip_properties"@[0] == 's' && "set_clip_properties"@[1] == 'e');
    assert("undo"@[0] == 'u');
}

/// The call reads every argument the editing tool `name` needs: after
/// that, the tool records the timeline before it edits.
pub open spec fn edit_args_read(name: Seq<char>, args: JsonV) -> bool {
    if name == "add_clips"@ {
        args.array_field("entries"@) is Some
    } else if name == "remove_clips"@ {
        args.array_field("clipIds"@) is Some
    } else if name == "move_clips"@ {
        args.str_field("clipId"@) is Some && args.i64_field("startFrame"@) is Some
    } else if name == "set_clip_properties"@ {
        args.str_field("clipId"@) is Some && args.field("properties"@) is Some
    } else if name == "split_clip"@ {
        args.str_field("clipId"@) is Some && args.i64_field("atFrame"@) is Some
    } else {
        false
    }
}

/// A call of an editing tool that reads its arguments records the
/// timeline it started from, whether the edit succeeds or not; a call of
/// `undo` that follows brings that timeline back, and the history as it
/// was unless recording had to drop its oldest entry.
pub proof fn law_undo_after_edit(
    s: EditorView,
    name: Seq<char>,
    args: JsonV,
    fps: JsonV,
    fresh: Seq<Seq<char>>,
    new_id: Seq<char>,
    trim_end: i64,
)
    requires
        edit_args_read(name, args),
    ensures
        ({
            let s1 = tool_outcome(s, name, args, fps, fresh, new_id, trim_end).0;
            let s2 = tool_outcome(s1, "undo"@, args, fps, fresh, new_id, trim_end);
            &&& s1.history == record(s.history, s.timeline)
            &&& s1.project_path == s.project_path
            &&& s2.0.timeline == s.timeline
            &&& s2.0.project_path == s.project_path
            &&& s2.1 == saved(s2.0, undone_answer(true))
            &&& s.history.len() < UNDO_LIMIT ==> s2.0.history == s.history
        }),
{
    lemma_tool_names_differ();
    let s1 = tool_outcome(s, name, args, fps, fresh, new_id, trim_end).0;
    assert(s1.history == record(s.history, s.timeline));
    let h = s.history.push(s.timeline);
    if h.len() <= UNDO_LIMIT {
        assert(h.drop_last() =~= s.history);
    }
}

/// `undo` with an empty history changes nothing and answers
/// `{"undone": false}` without saving.
pub proof fn law_undo_nothing(s: EditorView, args: JsonV, fps: JsonV, fresh: Seq<Seq<char>>, new_id: Seq<char>, trim_end: i64)
    requires
        s.history.len() == 0,
    ensures
        tool_outcome(s, "undo"@, args, fps, fresh, new_id, trim_end) == (s, StepV::Reply(Ok(undone_answer(false)))),
{
    lemma_tool_names_differ();
}


/// Runs a `tools/call` request with parameters `params`: the tool it names
/// is carried out with its arguments (an empty object when it gives none)
/// as [`call_tool`] does; a request without a tool name is refused with
/// `missing tool name`. What the tool then answers, failure included, is
/// wrapped as a tool result by [`crate::mcp::tool_call_answer`], so a
/// failing tool is no failed request.
pub fn dispatch_tool_call<F: Fn(i64, i64, Option<Json>) -> i64>(
    state: &mut EditorState,
    params: &Json,
    fps: Json,
    source_end: F,
) -> (r: Result<ToolStep, String>)
    requires
        match tool_call_parts_spec(params.deep()) {
            Ok((name, args)) => tool_fits(old(state)@, name, args),
            Err(_) => true,
        },
        forall|a: i64, b: i64, c: Option<Json>| call_requires(source_end, (a, b, c)),
    ensures
        match tool_call_parts_spec(params.deep()) {
            Err(e) => r is Err && r->Err_0@ == e && final(state)@ == old(state)@,
            Ok((name, args)) => r is Ok && tool_done(
                old(state)@,
                name,
                args,
                fps.deep(),
                source_end,
                final(state)@,
                r->Ok_0@,
            ),
        },
{
    match tool_call_parts(params) {
        Err(e) => Err(e),
        Ok((name, args)) => Ok(call_tool(state, name.as_str(), &args, fps, source_end)),
    }
}

} // verus!
