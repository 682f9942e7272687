use vstd::prelude::*;
use crate::edit::{add_entries, add_outcome, move_outcome, props_outcome, split_outcome, tracks_of};
use crate::json::{first_key_at, lemma_first_key_unique, JsonV};
use crate::mcp::tool_definitions_value;
use crate::state::{pushed, undone, EditorView};
use crate::tools::{
    add_branch, edited, move_branch, ok_answer, props_branch, remove_all, remove_branch, reply_err,
    saved, split_branch, str_items, tool_outcome, undone_answer, StepV,
};

verus! {

/// The names of the tools, in the order `tools/list` gives them.
pub open spec fn tool_names() -> Seq<Seq<char>> {
    seq![
        "get_timeline"@,
        "get_media"@,
        "import_media"@,
        "add_clips"@,
        "remove_clips"@,
        "move_clips"@,
        "set_clip_properties"@,
        "split_clip"@,
        "undo"@,
        "export_video"@,
    ]
}

/// The tool definitions carry the names of [`tool_names`], in order.
pub proof fn law_advertised_names()
    ensures
        tool_definitions_value().len() == tool_names().len(),
        forall|i: int|
            0 <= i < tool_names().len() ==> (#[trigger] tool_definitions_value()[i]).str_field("name"@)
                == Some(tool_names()[i]),
{
    assert forall|i: int| 0 <= i < tool_names().len() implies (#[trigger] tool_definitions_value()[i]).str_field(
        "name"@,
    ) == Some(tool_names()[i]) by {
        let es = tool_definitions_value()[i]->Object_0;
        assert(first_key_at(es, "name"@, 0));
        lemma_first_key_unique(es, "name"@, 0);
    }
}

/// A name that no tool has gets the error `unknown tool: ` and the name,
/// and changes nothing.
pub proof fn law_unknown_tool(
    s: EditorView,
    name: Seq<char>,
    args: JsonV,
    fps: JsonV,
    fresh: Seq<Seq<char>>,
    new_id: Seq<char>,
    trim_end: i64,
)
    requires
        !tool_names().contains(name),
    ensures
        tool_outcome(s, name, args, fps, fresh, new_id, trim_end) == (s, reply_err("unknown tool: "@ + name)),
{
    assert(tool_names()[0] == "get_timeline"@);
    assert(tool_names()[1] == "get_media"@);
    assert(tool_names()[2] == "import_media"@);
    assert(tool_names()[3] == "add_clips"@);
    assert(tool_names()[4] == "remove_clips"@);
    assert(tool_names()[5] == "move_clips"@);
    assert(tool_names()[6] == "set_clip_properties"@);
    assert(tool_names()[7] == "split_clip"@);
    assert(tool_names()[8] == "undo"@);
    assert(tool_names()[9] == "export_video"@);
}

/// `e` is an error text that does not begin as the unknown-tool error does.
pub open spec fn not_unknown_text(e: Seq<char>) -> bool {
    e.len() > 0 && e[0] != 'u'
}

/// What a tool asks for is not the unknown-tool error.
pub open spec fn not_unknown(step: StepV) -> bool {
    match step {
        StepV::Reply(Err(e)) => not_unknown_text(e),
        _ => true,
    }
}

/// The first characters of the error texts the tools give.
proof fn lemma_error_texts()
    ensures
        not_unknown_text("no tracks"@),
        forall|id: Seq<char>| #[trigger] not_unknown_text("clip not found: "@ + id),
        not_unknown_text("split frame must be inside clip"@),
        not_unknown_text("mediaRef required"@),
        not_unknown_text("startFrame required"@),
        not_unknown_text("durationFrames required"@),
        not_unknown_text("no project open"@),
        not_unknown_text("clipId required"@),
        not_unknown_text("atFrame required"@),
        not_unknown_text("properties required"@),
        not_unknown_text("entries required"@),
        not_unknown_text("clipIds required"@),
        not_unknown_text("source required"@),
        not_unknown_text("source.path required"@),
        not_unknown_text("outputPath required"@),
{
    reveal_strlit("no tracks");
    reveal_strlit("clip not found: ");
    reveal_strlit("split frame must be inside clip");
    reveal_strlit("mediaRef required");
    reveal_strlit("startFrame required");
    reveal_strlit("durationFrames required");
    reveal_strlit("no project open");
    reveal_strlit("clipId required");
    reveal_strlit("atFrame required");
    reveal_strlit("properties required");
    reveal_strlit("entries required");
    reveal_strlit("clipIds required");
    reveal_strlit("source required");
    reveal_strlit("source.path required");
    reveal_strlit("outputPath required");
    assert forall|id: Seq<char>| #[trigger] not_unknown_text("clip not found: "@ + id) by {
        assert(("clip not found: "@ + id)[0] == "clip not found: "@[0]);
    }
}

/// Saving is never the unknown-tool error.
proof fn lemma_saved(s: EditorView, answer: JsonV)
    ensures
        not_unknown(saved(s, answer)),
{
    lemma_error_texts();
}

/// Removing ids fails only as one removal does.
proof fn lemma_remove_all_errors(t: JsonV, ids: Seq<JsonV>)
    ensures
        remove_all(t, ids).1 matches Err(e) ==> not_unknown_text(e),
    decreases ids.len(),
{
    lemma_error_texts();
    if ids.len() > 0 {
        lemma_remove_all_errors(t, ids.drop_last());
    }
}

/// Adding entries fails only as an entry is refused.
proof fn lemma_add_entries_errors(tracks: Seq<JsonV>, entries: Seq<JsonV>, ids: Seq<Seq<char>>)
    ensures
        add_entries(tracks, entries, ids).3 matches Some(e) ==> not_unknown_text(e),
    decreases entries.len(),
{
    lemma_error_texts();
    if entries.len() > 0 {
        lemma_add_entries_errors(tracks, entries.drop_last(), ids);
    }
}

/// A split is answered with a save or with one of its own errors.
proof fn lemma_split_branch(s: EditorView, args: JsonV, new_id: Seq<char>, trim_end: i64)
    ensures
        not_unknown(split_branch(s, args, new_id, trim_end).1),
{
    lemma_error_texts();
    if let Some(id) = args.str_field("clipId"@) {
        if let Some(at) = args.i64_field("atFrame"@) {
            let p = pushed(s);
            let out = split_outcome(s.timeline, id, at, new_id, trim_end);
            let s1 = EditorView { timeline: out.0, ..p };
            if let Ok(n) = out.1 {
                lemma_saved(s1, JsonV::Object(seq![("newClipId"@, JsonV::Str(n))]));
            }
        }
    }
}

/// An edit through [`edited`] is answered with a save or with the edit's
/// error.
proof fn lemma_edited(p: EditorView, out: (JsonV, Result<(), Seq<char>>))
    requires
        out.1 matches Err(e) ==> not_unknown_text(e),
    ensures
        not_unknown(edited(p, out, ok_answer()).1),
{
    lemma_saved(EditorView { timeline: out.0, ..p }, ok_answer());
}

/// Moving a clip, setting its properties or removing clips fails only with
/// the texts of [`lemma_error_texts`].
proof fn lemma_edit_branches(s: EditorView, args: JsonV)
    ensures
        not_unknown(move_branch(s, args).1),
        not_unknown(props_branch(s, args).1),
        not_unknown(remove_branch(s, args).1),
{
    lemma_error_texts();
    if let Some(id) = args.str_field("clipId"@) {
        if let Some(start) = args.i64_field("startFrame"@) {
            lemma_edited(pushed(s), move_outcome(s.timeline, id, start));
        }
        if let Some(props) = args.field("properties"@) {
            lemma_edited(pushed(s), props_outcome(s.timeline, id, props));
        }
    }
    if let Some(ids) = args.array_field("clipIds"@) {
        lemma_remove_all_errors(s.timeline, ids);
        lemma_edited(pushed(s), remove_all(s.timeline, ids));
    }
}

/// Adding clips is answered with a save or with an entry's error.
proof fn lemma_add_branch(s: EditorView, args: JsonV, fresh: Seq<Seq<char>>)
    ensures
        not_unknown(add_branch(s, args, fresh).1),
{
    lemma_error_texts();
    if let Some(es) = args.array_field("entries"@) {
        let p = pushed(s);
        let out = add_outcome(p.timeline, es, fresh);
        let s1 = EditorView { timeline: out.0, ..p };
        if let Some(ts) = tracks_of(p.timeline) {
            lemma_add_entries_errors(ts, es, fresh);
        }
        if let Ok(ids) = out.1 {
            lemma_saved(s1, JsonV::Object(seq![("clipIds"@, JsonV::Array(str_items(ids)))]));
        }
    }
}

/// Every tool that [`tool_names`] lists is carried out as that tool: it is
/// never answered with the unknown-tool error.
pub proof fn law_named_tools_dispatched(
    s: EditorView,
    name: Seq<char>,
    args: JsonV,
    fps: JsonV,
    fresh: Seq<Seq<char>>,
    new_id: Seq<char>,
    trim_end: i64,
)
    requires
        tool_names().contains(name),
    ensures
        not_unknown(tool_outcome(s, name, args, fps, fresh, new_id, trim_end).1),
        tool_outcome(s, name, args, fps, fresh, new_id, trim_end) != (s, reply_err("unknown tool: "@ + name)),
{
    reveal_strlit("unknown tool: ");
    assert(("unknown tool: "@ + name)[0] == 'u');
    lemma_error_texts();
    lemma_split_branch(s, args, new_id, trim_end);
    lemma_edit_branches(s, args);
    lemma_add_branch(s, args, fresh);
    let u = undone(s);
    lemma_saved(u.0, undone_answer(true));
    assert(tool_names()[0] == "get_timeline"@);
    assert(tool_names()[1] == "get_media"@);
    assert(tool_names()[2] == "import_media"@);
    assert(tool_names()[3] == "add_clips"@);
    assert(tool_names()[4] == "remove_clips"@);
    assert(tool_names()[5] == "move_clips"@);
    assert(tool_names()[6] == "set_clip_properties"@);
    assert(tool_names()[7] == "split_clip"@);
    assert(tool_names()[8] == "undo"@);
    assert(tool_names()[9] == "export_video"@);
}

} // verus!
