use vstd::prelude::*;
use crate::json::{deep_seq, opt_deep, opt_deep_ref, Json, JsonV};
use crate::json_props::group_json_lemmas;
use crate::text::{contains_text, holds_text, join, starts_with, starts_with_text};

verus! {

/// The tools the editor offers to assistants, with their input schemas.
pub open spec fn tool_definitions_value() -> Seq<JsonV> {
    seq![
        JsonV::Object(
            seq![
                ("name"@, JsonV::Str("get_timeline"@)),
                ("description"@, JsonV::Str("Returns project settings, tracks, and clips."@)),
                ("inputSchema"@, JsonV::Object(
                    seq![
                        ("type"@, JsonV::Str("object"@)),
                        ("properties"@, JsonV::Object(Seq::empty())),
                    ],
                )),
            ],
        ),
        JsonV::Object(
            seq![
                ("name"@, JsonV::Str("get_media"@)),
                ("description"@, JsonV::Str("Returns all media entries in the project manifest."@)),
                ("inputSchema"@, JsonV::Object(
                    seq![
                        ("type"@, JsonV::Str("object"@)),
                        ("properties"@, JsonV::Object(Seq::empty())),
                    ],
                )),
            ],
        ),
        JsonV::Object(
            seq![
                ("name"@, JsonV::Str("import_media"@)),
                ("description"@, JsonV::Str("Import local media files into the project library. source.path must be an absolute file path."@)),
                ("inputSchema"@, JsonV::Object(
                    seq![
                        ("type"@, JsonV::Str("object"@)),
                        ("properties"@, JsonV::Object(
                            seq![
                                ("source"@, JsonV::Object(
                                    seq![
                                        ("type"@, JsonV::Str("object"@)),
                                        ("properties"@, JsonV::Object(
                                            seq![
                                                ("path"@, JsonV::Object(
                                                    seq![
                                                        ("type"@, JsonV::Str("string"@)),
                                                        ("description"@, JsonV::Str("Absolute path to a media file"@)),
                                                    ],
                                                )),
                                            ],
                                        )),
                                        ("required"@, JsonV::Array(seq![JsonV::Str("path"@)])),
                                    ],
                                )),
                                ("name"@, JsonV::Object(seq![("type"@, JsonV::Str("string"@))])),
                            ],
                        )),
                        ("required"@, JsonV::Array(seq![JsonV::Str("source"@)])),
                    ],
                )),
            ],
        ),
        JsonV::Object(
            seq![
                ("name"@, JsonV::Str("add_clips"@)),
                ("description"@, JsonV::Str("Add clips to the timeline."@)),
                ("inputSchema"@, JsonV::Object(
                    seq![
                        ("type"@, JsonV::Str("object"@)),
                        ("properties"@, JsonV::Object(
                            seq![
                                ("entries"@, JsonV::Object(
                                    seq![
                                        ("type"@, JsonV::Str("array"@)),
                                        ("items"@, JsonV::Object(
                                            seq![
                                                ("type"@, JsonV::Str("object"@)),
                                                ("properties"@, JsonV::Object(
                                                    seq![
                                                        ("mediaRef"@, JsonV::Object(
                                                            seq![
                                                                ("type"@, JsonV::Str("string"@)),
                                                            ],
                                                        )),
                                                        ("trackIndex"@, JsonV::Object(
                                                            seq![
                                                                ("type"@, JsonV::Str("integer"@)),
                                                            ],
                                                        )),
                                                        ("startFrame"@, JsonV::Object(
                                                            seq![
                                                                ("type"@, JsonV::Str("integer"@)),
                                                            ],
                                                        )),
                                                        ("durationFrames"@, JsonV::Object(
                                                            seq![
                                                                ("type"@, JsonV::Str("integer"@)),
                                                            ],
                                                        )),
                                                        ("trimStartFrame"@, JsonV::Object(
                                                            seq![
                                                                ("type"@, JsonV::Str("integer"@)),
                                                            ],
                                                        )),
                                                        ("trimEndFrame"@, JsonV::Object(
                                                            seq![
                                                                ("type"@, JsonV::Str("integer"@)),
                                                            ],
                                                        )),
                                                    ],
                                                )),
                                                ("required"@, JsonV::Array(
                                                    seq![
                                                        JsonV::Str("mediaRef"@),
                                                        JsonV::Str("startFrame"@),
                                                        JsonV::Str("durationFrames"@),
                                                    ],
                                                )),
                                            ],
                                        )),
                                    ],
                                )),
                            ],
                        )),
                        ("required"@, JsonV::Array(seq![JsonV::Str("entries"@)])),
                    ],
                )),
            ],
        ),
        JsonV::Object(
            seq![
                ("name"@, JsonV::Str("remove_clips"@)),
                ("description"@, JsonV::Str("Remove clips by ID."@)),
                ("inputSchema"@, JsonV::Object(
                    seq![
                        ("type"@, JsonV::Str("object"@)),
                        ("properties"@, JsonV::Object(
                            seq![
                                ("clipIds"@, JsonV::Object(
                                    seq![
                                        ("type"@, JsonV::Str("array"@)),
                                        ("items"@, JsonV::Object(
                                            seq![
                                                ("type"@, JsonV::Str("string"@)),
                                            ],
                                        )),
                                    ],
                                )),
                            ],
                        )),
                        ("required"@, JsonV::Array(seq![JsonV::Str("clipIds"@)])),
                    ],
                )),
            ],
        ),
        JsonV::Object(
            seq![
                ("name"@, JsonV::Str("move_clips"@)),
                ("description"@, JsonV::Str("Move a clip to a new start frame."@)),
                ("inputSchema"@, JsonV::Object(
                    seq![
                        ("type"@, JsonV::Str("object"@)),
                        ("properties"@, JsonV::Object(
                            seq![
                                ("clipId"@, JsonV::Object(seq![("type"@, JsonV::Str("string"@))])),
                                ("startFrame"@, JsonV::Object(seq![("type"@, JsonV::Str("integer"@))])),
                            ],
                        )),
                        ("required"@, JsonV::Array(
                            seq![
                                JsonV::Str("clipId"@),
                                JsonV::Str("startFrame"@),
                            ],
                        )),
                    ],
                )),
            ],
        ),
        JsonV::Object(
            seq![
                ("name"@, JsonV::Str("set_clip_properties"@)),
                ("description"@, JsonV::Str("Update clip properties."@)),
                ("inputSchema"@, JsonV::Object(
                    seq![
                        ("type"@, JsonV::Str("object"@)),
                        ("properties"@, JsonV::Object(
                            seq![
                                ("clipId"@, JsonV::Object(seq![("type"@, JsonV::Str("string"@))])),
                                ("properties"@, JsonV::Object(seq![("type"@, JsonV::Str("object"@))])),
                            ],
                        )),
                        ("required"@, JsonV::Array(
                            seq![
                                JsonV::Str("clipId"@),
                                JsonV::Str("properties"@),
                            ],
                        )),
                    ],
                )),
            ],
        ),
        JsonV::Object(
            seq![
                ("name"@, JsonV::Str("split_clip"@)),
                ("description"@, JsonV::Str("Split a clip at a project frame."@)),
                ("inputSchema"@, JsonV::Object(
                    seq![
                        ("type"@, JsonV::Str("object"@)),
                        ("properties"@, JsonV::Object(
                            seq![
                                ("clipId"@, JsonV::Object(seq![("type"@, JsonV::Str("string"@))])),
                                ("atFrame"@, JsonV::Object(seq![("type"@, JsonV::Str("integer"@))])),
                            ],
                        )),
                        ("required"@, JsonV::Array(seq![JsonV::Str("clipId"@), JsonV::Str("atFrame"@)])),
                    ],
                )),
            ],
        ),
        JsonV::Object(
            seq![
                ("name"@, JsonV::Str("undo"@)),
                ("description"@, JsonV::Str("Undo the last timeline edit."@)),
                ("inputSchema"@, JsonV::Object(
                    seq![
                        ("type"@, JsonV::Str("object"@)),
                        ("properties"@, JsonV::Object(Seq::empty())),
                    ],
                )),
            ],
        ),
        JsonV::Object(
            seq![
                ("name"@, JsonV::Str("export_video"@)),
                ("description"@, JsonV::Str("Export timeline to H.264 or H.265 MP4."@)),
                ("inputSchema"@, JsonV::Object(
                    seq![
                        ("type"@, JsonV::Str("object"@)),
                        ("properties"@, JsonV::Object(
                            seq![
                                ("outputPath"@, JsonV::Object(seq![("type"@, JsonV::Str("string"@))])),
                                ("codec"@, JsonV::Object(
                                    seq![
                                        ("type"@, JsonV::Str("string"@)),
                                        ("enum"@, JsonV::Array(
                                            seq![
                                                JsonV::Str("h264"@),
                                                JsonV::Str("h265"@),
                                            ],
                                        )),
                                    ],
                                )),
                            ],
                        )),
                        ("required"@, JsonV::Array(seq![JsonV::Str("outputPath"@)])),
                    ],
                )),
            ],
        ),
    ]
}

fn tool_definition_0() -> (r: Json)
    ensures
        r.deep() == tool_definitions_value()[0],
{
    broadcast use group_json_lemmas;

    let t0_1 = Json::text("get_timeline");
    let ghost t0_1_v = t0_1.deep();
    let t0_2 = Json::text("Returns project settings, tracks, and clips.");
    let ghost t0_2_v = t0_2.deep();
    let t0_3 = Json::text("object");
    let ghost t0_3_v = t0_3.deep();
    let mut t0_4_entries: Vec<(String, Json)> = Vec::new();
    assert(Json::deep_entries(t0_4_entries@) =~= Seq::empty());
    let t0_4 = Json::Object(t0_4_entries);
    let ghost t0_4_v = t0_4.deep();
    let mut t0_5_entries: Vec<(String, Json)> = Vec::new();
    t0_5_entries.push(("type".to_owned(), t0_3));
    t0_5_entries.push(("properties".to_owned(), t0_4));
    assert(Json::deep_entries(t0_5_entries@) =~= seq![("type"@, t0_3_v), ("properties"@, t0_4_v)]);
    let t0_5 = Json::Object(t0_5_entries);
    let ghost t0_5_v = t0_5.deep();
    let mut t0_6_entries: Vec<(String, Json)> = Vec::new();
    t0_6_entries.push(("name".to_owned(), t0_1));
    t0_6_entries.push(("description".to_owned(), t0_2));
    t0_6_entries.push(("inputSchema".to_owned(), t0_5));
    assert(Json::deep_entries(t0_6_entries@) =~= seq![("name"@, t0_1_v), ("description"@, t0_2_v), ("inputSchema"@, t0_5_v)]);
    let t0_6 = Json::Object(t0_6_entries);
    let ghost t0_6_v = t0_6.deep();
    t0_6
}

fn tool_definition_1() -> (r: Json)
    ensures
        r.deep() == tool_definitions_value()[1],
{
    broadcast use group_json_lemmas;

    let t1_1 = Json::text("get_media");
    let ghost t1_1_v = t1_1.deep();
    let t1_2 = Json::text("Returns all media entries in the project manifest.");
    let ghost t1_2_v = t1_2.deep();
    let t1_3 = Json::text("object");
    let ghost t1_3_v = t1_3.deep();
    let mut t1_4_entries: Vec<(String, Json)> = Vec::new();
    assert(Json::deep_entries(t1_4_entries@) =~= Seq::empty());
    let t1_4 = Json::Object(t1_4_entries);
    let ghost t1_4_v = t1_4.deep();
    let mut t1_5_entries: Vec<(String, Json)> = Vec::new();
    t1_5_entries.push(("type".to_owned(), t1_3));
    t1_5_entries.push(("properties".to_owned(), t1_4));
    assert(Json::deep_entries(t1_5_entries@) =~= seq![("type"@, t1_3_v), ("properties"@, t1_4_v)]);
    let t1_5 = Json::Object(t1_5_entries);
    let ghost t1_5_v = t1_5.deep();
    let mut t1_6_entries: Vec<(String, Json)> = Vec::new();
    t1_6_entries.push(("name".to_owned(), t1_1));
    t1_6_entries.push(("description".to_owned(), t1_2));
    t1_6_entries.push(("inputSchema".to_owned(), t1_5));
    assert(Json::deep_entries(t1_6_entries@) =~= seq![("name"@, t1_1_v), ("description"@, t1_2_v), ("inputSchema"@, t1_5_v)]);
    let t1_6 = Json::Object(t1_6_entries);
    let ghost t1_6_v = t1_6.deep();
    t1_6
}

fn tool_definition_2() -> (r: Json)
    ensures
        r.deep() == tool_definitions_value()[2],
{
    broadcast use group_json_lemmas;

    let t2_1 = Json::text("import_media");
    let ghost t2_1_v = t2_1.deep();
    let t2_2 = Json::text("Import local media files into the project library. source.path must be an absolute file path.");
    let ghost t2_2_v = t2_2.deep();
    let t2_3 = Json::text("object");
    let ghost t2_3_v = t2_3.deep();
    let t2_4 = Json::text("object");
    let ghost t2_4_v = t2_4.deep();
    let t2_5 = Json::text("string");
    let ghost t2_5_v = t2_5.deep();
    let t2_6 = Json::text("Absolute path to a media file");
    let ghost t2_6_v = t2_6.deep();
    let mut t2_7_entries: Vec<(String, Json)> = Vec::new();
    t2_7_entries.push(("type".to_owned(), t2_5));
    t2_7_entries.push(("description".to_owned(), t2_6));
    assert(Json::deep_entries(t2_7_entries@) =~= seq![("type"@, t2_5_v), ("description"@, t2_6_v)]);
    let t2_7 = Json::Object(t2_7_entries);
    let ghost t2_7_v = t2_7.deep();
    let mut t2_8_entries: Vec<(String, Json)> = Vec::new();
    t2_8_entries.push(("path".to_owned(), t2_7));
    assert(Json::deep_entries(t2_8_entries@) =~= seq![("path"@, t2_7_v)]);
    let t2_8 = Json::Object(t2_8_entries);
    let ghost t2_8_v = t2_8.deep();
    let t2_9 = Json::text("path");
    let ghost t2_9_v = t2_9.deep();
    let mut t2_10_items: Vec<Json> = Vec::new();
    t2_10_items.push(t2_9);
    assert(Json::deep_items(t2_10_items@) =~= seq![t2_9_v]);
    let t2_10 = Json::Array(t2_10_items);
    let ghost t2_10_v = t2_10.deep();
    let mut t2_11_entries: Vec<(String, Json)> = Vec::new();
    t2_11_entries.push(("type".to_owned(), t2_4));
    t2_11_entries.push(("properties".to_owned(), t2_8));
    t2_11_entries.push(("required".to_owned(), t2_10));
    assert(Json::deep_entries(t2_11_entries@) =~= seq![("type"@, t2_4_v), ("properties"@, t2_8_v), ("required"@, t2_10_v)]);
    let t2_11 = Json::Object(t2_11_entries);
    let ghost t2_11_v = t2_11.deep();
    let t2_12 = Json::text("string");
    let ghost t2_12_v = t2_12.deep();
    let mut t2_13_entries: Vec<(String, Json)> = Vec::new();
    t2_13_entries.push(("type".to_owned(), t2_12));
    assert(Json::deep_entries(t2_13_entries@) =~= seq![("type"@, t2_12_v)]);
    let t2_13 = Json::Object(t2_13_entries);
    let ghost t2_13_v = t2_13.deep();
    let mut t2_14_entries: Vec<(String, Json)> = Vec::new();
    t2_14_entries.push(("source".to_owned(), t2_11));
    t2_14_entries.push(("name".to_owned(), t2_13));
    assert(Json::deep_entries(t2_14_entries@) =~= seq![("source"@, t2_11_v), ("name"@, t2_13_v)]);
    let t2_14 = Json::Object(t2_14_entries);
    let ghost t2_14_v = t2_14.deep();
    let t2_15 = Json::text("source");
    let ghost t2_15_v = t2_15.deep();
    let mut t2_16_items: Vec<Json> = Vec::new();
    t2_16_items.push(t2_15);
    assert(Json::deep_items(t2_16_items@) =~= seq![t2_15_v]);
    let t2_16 = Json::Array(t2_16_items);
    let ghost t2_16_v = t2_16.deep();
    let mut t2_17_entries: Vec<(String, Json)> = Vec::new();
    t2_17_entries.push(("type".to_owned(), t2_3));
    t2_17_entries.push(("properties".to_owned(), t2_14));
    t2_17_entries.push(("required".to_owned(), t2_16));
    assert(Json::deep_entries(t2_17_entries@) =~= seq![("type"@, t2_3_v), ("properties"@, t2_14_v), ("required"@, t2_16_v)]);
    let t2_17 = Json::Object(t2_17_entries);
    let ghost t2_17_v = t2_17.deep();
    let mut t2_18_entries: Vec<(String, Json)> = Vec::new();
    t2_18_entries.push(("name".to_owned(), t2_1));
    t2_18_entries.push(("description".to_owned(), t2_2));
    t2_18_entries.push(("inputSchema".to_owned(), t2_17));
    assert(Json::deep_entries(t2_18_entries@) =~= seq![("name"@, t2_1_v), ("description"@, t2_2_v), ("inputSchema"@, t2_17_v)]);
    let t2_18 = Json::Object(t2_18_entries);
    let ghost t2_18_v = t2_18.deep();
    t2_18
}

fn tool_definition_3() -> (r: Json)
    ensures
        r.deep() == tool_definitions_value()[3],
{
    broadcast use group_json_lemmas;

    let t3_1 = Json::text("add_clips");
    let ghost t3_1_v = t3_1.deep();
    let t3_2 = Json::text("Add clips to the timeline.");
    let ghost t3_2_v = t3_2.deep();
    let t3_3 = Json::text("object");
    let ghost t3_3_v = t3_3.deep();
    let t3_4 = Json::text("array");
    let ghost t3_4_v = t3_4.deep();
    let t3_5 = Json::text("object");
    let ghost t3_5_v = t3_5.deep();
    let t3_6 = Json::text("string");
    let ghost t3_6_v = t3_6.deep();
    let mut t3_7_entries: Vec<(String, Json)> = Vec::new();
    t3_7_entries.push(("type".to_owned(), t3_6));
    assert(Json::deep_entries(t3_7_entries@) =~= seq![("type"@, t3_6_v)]);
    let t3_7 = Json::Object(t3_7_entries);
    let ghost t3_7_v = t3_7.deep();
    let t3_8 = Json::text("integer");
    let ghost t3_8_v = t3_8.deep();
    let mut t3_9_entries: Vec<(String, Json)> = Vec::new();
    t3_9_entries.push(("type".to_owned(), t3_8));
    assert(Json::deep_entries(t3_9_entries@) =~= seq![("type"@, t3_8_v)]);
    let t3_9 = Json::Object(t3_9_entries);
    let ghost t3_9_v = t3_9.deep();
    let t3_10 = Json::text("integer");
    let ghost t3_10_v = t3_10.deep();
    let mut t3_11_entries: Vec<(String, Json)> = Vec::new();
    t3_11_entries.push(("type".to_owned(), t3_10));
    assert(Json::deep_entries(t3_11_entries@) =~= seq![("type"@, t3_10_v)]);
    let t3_11 = Json::Object(t3_11_entries);
    let ghost t3_11_v = t3_11.deep();
    let t3_12 = Json::text("integer");
    let ghost t3_12_v = t3_12.deep();
    let mut t3_13_entries: Vec<(String, Json)> = Vec::new();
    t3_13_entries.push(("type".to_owned(), t3_12));
    assert(Json::deep_entries(t3_13_entries@) =~= seq![("type"@, t3_12_v)]);
    let t3_13 = Json::Object(t3_13_entries);
    let ghost t3_13_v = t3_13.deep();
    let t3_14 = Json::text("integer");
    let ghost t3_14_v = t3_14.deep();
    let mut t3_15_entries: Vec<(String, Json)> = Vec::new();
    t3_15_entries.push(("type".to_owned(), t3_14));
    assert(Json::deep_entries(t3_15_entries@) =~= seq![("type"@, t3_14_v)]);
    let t3_15 = Json::Object(t3_15_entries);
    let ghost t3_15_v = t3_15.deep();
    let t3_16 = Json::text("integer");
    let ghost t3_16_v = t3_16.deep();
    let mut t3_17_entries: Vec<(String, Json)> = Vec::new();
    t3_17_entries.push(("type".to_owned(), t3_16));
    assert(Json::deep_entries(t3_17_entries@) =~= seq![("type"@, t3_16_v)]);
    let t3_17 = Json::Object(t3_17_entries);
    let ghost t3_17_v = t3_17.deep();
    let mut t3_18_entries: Vec<(String, Json)> = Vec::new();
    t3_18_entries.push(("mediaRef".to_owned(), t3_7));
    t3_18_entries.push(("trackIndex".to_owned(), t3_9));
    t3_18_entries.push(("startFrame".to_owned(), t3_11));
    t3_18_entries.push(("durationFrames".to_owned(), t3_13));
    t3_18_entries.push(("trimStartFrame".to_owned(), t3_15));
    t3_18_entries.push(("trimEndFrame".to_owned(), t3_17));
    assert(Json::deep_entries(t3_18_entries@) =~= seq![("mediaRef"@, t3_7_v), ("trackIndex"@, t3_9_v), ("startFrame"@, t3_11_v), ("durationFrames"@, t3_13_v), ("trimStartFrame"@, t3_15_v), ("trimEndFrame"@, t3_17_v)]);
    let t3_18 = Json::Object(t3_18_entries);
    let ghost t3_18_v = t3_18.deep();
    let t3_19 = Json::text("mediaRef");
    let ghost t3_19_v = t3_19.deep();
    let t3_20 = Json::text("startFrame");
    let ghost t3_20_v = t3_20.deep();
    let t3_21 = Json::text("durationFrames");
    let ghost t3_21_v = t3_21.deep();
    let mut t3_22_items: Vec<Json> = Vec::new();
    t3_22_items.push(t3_19);
    t3_22_items.push(t3_20);
    t3_22_items.push(t3_21);
    assert(Json::deep_items(t3_22_items@) =~= seq![t3_19_v, t3_20_v, t3_21_v]);
    let t3_22 = Json::Array(t3_22_items);
    let ghost t3_22_v = t3_22.deep();
    let mut t3_23_entries: Vec<(String, Json)> = Vec::new();
    t3_23_entries.push(("type".to_owned(), t3_5));
    t3_23_entries.push(("properties".to_owned(), t3_18));
    t3_23_entries.push(("required".to_owned(), t3_22));
    assert(Json::deep_entries(t3_23_entries@) =~= seq![("type"@, t3_5_v), ("properties"@, t3_18_v), ("required"@, t3_22_v)]);
    let t3_23 = Json::Object(t3_23_entries);
    let ghost t3_23_v = t3_23.deep();
    let mut t3_24_entries: Vec<(String, Json)> = Vec::new();
    t3_24_entries.push(("type".to_owned(), t3_4));
    t3_24_entries.push(("items".to_owned(), t3_23));
    assert(Json::deep_entries(t3_24_entries@) =~= seq![("type"@, t3_4_v), ("items"@, t3_23_v)]);
    let t3_24 = Json::Object(t3_24_entries);
    let ghost t3_24_v = t3_24.deep();
    let mut t3_25_entries: Vec<(String, Json)> = Vec::new();
    t3_25_entries.push(("entries".to_owned(), t3_24));
    assert(Json::deep_entries(t3_25_entries@) =~= seq![("entries"@, t3_24_v)]);
    let t3_25 = Json::Object(t3_25_entries);
    let ghost t3_25_v = t3_25.deep();
    let t3_26 = Json::text("entries");
    let ghost t3_26_v = t3_26.deep();
    let mut t3_27_items: Vec<Json> = Vec::new();
    t3_27_items.push(t3_26);
    assert(Json::deep_items(t3_27_items@) =~= seq![t3_26_v]);
    let t3_27 = Json::Array(t3_27_items);
    let ghost t3_27_v = t3_27.deep();
    let mut t3_28_entries: Vec<(String, Json)> = Vec::new();
    t3_28_entries.push(("type".to_owned(), t3_3));
    t3_28_entries.push(("properties".to_owned(), t3_25));
    t3_28_entries.push(("required".to_owned(), t3_27));
    assert(Json::deep_entries(t3_28_entries@) =~= seq![("type"@, t3_3_v), ("properties"@, t3_25_v), ("required"@, t3_27_v)]);
    let t3_28 = Json::Object(t3_28_entries);
    let ghost t3_28_v = t3_28.deep();
    let mut t3_29_entries: Vec<(String, Json)> = Vec::new();
    t3_29_entries.push(("name".to_owned(), t3_1));
    t3_29_entries.push(("description".to_owned(), t3_2));
    t3_29_entries.push(("inputSchema".to_owned(), t3_28));
    assert(Json::deep_entries(t3_29_entries@) =~= seq![("name"@, t3_1_v), ("description"@, t3_2_v), ("inputSchema"@, t3_28_v)]);
    let t3_29 = Json::Object(t3_29_entries);
    let ghost t3_29_v = t3_29.deep();
    t3_29
}

fn tool_definition_4() -> (r: Json)
    ensures
        r.deep() == tool_definitions_value()[4],
{
    broadcast use group_json_lemmas;

    let t4_1 = Json::text("remove_clips");
    let ghost t4_1_v = t4_1.deep();
    let t4_2 = Json::text("Remove clips by ID.");
    let ghost t4_2_v = t4_2.deep();
    let t4_3 = Json::text("object");
    let ghost t4_3_v = t4_3.deep();
    let t4_4 = Json::text("array");
    let ghost t4_4_v = t4_4.deep();
    let t4_5 = Json::text("string");
    let ghost t4_5_v = t4_5.deep();
    let mut t4_6_entries: Vec<(String, Json)> = Vec::new();
    t4_6_entries.push(("type".to_owned(), t4_5));
    assert(Json::deep_entries(t4_6_entries@) =~= seq![("type"@, t4_5_v)]);
    let t4_6 = Json::Object(t4_6_entries);
    let ghost t4_6_v = t4_6.deep();
    let mut t4_7_entries: Vec<(String, Json)> = Vec::new();
    t4_7_entries.push(("type".to_owned(), t4_4));
    t4_7_entries.push(("items".to_owned(), t4_6));
    assert(Json::deep_entries(t4_7_entries@) =~= seq![("type"@, t4_4_v), ("items"@, t4_6_v)]);
    let t4_7 = Json::Object(t4_7_entries);
    let ghost t4_7_v = t4_7.deep();
    let mut t4_8_entries: Vec<(String, Json)> = Vec::new();
    t4_8_entries.push(("clipIds".to_owned(), t4_7));
    assert(Json::deep_entries(t4_8_entries@) =~= seq![("clipIds"@, t4_7_v)]);
    let t4_8 = Json::Object(t4_8_entries);
    let ghost t4_8_v = t4_8.deep();
    let t4_9 = Json::text("clipIds");
    let ghost t4_9_v = t4_9.deep();
    let mut t4_10_items: Vec<Json> = Vec::new();
    t4_10_items.push(t4_9);
    assert(Json::deep_items(t4_10_items@) =~= seq![t4_9_v]);
    let t4_10 = Json::Array(t4_10_items);
    let ghost t4_10_v = t4_10.deep();
    let mut t4_11_entries: Vec<(String, Json)> = Vec::new();
    t4_11_entries.push(("type".to_owned(), t4_3));
    t4_11_entries.push(("properties".to_owned(), t4_8));
    t4_11_entries.push(("required".to_owned(), t4_10));
    assert(Json::deep_entries(t4_11_entries@) =~= seq![("type"@, t4_3_v), ("properties"@, t4_8_v), ("required"@, t4_10_v)]);
    let t4_11 = Json::Object(t4_11_entries);
    let ghost t4_11_v = t4_11.deep();
    let mut t4_12_entries: Vec<(String, Json)> = Vec::new();
    t4_12_entries.push(("name".to_owned(), t4_1));
    t4_12_entries.push(("description".to_owned(), t4_2));
    t4_12_entries.push(("inputSchema".to_owned(), t4_11));
    assert(Json::deep_entries(t4_12_entries@) =~= seq![("name"@, t4_1_v), ("description"@, t4_2_v), ("inputSchema"@, t4_11_v)]);
    let t4_12 = Json::Object(t4_12_entries);
    let ghost t4_12_v = t4_12.deep();
    t4_12
}

fn tool_definition_5() -> (r: Json)
    ensures
        r.deep() == tool_definitions_value()[5],
{
    broadcast use group_json_lemmas;

    let t5_1 = Json::text("move_clips");
    let ghost t5_1_v = t5_1.deep();
    let t5_2 = Json::text("Move a clip to a new start frame.");
    let ghost t5_2_v = t5_2.deep();
    let t5_3 = Json::text("object");
    let ghost t5_3_v = t5_3.deep();
    let t5_4 = Json::text("string");
    let ghost t5_4_v = t5_4.deep();
    let mut t5_5_entries: Vec<(String, Json)> = Vec::new();
    t5_5_entries.push(("type".to_owned(), t5_4));
    assert(Json::deep_entries(t5_5_entries@) =~= seq![("type"@, t5_4_v)]);
    let t5_5 = Json::Object(t5_5_entries);
    let ghost t5_5_v = t5_5.deep();
    let t5_6 = Json::text("integer");
    let ghost t5_6_v = t5_6.deep();
    let mut t5_7_entries: Vec<(String, Json)> = Vec::new();
    t5_7_entries.push(("type".to_owned(), t5_6));
    assert(Json::deep_entries(t5_7_entries@) =~= seq![("type"@, t5_6_v)]);
    let t5_7 = Json::Object(t5_7_entries);
    let ghost t5_7_v = t5_7.deep();
    let mut t5_8_entries: Vec<(String, Json)> = Vec::new();
    t5_8_entries.push(("clipId".to_owned(), t5_5));
    t5_8_entries.push(("startFrame".to_owned(), t5_7));
    assert(Json::deep_entries(t5_8_entries@) =~= seq![("clipId"@, t5_5_v), ("startFrame"@, t5_7_v)]);
    let t5_8 = Json::Object(t5_8_entries);
    let ghost t5_8_v = t5_8.deep();
    let t5_9 = Json::text("clipId");
    let ghost t5_9_v = t5_9.deep();
    let t5_10 = Json::text("startFrame");
    let ghost t5_10_v = t5_10.deep();
    let mut t5_11_items: Vec<Json> = Vec::new();
    t5_11_items.push(t5_9);
    t5_11_items.push(t5_10);
    assert(Json::deep_items(t5_11_items@) =~= seq![t5_9_v, t5_10_v]);
    let t5_11 = Json::Array(t5_11_items);
    let ghost t5_11_v = t5_11.deep();
    let mut t5_12_entries: Vec<(String, Json)> = Vec::new();
    t5_12_entries.push(("type".to_owned(), t5_3));
    t5_12_entries.push(("properties".to_owned(), t5_8));
    t5_12_entries.push(("required".to_owned(), t5_11));
    assert(Json::deep_entries(t5_12_entries@) =~= seq![("type"@, t5_3_v), ("properties"@, t5_8_v), ("required"@, t5_11_v)]);
    let t5_12 = Json::Object(t5_12_entries);
    let ghost t5_12_v = t5_12.deep();
    let mut t5_13_entries: Vec<(String, Json)> = Vec::new();
    t5_13_entries.push(("name".to_owned(), t5_1));
    t5_13_entries.push(("description".to_owned(), t5_2));
    t5_13_entries.push(("inputSchema".to_owned(), t5_12));
    assert(Json::deep_entries(t5_13_entries@) =~= seq![("name"@, t5_1_v), ("description"@, t5_2_v), ("inputSchema"@, t5_12_v)]);
    let t5_13 = Json::Object(t5_13_entries);
    let ghost t5_13_v = t5_13.deep();
    t5_13
}

fn tool_definition_6() -> (r: Json)
    ensures
        r.deep() == tool_definitions_value()[6],
{
    broadcast use group_json_lemmas;

    let t6_1 = Json::text("set_clip_properties");
    let ghost t6_1_v = t6_1.deep();
    let t6_2 = Json::text("Update clip properties.");
    let ghost t6_2_v = t6_2.deep();
    let t6_3 = Json::text("object");
    let ghost t6_3_v = t6_3.deep();
    let t6_4 = Json::text("string");
    let ghost t6_4_v = t6_4.deep();
    let mut t6_5_entries: Vec<(String, Json)> = Vec::new();
    t6_5_entries.push(("type".to_owned(), t6_4));
    assert(Json::deep_entries(t6_5_entries@) =~= seq![("type"@, t6_4_v)]);
    let t6_5 = Json::Object(t6_5_entries);
    let ghost t6_5_v = t6_5.deep();
    let t6_6 = Json::text("object");
    let ghost t6_6_v = t6_6.deep();
    let mut t6_7_entries: Vec<(String, Json)> = Vec::new();
    t6_7_entries.push(("type".to_owned(), t6_6));
    assert(Json::deep_entries(t6_7_entries@) =~= seq![("type"@, t6_6_v)]);
    let t6_7 = Json::Object(t6_7_entries);
    let ghost t6_7_v = t6_7.deep();
    let mut t6_8_entries: Vec<(String, Json)> = Vec::new();
    t6_8_entries.push(("clipId".to_owned(), t6_5));
    t6_8_entries.push(("properties".to_owned(), t6_7));
    assert(Json::deep_entries(t6_8_entries@) =~= seq![("clipId"@, t6_5_v), ("properties"@, t6_7_v)]);
    let t6_8 = Json::Object(t6_8_entries);
    let ghost t6_8_v = t6_8.deep();
    let t6_9 = Json::text("clipId");
    let ghost t6_9_v = t6_9.deep();
    let t6_10 = Json::text("properties");
    let ghost t6_10_v = t6_10.deep();
    let mut t6_11_items: Vec<Json> = Vec::new();
    t6_11_items.push(t6_9);
    t6_11_items.push(t6_10);
    assert(Json::deep_items(t6_11_items@) =~= seq![t6_9_v, t6_10_v]);
    let t6_11 = Json::Array(t6_11_items);
    let ghost t6_11_v = t6_11.deep();
    let mut t6_12_entries: Vec<(String, Json)> = Vec::new();
    t6_12_entries.push(("type".to_owned(), t6_3));
    t6_12_entries.push(("properties".to_owned(), t6_8));
    t6_12_entries.push(("required".to_owned(), t6_11));
    assert(Json::deep_entries(t6_12_entries@) =~= seq![("type"@, t6_3_v), ("properties"@, t6_8_v), ("required"@, t6_11_v)]);
    let t6_12 = Json::Object(t6_12_entries);
    let ghost t6_12_v = t6_12.deep();
    let mut t6_13_entries: Vec<(String, Json)> = Vec::new();
    t6_13_entries.push(("name".to_owned(), t6_1));
    t6_13_entries.push(("description".to_owned(), t6_2));
    t6_13_entries.push(("inputSchema".to_owned(), t6_12));
    assert(Json::deep_entries(t6_13_entries@) =~= seq![("name"@, t6_1_v), ("description"@, t6_2_v), ("inputSchema"@, t6_12_v)]);
    let t6_13 = Json::Object(t6_13_entries);
    let ghost t6_13_v = t6_13.deep();
    t6_13
}

fn tool_definition_7() -> (r: Json)
    ensures
        r.deep() == tool_definitions_value()[7],
{
    broadcast use group_json_lemmas;

    let t7_1 = Json::text("split_clip");
    let ghost t7_1_v = t7_1.deep();
    let t7_2 = Json::text("Split a clip at a project frame.");
    let ghost t7_2_v = t7_2.deep();
    let t7_3 = Json::text("object");
    let ghost t7_3_v = t7_3.deep();
    let t7_4 = Json::text("string");
    let ghost t7_4_v = t7_4.deep();
    let mut t7_5_entries: Vec<(String, Json)> = Vec::new();
    t7_5_entries.push(("type".to_owned(), t7_4));
    assert(Json::deep_entries(t7_5_entries@) =~= seq![("type"@, t7_4_v)]);
    let t7_5 = Json::Object(t7_5_entries);
    let ghost t7_5_v = t7_5.deep();
    let t7_6 = Json::text("integer");
    let ghost t7_6_v = t7_6.deep();
    let mut t7_7_entries: Vec<(String, Json)> = Vec::new();
    t7_7_entries.push(("type".to_owned(), t7_6));
    assert(Json::deep_entries(t7_7_entries@) =~= seq![("type"@, t7_6_v)]);
    let t7_7 = Json::Object(t7_7_entries);
    let ghost t7_7_v = t7_7.deep();
    let mut t7_8_entries: Vec<(String, Json)> = Vec::new();
    t7_8_entries.push(("clipId".to_owned(), t7_5));
    t7_8_entries.push(("atFrame".to_owned(), t7_7));
    assert(Json::deep_entries(t7_8_entries@) =~= seq![("clipId"@, t7_5_v), ("atFrame"@, t7_7_v)]);
    let t7_8 = Json::Object(t7_8_entries);
    let ghost t7_8_v = t7_8.deep();
    let t7_9 = Json::text("clipId");
    let ghost t7_9_v = t7_9.deep();
    let t7_10 = Json::text("atFrame");
    let ghost t7_10_v = t7_10.deep();
    let mut t7_11_items: Vec<Json> = Vec::new();
    t7_11_items.push(t7_9);
    t7_11_items.push(t7_10);
    assert(Json::deep_items(t7_11_items@) =~= seq![t7_9_v, t7_10_v]);
    let t7_11 = Json::Array(t7_11_items);
    let ghost t7_11_v = t7_11.deep();
    let mut t7_12_entries: Vec<(String, Json)> = Vec::new();
    t7_12_entries.push(("type".to_owned(), t7_3));
    t7_12_entries.push(("properties".to_owned(), t7_8));
    t7_12_entries.push(("required".to_owned(), t7_11));
    assert(Json::deep_entries(t7_12_entries@) =~= seq![("type"@, t7_3_v), ("properties"@, t7_8_v), ("required"@, t7_11_v)]);
    let t7_12 = Json::Object(t7_12_entries);
    let ghost t7_12_v = t7_12.deep();
    let mut t7_13_entries: Vec<(String, Json)> = Vec::new();
    t7_13_entries.push(("name".to_owned(), t7_1));
    t7_13_entries.push(("description".to_owned(), t7_2));
    t7_13_entries.push(("inputSchema".to_owned(), t7_12));
    assert(Json::deep_entries(t7_13_entries@) =~= seq![("name"@, t7_1_v), ("description"@, t7_2_v), ("inputSchema"@, t7_12_v)]);
    let t7_13 = Json::Object(t7_13_entries);
    let ghost t7_13_v = t7_13.deep();
    t7_13
}

fn tool_definition_8() -> (r: Json)
    ensures
        r.deep() == tool_definitions_value()[8],
{
    broadcast use group_json_lemmas;

    let t8_1 = Json::text("undo");
    let ghost t8_1_v = t8_1.deep();
    let t8_2 = Json::text("Undo the last timeline edit.");
    let ghost t8_2_v = t8_2.deep();
    let t8_3 = Json::text("object");
    let ghost t8_3_v = t8_3.deep();
    let mut t8_4_entries: Vec<(String, Json)> = Vec::new();
    assert(Json::deep_entries(t8_4_entries@) =~= Seq::empty());
    let t8_4 = Json::Object(t8_4_entries);
    let ghost t8_4_v = t8_4.deep();
    let mut t8_5_entries: Vec<(String, Json)> = Vec::new();
    t8_5_entries.push(("type".to_owned(), t8_3));
    t8_5_entries.push(("properties".to_owned(), t8_4));
    assert(Json::deep_entries(t8_5_entries@) =~= seq![("type"@, t8_3_v), ("properties"@, t8_4_v)]);
    let t8_5 = Json::Object(t8_5_entries);
    let ghost t8_5_v = t8_5.deep();
    let mut t8_6_entries: Vec<(String, Json)> = Vec::new();
    t8_6_entries.push(("name".to_owned(), t8_1));
    t8_6_entries.push(("description".to_owned(), t8_2));
    t8_6_entries.push(("inputSchema".to_owned(), t8_5));
    assert(Json::deep_entries(t8_6_entries@) =~= seq![("name"@, t8_1_v), ("description"@, t8_2_v), ("inputSchema"@, t8_5_v)]);
    let t8_6 = Json::Object(t8_6_entries);
    let ghost t8_6_v = t8_6.deep();
    t8_6
}

fn tool_definition_9() -> (r: Json)
    ensures
        r.deep() == tool_definitions_value()[9],
{
    broadcast use group_json_lemmas;

    let t9_1 = Json::text("export_video");
    let ghost t9_1_v = t9_1.deep();
    let t9_2 = Json::text("Export timeline to H.264 or H.265 MP4.");
    let ghost t9_2_v = t9_2.deep();
    let t9_3 = Json::text("object");
    let ghost t9_3_v = t9_3.deep();
    let t9_4 = Json::text("string");
    let ghost t9_4_v = t9_4.deep();
    let mut t9_5_entries: Vec<(String, Json)> = Vec::new();
    t9_5_entries.push(("type".to_owned(), t9_4));
    assert(Json::deep_entries(t9_5_entries@) =~= seq![("type"@, t9_4_v)]);
    let t9_5 = Json::Object(t9_5_entries);
    let ghost t9_5_v = t9_5.deep();
    let t9_6 = Json::text("string");
    let ghost t9_6_v = t9_6.deep();
    let t9_7 = Json::text("h264");
    let ghost t9_7_v = t9_7.deep();
    let t9_8 = Json::text("h265");
    let ghost t9_8_v = t9_8.deep();
    let mut t9_9_items: Vec<Json> = Vec::new();
    t9_9_items.push(t9_7);
    t9_9_items.push(t9_8);
    assert(Json::deep_items(t9_9_items@) =~= seq![t9_7_v, t9_8_v]);
    let t9_9 = Json::Array(t9_9_items);
    let ghost t9_9_v = t9_9.deep();
    let mut t9_10_entries: Vec<(String, Json)> = Vec::new();
    t9_10_entries.push(("type".to_owned(), t9_6));
    t9_10_entries.push(("enum".to_owned(), t9_9));
    assert(Json::deep_entries(t9_10_entries@) =~= seq![("type"@, t9_6_v), ("enum"@, t9_9_v)]);
    let t9_10 = Json::Object(t9_10_entries);
    let ghost t9_10_v = t9_10.deep();
    let mut t9_11_entries: Vec<(String, Json)> = Vec::new();
    t9_11_entries.push(("outputPath".to_owned(), t9_5));
    t9_11_entries.push(("codec".to_owned(), t9_10));
    assert(Json::deep_entries(t9_11_entries@) =~= seq![("outputPath"@, t9_5_v), ("codec"@, t9_10_v)]);
    let t9_11 = Json::Object(t9_11_entries);
    let ghost t9_11_v = t9_11.deep();
    let t9_12 = Json::text("outputPath");
    let ghost t9_12_v = t9_12.deep();
    let mut t9_13_items: Vec<Json> = Vec::new();
    t9_13_items.push(t9_12);
    assert(Json::deep_items(t9_13_items@) =~= seq![t9_12_v]);
    let t9_13 = Json::Array(t9_13_items);
    let ghost t9_13_v = t9_13.deep();
    let mut t9_14_entries: Vec<(String, Json)> = Vec::new();
    t9_14_entries.push(("type".to_owned(), t9_3));
    t9_14_entries.push(("properties".to_owned(), t9_11));
    t9_14_entries.push(("required".to_owned(), t9_13));
    assert(Json::deep_entries(t9_14_entries@) =~= seq![("type"@, t9_3_v), ("properties"@, t9_11_v), ("required"@, t9_13_v)]);
    let t9_14 = Json::Object(t9_14_entries);
    let ghost t9_14_v = t9_14.deep();
    let mut t9_15_entries: Vec<(String, Json)> = Vec::new();
    t9_15_entries.push(("name".to_owned(), t9_1));
    t9_15_entries.push(("description".to_owned(), t9_2));
    t9_15_entries.push(("inputSchema".to_owned(), t9_14));
    assert(Json::deep_entries(t9_15_entries@) =~= seq![("name"@, t9_1_v), ("description"@, t9_2_v), ("inputSchema"@, t9_14_v)]);
    let t9_15 = Json::Object(t9_15_entries);
    let ghost t9_15_v = t9_15.deep();
    t9_15
}

/// The tools the editor offers to assistants, with their input schemas.
pub fn tool_definitions() -> (r: Vec<Json>)
    ensures
        deep_seq(r@) == tool_definitions_value(),
{
    broadcast use group_json_lemmas;

    let mut v: Vec<Json> = Vec::new();
    v.push(tool_definition_0());
    v.push(tool_definition_1());
    v.push(tool_definition_2());
    v.push(tool_definition_3());
    v.push(tool_definition_4());
    v.push(tool_definition_5());
    v.push(tool_definition_6());
    v.push(tool_definition_7());
    v.push(tool_definition_8());
    v.push(tool_definition_9());
    assert(deep_seq(v@) =~= tool_definitions_value());
    v
}

/// The result of a tool call that succeeded: its value as `text`.
pub open spec fn tool_text_value(text: Seq<char>) -> JsonV {
    JsonV::Object(
        seq![
            ("content"@, JsonV::Array(
                seq![
                    JsonV::Object(
                        seq![
                            ("type"@, JsonV::Str("text"@)),
                            ("text"@, JsonV::Str(text)),
                        ],
                    ),
                ],
            )),
            ("isError"@, JsonV::Bool(false)),
        ],
    )
}

/// The result of a tool call that succeeded, its value written out as `text`.
pub fn tool_result_text(text: String) -> (r: Json)
    ensures
        r.deep() == tool_text_value(text@),
{
    broadcast use group_json_lemmas;

    let v1 = Json::text("text");
    let ghost v1_v = v1.deep();
    let v2 = Json::Str(text);
    let ghost v2_v = v2.deep();
    assert(v2_v == JsonV::Str(text@));
    let mut v3_entries: Vec<(String, Json)> = Vec::new();
    v3_entries.push(("type".to_owned(), v1));
    v3_entries.push(("text".to_owned(), v2));
    assert(Json::deep_entries(v3_entries@) =~= seq![("type"@, v1_v), ("text"@, v2_v)]);
    let v3 = Json::Object(v3_entries);
    let ghost v3_v = v3.deep();
    let mut v4_items: Vec<Json> = Vec::new();
    v4_items.push(v3);
    assert(Json::deep_items(v4_items@) =~= seq![v3_v]);
    let v4 = Json::Array(v4_items);
    let ghost v4_v = v4.deep();
    let v5 = Json::Bool(false);
    let ghost v5_v = v5.deep();
    let mut v6_entries: Vec<(String, Json)> = Vec::new();
    v6_entries.push(("content".to_owned(), v4));
    v6_entries.push(("isError".to_owned(), v5));
    assert(Json::deep_entries(v6_entries@) =~= seq![("content"@, v4_v), ("isError"@, v5_v)]);
    let v6 = Json::Object(v6_entries);
    let ghost v6_v = v6.deep();
    v6
}

/// The result of a tool call that failed with `msg`.
pub open spec fn tool_error_value(msg: Seq<char>) -> JsonV {
    JsonV::Object(
        seq![
            ("content"@, JsonV::Array(
                seq![
                    JsonV::Object(
                        seq![
                            ("type"@, JsonV::Str("text"@)),
                            ("text"@, JsonV::Str(msg)),
                        ],
                    ),
                ],
            )),
            ("isError"@, JsonV::Bool(true)),
        ],
    )
}

/// The result of a tool call that failed with `msg`.
pub fn tool_result_error(msg: &str) -> (r: Json)
    ensures
        r.deep() == tool_error_value(msg@),
{
    broadcast use group_json_lemmas;

    let v1 = Json::text("text");
    let ghost v1_v = v1.deep();
    let v2 = Json::text(msg);
    let ghost v2_v = v2.deep();
    assert(v2_v == JsonV::Str(msg@));
    let mut v3_entries: Vec<(String, Json)> = Vec::new();
    v3_entries.push(("type".to_owned(), v1));
    v3_entries.push(("text".to_owned(), v2));
    assert(Json::deep_entries(v3_entries@) =~= seq![("type"@, v1_v), ("text"@, v2_v)]);
    let v3 = Json::Object(v3_entries);
    let ghost v3_v = v3.deep();
    let mut v4_items: Vec<Json> = Vec::new();
    v4_items.push(v3);
    assert(Json::deep_items(v4_items@) =~= seq![v3_v]);
    let v4 = Json::Array(v4_items);
    let ghost v4_v = v4.deep();
    let v5 = Json::Bool(true);
    let ghost v5_v = v5.deep();
    let mut v6_entries: Vec<(String, Json)> = Vec::new();
    v6_entries.push(("content".to_owned(), v4));
    v6_entries.push(("isError".to_owned(), v5));
    assert(Json::deep_entries(v6_entries@) =~= seq![("content"@, v4_v), ("isError"@, v5_v)]);
    let v6 = Json::Object(v6_entries);
    let ghost v6_v = v6.deep();
    v6
}

/// What the platform resource describes: this platform, no generative AI, and the export codecs.
pub open spec fn platform_info_value() -> JsonV {
    JsonV::Object(
        seq![
            ("platform"@, JsonV::Str("windows"@)),
            ("generativeAI"@, JsonV::Bool(false)),
            ("exportCodecs"@, JsonV::Array(seq![JsonV::Str("h264"@), JsonV::Str("h265"@)])),
        ],
    )
}

/// What the platform resource describes.
pub fn platform_info() -> (r: Json)
    ensures
        r.deep() == platform_info_value(),
{
    broadcast use group_json_lemmas;

    let v1 = Json::text("windows");
    let ghost v1_v = v1.deep();
    let v2 = Json::Bool(false);
    let ghost v2_v = v2.deep();
    let v3 = Json::text("h264");
    let ghost v3_v = v3.deep();
    let v4 = Json::text("h265");
    let ghost v4_v = v4.deep();
    let mut v5_items: Vec<Json> = Vec::new();
    v5_items.push(v3);
    v5_items.push(v4);
    assert(Json::deep_items(v5_items@) =~= seq![v3_v, v4_v]);
    let v5 = Json::Array(v5_items);
    let ghost v5_v = v5.deep();
    let mut v6_entries: Vec<(String, Json)> = Vec::new();
    v6_entries.push(("platform".to_owned(), v1));
    v6_entries.push(("generativeAI".to_owned(), v2));
    v6_entries.push(("exportCodecs".to_owned(), v5));
    assert(Json::deep_entries(v6_entries@) =~= seq![("platform"@, v1_v), ("generativeAI"@, v2_v), ("exportCodecs"@, v5_v)]);
    let v6 = Json::Object(v6_entries);
    let ghost v6_v = v6.deep();
    v6
}

/// The answer to `initialize`: protocol version, capabilities, server name and instructions.
pub open spec fn initialize_value() -> JsonV {
    JsonV::Object(
        seq![
            ("protocolVersion"@, JsonV::Str("2024-11-05"@)),
            ("capabilities"@, JsonV::Object(
                seq![
                    ("tools"@, JsonV::Object(seq![("listChanged"@, JsonV::Bool(false))])),
                    ("resources"@, JsonV::Object(
                        seq![
                            ("subscribe"@, JsonV::Bool(false)),
                            ("listChanged"@, JsonV::Bool(false)),
                        ],
                    )),
                ],
            )),
            ("serverInfo"@, JsonV::Object(
                seq![
                    ("name"@, JsonV::Str("palmier-pro"@)),
                    ("version"@, JsonV::Str("1.0.0"@)),
                ],
            )),
            ("instructions"@, JsonV::Str("Palmier Pro Windows MCP server. Open a project in the app before editing."@)),
        ],
    )
}

/// The answer to `initialize`.
pub fn initialize_result() -> (r: Json)
    ensures
        r.deep() == initialize_value(),
{
    broadcast use group_json_lemmas;

    let v1 = Json::text("2024-11-05");
    let ghost v1_v = v1.deep();
    let v2 = Json::Bool(false);
    let ghost v2_v = v2.deep();
    let mut v3_entries: Vec<(String, Json)> = Vec::new();
    v3_entries.push(("listChanged".to_owned(), v2));
    assert(Json::deep_entries(v3_entries@) =~= seq![("listChanged"@, v2_v)]);
    let v3 = Json::Object(v3_entries);
    let ghost v3_v = v3.deep();
    let v4 = Json::Bool(false);
    let ghost v4_v = v4.deep();
    let v5 = Json::Bool(false);
    let ghost v5_v = v5.deep();
    let mut v6_entries: Vec<(String, Json)> = Vec::new();
    v6_entries.push(("subscribe".to_owned(), v4));
    v6_entries.push(("listChanged".to_owned(), v5));
    assert(Json::deep_entries(v6_entries@) =~= seq![("subscribe"@, v4_v), ("listChanged"@, v5_v)]);
    let v6 = Json::Object(v6_entries);
    let ghost v6_v = v6.deep();
    let mut v7_entries: Vec<(String, Json)> = Vec::new();
    v7_entries.push(("tools".to_owned(), v3));
    v7_entries.push(("resources".to_owned(), v6));
    assert(Json::deep_entries(v7_entries@) =~= seq![("tools"@, v3_v), ("resources"@, v6_v)]);
    let v7 = Json::Object(v7_entries);
    let ghost v7_v = v7.deep();
    let v8 = Json::text("palmier-pro");
    let ghost v8_v = v8.deep();
    let v9 = Json::text("1.0.0");
    let ghost v9_v = v9.deep();
    let mut v10_entries: Vec<(String, Json)> = Vec::new();
    v10_entries.push(("name".to_owned(), v8));
    v10_entries.push(("version".to_owned(), v9));
    assert(Json::deep_entries(v10_entries@) =~= seq![("name"@, v8_v), ("version"@, v9_v)]);
    let v10 = Json::Object(v10_entries);
    let ghost v10_v = v10.deep();
    let v11 = Json::text("Palmier Pro Windows MCP server. Open a project in the app before editing.");
    let ghost v11_v = v11.deep();
    let mut v12_entries: Vec<(String, Json)> = Vec::new();
    v12_entries.push(("protocolVersion".to_owned(), v1));
    v12_entries.push(("capabilities".to_owned(), v7));
    v12_entries.push(("serverInfo".to_owned(), v10));
    v12_entries.push(("instructions".to_owned(), v11));
    assert(Json::deep_entries(v12_entries@) =~= seq![("protocolVersion"@, v1_v), ("capabilities"@, v7_v), ("serverInfo"@, v10_v), ("instructions"@, v11_v)]);
    let v12 = Json::Object(v12_entries);
    let ghost v12_v = v12.deep();
    v12
}

/// The answer to `resources/list`: the platform resource.
pub open spec fn resources_value() -> JsonV {
    JsonV::Object(
        seq![
            ("resources"@, JsonV::Array(
                seq![
                    JsonV::Object(
                        seq![
                            ("name"@, JsonV::Str("Platform Info"@)),
                            ("uri"@, JsonV::Str("palmier://platform/windows"@)),
                            ("description"@, JsonV::Str("Windows port capabilities"@)),
                            ("mimeType"@, JsonV::Str("application/json"@)),
                        ],
                    ),
                ],
            )),
        ],
    )
}

/// The answer to `resources/list`.
pub fn resources_list() -> (r: Json)
    ensures
        r.deep() == resources_value(),
{
    broadcast use group_json_lemmas;

    let v1 = Json::text("Platform Info");
    let ghost v1_v = v1.deep();
    let v2 = Json::text("palmier://platform/windows");
    let ghost v2_v = v2.deep();
    let v3 = Json::text("Windows port capabilities");
    let ghost v3_v = v3.deep();
    let v4 = Json::text("application/json");
    let ghost v4_v = v4.deep();
    let mut v5_entries: Vec<(String, Json)> = Vec::new();
    v5_entries.push(("name".to_owned(), v1));
    v5_entries.push(("uri".to_owned(), v2));
    v5_entries.push(("description".to_owned(), v3));
    v5_entries.push(("mimeType".to_owned(), v4));
    assert(Json::deep_entries(v5_entries@) =~= seq![("name"@, v1_v), ("uri"@, v2_v), ("description"@, v3_v), ("mimeType"@, v4_v)]);
    let v5 = Json::Object(v5_entries);
    let ghost v5_v = v5.deep();
    let mut v6_items: Vec<Json> = Vec::new();
    v6_items.push(v5);
    assert(Json::deep_items(v6_items@) =~= seq![v5_v]);
    let v6 = Json::Array(v6_items);
    let ghost v6_v = v6.deep();
    let mut v7_entries: Vec<(String, Json)> = Vec::new();
    v7_entries.push(("resources".to_owned(), v6));
    assert(Json::deep_entries(v7_entries@) =~= seq![("resources"@, v6_v)]);
    let v7 = Json::Object(v7_entries);
    let ghost v7_v = v7.deep();
    v7
}

/// The answer to `resources/read` of the platform resource, whose text is `text`.
pub open spec fn resource_contents_value(uri: Seq<char>, text: Seq<char>) -> JsonV {
    JsonV::Object(
        seq![
            ("contents"@, JsonV::Array(
                seq![
                    JsonV::Object(
                        seq![
                            ("uri"@, JsonV::Str(uri)),
                            ("mimeType"@, JsonV::Str("application/json"@)),
                            ("text"@, JsonV::Str(text)),
                        ],
                    ),
                ],
            )),
        ],
    )
}

/// The answer to `resources/read` of the platform resource.
pub fn resource_contents(uri: &str, text: &str) -> (r: Json)
    ensures
        r.deep() == resource_contents_value(uri@, text@),
{
    broadcast use group_json_lemmas;

    let v1 = Json::text(uri);
    let ghost v1_v = v1.deep();
    assert(v1_v == JsonV::Str(uri@));
    let v2 = Json::text("application/json");
    let ghost v2_v = v2.deep();
    let v3 = Json::text(text);
    let ghost v3_v = v3.deep();
    assert(v3_v == JsonV::Str(text@));
    let mut v4_entries: Vec<(String, Json)> = Vec::new();
    v4_entries.push(("uri".to_owned(), v1));
    v4_entries.push(("mimeType".to_owned(), v2));
    v4_entries.push(("text".to_owned(), v3));
    assert(Json::deep_entries(v4_entries@) =~= seq![("uri"@, v1_v), ("mimeType"@, v2_v), ("text"@, v3_v)]);
    let v4 = Json::Object(v4_entries);
    let ghost v4_v = v4.deep();
    let mut v5_items: Vec<Json> = Vec::new();
    v5_items.push(v4);
    assert(Json::deep_items(v5_items@) =~= seq![v4_v]);
    let v5 = Json::Array(v5_items);
    let ghost v5_v = v5.deep();
    let mut v6_entries: Vec<(String, Json)> = Vec::new();
    v6_entries.push(("contents".to_owned(), v5));
    assert(Json::deep_entries(v6_entries@) =~= seq![("contents"@, v5_v)]);
    let v6 = Json::Object(v6_entries);
    let ghost v6_v = v6.deep();
    v6
}

/// The answer to `tools/list`.
pub open spec fn tools_list_value() -> JsonV {
    JsonV::Object(seq![("tools"@, JsonV::Array(tool_definitions_value()))])
}

/// The answer to `tools/list`.
pub fn tools_list() -> (r: Json)
    ensures
        r.deep() == tools_list_value(),
{
    broadcast use group_json_lemmas;

    let v1 = Json::Array(tool_definitions());
    let ghost v1_v = v1.deep();
    assert(v1_v == JsonV::Array(tool_definitions_value()));
    let mut v2_entries: Vec<(String, Json)> = Vec::new();
    v2_entries.push(("tools".to_owned(), v1));
    assert(Json::deep_entries(v2_entries@) =~= seq![("tools"@, v1_v)]);
    let v2 = Json::Object(v2_entries);
    let ghost v2_v = v2.deep();
    v2
}


/// Whether a client that sent this `Accept` header wants the answer as a
/// server-sent event.
pub fn wants_event_stream(accept: &str) -> (r: bool)
    ensures
        r == holds_text(accept@, "text/event-stream"@),
{
    contains_text(accept, "text/event-stream")
}

pub open spec fn empty_object() -> JsonV {
    JsonV::Object(Seq::empty())
}

/// The `uri` a `resources/read` request names, empty when it names none.
pub open spec fn requested_uri(params: Option<JsonV>) -> Seq<char> {
    match params {
        Some(p) => match p.str_field("uri"@) {
            Some(u) => u,
            None => Seq::empty(),
        },
        None => Seq::empty(),
    }
}

/// The answer to a request for `method` other than a tool call; the
/// platform resource's text is `platform_text`.
pub open spec fn dispatch_outcome(method: Seq<char>, params: Option<JsonV>, platform_text: Seq<char>) -> Result<
    JsonV,
    Seq<char>,
> {
    if method == "initialize"@ {
        Ok(initialize_value())
    } else if method == "notifications/initialized"@ || method == "initialized"@ {
        Ok(empty_object())
    } else if method == "ping"@ {
        Ok(empty_object())
    } else if method == "tools/list"@ {
        Ok(tools_list_value())
    } else if method == "resources/list"@ {
        Ok(resources_value())
    } else if method == "resources/read"@ {
        let uri = requested_uri(params);
        if uri == "palmier://platform/windows"@ {
            Ok(resource_contents_value(uri, platform_text))
        } else {
            Err("unknown resource: "@ + uri)
        }
    } else {
        Err("method not found: "@ + method)
    }
}

pub open spec fn json_result(r: Result<Json, String>) -> Result<JsonV, Seq<char>> {
    match r {
        Ok(j) => Ok(j.deep()),
        Err(e) => Err(e@),
    }
}

/// Answers a request for `method` other than a tool call. The platform
/// resource's text is `platform_text`, the platform description written
/// out as JSON.
pub fn dispatch(method: &str, params: Option<&Json>, platform_text: &str) -> (r: Result<Json, String>)
    ensures
        json_result(r) == dispatch_outcome(method@, opt_deep_ref(params), platform_text@),
{
    let ghost out = dispatch_outcome(method@, opt_deep_ref(params), platform_text@);
    let m = method.to_owned();
    if m == "initialize".to_owned() {
        let r = initialize_result();
        assert(out == Ok::<JsonV, Seq<char>>(r.deep()));
        Ok(r)
    } else if m == "notifications/initialized".to_owned() || m == "initialized".to_owned() {
        let r = Json::empty_object();
        assert(out == Ok::<JsonV, Seq<char>>(r.deep()));
        Ok(r)
    } else if m == "ping".to_owned() {
        let r = Json::empty_object();
        assert(out == Ok::<JsonV, Seq<char>>(r.deep()));
        Ok(r)
    } else if m == "tools/list".to_owned() {
        let r = tools_list();
        assert(out == Ok::<JsonV, Seq<char>>(r.deep()));
        Ok(r)
    } else if m == "resources/list".to_owned() {
        let r = resources_list();
        assert(out == Ok::<JsonV, Seq<char>>(r.deep()));
        Ok(r)
    } else if m == "resources/read".to_owned() {
        proof {
            reveal_strlit("");
        }
        let uri: String = match params {
            Some(p) => match p.get("uri") {
                Some(u) => match u.as_str() {
                    Some(s) => s.clone(),
                    None => "".to_owned(),
                },
                None => "".to_owned(),
            },
            None => "".to_owned(),
        };
        assert(uri@ == requested_uri(opt_deep_ref(params)));
        if uri == "palmier://platform/windows".to_owned() {
            let r = resource_contents(uri.as_str(), platform_text);
            assert(out == Ok::<JsonV, Seq<char>>(r.deep()));
            Ok(r)
        } else {
            let e = join("unknown resource: ", uri.as_str());
            assert(out == Err::<JsonV, Seq<char>>(e@));
            Err(e)
        }
    } else {
        let e = join("method not found: ", method);
        assert(out == Err::<JsonV, Seq<char>>(e@));
        Err(e)
    }
}

/// A JSON-RPC request.
pub struct RpcRequest {
    pub id: Option<Json>,
    pub method: String,
    pub params: Option<Json>,
}

/// What to do with a JSON-RPC request.
pub enum RpcPlan {
    /// A notification: acknowledge it without an answer.
    Accepted,
    /// A tool call without parameters: answer with an invalid-params error.
    MissingParams { id: Json },
    /// A tool call: run the tool with these parameters and answer.
    ToolCall { id: Json, params: Json },
    /// Any other request: answer with this result.
    Answer { id: Json, result: Result<Json, String> },
}

/// The id an answer carries: the request's, or `null`.
pub open spec fn answer_id(id: Option<JsonV>) -> JsonV {
    match id {
        Some(i) => i,
        None => JsonV::Null,
    }
}

/// What to do with a request: notifications (no id, and a method under
/// `notifications/` or `initialized`) are acknowledged; a tool call needs
/// parameters; anything else is answered at once.
pub fn plan_request(req: &RpcRequest, platform_text: &str) -> (r: RpcPlan)
    ensures
        match r {
            RpcPlan::Accepted => req.id is None && (starts_with(req.method@, "notifications/"@)
                || req.method@ == "initialized"@),
            RpcPlan::MissingParams { id } => !(req.id is None && (starts_with(
                req.method@,
                "notifications/"@,
            ) || req.method@ == "initialized"@)) && req.method@ == "tools/call"@ && req.params is None
                && id.deep() == answer_id(opt_deep(req.id)),
            RpcPlan::ToolCall { id, params } => !(req.id is None && (starts_with(
                req.method@,
                "notifications/"@,
            ) || req.method@ == "initialized"@)) && req.method@ == "tools/call"@ && req.params is Some
                && params.deep() == req.params->0.deep() && id.deep() == answer_id(opt_deep(req.id)),
            RpcPlan::Answer { id, result } => !(req.id is None && (starts_with(
                req.method@,
                "notifications/"@,
            ) || req.method@ == "initialized"@)) && req.method@ != "tools/call"@ && id.deep()
                == answer_id(opt_deep(req.id)) && json_result(result) == dispatch_outcome(
                req.method@,
                opt_deep(req.params),
                platform_text@,
            ),
        },
{
    let m = req.method.as_str();
    if req.id.is_none() && (starts_with_text(m, "notifications/") || req.method
        == "initialized".to_owned()) {
        return RpcPlan::Accepted;
    }
    let id = match &req.id {
        Some(i) => i.copy(),
        None => Json::Null,
    };
    if req.method == "tools/call".to_owned() {
        match &req.params {
            Some(p) => RpcPlan::ToolCall { id, params: p.copy() },
            None => RpcPlan::MissingParams { id },
        }
    } else {
        let result = match &req.params {
            Some(p) => dispatch(m, Some(p), platform_text),
            None => dispatch(m, None, platform_text),
        };
        RpcPlan::Answer { id, result }
    }
}

/// The error part of a JSON-RPC answer.
pub struct RpcError {
    pub code: i64,
    pub message: String,
}

/// A JSON-RPC answer: version `2.0`, the id (`null` when absent), then the
/// result and the error, each only when present.
pub open spec fn rpc_response_value(id: Option<JsonV>, result: Option<JsonV>, error: Option<(i64, Seq<char>)>) -> JsonV {
    let base = seq![("jsonrpc"@, JsonV::Str("2.0"@)), ("id"@, answer_id(id))];
    let with_result = match result {
        Some(r) => base.push(("result"@, r)),
        None => base,
    };
    JsonV::Object(
        match error {
            Some((code, msg)) => with_result.push(
                ("error"@, JsonV::Object(seq![("code"@, JsonV::Int(code)), ("message"@, JsonV::Str(msg))])),
            ),
            None => with_result,
        },
    )
}

pub open spec fn opt_error(e: Option<RpcError>) -> Option<(i64, Seq<char>)> {
    match e {
        Some(x) => Some((x.code, x.message@)),
        None => None,
    }
}

/// An error object: its code and message.
fn error_object(code: i64, message: String) -> (r: Json)
    ensures
        r.deep() == JsonV::Object(seq![("code"@, JsonV::Int(code)), ("message"@, JsonV::Str(message@))]),
{
    broadcast use group_json_lemmas;

    let ghost m = message@;
    let mut es: Vec<(String, Json)> = Vec::new();
    es.push(("code".to_owned(), Json::Int(code)));
    es.push(("message".to_owned(), Json::Str(message)));
    assert(Json::deep_entries(es@) =~= seq![("code"@, JsonV::Int(code)), ("message"@, JsonV::Str(m))]);
    Json::Object(es)
}

/// A JSON-RPC answer.
pub fn rpc_response(id: Option<Json>, result: Option<Json>, error: Option<RpcError>) -> (r: Json)
    ensures
        r.deep() == rpc_response_value(opt_deep(id), opt_deep(result), opt_error(error)),
{
    broadcast use group_json_lemmas;

    let ghost (iv, rv, ev) = (opt_deep(id), opt_deep(result), opt_error(error));
    let mut es: Vec<(String, Json)> = Vec::new();
    es.push(("jsonrpc".to_owned(), Json::text("2.0")));
    let idj = match id {
        Some(i) => i,
        None => Json::Null,
    };
    es.push(("id".to_owned(), idj));
    assert(Json::deep_entries(es@) =~= seq![("jsonrpc"@, JsonV::Str("2.0"@)), ("id"@, answer_id(iv))]);
    match result {
        Some(r) => {
            let ghost before = Json::deep_entries(es@);
            let ghost rd = r.deep();
            es.push(("result".to_owned(), r));
            assert(Json::deep_entries(es@) =~= before.push(("result"@, rd)));
        },
        None => {},
    }
    match error {
        Some(e) => {
            let ghost before = Json::deep_entries(es@);
            let eo = error_object(e.code, e.message);
            let ghost ed = eo.deep();
            es.push(("error".to_owned(), eo));
            assert(Json::deep_entries(es@) =~= before.push(("error"@, ed)));
        },
        None => {},
    }
    Json::Object(es)
}

/// The answer to a request with `id`: its result, or the error `-32000`
/// with the message.
pub fn answer_response(id: Json, result: Result<Json, String>) -> (r: Json)
    ensures
        r.deep() == match json_result(result) {
            Ok(v) => rpc_response_value(Some(id.deep()), Some(v), None),
            Err(m) => rpc_response_value(Some(id.deep()), None, Some((-32000i64, m))),
        },
{
    match result {
        Ok(v) => rpc_response(Some(id), Some(v), None),
        Err(m) => rpc_response(Some(id), None, Some(RpcError { code: -32000, message: m })),
    }
}

/// The answer to a tool call that comes without parameters: the
/// invalid-params error `-32602`, `missing params`.
pub fn missing_params_response(id: Json) -> (r: Json)
    ensures
        r.deep() == rpc_response_value(Some(id.deep()), None, Some((-32602i64, "missing params"@))),
{
    rpc_response(Some(id), None, Some(RpcError { code: -32602, message: "missing params".to_owned() }))
}

/// The answer to a request body that is not a JSON-RPC request: the parse
/// error `-32700` with the parser's message `detail`, and no id.
pub fn parse_error_response(detail: &str) -> (r: Json)
    ensures
        r.deep() == rpc_response_value(None, None, Some((-32700i64, "Parse error: "@ + detail@))),
{
    let message = join("Parse error: ", detail);
    rpc_response(None, None, Some(RpcError { code: -32700, message }))
}

/// The event a client that wants server-sent events receives: the answer's
/// version, id, and result or `-32000` error.
pub open spec fn event_payload_value(id: JsonV, result: Result<JsonV, Seq<char>>) -> JsonV {
    match result {
        Ok(v) => JsonV::Object(seq![("jsonrpc"@, JsonV::Str("2.0"@)), ("id"@, id), ("result"@, v)]),
        Err(m) => JsonV::Object(
            seq![
                ("jsonrpc"@, JsonV::Str("2.0"@)),
                ("id"@, id),
                ("error"@, JsonV::Object(seq![("code"@, JsonV::Int(-32000i64)), ("message"@, JsonV::Str(m))])),
            ],
        ),
    }
}

/// The event a client that wants server-sent events receives.
pub fn event_payload(id: &Json, result: &Result<Json, String>) -> (r: Json)
    ensures
        r.deep() == event_payload_value(id.deep(), json_result(*result)),
{
    broadcast use group_json_lemmas;

    let idj = id.copy();
    let ghost iv = idj.deep();
    let mut es: Vec<(String, Json)> = Vec::new();
    es.push(("jsonrpc".to_owned(), Json::text("2.0")));
    es.push(("id".to_owned(), idj));
    match result {
        Ok(v) => {
            let c = v.copy();
            let ghost cv = c.deep();
            es.push(("result".to_owned(), c));
            assert(Json::deep_entries(es@) =~= seq![("jsonrpc"@, JsonV::Str("2.0"@)), ("id"@, iv), ("result"@, cv)]);
        },
        Err(m) => {
            let eo = error_object(-32000, m.clone());
            let ghost ed = eo.deep();
            es.push(("error".to_owned(), eo));
            assert(Json::deep_entries(es@) =~= seq![("jsonrpc"@, JsonV::Str("2.0"@)), ("id"@, iv), ("error"@, ed)]);
        },
    }
    Json::Object(es)
}

/// The tool a `tools/call` request names and its arguments (an empty
/// object when it gives none).
pub open spec fn tool_call_parts_spec(params: JsonV) -> Result<(Seq<char>, JsonV), Seq<char>> {
    match params.str_field("name"@) {
        None => Err("missing tool name"@),
        Some(n) => Ok(
            (
                n,
                match params.field("arguments"@) {
                    Some(a) => a,
                    None => empty_object(),
                },
            ),
        ),
    }
}

/// The tool a `tools/call` request names and its arguments.
pub fn tool_call_parts(params: &Json) -> (r: Result<(String, Json), String>)
    ensures
        match r {
            Ok((n, a)) => tool_call_parts_spec(params.deep()) == Ok::<(Seq<char>, JsonV), Seq<char>>(
                (n@, a.deep()),
            ),
            Err(e) => tool_call_parts_spec(params.deep()) == Err::<(Seq<char>, JsonV), Seq<char>>(e@),
        },
{
    let name = match params.get("name") {
        Some(v) => match v.as_str() {
            Some(s) => s.clone(),
            None => {
                return Err("missing tool name".to_owned());
            },
        },
        None => {
            return Err("missing tool name".to_owned());
        },
    };
    let args = match params.get("arguments") {
        Some(a) => a.copy(),
        None => Json::empty_object(),
    };
    Ok((name, args))
}


/// What a tool call answers: the tool's value, written out as `text`, when
/// the tool succeeded, and its error as an error result when it failed.
pub fn tool_call_answer(outcome: Result<String, String>) -> (r: Json)
    ensures
        r.deep() == match outcome {
            Ok(text) => tool_text_value(text@),
            Err(e) => tool_error_value(e@),
        },
{
    match outcome {
        Ok(text) => tool_result_text(text),
        Err(e) => tool_result_error(e.as_str()),
    }
}

} // verus!
