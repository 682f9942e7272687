use vstd::prelude::*;
use crate::edit::{
    add_entries, add_entry, add_outcome, entry_error, entry_track_index, grown_tracks, new_clip,
    clip_at, clip_edit_outcome, props_outcome, with_fields, clip_ref, clips_of, duration_of,
    first_clip, first_clip_at, has_clip, has_id, left_part, move_outcome, remove_outcome,
    new_track, right_part, split_fits, split_outcome, start_of, tracks_of, trim_start_of,
    with_track_clips, without_id,
};
use crate::json::{
    first_key_at, lemma_field_after_set, lemma_field_other, lemma_first_key_unique, JsonV,
};

verus! {

/// The first clip with a given id is a clip with that id.
proof fn lemma_first_clip_found(ts: Seq<JsonV>, id: Seq<char>)
    requires
        has_clip(ts, id),
    ensures
        first_clip_at(ts, id, first_clip(ts, id).0, first_clip(ts, id).1),
{
    let (t, c) = choose|t: int, c: int| clip_at(ts, id, t, c);
    lemma_first_below(ts, id, t, c);
}

/// Some clip with the id lies at or before any position that holds one.
proof fn lemma_first_below(ts: Seq<JsonV>, id: Seq<char>, t: int, c: int)
    requires
        clip_at(ts, id, t, c),
    ensures
        exists|a: int, b: int| first_clip_at(ts, id, a, b),
    decreases t, c,
{
    if exists|a: int, b: int| clip_at(ts, id, a, b) && (a < t || (a == t && b < c)) {
        let (a, b) = choose|a: int, b: int| clip_at(ts, id, a, b) && (a < t || (a == t && b < c));
        assert(0 <= a && 0 <= b);
        lemma_first_below(ts, id, a, b);
    } else {
        assert(first_clip_at(ts, id, t, c));
    }
}

/// The timeline with track `ti`'s clips replaced: its tracks are the old
/// ones but for track `ti`, whose clips are `clips`.
proof fn lemma_track_clips_shape(t: JsonV, ti: int, clips: Seq<JsonV>)
    requires
        tracks_of(t) is Some,
        0 <= ti < tracks_of(t)->0.len(),
        clips_of(tracks_of(t)->0[ti]) is Some,
    ensures
        tracks_of(with_track_clips(t, ti, clips)) is Some,
        tracks_of(with_track_clips(t, ti, clips))->0.len() == tracks_of(t)->0.len(),
        clips_of(tracks_of(with_track_clips(t, ti, clips))->0[ti]) == Some(clips),
        forall|k: int|
            0 <= k < tracks_of(t)->0.len() && k != ti ==> #[trigger] tracks_of(
                with_track_clips(t, ti, clips),
            )->0[k] == tracks_of(t)->0[k],
{
    let ts = tracks_of(t)->0;
    let nt = ts[ti].with_field("clips"@, JsonV::Array(clips));
    lemma_field_after_set(t, "tracks"@, JsonV::Array(ts.update(ti, nt)));
    lemma_field_after_set(ts[ti], "clips"@, JsonV::Array(clips));
}

/// An edit of the first clip with an id changes that clip alone.
proof fn lemma_clip_edit_shape(t: JsonV, id: Seq<char>, edited: spec_fn(JsonV) -> JsonV)
    requires
        clip_edit_outcome(t, id, edited).1 is Ok,
    ensures
        ({
            let ts = tracks_of(t)->0;
            let (ti, ci) = first_clip(ts, id);
            let ts2 = tracks_of(clip_edit_outcome(t, id, edited).0)->0;
            &&& tracks_of(clip_edit_outcome(t, id, edited).0) is Some
            &&& ts2.len() == ts.len()
            &&& clips_of(ts2[ti]) is Some
            &&& clips_of(ts2[ti])->0 == clips_of(ts[ti])->0.update(ci, edited(clip_ref(ts, ti, ci)))
            &&& forall|k: int| 0 <= k < ts.len() && k != ti ==> #[trigger] ts2[k] == ts[k]
        }),
{
    let ts = tracks_of(t)->0;
    lemma_first_clip_found(ts, id);
    let (ti, ci) = first_clip(ts, id);
    let clips = clips_of(ts[ti])->0.update(ci, edited(clip_ref(ts, ti, ci)));
    lemma_track_clips_shape(t, ti, clips);
}

/// The clip fields a split and a move set are distinct keys.
proof fn lemma_clip_keys_differ()
    ensures
        "startFrame"@ != "id"@,
        "durationFrames"@ != "id"@,
        "durationFrames"@ != "startFrame"@,
        "trimStartFrame"@ != "id"@,
        "trimStartFrame"@ != "startFrame"@,
        "trimStartFrame"@ != "durationFrames"@,
{
    reveal_strlit("startFrame");
    reveal_strlit("id");
    reveal_strlit("durationFrames");
    reveal_strlit("trimStartFrame");
    assert("startFrame"@[0] == 's');
    assert("id"@[0] == 'i');
    assert("durationFrames"@[0] == 'd');
    assert("trimStartFrame"@[0] == 't');
}

/// Moving a clip sets the start frame of the first clip with its id to the
/// frame asked for, or to 0 for a negative frame; the clip keeps its id,
/// and every other clip and track stays as it was.
pub proof fn law_move_sets_start(t: JsonV, id: Seq<char>, new_start: i64)
    requires
        move_outcome(t, id, new_start).1 is Ok,
    ensures
        ({
            let ts = tracks_of(t)->0;
            let (ti, ci) = first_clip(ts, id);
            let ts2 = tracks_of(move_outcome(t, id, new_start).0)->0;
            let cs = clips_of(ts[ti])->0;
            let cs2 = clips_of(ts2[ti])->0;
            &&& ts2.len() == ts.len()
            &&& cs2.len() == cs.len()
            &&& start_of(cs2[ci]) == (if new_start < 0 {
                0
            } else {
                new_start
            })
            &&& cs2[ci].str_field("id"@) == Some(id)
            &&& forall|c: int| 0 <= c < cs.len() && c != ci ==> #[trigger] cs2[c] == cs[c]
            &&& forall|k: int| 0 <= k < ts.len() && k != ti ==> #[trigger] ts2[k] == ts[k]
        }),
{
    let start: i64 = if new_start < 0 {
        0
    } else {
        new_start
    };
    let f = |c: JsonV| c.with_field("startFrame"@, JsonV::Int(start));
    lemma_clip_edit_shape(t, id, f);
    let ts = tracks_of(t)->0;
    lemma_first_clip_found(ts, id);
    lemma_clip_keys_differ();
    let (ti, ci) = first_clip(ts, id);
    let clip = clip_ref(ts, ti, ci);
    assert(clip is Object);
    lemma_field_after_set(clip, "startFrame"@, JsonV::Int(start));
    lemma_field_other(clip, "startFrame"@, JsonV::Int(start), "id"@);
}

/// Every clip left after removing an id carries another id.
proof fn lemma_without_id_clears(clips: Seq<JsonV>, id: Seq<char>)
    ensures
        forall|c: int| 0 <= c < without_id(clips, id).len() ==> !has_id(#[trigger] without_id(clips, id)[c], id),
    decreases clips.len(),
{
    if clips.len() > 0 {
        let rest = clips.drop_last();
        lemma_without_id_clears(rest, id);
        let w = without_id(clips, id);
        let wr = without_id(rest, id);
        assert forall|c: int| 0 <= c < w.len() implies !has_id(#[trigger] w[c], id) by {
            if !has_id(clips.last(), id) && c == wr.len() {
                assert(w[c] == clips.last());
            } else {
                assert(w[c] == wr[c]);
            }
        }
    }
}

/// Removing a clip id leaves no clip with that id in the first track that
/// held one, and every other track as it was.
pub proof fn law_remove_clears_track(t: JsonV, id: Seq<char>)
    requires
        remove_outcome(t, id).1 is Ok,
    ensures
        ({
            let ts = tracks_of(t)->0;
            let ti = first_clip(ts, id).0;
            let ts2 = tracks_of(remove_outcome(t, id).0)->0;
            &&& ts2.len() == ts.len()
            &&& clips_of(ts2[ti]) is Some
            &&& forall|c: int| 0 <= c < clips_of(ts2[ti])->0.len() ==> !has_id(#[trigger] clips_of(ts2[ti])->0[c], id)
            &&& forall|k: int| 0 <= k < ts.len() && k != ti ==> #[trigger] ts2[k] == ts[k]
        }),
{
    let ts = tracks_of(t)->0;
    lemma_first_clip_found(ts, id);
    let ti = first_clip(ts, id).0;
    let kept = without_id(clips_of(ts[ti])->0, id);
    lemma_track_clips_shape(t, ti, kept);
    lemma_without_id_clears(clips_of(ts[ti])->0, id);
}

/// Splitting a clip at a frame inside it leaves two adjacent clips in its
/// place that cover the same frames: the left one keeps the start and ends
/// at the cut, the right one starts at the cut, ends where the clip ended,
/// carries the new id and plays its source from `trim_end`. The other
/// clips keep their order around them.
pub proof fn law_split_parts(t: JsonV, id: Seq<char>, at: i64, new_id: Seq<char>, trim_end: i64)
    requires
        split_fits(t, id),
        split_outcome(t, id, at, new_id, trim_end).1 is Ok,
    ensures
        ({
            let ts = tracks_of(t)->0;
            let (ti, ci) = first_clip(ts, id);
            let clip = clip_ref(ts, ti, ci);
            let cs = clips_of(ts[ti])->0;
            let ts2 = tracks_of(split_outcome(t, id, at, new_id, trim_end).0)->0;
            let cs2 = clips_of(ts2[ti])->0;
            &&& ts2.len() == ts.len()
            &&& cs2.len() == cs.len() + 1
            &&& cs2[ci] == left_part(clip, at)
            &&& cs2[ci + 1] == right_part(clip, at, new_id, trim_end)
            &&& start_of(cs2[ci]) == start_of(clip)
            &&& start_of(cs2[ci]) + duration_of(cs2[ci]) == at
            &&& start_of(cs2[ci + 1]) == at
            &&& start_of(cs2[ci + 1]) + duration_of(cs2[ci + 1]) == start_of(clip) + duration_of(clip)
            &&& duration_of(cs2[ci]) + duration_of(cs2[ci + 1]) == duration_of(clip)
            &&& cs2[ci + 1].str_field("id"@) == Some(new_id)
            &&& trim_start_of(cs2[ci + 1]) == trim_end
            &&& forall|c: int| 0 <= c < ci ==> #[trigger] cs2[c] == cs[c]
            &&& forall|c: int| ci < c < cs.len() ==> #[trigger] cs2[c + 1] == cs[c]
            &&& forall|k: int| 0 <= k < ts.len() && k != ti ==> #[trigger] ts2[k] == ts[k]
        }),
{
    let ts = tracks_of(t)->0;
    lemma_first_clip_found(ts, id);
    let (ti, ci) = first_clip(ts, id);
    let clip = clip_ref(ts, ti, ci);
    let cs = clips_of(ts[ti])->0;
    let l = left_part(clip, at);
    let r = right_part(clip, at, new_id, trim_end);
    let cs2 = cs.update(ci, l).insert(ci + 1, r);
    lemma_track_clips_shape(t, ti, cs2);
    assert(clip is Object);
    lemma_clip_keys_differ();
    let s = start_of(clip);
    let d = duration_of(clip);
    // the left part: its length is set, its start is kept
    lemma_field_after_set(clip, "durationFrames"@, JsonV::Int((at - s) as i64));
    lemma_field_other(clip, "durationFrames"@, JsonV::Int((at - s) as i64), "startFrame"@);
    // the right part: four fields set in turn
    let r1 = clip.with_field("id"@, JsonV::Str(new_id));
    let r2 = r1.with_field("startFrame"@, JsonV::Int(at));
    let r3 = r2.with_field("durationFrames"@, JsonV::Int((s + d - at) as i64));
    lemma_field_after_set(clip, "id"@, JsonV::Str(new_id));
    lemma_field_other(r1, "startFrame"@, JsonV::Int(at), "id"@);
    lemma_field_after_set(r1, "startFrame"@, JsonV::Int(at));
    lemma_field_other(r2, "durationFrames"@, JsonV::Int((s + d - at) as i64), "id"@);
    lemma_field_other(r2, "durationFrames"@, JsonV::Int((s + d - at) as i64), "startFrame"@);
    lemma_field_after_set(r2, "durationFrames"@, JsonV::Int((s + d - at) as i64));
    lemma_field_other(r3, "trimStartFrame"@, JsonV::Int(trim_end), "id"@);
    lemma_field_other(r3, "trimStartFrame"@, JsonV::Int(trim_end), "startFrame"@);
    lemma_field_other(r3, "trimStartFrame"@, JsonV::Int(trim_end), "durationFrames"@);
    lemma_field_after_set(r3, "trimStartFrame"@, JsonV::Int(trim_end));
    assert(cs2[ci] == l);
    assert(cs2[ci + 1] == r);
    assert forall|c: int| ci < c < cs.len() implies #[trigger] cs2[c + 1] == cs[c] by {
    }
}


/// A new clip carries the id it was made with.
proof fn lemma_new_clip_id(
    id: Seq<char>,
    media_ref: Seq<char>,
    kind: Seq<char>,
    start: i64,
    duration: i64,
    trim_start: JsonV,
    trim_end: JsonV,
)
    ensures
        new_clip(id, media_ref, kind, start, duration, trim_start, trim_end).str_field("id"@) == Some(id),
{
    let c = new_clip(id, media_ref, kind, start, duration, trim_start, trim_end);
    let es = c->Object_0;
    assert(first_key_at(es, "id"@, 0));
    lemma_first_key_unique(es, "id"@, 0);
}

/// Adding one entry keeps every clip where it was, and the clip it adds,
/// if any, carries the id it reports.
proof fn lemma_add_entry_keeps(tracks: Seq<JsonV>, e: JsonV, ids: Seq<Seq<char>>, used: int)
    ensures
        forall|id: Seq<char>, t: int, c: int|
            clip_at(tracks, id, t, c) ==> #[trigger] clip_at(add_entry(tracks, e, ids, used).0, id, t, c),
        match add_entry(tracks, e, ids, used).1 {
            Some(cid) => has_clip(add_entry(tracks, e, ids, used).0, cid),
            None => true,
        },
{
    let ti = entry_track_index(e);
    let grown = grown_tracks(tracks, ti, ids, used);
    let step = add_entry(tracks, e, ids, used);
    assert(ti >= 0);
    assert(grown.len() > ti);
    assert forall|k: int| 0 <= k < tracks.len() implies grown[k] == tracks[k] by {
    }
    match clips_of(grown[ti]) {
        Some(cs) => {
            let taken = grown.len() - tracks.len();
            let cid = ids[used + taken];
            let kind = match grown[ti].str_field("type"@) {
                Some(t) => t,
                None => match e.str_field("trackType"@) {
                    Some(t) => t,
                    None => "video"@,
                },
            };
            let clip = new_clip(
                cid,
                e.str_field("mediaRef"@)->0,
                kind,
                e.i64_field("startFrame"@)->0,
                e.i64_field("durationFrames"@)->0,
                crate::edit::field_or_zero(e, "trimStartFrame"@),
                crate::edit::field_or_zero(e, "trimEndFrame"@),
            );
            lemma_field_after_set(grown[ti], "clips"@, JsonV::Array(cs.push(clip)));
            assert(clips_of(step.0[ti]) == Some(cs.push(clip)));
            assert forall|id: Seq<char>, t: int, c: int|
                clip_at(tracks, id, t, c) implies #[trigger] clip_at(step.0, id, t, c) by {
                if t == ti {
                    assert(cs.push(clip)[c] == cs[c]);
                }
            }
            lemma_new_clip_id(
                cid,
                e.str_field("mediaRef"@)->0,
                kind,
                e.i64_field("startFrame"@)->0,
                e.i64_field("durationFrames"@)->0,
                crate::edit::field_or_zero(e, "trimStartFrame"@),
                crate::edit::field_or_zero(e, "trimEndFrame"@),
            );
            assert(clip_at(step.0, cid, ti, cs.len() as int));
        },
        None => {
            assert forall|id: Seq<char>, t: int, c: int|
                clip_at(tracks, id, t, c) implies #[trigger] clip_at(step.0, id, t, c) by {
            }
        },
    }
}

/// Every id that adding entries reports names a clip of the tracks after.
proof fn lemma_add_entries_present(tracks: Seq<JsonV>, entries: Seq<JsonV>, ids: Seq<Seq<char>>)
    ensures
        forall|k: int|
            0 <= k < add_entries(tracks, entries, ids).1.len() ==> has_clip(
                add_entries(tracks, entries, ids).0,
                #[trigger] add_entries(tracks, entries, ids).1[k],
            ),
    decreases entries.len(),
{
    if entries.len() > 0 {
        let prev = add_entries(tracks, entries.drop_last(), ids);
        lemma_add_entries_present(tracks, entries.drop_last(), ids);
        if prev.3 is None && entry_error(entries.last()) is None {
            let step = add_entry(prev.0, entries.last(), ids, prev.2);
            lemma_add_entry_keeps(prev.0, entries.last(), ids, prev.2);
            let st = add_entries(tracks, entries, ids);
            assert forall|k: int| 0 <= k < st.1.len() implies has_clip(st.0, #[trigger] st.1[k]) by {
                if k < prev.1.len() {
                    assert(st.1[k] == prev.1[k]);
                    assert(has_clip(prev.0, prev.1[k]));
                    let (t, c) = choose|t: int, c: int| clip_at(prev.0, prev.1[k], t, c);
                    assert(clip_at(step.0, prev.1[k], t, c));
                }
            }
        }
    }
}

/// Adding clips that succeeds reports ids that each name a clip of the
/// timeline afterwards.
pub proof fn law_added_clips_present(t: JsonV, entries: Seq<JsonV>, ids: Seq<Seq<char>>)
    requires
        add_outcome(t, entries, ids).1 is Ok,
    ensures
        forall|k: int|
            0 <= k < add_outcome(t, entries, ids).1->Ok_0.len() ==> has_clip(
                tracks_of(add_outcome(t, entries, ids).0)->0,
                #[trigger] add_outcome(t, entries, ids).1->Ok_0[k],
            ),
{
    let ts = tracks_of(t)->0;
    let st = add_entries(ts, entries, ids);
    lemma_add_entries_present(ts, entries, ids);
    lemma_field_after_set(t, "tracks"@, JsonV::Array(st.0));
}


/// The keys of an object's entries are distinct.
pub open spec fn keys_distinct(es: Seq<(Seq<char>, JsonV)>) -> bool {
    forall|i: int, j: int| 0 <= i < j < es.len() ==> #[trigger] es[i].0 != #[trigger] es[j].0
}

/// Setting distinct fields in turn: each holds its value, every other
/// field keeps its own.
proof fn lemma_with_fields(v: JsonV, es: Seq<(Seq<char>, JsonV)>)
    requires
        v is Object,
        keys_distinct(es),
    ensures
        with_fields(v, es) is Object,
        forall|i: int| 0 <= i < es.len() ==> with_fields(v, es).field(#[trigger] es[i].0) == Some(es[i].1),
        forall|k: Seq<char>|
            (forall|i: int| 0 <= i < es.len() ==> es[i].0 != k) ==> #[trigger] with_fields(v, es).field(k)
                == v.field(k),
    decreases es.len(),
{
    if es.len() > 0 {
        let rest = es.drop_last();
        assert(keys_distinct(rest));
        lemma_with_fields(v, rest);
        let w = with_fields(v, rest);
        let (key, val) = es.last();
        lemma_field_after_set(w, key, val);
        assert forall|i: int| 0 <= i < es.len() implies with_fields(v, es).field(#[trigger] es[i].0) == Some(
            es[i].1,
        ) by {
            if i < es.len() - 1 {
                assert(es[i] == rest[i]);
                lemma_field_other(w, key, val, es[i].0);
            }
        }
        assert forall|k: Seq<char>|
            (forall|i: int| 0 <= i < es.len() ==> es[i].0 != k) implies #[trigger] with_fields(v, es).field(k)
            == v.field(k) by {
            assert(es[es.len() - 1].0 != k);
            lemma_field_other(w, key, val, k);
            assert forall|i: int| 0 <= i < rest.len() implies rest[i].0 != k by {
                assert(rest[i] == es[i]);
            }
        }
    }
}

/// Setting properties on a clip: each field the properties name holds the
/// value they give, and every other field of the clip keeps its value; the
/// other clips and tracks stay as they were.
pub proof fn law_props_sets_fields(t: JsonV, id: Seq<char>, props: JsonV)
    requires
        props_outcome(t, id, props).1 is Ok,
        props is Object,
        keys_distinct(props->Object_0),
    ensures
        ({
            let ts = tracks_of(t)->0;
            let (ti, ci) = first_clip(ts, id);
            let ts2 = tracks_of(props_outcome(t, id, props).0)->0;
            let cs = clips_of(ts[ti])->0;
            let cs2 = clips_of(ts2[ti])->0;
            let es = props->Object_0;
            &&& cs2.len() == cs.len()
            &&& forall|i: int| 0 <= i < es.len() ==> cs2[ci].field(#[trigger] es[i].0) == Some(es[i].1)
            &&& forall|k: Seq<char>|
                (forall|i: int| 0 <= i < es.len() ==> es[i].0 != k) ==> #[trigger] cs2[ci].field(k)
                    == cs[ci].field(k)
            &&& forall|c: int| 0 <= c < cs.len() && c != ci ==> #[trigger] cs2[c] == cs[c]
            &&& forall|k: int| 0 <= k < ts.len() && k != ti ==> #[trigger] ts2[k] == ts[k]
        }),
{
    let f = |c: JsonV| crate::edit::with_props(c, props);
    lemma_clip_edit_shape(t, id, f);
    let ts = tracks_of(t)->0;
    lemma_first_clip_found(ts, id);
    let (ti, ci) = first_clip(ts, id);
    let clip = clip_ref(ts, ti, ci);
    assert(clip is Object);
    lemma_with_fields(clip, props->Object_0);
}

/// Every track holds a `clips` array.
pub open spec fn all_have_clips(tracks: Seq<JsonV>) -> bool {
    forall|i: int| 0 <= i < tracks.len() ==> (#[trigger] clips_of(tracks[i])) is Some
}

/// A new track holds an empty `clips` array.
proof fn lemma_new_track_clips(id: Seq<char>)
    ensures
        clips_of(new_track(id)) == Some(Seq::<JsonV>::empty()),
{
    reveal_strlit("id");
    reveal_strlit("type");
    reveal_strlit("clips");
    let es = new_track(id)->Object_0;
    assert("id"@[0] != "clips"@[0]);
    assert("type"@[0] != "clips"@[0]);
    assert(first_key_at(es, "clips"@, 2));
    lemma_first_key_unique(es, "clips"@, 2);
}

/// Adding one valid entry to tracks that all hold clips adds a clip and
/// leaves every track holding clips.
proof fn lemma_add_entry_adds(tracks: Seq<JsonV>, e: JsonV, ids: Seq<Seq<char>>, used: int)
    requires
        all_have_clips(tracks),
    ensures
        add_entry(tracks, e, ids, used).1 is Some,
        all_have_clips(add_entry(tracks, e, ids, used).0),
{
    let ti = entry_track_index(e);
    let grown = grown_tracks(tracks, ti, ids, used);
    assert(ti >= 0);
    assert(grown.len() > ti);
    assert forall|i: int| 0 <= i < grown.len() implies (#[trigger] clips_of(grown[i])) is Some by {
        if i >= tracks.len() {
            lemma_new_track_clips(ids[used + i - tracks.len()]);
        } else {
            assert(grown[i] == tracks[i]);
        }
    }
    assert(clips_of(grown[ti]) is Some);
    assert(grown[ti] is Object);
    assert forall|a: JsonV| #[trigger] grown[ti].with_field("clips"@, a).field("clips"@) == Some(a) by {
        lemma_field_after_set(grown[ti], "clips"@, a);
    }
    let out = add_entry(tracks, e, ids, used).0;
    assert forall|i: int| 0 <= i < out.len() implies (#[trigger] clips_of(out[i])) is Some by {
        if i != ti {
            assert(out[i] == grown[i]);
        }
    }
}

/// Adding valid entries to tracks that all hold clips adds one clip per
/// entry and refuses none.
proof fn lemma_add_entries_count(tracks: Seq<JsonV>, entries: Seq<JsonV>, ids: Seq<Seq<char>>)
    requires
        all_have_clips(tracks),
        forall|k: int| 0 <= k < entries.len() ==> (#[trigger] entry_error(entries[k])) is None,
    ensures
        add_entries(tracks, entries, ids).3 is None,
        add_entries(tracks, entries, ids).1.len() == entries.len(),
        all_have_clips(add_entries(tracks, entries, ids).0),
    decreases entries.len(),
{
    if entries.len() > 0 {
        let rest = entries.drop_last();
        assert forall|k: int| 0 <= k < rest.len() implies (#[trigger] entry_error(rest[k])) is None by {
            assert(rest[k] == entries[k]);
        }
        lemma_add_entries_count(tracks, rest, ids);
        let prev = add_entries(tracks, rest, ids);
        assert(entry_error(entries[entries.len() - 1]) is None);
        lemma_add_entry_adds(prev.0, entries.last(), ids, prev.2);
    }
}

/// Adding entries that each name a media reference, a start and a
/// duration, to a timeline whose tracks all hold clips, succeeds and
/// reports one id for each entry.
pub proof fn law_add_reports_each_entry(t: JsonV, entries: Seq<JsonV>, ids: Seq<Seq<char>>)
    requires
        tracks_of(t) is Some,
        all_have_clips(tracks_of(t)->0),
        forall|k: int| 0 <= k < entries.len() ==> (#[trigger] entry_error(entries[k])) is None,
    ensures
        add_outcome(t, entries, ids).1 is Ok,
        add_outcome(t, entries, ids).1->Ok_0.len() == entries.len(),
{
    lemma_add_entries_count(tracks_of(t)->0, entries, ids);
}

/// The fields a new clip takes from its entry, found where they stand.
proof fn lemma_new_clip_fields(
    id: Seq<char>,
    media_ref: Seq<char>,
    kind: Seq<char>,
    start: i64,
    duration: i64,
    trim_start: JsonV,
    trim_end: JsonV,
)
    ensures
        ({
            let c = new_clip(id, media_ref, kind, start, duration, trim_start, trim_end);
            &&& c.str_field("id"@) == Some(id)
            &&& c.str_field("mediaRef"@) == Some(media_ref)
            &&& c.i64_field("startFrame"@) == Some(start)
            &&& c.i64_field("durationFrames"@) == Some(duration)
            &&& c.field("trimStartFrame"@) == Some(trim_start)
            &&& c.field("trimEndFrame"@) == Some(trim_end)
        }),
{
    reveal_strlit("id");
    reveal_strlit("mediaRef");
    reveal_strlit("mediaType");
    reveal_strlit("sourceClipType");
    reveal_strlit("startFrame");
    reveal_strlit("durationFrames");
    reveal_strlit("trimStartFrame");
    reveal_strlit("trimEndFrame");
    let c = new_clip(id, media_ref, kind, start, duration, trim_start, trim_end);
    let es = c->Object_0;
    assert("id"@.len() != "mediaRef"@.len());
    assert("id"@.len() != "mediaType"@.len());
    assert("id"@.len() != "sourceClipType"@.len());
    assert("id"@.len() != "startFrame"@.len());
    assert("id"@.len() != "durationFrames"@.len());
    assert("id"@.len() != "trimStartFrame"@.len());
    assert("id"@.len() != "trimEndFrame"@.len());
    assert("mediaRef"@.len() != "mediaType"@.len());
    assert("mediaRef"@.len() != "sourceClipType"@.len());
    assert("mediaRef"@.len() != "startFrame"@.len());
    assert("mediaRef"@.len() != "durationFrames"@.len());
    assert("mediaRef"@.len() != "trimStartFrame"@.len());
    assert("mediaRef"@.len() != "trimEndFrame"@.len());
    assert("mediaType"@.len() != "sourceClipType"@.len());
    assert("mediaType"@.len() != "startFrame"@.len());
    assert("mediaType"@.len() != "durationFrames"@.len());
    assert("mediaType"@.len() != "trimStartFrame"@.len());
    assert("mediaType"@.len() != "trimEndFrame"@.len());
    assert("sourceClipType"@.len() != "startFrame"@.len());
    assert("sourceClipType"@[0] != "durationFrames"@[0]);
    assert("sourceClipType"@[0] != "trimStartFrame"@[0]);
    assert("sourceClipType"@.len() != "trimEndFrame"@.len());
    assert("startFrame"@.len() != "durationFrames"@.len());
    assert("startFrame"@.len() != "trimStartFrame"@.len());
    assert("startFrame"@.len() != "trimEndFrame"@.len());
    assert("durationFrames"@[0] != "trimStartFrame"@[0]);
    assert("durationFrames"@.len() != "trimEndFrame"@.len());
    assert("trimStartFrame"@.len() != "trimEndFrame"@.len());
    assert("sourceClipType"@[0] != "trimStartFrame"@[0]);
    assert("durationFrames"@[0] != "trimStartFrame"@[0]);
    assert("sourceClipType"@[0] != "durationFrames"@[0]);
    assert("startFrame"@[0] != "trimStartFrame"@[0]);
    assert(first_key_at(es, "id"@, 0));
    lemma_first_key_unique(es, "id"@, 0);
    assert(first_key_at(es, "mediaRef"@, 1));
    lemma_first_key_unique(es, "mediaRef"@, 1);
    assert(first_key_at(es, "startFrame"@, 4));
    lemma_first_key_unique(es, "startFrame"@, 4);
    assert(first_key_at(es, "durationFrames"@, 5));
    lemma_first_key_unique(es, "durationFrames"@, 5);
    assert(first_key_at(es, "trimStartFrame"@, 6));
    lemma_first_key_unique(es, "trimStartFrame"@, 6);
    assert(first_key_at(es, "trimEndFrame"@, 7));
    lemma_first_key_unique(es, "trimEndFrame"@, 7);
}

/// The track an entry asks for: its `trackIndex` when that is a whole
/// number, else 0.
pub open spec fn requested_track(e: JsonV) -> int {
    match e.field("trackIndex"@) {
        Some(v) => match v.as_u64() {
            Some(u) => u as int,
            None => 0,
        },
        None => 0,
    }
}

/// Adding one entry that names a media reference, a start and a duration,
/// to a timeline whose tracks all hold clips, succeeds with one id, and
/// the clip it appends to the track the entry asks for carries that id and
/// the entry's `mediaRef`, `startFrame` and `durationFrames`, and its
/// `trimStartFrame` and `trimEndFrame` as given (0 when absent).
pub proof fn law_added_clip_fields(t: JsonV, e: JsonV, ids: Seq<Seq<char>>)
    requires
        tracks_of(t) is Some,
        all_have_clips(tracks_of(t)->0),
        e.str_field("mediaRef"@) is Some,
        e.i64_field("startFrame"@) is Some,
        e.i64_field("durationFrames"@) is Some,
        requested_track(e) <= usize::MAX,
    ensures
        ({
            let r = add_outcome(t, seq![e], ids);
            let ti = requested_track(e);
            &&& r.1 is Ok
            &&& r.1->Ok_0.len() == 1
            &&& tracks_of(r.0) is Some
            &&& 0 <= ti < tracks_of(r.0)->0.len()
            &&& clips_of(tracks_of(r.0)->0[ti]) is Some
            &&& clips_of(tracks_of(r.0)->0[ti])->0.len() > 0
            &&& ({
                let c = clips_of(tracks_of(r.0)->0[ti])->0.last();
                &&& c.str_field("id"@) == Some(r.1->Ok_0[0])
                &&& c.str_field("mediaRef"@) == e.str_field("mediaRef"@)
                &&& c.i64_field("startFrame"@) == e.i64_field("startFrame"@)
                &&& c.i64_field("durationFrames"@) == e.i64_field("durationFrames"@)
                &&& c.field("trimStartFrame"@) == Some(
                    match e.field("trimStartFrame"@) {
                        Some(v) => v,
                        None => JsonV::Int(0),
                    },
                )
                &&& c.field("trimEndFrame"@) == Some(
                    match e.field("trimEndFrame"@) {
                        Some(v) => v,
                        None => JsonV::Int(0),
                    },
                )
            })
        }),
{
    let ts = tracks_of(t)->0;
    assert(entry_track_index(e) == requested_track(e));
    let entries = seq![e];
    assert(entries.drop_last() =~= Seq::<JsonV>::empty());
    assert(entries.last() == e);
    assert(entry_error(e) is None);
    let step = add_entry(ts, e, ids, 0);
    lemma_add_entry_adds(ts, e, ids, 0);
    assert(add_entries(ts, entries.drop_last(), ids) == (ts, Seq::<Seq<char>>::empty(), 0int, None::<Seq<char>>));
    assert(add_entries(ts, entries, ids) == (step.0, seq![step.1->0], step.2, None::<Seq<char>>)) by {
        assert(Seq::<Seq<char>>::empty().push(step.1->0) =~= seq![step.1->0]);
    }
    assert(t is Object);
    lemma_field_after_set(t, "tracks"@, JsonV::Array(step.0));
    let ti = entry_track_index(e);
    let grown = grown_tracks(ts, ti, ids, 0);
    assert(ti >= 0 && grown.len() > ti);
    assert(clips_of(grown[ti]) is Some) by {
        if ti >= ts.len() {
            lemma_new_track_clips(ids[ti - ts.len()]);
        } else {
            assert(grown[ti] == ts[ti]);
        }
    }
    let cs = clips_of(grown[ti])->0;
    let taken = grown.len() - ts.len();
    let cid = ids[taken];
    let kind = match grown[ti].str_field("type"@) {
        Some(k) => k,
        None => match e.str_field("trackType"@) {
            Some(k) => k,
            None => "video"@,
        },
    };
    let clip = new_clip(
        cid,
        e.str_field("mediaRef"@)->0,
        kind,
        e.i64_field("startFrame"@)->0,
        e.i64_field("durationFrames"@)->0,
        crate::edit::field_or_zero(e, "trimStartFrame"@),
        crate::edit::field_or_zero(e, "trimEndFrame"@),
    );
    assert(grown[ti] is Object);
    lemma_field_after_set(grown[ti], "clips"@, JsonV::Array(cs.push(clip)));
    assert(step.0[ti] == grown[ti].with_field("clips"@, JsonV::Array(cs.push(clip))));
    assert(cs.push(clip).last() == clip);
    lemma_new_clip_fields(
        cid,
        e.str_field("mediaRef"@)->0,
        kind,
        e.i64_field("startFrame"@)->0,
        e.i64_field("durationFrames"@)->0,
        crate::edit::field_or_zero(e, "trimStartFrame"@),
        crate::edit::field_or_zero(e, "trimEndFrame"@),
    );
}

/// `c` carries the fields an added clip takes from the entry `e`: its
/// `mediaRef`, `startFrame` and `durationFrames`, and its
/// `trimStartFrame` and `trimEndFrame` as given (0 when absent).
pub open spec fn takes_entry_fields(c: JsonV, e: JsonV) -> bool {
    &&& c.str_field("mediaRef"@) == e.str_field("mediaRef"@)
    &&& c.i64_field("startFrame"@) == e.i64_field("startFrame"@)
    &&& c.i64_field("durationFrames"@) == e.i64_field("durationFrames"@)
    &&& c.field("trimStartFrame"@) == Some(
        match e.field("trimStartFrame"@) {
            Some(v) => v,
            None => JsonV::Int(0),
        },
    )
    &&& c.field("trimEndFrame"@) == Some(
        match e.field("trimEndFrame"@) {
            Some(v) => v,
            None => JsonV::Int(0),
        },
    )
}

/// Clip `ci` of track `ti` of `tracks`, when there is one.
pub open spec fn clip_in(tracks: Seq<JsonV>, ti: int, ci: int) -> Option<JsonV> {
    if 0 <= ti < tracks.len() && clips_of(tracks[ti]) is Some && 0 <= ci < clips_of(tracks[ti])->0.len() {
        Some(clips_of(tracks[ti])->0[ci])
    } else {
        None
    }
}

/// Adding one entry leaves every clip at its place.
proof fn lemma_add_entry_keeps_clips(tracks: Seq<JsonV>, e: JsonV, ids: Seq<Seq<char>>, used: int)
    ensures
        forall|ti: int, ci: int|
            #[trigger] clip_in(tracks, ti, ci) is Some ==> clip_in(add_entry(tracks, e, ids, used).0, ti, ci)
                == clip_in(tracks, ti, ci),
{
    let ti = entry_track_index(e);
    let grown = grown_tracks(tracks, ti, ids, used);
    let out = add_entry(tracks, e, ids, used).0;
    assert(ti >= 0 && grown.len() > ti);
    assert forall|t: int, c: int| #[trigger] clip_in(tracks, t, c) is Some implies clip_in(out, t, c) == clip_in(
        tracks,
        t,
        c,
    ) by {
        assert(grown[t] == tracks[t]);
        if t == ti {
            let cs = clips_of(grown[ti])->0;
            assert(grown[ti] is Object);
            assert forall|a: JsonV| #[trigger] grown[ti].with_field("clips"@, a).field("clips"@) == Some(a) by {
                lemma_field_after_set(grown[ti], "clips"@, a);
            }
            assert forall|x: JsonV| #[trigger] cs.push(x)[c] == cs[c] by {}
        }
    }
}

/// The tracks hold, at some place, a clip with the id `id` and the fields
/// of the entry `e` (see [`takes_entry_fields`]).
pub open spec fn entry_placed(tracks: Seq<JsonV>, id: Seq<char>, e: JsonV) -> bool {
    exists|ti: int, ci: int|
        #[trigger] clip_in(tracks, ti, ci) is Some && clip_in(tracks, ti, ci)->0.str_field("id"@) == Some(id)
            && takes_entry_fields(clip_in(tracks, ti, ci)->0, e)
}

/// Adding one valid entry to tracks that all hold clips appends, at some
/// place, a clip with the reported id and the entry's fields.
proof fn lemma_add_entry_places(tracks: Seq<JsonV>, e: JsonV, ids: Seq<Seq<char>>, used: int)
    requires
        all_have_clips(tracks),
        entry_error(e) is None,
    ensures
        add_entry(tracks, e, ids, used).1 is Some,
        entry_placed(add_entry(tracks, e, ids, used).0, add_entry(tracks, e, ids, used).1->0, e),
{
    lemma_add_entry_adds(tracks, e, ids, used);
    let ti = entry_track_index(e);
    let grown = grown_tracks(tracks, ti, ids, used);
    assert(ti >= 0 && grown.len() > ti);
    assert(clips_of(grown[ti]) is Some) by {
        if ti >= tracks.len() {
            lemma_new_track_clips(ids[used + ti - tracks.len()]);
        } else {
            assert(grown[ti] == tracks[ti]);
        }
    }
    let cs = clips_of(grown[ti])->0;
    let taken = grown.len() - tracks.len();
    let cid = ids[used + taken];
    let kind = match grown[ti].str_field("type"@) {
        Some(k) => k,
        None => match e.str_field("trackType"@) {
            Some(k) => k,
            None => "video"@,
        },
    };
    let clip = new_clip(
        cid,
        e.str_field("mediaRef"@)->0,
        kind,
        e.i64_field("startFrame"@)->0,
        e.i64_field("durationFrames"@)->0,
        crate::edit::field_or_zero(e, "trimStartFrame"@),
        crate::edit::field_or_zero(e, "trimEndFrame"@),
    );
    let out = add_entry(tracks, e, ids, used).0;
    assert(grown[ti] is Object);
    lemma_field_after_set(grown[ti], "clips"@, JsonV::Array(cs.push(clip)));
    assert(out[ti] == grown[ti].with_field("clips"@, JsonV::Array(cs.push(clip))));
    assert(cs.push(clip)[cs.len() as int] == clip);
    lemma_new_clip_fields(
        cid,
        e.str_field("mediaRef"@)->0,
        kind,
        e.i64_field("startFrame"@)->0,
        e.i64_field("durationFrames"@)->0,
        crate::edit::field_or_zero(e, "trimStartFrame"@),
        crate::edit::field_or_zero(e, "trimEndFrame"@),
    );
    assert(clip_in(out, ti, cs.len() as int) == Some(clip));
}

/// Adding valid entries to tracks that all hold clips: for every entry
/// there is a clip in the tracks after, carrying the id reported for it
/// and the entry's fields.
proof fn lemma_add_entries_place(tracks: Seq<JsonV>, entries: Seq<JsonV>, ids: Seq<Seq<char>>)
    requires
        all_have_clips(tracks),
        forall|k: int| 0 <= k < entries.len() ==> (#[trigger] entry_error(entries[k])) is None,
    ensures
        add_entries(tracks, entries, ids).1.len() == entries.len(),
        forall|k: int|
            0 <= k < entries.len() ==> #[trigger] entry_placed(
                add_entries(tracks, entries, ids).0,
                add_entries(tracks, entries, ids).1[k],
                entries[k],
            ),
    decreases entries.len(),
{
    lemma_add_entries_count(tracks, entries, ids);
    if entries.len() > 0 {
        let rest = entries.drop_last();
        assert forall|k: int| 0 <= k < rest.len() implies (#[trigger] entry_error(rest[k])) is None by {
            assert(rest[k] == entries[k]);
        }
        lemma_add_entries_place(tracks, rest, ids);
        lemma_add_entries_count(tracks, rest, ids);
        let prev = add_entries(tracks, rest, ids);
        let e = entries.last();
        assert(entry_error(entries[entries.len() - 1]) is None);
        lemma_add_entry_places(prev.0, e, ids, prev.2);
        lemma_add_entry_keeps_clips(prev.0, e, ids, prev.2);
        let step = add_entry(prev.0, e, ids, prev.2);
        let res = add_entries(tracks, entries, ids);
        assert(res.0 == step.0);
        assert(res.1 == prev.1.push(step.1->0));
        assert forall|k: int| 0 <= k < entries.len() implies #[trigger] entry_placed(res.0, res.1[k], entries[k]) by {
            if k < rest.len() {
                assert(entries[k] == rest[k]);
                assert(entry_placed(prev.0, prev.1[k], rest[k]));
                let (ti, ci) = choose|ti: int, ci: int|
                    #[trigger] clip_in(prev.0, ti, ci) is Some && clip_in(prev.0, ti, ci)->0.str_field("id"@)
                        == Some(prev.1[k]) && takes_entry_fields(clip_in(prev.0, ti, ci)->0, rest[k]);
                assert(clip_in(res.0, ti, ci) == clip_in(prev.0, ti, ci));
                assert(res.1[k] == prev.1[k]);
            } else {
                assert(entries[k] == e);
                assert(res.1[k] == step.1->0);
            }
        }
    }
}

/// Adding entries that each name a media reference, a start and a
/// duration, to a timeline whose tracks all hold clips, succeeds with one
/// id per entry, and for every entry the timeline after holds a clip
/// carrying the id reported for it and the entry's `mediaRef`,
/// `startFrame`, `durationFrames`, `trimStartFrame` and `trimEndFrame`
/// (the trims 0 when absent).
pub proof fn law_added_clips_take_entry_fields(t: JsonV, entries: Seq<JsonV>, ids: Seq<Seq<char>>)
    requires
        tracks_of(t) is Some,
        all_have_clips(tracks_of(t)->0),
        forall|k: int|
            0 <= k < entries.len() ==> (#[trigger] entries[k]).str_field("mediaRef"@) is Some
                && entries[k].i64_field("startFrame"@) is Some && entries[k].i64_field("durationFrames"@) is Some,
    ensures
        add_outcome(t, entries, ids).1 is Ok,
        add_outcome(t, entries, ids).1->Ok_0.len() == entries.len(),
        tracks_of(add_outcome(t, entries, ids).0) is Some,
        forall|k: int|
            0 <= k < entries.len() ==> #[trigger] entry_placed(
                tracks_of(add_outcome(t, entries, ids).0)->0,
                add_outcome(t, entries, ids).1->Ok_0[k],
                entries[k],
            ),
{
    let ts = tracks_of(t)->0;
    assert forall|k: int| 0 <= k < entries.len() implies (#[trigger] entry_error(entries[k])) is None by {
        assert(entries[k].str_field("mediaRef"@) is Some);
    }
    lemma_add_entries_place(ts, entries, ids);
    lemma_add_entries_count(ts, entries, ids);
    let st = add_entries(ts, entries, ids);
    assert(t is Object);
    lemma_field_after_set(t, "tracks"@, JsonV::Array(st.0));
}

} // verus!
