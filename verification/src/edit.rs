use vstd::prelude::*;
use crate::json::{deep_seq, i64_or, lemma_with_field_twice, opt_deep, FLOAT_ONE_BITS, Json, JsonV};
use crate::json_props::group_json_lemmas;
use crate::text::join;

verus! {

/// The tracks of a timeline, when it holds a `tracks` array.
pub open spec fn tracks_of(t: JsonV) -> Option<Seq<JsonV>> {
    t.array_field("tracks"@)
}

/// The clips of a track, when it holds a `clips` array.
pub open spec fn clips_of(track: JsonV) -> Option<Seq<JsonV>> {
    track.array_field("clips"@)
}

/// Clip `ci` of track `ti` exists and carries the id `id`.
pub open spec fn clip_at(tracks: Seq<JsonV>, id: Seq<char>, ti: int, ci: int) -> bool {
    &&& 0 <= ti < tracks.len()
    &&& clips_of(tracks[ti]) is Some
    &&& 0 <= ci < clips_of(tracks[ti])->0.len()
    &&& clips_of(tracks[ti])->0[ci].str_field("id"@) == Some(id)
}

/// Position `(ti, ci)` is the first clip with id `id`, scanning the tracks
/// in order and the clips of each track in order.
pub open spec fn first_clip_at(tracks: Seq<JsonV>, id: Seq<char>, ti: int, ci: int) -> bool {
    &&& clip_at(tracks, id, ti, ci)
    &&& forall|t: int, c: int| #[trigger] clip_at(tracks, id, t, c) ==> ti < t || (ti == t && ci <= c)
}

pub open spec fn has_clip(tracks: Seq<JsonV>, id: Seq<char>) -> bool {
    exists|t: int, c: int| clip_at(tracks, id, t, c)
}

/// The position of the first clip with id `id`.
pub open spec fn first_clip(tracks: Seq<JsonV>, id: Seq<char>) -> (int, int) {
    choose|t: int, c: int| first_clip_at(tracks, id, t, c)
}

/// The clip at position `(ti, ci)`.
pub open spec fn clip_ref(tracks: Seq<JsonV>, ti: int, ci: int) -> JsonV {
    clips_of(tracks[ti])->0[ci]
}

/// The timeline whose track `ti` holds the clips `clips`.
pub open spec fn with_track_clips(t: JsonV, ti: int, clips: Seq<JsonV>) -> JsonV {
    let tracks = tracks_of(t)->0;
    t.with_field(
        "tracks"@,
        JsonV::Array(tracks.update(ti, tracks[ti].with_field("clips"@, JsonV::Array(clips)))),
    )
}

/// The timeline whose clip at `(ti, ci)` is replaced by `clip`.
pub open spec fn with_clip(t: JsonV, ti: int, ci: int, clip: JsonV) -> JsonV {
    with_track_clips(t, ti, clips_of(tracks_of(t)->0[ti])->0.update(ci, clip))
}

pub proof fn lemma_first_clip(tracks: Seq<JsonV>, id: Seq<char>, ti: int, ci: int)
    requires
        first_clip_at(tracks, id, ti, ci),
    ensures
        first_clip(tracks, id) == (ti, ci),
{
    assert(first_clip_at(tracks, id, ti, ci));
    let p = first_clip(tracks, id);
    assert(first_clip_at(tracks, id, p.0, p.1));
    assert(clip_at(tracks, id, p.0, p.1));
    assert(clip_at(tracks, id, ti, ci));
}

/// The position of the first clip with id `id`.
pub fn locate_clip(tracks: &Vec<Json>, id: &str) -> (r: Option<(usize, usize)>)
    ensures
        match r {
            Some((ti, ci)) => first_clip_at(deep_seq(tracks@), id@, ti as int, ci as int),
            None => !has_clip(deep_seq(tracks@), id@),
        },
{
    broadcast use group_json_lemmas;

    let ghost ts = deep_seq(tracks@);
    let key = id.to_owned();
    let mut ti: usize = 0;
    while ti < tracks.len()
        invariant
            ts == deep_seq(tracks@),
            ts.len() == tracks@.len(),
            key@ == id@,
            ti <= tracks.len(),
            forall|t: int, c: int| t < ti ==> !#[trigger] clip_at(ts, id@, t, c),
        decreases tracks.len() - ti,
    {
        broadcast use group_json_lemmas;

        let track = &tracks[ti];
        assert(track.deep() == ts[ti as int]);
        match track.get("clips") {
            Some(cv) => match cv.as_array() {
                Some(clips) => {
                    let mut ci: usize = 0;
                    while ci < clips.len()
                        invariant
                            ts == deep_seq(tracks@),
                            ts.len() == tracks@.len(),
                            key@ == id@,
                            ti < tracks.len(),
                            clips_of(ts[ti as int]) == Some(deep_seq(clips@)),
                            ci <= clips.len(),
                            forall|t: int, c: int| t < ti ==> !#[trigger] clip_at(ts, id@, t, c),
                            forall|c: int| c < ci ==> !#[trigger] clip_at(ts, id@, ti as int, c),
                        decreases clips.len() - ci,
                    {
                        broadcast use group_json_lemmas;

                        let clip = &clips[ci];
                        assert(clip.deep() == deep_seq(clips@)[ci as int]);
                        let mut found = false;
                        match clip.get("id") {
                            Some(iv) => match iv.as_str() {
                                Some(s) => {
                                    found = *s == key;
                                },
                                None => {},
                            },
                            None => {},
                        }
                        if found {
                            return Some((ti, ci));
                        }
                        ci = ci + 1;
                    }
                },
                None => {},
            },
            None => {},
        }
        ti = ti + 1;
    }
    None
}

/// The error text for a clip id that no track holds.
pub fn clip_not_found(clip_id: &str) -> (r: String)
    ensures
        r@ == "clip not found: "@ + clip_id@,
{
    join("clip not found: ", clip_id)
}

/// The view of a `Result` that carries nothing but its error text.
pub open spec fn unit_result(r: Result<(), String>) -> Result<(), Seq<char>> {
    match r {
        Ok(_) => Ok(()),
        Err(e) => Err(e@),
    }
}

/// What an edit of the first clip with id `id` does when the edit turns
/// that clip into `edited(clip)`: the timeline after it, and the result.
pub open spec fn clip_edit_outcome(t: JsonV, id: Seq<char>, edited: spec_fn(JsonV) -> JsonV) -> (
    JsonV,
    Result<(), Seq<char>>,
) {
    match tracks_of(t) {
        None => (t, Err("no tracks"@)),
        Some(ts) => if has_clip(ts, id) {
            let (ti, ci) = first_clip(ts, id);
            (with_clip(t, ti, ci, edited(clip_ref(ts, ti, ci))), Ok(()))
        } else {
            (t, Err("clip not found: "@ + id))
        },
    }
}

/// What moving the first clip with id `id` to `new_start` does: it starts
/// at `new_start`, or at frame 0 when `new_start` is negative.
pub open spec fn move_outcome(t: JsonV, id: Seq<char>, new_start: i64) -> (JsonV, Result<(), Seq<char>>) {
    let start: i64 = if new_start < 0 {
        0
    } else {
        new_start
    };
    clip_edit_outcome(t, id, |c: JsonV| c.with_field("startFrame"@, JsonV::Int(start)))
}

/// What setting the fields of `props` on the first clip with id `id` does.
pub open spec fn props_outcome(t: JsonV, id: Seq<char>, props: JsonV) -> (JsonV, Result<(), Seq<char>>) {
    clip_edit_outcome(t, id, |c: JsonV| with_props(c, props))
}

/// What removing the clip id `id` does: every clip with that id leaves the
/// first track that holds one.
pub open spec fn remove_outcome(t: JsonV, id: Seq<char>) -> (JsonV, Result<(), Seq<char>>) {
    match tracks_of(t) {
        None => (t, Err("no tracks"@)),
        Some(ts) => if has_clip(ts, id) {
            let ti = first_clip(ts, id).0;
            (with_track_clips(t, ti, without_id(clips_of(ts[ti])->0, id)), Ok(()))
        } else {
            (t, Err("clip not found: "@ + id))
        },
    }
}

/// Moves the first clip with id `clip_id` to start at `new_start`, or at
/// frame 0 when `new_start` is negative.
pub fn move_clip(timeline: &mut Json, clip_id: &str, new_start: i64) -> (r: Result<(), String>)
    ensures
        (final(timeline).deep(), unit_result(r)) == move_outcome(old(timeline).deep(), clip_id@, new_start),
{
    let start = if new_start < 0 {
        0
    } else {
        new_start
    };
    let loc = match timeline.get("tracks") {
        Some(tv) => match tv.as_array() {
            Some(tracks) => locate_clip(tracks, clip_id),
            None => {
                return Err("no tracks".to_owned());
            },
        },
        None => {
            return Err("no tracks".to_owned());
        },
    };
    match loc {
        Some((ti, ci)) => {
            proof {
                lemma_first_clip(tracks_of(timeline.deep())->0, clip_id@, ti as int, ci as int);
            }
            update_clip(timeline, ti, ci, "startFrame", Json::Int(start));
            Ok(())
        },
        None => Err(clip_not_found(clip_id)),
    }
}

/// Sets field `key` of the clip at `(ti, ci)` to `val`.
fn update_clip(timeline: &mut Json, ti: usize, ci: usize, key: &str, val: Json)
    requires
        tracks_of(old(timeline).deep()) is Some,
        0 <= ti < tracks_of(old(timeline).deep())->0.len(),
        clips_of(tracks_of(old(timeline).deep())->0[ti as int]) is Some,
        0 <= ci < clips_of(tracks_of(old(timeline).deep())->0[ti as int])->0.len(),
        clip_ref(tracks_of(old(timeline).deep())->0, ti as int, ci as int) is Object,
    ensures
        final(timeline).deep() == with_clip(
            old(timeline).deep(),
            ti as int,
            ci as int,
            clip_ref(tracks_of(old(timeline).deep())->0, ti as int, ci as int).with_field(
                key@,
                val.deep(),
            ),
        ),
{
    broadcast use group_json_lemmas;

    let ghost t0 = timeline.deep();
    let ghost ts = tracks_of(t0)->0;
    let mut tracks = timeline.take_array_field("tracks").unwrap();
    let mut track = tracks.remove(ti);
    assert(track.deep() == ts[ti as int]);
    let ghost tr0 = track.deep();
    let mut clips = track.take_array_field("clips").unwrap();
    let mut clip = clips.remove(ci);
    assert(clip.deep() == clip_ref(ts, ti as int, ci as int));
    let ghost cl0 = clip.deep();
    assert(cl0 is Object);
    clip.set(key, val);
    let ghost new_clip = clip.deep();
    let ghost old_clips = clips_of(tr0)->0;
    clips.insert(ci, clip);
    assert(deep_seq(clips@) =~= old_clips.update(ci as int, new_clip));
    proof {
        assert(tr0 is Object);
        lemma_with_field_twice(tr0, "clips"@, JsonV::Null, JsonV::Array(deep_seq(clips@)));
    }
    track.set("clips", Json::Array(clips));
    let ghost new_track = track.deep();
    tracks.insert(ti, track);
    assert(deep_seq(tracks@) =~= ts.update(ti as int, new_track));
    proof {
        assert(t0 is Object);
        lemma_with_field_twice(t0, "tracks"@, JsonV::Null, JsonV::Array(deep_seq(tracks@)));
    }
    timeline.set("tracks", Json::Array(tracks));
}

/// The clip carries the id `id`.
pub open spec fn has_id(clip: JsonV, id: Seq<char>) -> bool {
    clip.str_field("id"@) == Some(id)
}

/// The clips without those that carry the id `id`, in their order.
pub open spec fn without_id(clips: Seq<JsonV>, id: Seq<char>) -> Seq<JsonV>
    decreases clips.len(),
{
    if clips.len() == 0 {
        Seq::empty()
    } else if has_id(clips.last(), id) {
        without_id(clips.drop_last(), id)
    } else {
        without_id(clips.drop_last(), id).push(clips.last())
    }
}

/// Removes every clip with id `clip_id` from the first track that holds one.
pub fn remove_clip(timeline: &mut Json, clip_id: &str) -> (r: Result<(), String>)
    ensures
        (final(timeline).deep(), unit_result(r)) == remove_outcome(old(timeline).deep(), clip_id@),
{
    let loc = match timeline.get("tracks") {
        Some(tv) => match tv.as_array() {
            Some(tracks) => locate_clip(tracks, clip_id),
            None => {
                return Err("no tracks".to_owned());
            },
        },
        None => {
            return Err("no tracks".to_owned());
        },
    };
    match loc {
        Some((ti, ci)) => {
            proof {
                lemma_first_clip(tracks_of(timeline.deep())->0, clip_id@, ti as int, ci as int);
            }
            let ghost ts = tracks_of(timeline.deep())->0;
            let kept = clips_without_id(timeline, ti, clip_id);
            replace_track_clips(timeline, ti, kept);
            Ok(())
        },
        None => Err(clip_not_found(clip_id)),
    }
}

/// The clips of track `ti` without those that carry the id `id`.
fn clips_without_id(timeline: &Json, ti: usize, id: &str) -> (r: Vec<Json>)
    requires
        tracks_of(timeline.deep()) is Some,
        0 <= ti < tracks_of(timeline.deep())->0.len(),
        clips_of(tracks_of(timeline.deep())->0[ti as int]) is Some,
    ensures
        deep_seq(r@) == without_id(clips_of(tracks_of(timeline.deep())->0[ti as int])->0, id@),
{
    broadcast use group_json_lemmas;

    let ghost ts = tracks_of(timeline.deep())->0;
    let tracks = timeline.get("tracks").unwrap().as_array().unwrap();
    let track = &tracks[ti];
    assert(track.deep() == ts[ti as int]);
    let clips = track.get("clips").unwrap().as_array().unwrap();
    let ghost cs = deep_seq(clips@);
    let key = id.to_owned();
    let mut out: Vec<Json> = Vec::new();
    let mut i: usize = 0;
    while i < clips.len()
        invariant
            cs == deep_seq(clips@),
            cs.len() == clips@.len(),
            key@ == id@,
            i <= clips.len(),
            deep_seq(out@) == without_id(cs.take(i as int), id@),
        decreases clips.len() - i,
    {
        broadcast use group_json_lemmas;

        let clip = &clips[i];
        assert(clip.deep() == cs[i as int]);
        let mut matches = false;
        match clip.get("id") {
            Some(iv) => match iv.as_str() {
                Some(s) => {
                    matches = *s == key;
                },
                None => {},
            },
            None => {},
        }
        let ghost prev = out@;
        assert(cs.take(i + 1).drop_last() =~= cs.take(i as int));
        if !matches {
            let c = clip.copy();
            out.push(c);
            assert(deep_seq(out@) =~= deep_seq(prev).push(cs[i as int]));
        }
        i = i + 1;
    }
    assert(cs.take(clips.len() as int) =~= cs);
    out
}

/// Replaces the clips of track `ti`.
fn replace_track_clips(timeline: &mut Json, ti: usize, clips: Vec<Json>)
    requires
        tracks_of(old(timeline).deep()) is Some,
        0 <= ti < tracks_of(old(timeline).deep())->0.len(),
        clips_of(tracks_of(old(timeline).deep())->0[ti as int]) is Some,
    ensures
        final(timeline).deep() == with_track_clips(old(timeline).deep(), ti as int, deep_seq(clips@)),
{
    broadcast use group_json_lemmas;

    let ghost t0 = timeline.deep();
    let ghost ts = tracks_of(t0)->0;
    let mut tracks = timeline.take_array_field("tracks").unwrap();
    let mut track = tracks.remove(ti);
    assert(track.deep() == ts[ti as int]);
    proof {
        assert(track.deep() is Object);
    }
    track.set("clips", Json::Array(clips));
    let ghost new_track = track.deep();
    tracks.insert(ti, track);
    assert(deep_seq(tracks@) =~= ts.update(ti as int, new_track));
    proof {
        assert(t0 is Object);
        lemma_with_field_twice(t0, "tracks"@, JsonV::Null, JsonV::Array(deep_seq(tracks@)));
    }
    timeline.set("tracks", Json::Array(tracks));
}

/// The object with each entry of `entries` set in turn.
pub open spec fn with_fields(v: JsonV, entries: Seq<(Seq<char>, JsonV)>) -> JsonV
    decreases entries.len(),
{
    if entries.len() == 0 {
        v
    } else {
        with_fields(v, entries.drop_last()).with_field(entries.last().0, entries.last().1)
    }
}

/// The clip `clip` with the fields of `props` set on it, when `props` is
/// an object; otherwise the clip unchanged.
pub open spec fn with_props(clip: JsonV, props: JsonV) -> JsonV {
    match props {
        JsonV::Object(es) => with_fields(clip, es),
        _ => clip,
    }
}

/// Sets each field of `props` on the first clip with id `clip_id`.
pub fn set_clip_properties(timeline: &mut Json, clip_id: &str, props: &Json) -> (r: Result<(), String>)
    ensures
        (final(timeline).deep(), unit_result(r)) == props_outcome(old(timeline).deep(), clip_id@, props.deep()),
{
    broadcast use group_json_lemmas;

    let loc = match timeline.get("tracks") {
        Some(tv) => match tv.as_array() {
            Some(tracks) => locate_clip(tracks, clip_id),
            None => {
                return Err("no tracks".to_owned());
            },
        },
        None => {
            return Err("no tracks".to_owned());
        },
    };
    match loc {
        Some((ti, ci)) => {
            let ghost ts = tracks_of(timeline.deep())->0;
            proof {
                lemma_first_clip(ts, clip_id@, ti as int, ci as int);
            }
            let mut clip = clip_copy(timeline, ti, ci);
            if let Json::Object(entries) = props {
                let mut i: usize = 0;
                while i < entries.len()
                    invariant
                        clip.deep() is Object,
                        i <= entries.len(),
                        props.deep() == JsonV::Object(Json::deep_entries(entries@)),
                        clip.deep() == with_fields(
                            clip_ref(ts, ti as int, ci as int),
                            Json::deep_entries(entries@).take(i as int),
                        ),
                    decreases entries.len() - i,
                {
                    broadcast use group_json_lemmas;

                    let v = entries[i].1.copy();
                    let ghost es = Json::deep_entries(entries@);
                    assert(es.take(i + 1).drop_last() =~= es.take(i as int));
                    clip.set(entries[i].0.as_str(), v);
                    i = i + 1;
                }
                proof {
                    assert(Json::deep_entries(entries@).take(entries.len() as int) =~= Json::deep_entries(
                        entries@,
                    ));
                }
            }
            replace_clip(timeline, ti, ci, clip);
            Ok(())
        },
        None => Err(clip_not_found(clip_id)),
    }
}

/// A copy of the clip at `(ti, ci)`, which is an object.
fn clip_copy(timeline: &Json, ti: usize, ci: usize) -> (r: Json)
    requires
        tracks_of(timeline.deep()) is Some,
        0 <= ti < tracks_of(timeline.deep())->0.len(),
        clips_of(tracks_of(timeline.deep())->0[ti as int]) is Some,
        0 <= ci < clips_of(tracks_of(timeline.deep())->0[ti as int])->0.len(),
        clip_ref(tracks_of(timeline.deep())->0, ti as int, ci as int).str_field("id"@) is Some,
    ensures
        r.deep() == clip_ref(tracks_of(timeline.deep())->0, ti as int, ci as int),
        r.deep() is Object,
{
    broadcast use group_json_lemmas;

    let ghost ts = tracks_of(timeline.deep())->0;
    let tracks = timeline.get("tracks").unwrap().as_array().unwrap();
    let track = &tracks[ti];
    assert(track.deep() == ts[ti as int]);
    let clips = track.get("clips").unwrap().as_array().unwrap();
    let clip = &clips[ci];
    assert(clip.deep() == deep_seq(clips@)[ci as int]);
    clip.copy()
}

/// Replaces the clip at `(ti, ci)`.
fn replace_clip(timeline: &mut Json, ti: usize, ci: usize, clip: Json)
    requires
        tracks_of(old(timeline).deep()) is Some,
        0 <= ti < tracks_of(old(timeline).deep())->0.len(),
        clips_of(tracks_of(old(timeline).deep())->0[ti as int]) is Some,
        0 <= ci < clips_of(tracks_of(old(timeline).deep())->0[ti as int])->0.len(),
    ensures
        final(timeline).deep() == with_clip(old(timeline).deep(), ti as int, ci as int, clip.deep()),
{
    broadcast use group_json_lemmas;

    let ghost ts = tracks_of(timeline.deep())->0;
    let tracks = timeline.get("tracks").unwrap().as_array().unwrap();
    let track = &tracks[ti];
    assert(track.deep() == ts[ti as int]);
    let clips = track.get("clips").unwrap().as_array().unwrap();
    let ghost cs = deep_seq(clips@);
    let mut new_clips: Vec<Json> = Vec::new();
    let mut i: usize = 0;
    while i < clips.len()
        invariant
            cs == deep_seq(clips@),
            cs.len() == clips@.len(),
            i <= clips.len(),
            new_clips@.len() == i,
            forall|j: int| 0 <= j < i ==> (#[trigger] new_clips@[j]).deep() == cs[j],
        decreases clips.len() - i,
    {
        broadcast use group_json_lemmas;

        let c = clips[i].copy();
        new_clips.push(c);
        i = i + 1;
    }
    let ghost before = new_clips@;
    new_clips.set(ci, clip);
    assert(deep_seq(new_clips@) =~= cs.update(ci as int, clip.deep()));
    replace_track_clips(timeline, ti, new_clips);
}

/// Scanning `clips` in order: `Some(Some(c))` at the first clip `c` with
/// the id, `Some(None)` at a clip before it that has no text id, `None`
/// when the scan runs off the end.
pub open spec fn scan_clips(clips: Seq<JsonV>, id: Seq<char>) -> Option<Option<JsonV>>
    decreases clips.len(),
{
    if clips.len() == 0 {
        None
    } else {
        match clips[0].str_field("id"@) {
            None => Some(None),
            Some(s) => if s == id {
                Some(Some(clips[0]))
            } else {
                scan_clips(clips.drop_first(), id)
            },
        }
    }
}

/// Scanning the tracks in order as [`find_clip`] does: the scan stops with
/// nothing at a track without a `clips` array.
pub open spec fn scan_tracks(tracks: Seq<JsonV>, id: Seq<char>) -> Option<JsonV>
    decreases tracks.len(),
{
    if tracks.len() == 0 {
        None
    } else {
        match clips_of(tracks[0]) {
            None => None,
            Some(cs) => match scan_clips(cs, id) {
                Some(found) => found,
                None => scan_tracks(tracks.drop_first(), id),
            },
        }
    }
}

pub open spec fn find_clip_spec(timeline: JsonV, id: Seq<char>) -> Option<JsonV> {
    match tracks_of(timeline) {
        None => None,
        Some(ts) => scan_tracks(ts, id),
    }
}

/// Looks a clip up by id. The search gives up, finding nothing, at the
/// first track without a `clips` array and at the first clip without a
/// text `id`.
pub fn find_clip(timeline: &Json, clip_id: &str) -> (r: Option<Json>)
    ensures
        match r {
            Some(c) => find_clip_spec(timeline.deep(), clip_id@) == Some(c.deep()),
            None => find_clip_spec(timeline.deep(), clip_id@) is None,
        },
{
    broadcast use group_json_lemmas;

    let tracks = match timeline.get("tracks") {
        Some(tv) => match tv.as_array() {
            Some(t) => t,
            None => {
                return None;
            },
        },
        None => {
            return None;
        },
    };
    let ghost ts = deep_seq(tracks@);
    let key = clip_id.to_owned();
    let mut ti: usize = 0;
    assert(ts.skip(0) =~= ts);
    while ti < tracks.len()
        invariant
            ts == deep_seq(tracks@),
            ts.len() == tracks@.len(),
            tracks_of(timeline.deep()) == Some(ts),
            key@ == clip_id@,
            ti <= tracks.len(),
            scan_tracks(ts, clip_id@) == scan_tracks(ts.skip(ti as int), clip_id@),
        decreases tracks.len() - ti,
    {
        broadcast use group_json_lemmas;

        let track = &tracks[ti];
        assert(track.deep() == ts[ti as int]);
        assert(ts.skip(ti as int)[0] == ts[ti as int]);
        assert(ts.skip(ti as int).drop_first() =~= ts.skip(ti + 1));
        let clips = match track.get("clips") {
            Some(cv) => match cv.as_array() {
                Some(c) => c,
                None => {
                    return None;
                },
            },
            None => {
                return None;
            },
        };
        let ghost cs = deep_seq(clips@);
        let mut ci: usize = 0;
        assert(cs.skip(0) =~= cs);
        while ci < clips.len()
            invariant
                cs == deep_seq(clips@),
                cs.len() == clips@.len(),
                key@ == clip_id@,
                ci <= clips.len(),
                ti < tracks.len(),
                tracks_of(timeline.deep()) == Some(ts),
                scan_tracks(ts, clip_id@) == match scan_clips(cs.skip(ci as int), clip_id@) {
                    Some(f) => f,
                    None => scan_tracks(ts.skip(ti + 1), clip_id@),
                },
            decreases clips.len() - ci,
        {
            broadcast use group_json_lemmas;

            let clip = &clips[ci];
            assert(clip.deep() == cs[ci as int]);
            assert(cs.skip(ci as int)[0] == cs[ci as int]);
            assert(cs.skip(ci as int).drop_first() =~= cs.skip(ci + 1));
            assert(scan_clips(cs.skip(ci as int), clip_id@) == match cs[ci as int].str_field("id"@) {
                None => Some(None),
                Some(s) => if s == clip_id@ {
                    Some(Some(cs[ci as int]))
                } else {
                    scan_clips(cs.skip(ci + 1), clip_id@)
                },
            });
            let idv = match clip.get("id") {
                Some(iv) => match iv.as_str() {
                    Some(s) => s,
                    None => {
                        return None;
                    },
                },
                None => {
                    return None;
                },
            };
            if *idv == key {
                return Some(clip.copy());
            }
            ci = ci + 1;
        }
        assert(cs.skip(clips.len() as int).len() == 0);
        ti = ti + 1;
    }
    assert(ts.skip(tracks.len() as int).len() == 0);
    None
}

/// Whether a clip is shown at `frame`: the frame lies in
/// `[startFrame, startFrame + durationFrames)`, missing numbers counting 0.
pub open spec fn covers_frame(clip: JsonV, frame: i64) -> bool {
    let start = i64_or(clip.i64_field("startFrame"@), 0);
    let dur = i64_or(clip.i64_field("durationFrames"@), 0);
    start <= frame && frame < start + dur
}

/// The media type that decides whether a clip is drawn: the clip's
/// `mediaType`, else the track's `type`, else `video`.
pub open spec fn drawn_type(track: JsonV, clip: JsonV) -> Seq<char> {
    match clip.str_field("mediaType"@) {
        Some(t) => t,
        None => match track.str_field("type"@) {
            Some(t) => t,
            None => "video"@,
        },
    }
}

pub open spec fn is_drawn(track: JsonV, clip: JsonV, frame: i64) -> bool {
    covers_frame(clip, frame) && (drawn_type(track, clip) == "video"@ || drawn_type(track, clip)
        == "image"@)
}

/// The clips of one track drawn at `frame`, each with the track's index.
pub open spec fn drawn_in_track(ti: int, track: JsonV, clips: Seq<JsonV>, frame: i64) -> Seq<
    (int, JsonV),
>
    decreases clips.len(),
{
    if clips.len() == 0 {
        Seq::empty()
    } else {
        let rest = drawn_in_track(ti, track, clips.drop_last(), frame);
        if is_drawn(track, clips.last(), frame) {
            rest.push((ti, clips.last()))
        } else {
            rest
        }
    }
}

/// Whether a track takes part in drawing: it is not hidden and it holds
/// a `clips` array.
pub open spec fn track_drawn(track: JsonV) -> bool {
    track.bool_field("hidden"@) != Some(true) && clips_of(track) is Some
}

/// The clips drawn at `frame` over the first tracks, in track order.
pub open spec fn drawn_in_tracks(tracks: Seq<JsonV>, frame: i64) -> Seq<(int, JsonV)>
    decreases tracks.len(),
{
    if tracks.len() == 0 {
        Seq::empty()
    } else {
        let rest = drawn_in_tracks(tracks.drop_last(), frame);
        let ti = tracks.len() - 1;
        if track_drawn(tracks.last()) {
            rest + drawn_in_track(ti, tracks.last(), clips_of(tracks.last())->0, frame)
        } else {
            rest
        }
    }
}

pub open spec fn drawn_at(timeline: JsonV, frame: i64) -> Seq<(int, JsonV)> {
    match tracks_of(timeline) {
        None => Seq::empty(),
        Some(ts) => drawn_in_tracks(ts, frame),
    }
}

/// The view of a list of `(track index, clip)` pairs.
pub open spec fn indexed_view(v: Seq<(usize, Json)>) -> Seq<(int, JsonV)> {
    Seq::new(v.len(), |i: int| (v[i].0 as int, v[i].1.deep()))
}

/// The visual clips (video or image) shown at `frame` on tracks that are
/// not hidden, in track order, each with the index of its track.
pub fn clips_at_frame(timeline: &Json, frame: i64) -> (r: Vec<(usize, Json)>)
    ensures
        indexed_view(r@) == drawn_at(timeline.deep(), frame),
{
    broadcast use group_json_lemmas;

    let mut result: Vec<(usize, Json)> = Vec::new();
    let tracks = match timeline.get("tracks") {
        Some(tv) => match tv.as_array() {
            Some(t) => t,
            None => {
                assert(indexed_view(result@) =~= Seq::empty());
                return result;
            },
        },
        None => {
            assert(indexed_view(result@) =~= Seq::empty());
            return result;
        },
    };
    let ghost ts = deep_seq(tracks@);
    let video = "video".to_owned();
    let image = "image".to_owned();
    let mut ti: usize = 0;
    assert(indexed_view(result@) =~= drawn_in_tracks(ts.take(0), frame));
    while ti < tracks.len()
        invariant
            ts == deep_seq(tracks@),
            ts.len() == tracks@.len(),
            tracks_of(timeline.deep()) == Some(ts),
            video@ == "video"@,
            image@ == "image"@,
            ti <= tracks.len(),
            indexed_view(result@) == drawn_in_tracks(ts.take(ti as int), frame),
        decreases tracks.len() - ti,
    {
        broadcast use group_json_lemmas;

        let track = &tracks[ti];
        assert(track.deep() == ts[ti as int]);
        assert(ts.take(ti + 1).drop_last() =~= ts.take(ti as int));
        assert(ts.take(ti + 1).last() == ts[ti as int]);
        let hidden = match track.get("hidden") {
            Some(h) => h.as_bool(),
            None => None,
        };
        let clips_opt = match track.get("clips") {
            Some(cv) => cv.as_array(),
            None => None,
        };
        if hidden == Some(true) || clips_opt.is_none() {
            ti = ti + 1;
            continue ;
        }
        let clips = clips_opt.unwrap();
        let ghost cs = deep_seq(clips@);
        let ghost base = result@;
        let track_type: Option<&String> = match track.get("type") {
            Some(t) => t.as_str(),
            None => None,
        };
        let mut ci: usize = 0;
        assert(indexed_view(result@) =~= indexed_view(base) + drawn_in_track(
            ti as int,
            ts[ti as int],
            cs.take(0),
            frame,
        ));
        while ci < clips.len()
            invariant
                cs == deep_seq(clips@),
                cs.len() == clips@.len(),
                video@ == "video"@,
                image@ == "image"@,
                ti < tracks.len(),
                track.deep() == ts[ti as int],
                match track_type {
                    Some(t) => ts[ti as int].str_field("type"@) == Some(t@),
                    None => ts[ti as int].str_field("type"@) is None,
                },
                ci <= clips.len(),
                result@.len() >= base.len(),
                result@.subrange(0, base.len() as int) == base,
                indexed_view(result@) == indexed_view(base) + drawn_in_track(
                    ti as int,
                    ts[ti as int],
                    cs.take(ci as int),
                    frame,
                ),
            decreases clips.len() - ci,
        {
            broadcast use group_json_lemmas;

            let clip = &clips[ci];
            assert(clip.deep() == cs[ci as int]);
            assert(cs.take(ci + 1).drop_last() =~= cs.take(ci as int));
            assert(cs.take(ci + 1).last() == cs[ci as int]);
            let start: i64 = match clip.get("startFrame") {
                Some(v) => match v.as_i64() {
                    Some(x) => x,
                    None => 0,
                },
                None => 0,
            };
            let dur: i64 = match clip.get("durationFrames") {
                Some(v) => match v.as_i64() {
                    Some(x) => x,
                    None => 0,
                },
                None => 0,
            };
            if frame >= start && (frame as i128) < (start as i128) + (dur as i128) {
                let media_type: &String = match clip.get("mediaType") {
                    Some(m) => match m.as_str() {
                        Some(s) => s,
                        None => match track_type {
                            Some(t) => t,
                            None => &video,
                        },
                    },
                    None => match track_type {
                        Some(t) => t,
                        None => &video,
                    },
                };
                if *media_type == video || *media_type == image {
                    let ghost prev = result@;
                    let c = clip.copy();
                    result.push((ti, c));
                    assert(indexed_view(result@) =~= indexed_view(prev).push(
                        (ti as int, cs[ci as int]),
                    ));
                }
            }
            ci = ci + 1;
        }
        assert(cs.take(clips.len() as int) =~= cs);
        ti = ti + 1;
    }
    assert(ts.take(tracks.len() as int) =~= ts);
    result
}

/// The first frame of a clip, 0 when it has none.
pub open spec fn start_of(clip: JsonV) -> i64 {
    i64_or(clip.i64_field("startFrame"@), 0)
}

/// The length of a clip in frames, 0 when it has none.
pub open spec fn duration_of(clip: JsonV) -> i64 {
    i64_or(clip.i64_field("durationFrames"@), 0)
}

/// The first source frame a clip plays, 0 when it has none.
pub open spec fn trim_start_of(clip: JsonV) -> i64 {
    i64_or(clip.i64_field("trimStartFrame"@), 0)
}

/// The clip's end frame, `start + duration`, fits in an `i64`.
pub open spec fn end_fits(clip: JsonV) -> bool {
    i64::MIN <= start_of(clip) + duration_of(clip) <= i64::MAX
}

/// When the timeline holds a clip with id `id`, the first one's end frame
/// fits in an `i64`.
pub open spec fn split_fits(timeline: JsonV, id: Seq<char>) -> bool {
    match tracks_of(timeline) {
        Some(ts) => has_clip(ts, id) ==> {
            let (ti, ci) = first_clip(ts, id);
            end_fits(clip_ref(ts, ti, ci))
        },
        None => true,
    }
}

/// The left part of a clip cut at `at`: it keeps its start and ends at `at`.
pub open spec fn left_part(clip: JsonV, at: i64) -> JsonV {
    clip.with_field("durationFrames"@, JsonV::Int((at - start_of(clip)) as i64))
}

/// The right part of a clip cut at `at`: a new id, starting at `at`, lasting
/// to the clip's end, and playing the source from `trim_end`.
pub open spec fn right_part(clip: JsonV, at: i64, new_id: Seq<char>, trim_end: i64) -> JsonV {
    clip.with_field("id"@, JsonV::Str(new_id)).with_field("startFrame"@, JsonV::Int(at)).with_field(
        "durationFrames"@,
        JsonV::Int((start_of(clip) + duration_of(clip) - at) as i64),
    ).with_field("trimStartFrame"@, JsonV::Int(trim_end))
}

/// `at` lies strictly inside the clip.
pub open spec fn inside(clip: JsonV, at: i64) -> bool {
    start_of(clip) < at < start_of(clip) + duration_of(clip)
}

/// The timeline after cutting the clip at `(ti, ci)` at frame `at`: the
/// clip becomes its left part, and the right part follows it.
pub open spec fn split_timeline(
    t: JsonV,
    ti: int,
    ci: int,
    at: i64,
    new_id: Seq<char>,
    trim_end: i64,
) -> JsonV {
    let ts = tracks_of(t)->0;
    let clips = clips_of(ts[ti])->0;
    let clip = clips[ci];
    with_track_clips(
        t,
        ti,
        clips.update(ci, left_part(clip, at)).insert(ci + 1, right_part(clip, at, new_id, trim_end)),
    )
}

/// The speed field of a clip, as a document, when present.
pub open spec fn speed_field(clip: JsonV) -> Option<JsonV> {
    clip.field("speed"@)
}

/// What a split of the first clip with id `id` at `at` does, given the new
/// clip's id and the source frame where the right part begins.
pub open spec fn split_outcome(
    t: JsonV,
    id: Seq<char>,
    at: i64,
    new_id: Seq<char>,
    trim_end: i64,
) -> (JsonV, Result<Seq<char>, Seq<char>>) {
    match tracks_of(t) {
        None => (t, Err("no tracks"@)),
        Some(ts) => if !has_clip(ts, id) {
            (t, Err("clip not found: "@ + id))
        } else {
            let (ti, ci) = first_clip(ts, id);
            if inside(clip_ref(ts, ti, ci), at) {
                (split_timeline(t, ti, ci, at, new_id, trim_end), Ok(new_id))
            } else {
                (t, Err("split frame must be inside clip"@))
            }
        },
    }
}

/// The arguments handed to the source-frame computation of a split: the
/// clip's first source frame, the length of the left part, and its speed.
pub open spec fn split_source_args(t: JsonV, id: Seq<char>, at: i64) -> (i64, i64, Option<JsonV>) {
    let ts = tracks_of(t)->0;
    let (ti, ci) = first_clip(ts, id);
    let clip = clip_ref(ts, ti, ci);
    (trim_start_of(clip), (at - start_of(clip)) as i64, speed_field(clip))
}

/// The view of a `Result` whose payloads are texts.
pub open spec fn text_result(r: Result<String, String>) -> Result<Seq<char>, Seq<char>> {
    match r {
        Ok(s) => Ok(s@),
        Err(e) => Err(e@),
    }
}

/// Cuts the first clip with id `clip_id` in two at `at_frame`, the right
/// part taking the id `new_id`.
///
/// The right part plays its source from the frame that `source_end` gives
/// for the clip's first source frame, the left part's length in frames and
/// the clip's `speed` field: scaling by a speed is arithmetic on floating
/// point, which the caller supplies.
pub fn split_clip_with_id<F: Fn(i64, i64, Option<Json>) -> i64>(
    timeline: &mut Json,
    clip_id: &str,
    at_frame: i64,
    new_id: String,
    source_end: F,
) -> (r: Result<String, String>)
    requires
        split_fits(old(timeline).deep(), clip_id@),
        forall|a: i64, b: i64, c: Option<Json>| call_requires(source_end, (a, b, c)),
    ensures
        match split_outcome(old(timeline).deep(), clip_id@, at_frame, new_id@, 0) {
            (_, Ok(_)) => {
                let (ts0, left, sp) = split_source_args(old(timeline).deep(), clip_id@, at_frame);
                exists|speed: Option<Json>, trim_end: i64|
                    #![trigger call_ensures(source_end, (ts0, left, speed), trim_end)]
                    {
                    &&& opt_deep(speed) == sp
                    &&& call_ensures(source_end, (ts0, left, speed), trim_end)
                    &&& (final(timeline).deep(), text_result(r)) == split_outcome(
                        old(timeline).deep(),
                        clip_id@,
                        at_frame,
                        new_id@,
                        trim_end,
                    )
                }
            },
            (t, e) => final(timeline).deep() == t && text_result(r) == e,
        },
{
    broadcast use group_json_lemmas;

    let loc = match timeline.get("tracks") {
        Some(tv) => match tv.as_array() {
            Some(tracks) => locate_clip(tracks, clip_id),
            None => {
                return Err("no tracks".to_owned());
            },
        },
        None => {
            return Err("no tracks".to_owned());
        },
    };
    let (ti, ci) = match loc {
        Some(p) => p,
        None => {
            return Err(clip_not_found(clip_id));
        },
    };
    let ghost ts = tracks_of(timeline.deep())->0;
    proof {
        lemma_first_clip(ts, clip_id@, ti as int, ci as int);
    }
    let clip = clip_copy(timeline, ti, ci);
    let ghost cl = clip.deep();
    let start = match clip.get("startFrame") {
        Some(v) => match v.as_i64() {
            Some(x) => x,
            None => 0,
        },
        None => 0,
    };
    let duration = match clip.get("durationFrames") {
        Some(v) => match v.as_i64() {
            Some(x) => x,
            None => 0,
        },
        None => 0,
    };
    let end = start + duration;
    if at_frame <= start || at_frame >= end {
        return Err("split frame must be inside clip".to_owned());
    }
    let left_duration = at_frame - start;
    let right_duration = end - at_frame;
    let trim_start = match clip.get("trimStartFrame") {
        Some(v) => match v.as_i64() {
            Some(x) => x,
            None => 0,
        },
        None => 0,
    };
    let speed: Option<Json> = match clip.get("speed") {
        Some(v) => Some(v.copy()),
        None => None,
    };
    let ghost speed_arg = speed;
    let left_trim_end = source_end(trim_start, left_duration, speed);
    let mut left = clip.copy();
    left.set("durationFrames", Json::Int(left_duration));
    let mut right = clip;
    let id_text = new_id.clone();
    right.set("id", Json::Str(new_id));
    proof {
        lemma_is_object_after_set(cl, "id"@, JsonV::Str(id_text@));
    }
    right.set("startFrame", Json::Int(at_frame));
    proof {
        lemma_is_object_after_set(
            cl.with_field("id"@, JsonV::Str(id_text@)),
            "startFrame"@,
            JsonV::Int(at_frame),
        );
    }
    right.set("durationFrames", Json::Int(right_duration));
    proof {
        lemma_is_object_after_set(
            cl.with_field("id"@, JsonV::Str(id_text@)).with_field("startFrame"@, JsonV::Int(at_frame)),
            "durationFrames"@,
            JsonV::Int(right_duration),
        );
    }
    right.set("trimStartFrame", Json::Int(left_trim_end));
    insert_split(timeline, ti, ci, left, right);
    proof {
        let t0 = old(timeline).deep();
        assert(cl == clip_ref(ts, ti as int, ci as int));
        assert(start_of(cl) == start);
        assert(duration_of(cl) == duration);
        assert(trim_start_of(cl) == trim_start);
        assert(opt_deep(speed_arg) == speed_field(cl));
        assert(inside(cl, at_frame));
        assert(first_clip(ts, clip_id@) == (ti as int, ci as int));
        assert(split_source_args(t0, clip_id@, at_frame) == (trim_start, left_duration, speed_field(cl)));
        assert(call_ensures(source_end, (trim_start, left_duration, speed_arg), left_trim_end));
        assert(final(timeline).deep() == split_timeline(t0, ti as int, ci as int, at_frame, id_text@, left_trim_end));
        assert(id_text@ == new_id@);
        assert(split_outcome(t0, clip_id@, at_frame, new_id@, left_trim_end) == (final(timeline).deep(), Ok::<Seq<char>, Seq<char>>(new_id@)));
        assert(split_outcome(t0, clip_id@, at_frame, new_id@, 0).1 is Ok);
        let (ts0, left, sp) = split_source_args(t0, clip_id@, at_frame);
        assert(ts0 == trim_start && left == left_duration && sp == speed_field(cl));
        assert(exists|speed: Option<Json>, trim_end: i64|
            #![trigger call_ensures(source_end, (ts0, left, speed), trim_end)]
            {
                &&& opt_deep(speed) == sp
                &&& call_ensures(source_end, (ts0, left, speed), trim_end)
                &&& (final(timeline).deep(), Ok::<Seq<char>, Seq<char>>(id_text@)) == split_outcome(t0, clip_id@, at_frame, new_id@, trim_end)
            });
    }
    Ok(id_text)
}

/// Setting a field of an object gives an object.
pub proof fn lemma_is_object_after_set(v: JsonV, key: Seq<char>, a: JsonV)
    requires
        v is Object,
    ensures
        v.with_field(key, a) is Object,
{
}

/// Replaces the clip at `(ti, ci)` by `left` and inserts `right` after it.
fn insert_split(timeline: &mut Json, ti: usize, ci: usize, left: Json, right: Json)
    requires
        tracks_of(old(timeline).deep()) is Some,
        0 <= ti < tracks_of(old(timeline).deep())->0.len(),
        clips_of(tracks_of(old(timeline).deep())->0[ti as int]) is Some,
        0 <= ci < clips_of(tracks_of(old(timeline).deep())->0[ti as int])->0.len(),
    ensures
        final(timeline).deep() == with_track_clips(
            old(timeline).deep(),
            ti as int,
            clips_of(tracks_of(old(timeline).deep())->0[ti as int])->0.update(
                ci as int,
                left.deep(),
            ).insert(ci + 1, right.deep()),
        ),
{
    broadcast use group_json_lemmas;

    let ghost ts = tracks_of(timeline.deep())->0;
    let tracks = timeline.get("tracks").unwrap().as_array().unwrap();
    let track = &tracks[ti];
    assert(track.deep() == ts[ti as int]);
    let clips = track.get("clips").unwrap().as_array().unwrap();
    let ghost cs = deep_seq(clips@);
    let mut new_clips: Vec<Json> = Vec::new();
    let mut i: usize = 0;
    while i < clips.len()
        invariant
            cs == deep_seq(clips@),
            cs.len() == clips@.len(),
            i <= clips.len(),
            new_clips@.len() == i,
            forall|j: int| 0 <= j < i ==> (#[trigger] new_clips@[j]).deep() == cs[j],
        decreases clips.len() - i,
    {
        broadcast use group_json_lemmas;

        let c = clips[i].copy();
        new_clips.push(c);
        i = i + 1;
    }
    let ghost l = left.deep();
    let ghost rt = right.deep();
    new_clips.set(ci, left);
    new_clips.insert(ci + 1, right);
    assert(deep_seq(new_clips@) =~= cs.update(ci as int, l).insert(ci + 1, rt));
    replace_track_clips(timeline, ti, new_clips);
}

/// Cuts the first clip with id `clip_id` in two at `at_frame`; the right
/// part takes a fresh id, which is returned. See [`split_clip_with_id`].
pub fn split_clip<F: Fn(i64, i64, Option<Json>) -> i64>(
    timeline: &mut Json,
    clip_id: &str,
    at_frame: i64,
    source_end: F,
) -> (r: Result<String, String>)
    requires
        split_fits(old(timeline).deep(), clip_id@),
        forall|a: i64, b: i64, c: Option<Json>| call_requires(source_end, (a, b, c)),
    ensures
        match split_outcome(old(timeline).deep(), clip_id@, at_frame, Seq::empty(), 0) {
            (_, Ok(_)) => {
                let (ts0, left, sp) = split_source_args(old(timeline).deep(), clip_id@, at_frame);
                exists|new_id: Seq<char>, speed: Option<Json>, trim_end: i64|
                    #![trigger crate::outside::is_uuid_text(new_id), call_ensures(source_end, (ts0, left, speed), trim_end)]
                    {
                    &&& crate::outside::is_uuid_text(new_id)
                    &&& opt_deep(speed) == sp
                    &&& call_ensures(source_end, (ts0, left, speed), trim_end)
                    &&& (final(timeline).deep(), text_result(r)) == split_outcome(
                        old(timeline).deep(),
                        clip_id@,
                        at_frame,
                        new_id,
                        trim_end,
                    )
                }
            },
            (t, e) => final(timeline).deep() == t && text_result(r) == e,
        },
{
    let new_id = crate::outside::new_uuid();
    let ghost id_view = new_id@;
    split_clip_with_id(timeline, clip_id, at_frame, new_id, source_end)
}

/// A new empty track of kind `kind` with id `id`.
pub open spec fn new_track_of(id: Seq<char>, kind: Seq<char>) -> JsonV {
    JsonV::Object(
        seq![
            ("id"@, JsonV::Str(id)),
            ("type"@, JsonV::Str(kind)),
            ("clips"@, JsonV::Array(Seq::empty())),
        ],
    )
}

/// A new empty video track with id `id`.
pub open spec fn new_track(id: Seq<char>) -> JsonV {
    new_track_of(id, "video"@)
}

/// A clip as [`add_clips`] creates it.
pub open spec fn new_clip(
    id: Seq<char>,
    media_ref: Seq<char>,
    kind: Seq<char>,
    start: i64,
    duration: i64,
    trim_start: JsonV,
    trim_end: JsonV,
) -> JsonV {
    JsonV::Object(
        seq![
            ("id"@, JsonV::Str(id)),
            ("mediaRef"@, JsonV::Str(media_ref)),
            ("mediaType"@, JsonV::Str(kind)),
            ("sourceClipType"@, JsonV::Str(kind)),
            ("startFrame"@, JsonV::Int(start)),
            ("durationFrames"@, JsonV::Int(duration)),
            ("trimStartFrame"@, trim_start),
            ("trimEndFrame"@, trim_end),
            ("speed"@, JsonV::Float(FLOAT_ONE_BITS)),
            ("volume"@, JsonV::Float(FLOAT_ONE_BITS)),
            ("opacity"@, JsonV::Float(FLOAT_ONE_BITS)),
        ],
    )
}

/// The track an entry asks for: its `trackIndex`, 0 when it has none.
pub open spec fn entry_track_index(e: JsonV) -> int {
    let raw: u64 = match e.field("trackIndex"@) {
        Some(v) => match v.as_u64() {
            Some(u) => u,
            None => 0,
        },
        None => 0,
    };
    (raw as usize) as int
}

/// The field `key` of an entry, or the integer 0 when it has none.
pub open spec fn field_or_zero(e: JsonV, key: Seq<char>) -> JsonV {
    match e.field(key) {
        Some(v) => v,
        None => JsonV::Int(0),
    }
}

/// The error an entry is refused with, if any.
pub open spec fn entry_error(e: JsonV) -> Option<Seq<char>> {
    if e.str_field("mediaRef"@) is None {
        Some("mediaRef required"@)
    } else if e.i64_field("startFrame"@) is None {
        Some("startFrame required"@)
    } else if e.i64_field("durationFrames"@) is None {
        Some("durationFrames required"@)
    } else {
        None
    }
}

/// The tracks grown with new tracks, whose ids come from `ids` starting at
/// `used`, until index `ti` exists.
pub open spec fn grown_tracks(tracks: Seq<JsonV>, ti: int, ids: Seq<Seq<char>>, used: int) -> Seq<JsonV> {
    if tracks.len() <= ti {
        tracks + Seq::new((ti + 1 - tracks.len()) as nat, |k: int| new_track(ids[used + k]))
    } else {
        tracks
    }
}

/// Adding one valid entry: the tracks after it, the id of the clip when one
/// was added, and how many ids were taken from `ids` after `used`.
pub open spec fn add_entry(tracks: Seq<JsonV>, e: JsonV, ids: Seq<Seq<char>>, used: int) -> (
    Seq<JsonV>,
    Option<Seq<char>>,
    int,
) {
    let ti = entry_track_index(e);
    let grown = grown_tracks(tracks, ti, ids, used);
    let taken = grown.len() - tracks.len();
    let cid = ids[used + taken];
    let kind = match grown[ti].str_field("type"@) {
        Some(t) => t,
        None => match e.str_field("trackType"@) {
            Some(t) => t,
            None => "video"@,
        },
    };
    let clip = new_clip(
        cid,
        e.str_field("mediaRef"@)->0,
        kind,
        e.i64_field("startFrame"@)->0,
        e.i64_field("durationFrames"@)->0,
        field_or_zero(e, "trimStartFrame"@),
        field_or_zero(e, "trimEndFrame"@),
    );
    match clips_of(grown[ti]) {
        Some(cs) => (
            grown.update(ti, grown[ti].with_field("clips"@, JsonV::Array(cs.push(clip)))),
            Some(cid),
            taken + 1,
        ),
        None => (grown, None, taken + 1),
    }
}

/// Adding the entries in order, with new ids taken in order from `ids`:
/// the tracks, the ids of the clips added, how many ids were taken, and the
/// error of the first entry refused, at which adding stops.
pub open spec fn add_entries(tracks: Seq<JsonV>, entries: Seq<JsonV>, ids: Seq<Seq<char>>) -> (
    Seq<JsonV>,
    Seq<Seq<char>>,
    int,
    Option<Seq<char>>,
)
    decreases entries.len(),
{
    if entries.len() == 0 {
        (tracks, Seq::empty(), 0, None)
    } else {
        let prev = add_entries(tracks, entries.drop_last(), ids);
        if prev.3 is Some {
            prev
        } else {
            match entry_error(entries.last()) {
                Some(m) => (prev.0, prev.1, prev.2, Some(m)),
                None => {
                    let step = add_entry(prev.0, entries.last(), ids, prev.2);
                    (
                        step.0,
                        match step.1 {
                            Some(c) => prev.1.push(c),
                            None => prev.1,
                        },
                        prev.2 + step.2,
                        None,
                    )
                },
            }
        }
    }
}

/// What adding `entries` to the timeline does, with new ids taken from `ids`.
pub open spec fn add_outcome(t: JsonV, entries: Seq<JsonV>, ids: Seq<Seq<char>>) -> (
    JsonV,
    Result<Seq<Seq<char>>, Seq<char>>,
) {
    match tracks_of(t) {
        None => (t, Err("no tracks"@)),
        Some(ts) => {
            let st = add_entries(ts, entries, ids);
            (
                t.with_field("tracks"@, JsonV::Array(st.0)),
                match st.3 {
                    Some(m) => Err(m),
                    None => Ok(st.1),
                },
            )
        },
    }
}

pub open spec fn texts_view(v: Seq<String>) -> Seq<Seq<char>> {
    Seq::new(v.len(), |i: int| v[i]@)
}

pub open spec fn texts_result(r: Result<Vec<String>, String>) -> Result<Seq<Seq<char>>, Seq<char>> {
    match r {
        Ok(v) => Ok(texts_view(v@)),
        Err(e) => Err(e@),
    }
}

proof fn lemma_add_entry_supply(
    tracks: Seq<JsonV>,
    e: JsonV,
    ids: Seq<Seq<char>>,
    more: Seq<Seq<char>>,
    used: int,
)
    requires
        0 <= used,
        used + add_entry(tracks, e, ids, used).2 <= ids.len(),
    ensures
        add_entry(tracks, e, ids + more, used) == add_entry(tracks, e, ids, used),
{
    let ti = entry_track_index(e);
    let g1 = grown_tracks(tracks, ti, ids, used);
    let g2 = grown_tracks(tracks, ti, ids + more, used);
    assert(g1 =~= g2);
}

proof fn lemma_add_entries_used(tracks: Seq<JsonV>, entries: Seq<JsonV>, ids: Seq<Seq<char>>)
    ensures
        add_entries(tracks, entries, ids).2 >= 0,
        entries.len() > 0 ==> add_entries(tracks, entries.drop_last(), ids).2 <= add_entries(
            tracks,
            entries,
            ids,
        ).2,
    decreases entries.len(),
{
    if entries.len() > 0 {
        lemma_add_entries_used(tracks, entries.drop_last(), ids);
    }
}

proof fn lemma_add_entries_supply(
    tracks: Seq<JsonV>,
    entries: Seq<JsonV>,
    ids: Seq<Seq<char>>,
    more: Seq<Seq<char>>,
)
    requires
        add_entries(tracks, entries, ids).2 <= ids.len(),
    ensures
        add_entries(tracks, entries, ids + more) == add_entries(tracks, entries, ids),
    decreases entries.len(),
{
    if entries.len() > 0 {
        lemma_add_entries_used(tracks, entries, ids);
        lemma_add_entries_used(tracks, entries.drop_last(), ids);
        lemma_add_entries_supply(tracks, entries.drop_last(), ids, more);
        let prev = add_entries(tracks, entries.drop_last(), ids);
        if prev.3 is None && entry_error(entries.last()) is None {
            lemma_add_entry_supply(prev.0, entries.last(), ids, more, prev.2);
        }
    }
}

/// An empty track of kind `kind` with id `id`.
pub fn make_track(id: String, kind: &str) -> (r: Json)
    ensures
        r.deep() == new_track_of(id@, kind@),
{
    broadcast use group_json_lemmas;

    let mut es: Vec<(String, Json)> = Vec::new();
    let ghost idv = id@;
    es.push(("id".to_owned(), Json::Str(id)));
    es.push(("type".to_owned(), Json::text(kind)));
    es.push(("clips".to_owned(), Json::empty_array()));
    assert(Json::deep_entries(es@) =~= new_track_of(idv, kind@)->Object_0);
    Json::Object(es)
}

/// A clip as [`add_clips`] creates it.
pub fn make_clip(
    id: String,
    media_ref: &String,
    kind: &String,
    start: i64,
    duration: i64,
    trim_start: Json,
    trim_end: Json,
) -> (r: Json)
    ensures
        r.deep() == new_clip(
            id@,
            media_ref@,
            kind@,
            start,
            duration,
            trim_start.deep(),
            trim_end.deep(),
        ),
{
    broadcast use group_json_lemmas;

    let ghost idv = id@;
    let ghost ts = trim_start.deep();
    let ghost te = trim_end.deep();
    let mut es: Vec<(String, Json)> = Vec::new();
    es.push(("id".to_owned(), Json::Str(id)));
    es.push(("mediaRef".to_owned(), Json::Str(media_ref.clone())));
    es.push(("mediaType".to_owned(), Json::Str(kind.clone())));
    es.push(("sourceClipType".to_owned(), Json::Str(kind.clone())));
    es.push(("startFrame".to_owned(), Json::Int(start)));
    es.push(("durationFrames".to_owned(), Json::Int(duration)));
    es.push(("trimStartFrame".to_owned(), trim_start));
    es.push(("trimEndFrame".to_owned(), trim_end));
    es.push(("speed".to_owned(), Json::Float(FLOAT_ONE_BITS)));
    es.push(("volume".to_owned(), Json::Float(FLOAT_ONE_BITS)));
    es.push(("opacity".to_owned(), Json::Float(FLOAT_ONE_BITS)));
    assert(Json::deep_entries(es@) =~= new_clip(
        idv,
        media_ref@,
        kind@,
        start,
        duration,
        ts,
        te,
    )->Object_0);
    Json::Object(es)
}

/// Every entry asks for a track index below `usize::MAX`.
pub open spec fn track_indexes_bounded(entries: Seq<JsonV>) -> bool {
    forall|i: int| 0 <= i < entries.len() ==> entry_track_index(#[trigger] entries[i]) < usize::MAX
}

/// Adds a clip for each entry (`mediaRef`, `startFrame`, `durationFrames`,
/// optional `trackIndex`, `trackType`, `trimStartFrame`, `trimEndFrame`),
/// creating empty video tracks up to the index an entry asks for, and
/// returns the ids of the clips added. At the first entry without one of
/// the three required fields it stops with an error, keeping what the
/// earlier entries added. New tracks and clips get fresh ids.
#[verifier::rlimit(60)]
pub fn add_clips(timeline: &mut Json, entries: &Vec<Json>) -> (r: Result<Vec<String>, String>)
    requires
        track_indexes_bounded(deep_seq(entries@)),
    ensures
        exists|ids: Seq<Seq<char>>|
            #![trigger add_outcome(old(timeline).deep(), deep_seq(entries@), ids)]
            {
                &&& forall|i: int| 0 <= i < ids.len() ==> crate::outside::is_uuid_text(#[trigger] ids[i])
                &&& (final(timeline).deep(), texts_result(r)) == add_outcome(
                    old(timeline).deep(),
                    deep_seq(entries@),
                    ids,
                )
            },
{
    broadcast use group_json_lemmas;

    let ghost t0 = timeline.deep();
    let ghost es = deep_seq(entries@);
    let mut tracks = match timeline.take_array_field("tracks") {
        Some(t) => t,
        None => {
            let r = Err("no tracks".to_owned());
            assert(add_outcome(t0, es, Seq::empty()).1 == texts_result(r));
            return r;
        },
    };
    let ghost ts0 = tracks_of(t0)->0;
    let ghost mut ids: Seq<Seq<char>> = Seq::empty();
    let mut created: Vec<String> = Vec::new();
    let mut i: usize = 0;
    let ghost mid = timeline.deep();
    assert(es.take(0) =~= Seq::<JsonV>::empty());
    while i < entries.len()
        invariant
            es == deep_seq(entries@),
            es.len() == entries@.len(),
            track_indexes_bounded(es),
            i <= entries.len(),
            tracks_of(t0) == Some(ts0),
            mid == t0.with_field("tracks"@, JsonV::Null),
            t0 == old(timeline).deep(),
            timeline.deep() == mid,
            t0 is Object,
            forall|k: int| 0 <= k < ids.len() ==> crate::outside::is_uuid_text(#[trigger] ids[k]),
            add_entries(ts0, es.take(i as int), ids).3 is None,
            add_entries(ts0, es.take(i as int), ids).2 == ids.len(),
            add_entries(ts0, es.take(i as int), ids).0 == deep_seq(tracks@),
            add_entries(ts0, es.take(i as int), ids).1 == texts_view(created@),
        decreases entries.len() - i,
    {
        broadcast use group_json_lemmas;

        let e = &entries[i];
        let ghost ids_start = ids;
        assert(e.deep() == es[i as int]);
        assert(es.take(i + 1).drop_last() =~= es.take(i as int));
        assert(es.take(i + 1).last() == es[i as int]);
        let ghost prev = add_entries(ts0, es.take(i as int), ids);
        let media_ref = match e.get("mediaRef") {
            Some(v) => v.as_str(),
            None => None,
        };
        let start = match e.get("startFrame") {
            Some(v) => v.as_i64(),
            None => None,
        };
        let duration = match e.get("durationFrames") {
            Some(v) => v.as_i64(),
            None => None,
        };
        if media_ref.is_none() || start.is_none() || duration.is_none() {
            let msg = if media_ref.is_none() {
                "mediaRef required".to_owned()
            } else if start.is_none() {
                "startFrame required".to_owned()
            } else {
                "durationFrames required".to_owned()
            };
            let ghost tr = deep_seq(tracks@);
            proof {
                lemma_with_field_twice(t0, "tracks"@, JsonV::Null, JsonV::Array(tr));
                assert(add_entries(ts0, es.take(i + 1), ids) == (prev.0, prev.1, prev.2, Some(msg@)));
                lemma_prefix_error_stays(ts0, es, ids, i as int + 1);
                assert(es.take(es.len() as int) =~= es);
            }
            timeline.set("tracks", Json::Array(tracks));
            let r = Err(msg);
            assert((timeline.deep(), texts_result(r)) == add_outcome(
                old(timeline).deep(),
                deep_seq(entries@),
                ids,
            ));
            return r;
        }
        let media_ref = media_ref.unwrap();
        let start = start.unwrap();
        let duration = duration.unwrap();
        let raw: u64 = match e.get("trackIndex") {
            Some(v) => match v.as_u64() {
                Some(u) => u,
                None => 0,
            },
            None => 0,
        };
        let ti = #[verifier::truncate] (raw as usize);
        assert(ti as int == entry_track_index(es[i as int]));
        assert(ti < usize::MAX);
        let ghost len0 = tracks@.len();
        let ghost used0 = ids.len();
        let ghost tr0 = deep_seq(tracks@);
        while tracks.len() <= ti
            invariant
                ti < usize::MAX,
                len0 <= tracks@.len(),
                tracks@.len() <= ti + 1 || tracks@.len() == len0,
                len0 == tr0.len(),
                ids.len() == used0 + (tracks@.len() - len0),
                ids_start.len() == used0,
                ids.subrange(0, used0 as int) == ids_start,
                forall|k: int| 0 <= k < ids.len() ==> crate::outside::is_uuid_text(#[trigger] ids[k]),
                deep_seq(tracks@) =~= tr0 + Seq::new(
                    (tracks@.len() - len0) as nat,
                    |k: int| new_track(ids[used0 + k]),
                ),
            decreases ti + 1 - tracks.len(),
        {
            broadcast use group_json_lemmas;

            let id = crate::outside::new_uuid();
            let ghost before = deep_seq(tracks@);
            let ghost ids_before = ids;
            proof {
                ids = ids.push(id@);
            }
            let t = make_track(id, "video");
            tracks.push(t);
            proof {
                let n = (tracks@.len() - len0) as nat;
                let ext = Seq::new(n, |k: int| new_track(ids[used0 + k]));
                let ext0 = Seq::new((n - 1) as nat, |k: int| new_track(ids_before[used0 + k]));
                assert(ext =~= ext0.push(new_track(id@)));
                assert(deep_seq(tracks@) =~= before.push(new_track(id@)));
            }
        }
        let ghost grown = deep_seq(tracks@);
        let cid = crate::outside::new_uuid();
        proof {
            ids = ids.push(cid@);
        }
        let ghost ids_now = ids;
        assert(grown =~= grown_tracks(tr0, ti as int, ids, used0 as int));
        let track_type: String = match e.get("trackType") {
            Some(v) => match v.as_str() {
                Some(s) => s.clone(),
                None => "video".to_owned(),
            },
            None => "video".to_owned(),
        };
        let mut track = tracks.remove(ti);
        assert(track.deep() == grown[ti as int]);
        let kind: String = match track.get("type") {
            Some(v) => match v.as_str() {
                Some(s) => s.clone(),
                None => track_type,
            },
            None => track_type,
        };
        let trim_start = match e.get("trimStartFrame") {
            Some(v) => v.copy(),
            None => Json::Int(0),
        };
        let trim_end = match e.get("trimEndFrame") {
            Some(v) => v.copy(),
            None => Json::Int(0),
        };
        let cid_text = cid.clone();
        let clip = make_clip(cid, media_ref, &kind, start, duration, trim_start, trim_end);
        let ghost tk0 = track.deep();
        match track.take_array_field("clips") {
            Some(mut clips) => {
                let ghost cs0 = deep_seq(clips@);
                let ghost cl = clip.deep();
                clips.push(clip);
                assert(deep_seq(clips@) =~= cs0.push(cl));
                proof {
                    assert(tk0 is Object);
                    lemma_with_field_twice(tk0, "clips"@, JsonV::Null, JsonV::Array(deep_seq(clips@)));
                }
                track.set("clips", Json::Array(clips));
                let ghost tk1 = track.deep();
                tracks.insert(ti, track);
                assert(deep_seq(tracks@) =~= grown.update(ti as int, tk1));
                let ghost cr = created@;
                created.push(cid_text);
                assert(texts_view(created@) =~= texts_view(cr).push(cid_text@));
            },
            None => {
                let ghost tk1 = track.deep();
                tracks.insert(ti, track);
                assert(deep_seq(tracks@) =~= grown);
            },
        }
        proof {
            let more = ids.subrange(used0 as int, ids.len() as int);
            assert(ids_start + more =~= ids);
            lemma_add_entries_supply(ts0, es.take(i as int), ids_start, more);
            assert(add_entries(ts0, es.take(i as int), ids) == prev);
        }
        i = i + 1;
    }
    let ghost tr = deep_seq(tracks@);
    proof {
        lemma_with_field_twice(t0, "tracks"@, JsonV::Null, JsonV::Array(tr));
        assert(es.take(entries.len() as int) =~= es);
    }
    timeline.set("tracks", Json::Array(tracks));
    let r = Ok(created);
    assert((timeline.deep(), texts_result(r)) == add_outcome(
        old(timeline).deep(),
        deep_seq(entries@),
        ids,
    ));
    r
}

/// Once adding stops at an error, later entries change nothing.
proof fn lemma_prefix_error_stays(tracks: Seq<JsonV>, entries: Seq<JsonV>, ids: Seq<Seq<char>>, n: int)
    requires
        0 <= n <= entries.len(),
        add_entries(tracks, entries.take(n), ids).3 is Some,
    ensures
        add_entries(tracks, entries, ids) == add_entries(tracks, entries.take(n), ids),
    decreases entries.len() - n,
{
    if n < entries.len() {
        assert(entries.take(n + 1).drop_last() =~= entries.take(n));
        lemma_prefix_error_stays(tracks, entries, ids, n + 1);
    } else {
        assert(entries.take(n) =~= entries);
    }
}


/// The clip's start frame and length, each 0 when absent.
pub fn clip_span(clip: &Json) -> (r: (i64, i64))
    ensures
        r == (start_of(clip.deep()), duration_of(clip.deep())),
{
    let start: i64 = match clip.get("startFrame") {
        Some(v) => match v.as_i64() {
            Some(x) => x,
            None => 0,
        },
        None => 0,
    };
    let dur: i64 = match clip.get("durationFrames") {
        Some(v) => match v.as_i64() {
            Some(x) => x,
            None => 0,
        },
        None => 0,
    };
    (start, dur)
}

/// Whether the end frame of the first clip with id `id` fits in an `i64`
/// (see [`split_fits`]).
pub fn split_fits_check(timeline: &Json, id: &str) -> (r: bool)
    ensures
        r == split_fits(timeline.deep(), id@),
{
    broadcast use group_json_lemmas;

    let tracks = match timeline.get("tracks") {
        Some(tv) => match tv.as_array() {
            Some(t) => t,
            None => {
                return true;
            },
        },
        None => {
            return true;
        },
    };
    match locate_clip(tracks, id) {
        Some((ti, ci)) => {
            proof {
                lemma_first_clip(deep_seq(tracks@), id@, ti as int, ci as int);
            }
            let track = &tracks[ti];
            assert(track.deep() == deep_seq(tracks@)[ti as int]);
            match track.get("clips") {
                Some(cv) => match cv.as_array() {
                    Some(clips) => {
                        let clip = &clips[ci];
                        assert(clip.deep() == deep_seq(clips@)[ci as int]);
                        let (s, d) = clip_span(clip);
                        let e: i128 = s as i128 + d as i128;
                        -0x8000_0000_0000_0000i128 <= e && e <= 0x7fff_ffff_ffff_ffffi128
                    },
                    None => true,
                },
                None => true,
            }
        },
        None => true,
    }
}

/// Whether every entry asks for a track index below `usize::MAX` (see
/// [`track_indexes_bounded`]).
pub fn track_indexes_check(entries: &Vec<Json>) -> (r: bool)
    ensures
        r == track_indexes_bounded(deep_seq(entries@)),
{
    broadcast use group_json_lemmas;

    let ghost es = deep_seq(entries@);
    let mut i: usize = 0;
    while i < entries.len()
        invariant
            es == deep_seq(entries@),
            es.len() == entries@.len(),
            i <= entries.len(),
            forall|k: int| 0 <= k < i ==> entry_track_index(#[trigger] es[k]) < usize::MAX,
        decreases entries.len() - i,
    {
        broadcast use group_json_lemmas;

        let e = &entries[i];
        assert(e.deep() == es[i as int]);
        let raw: u64 = match e.get("trackIndex") {
            Some(v) => match v.as_u64() {
                Some(u) => u,
                None => 0,
            },
            None => 0,
        };
        let ti = #[verifier::truncate] (raw as usize);
        if ti == usize::MAX {
            assert(entry_track_index(es[i as int]) == usize::MAX);
            return false;
        }
        i = i + 1;
    }
    true
}

} // verus!
