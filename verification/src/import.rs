use vstd::prelude::*;
use crate::edit::{text_result, clips_of, make_clip, make_track, new_clip, new_track_of, tracks_of};
use crate::json::{deep_seq, lemma_with_field_twice, opt_deep, Json, JsonV};
use crate::json_props::group_json_lemmas;
use crate::media::{find_media_entry, media_entry};
use crate::outside::{
    appended, as_file_name, dir_before_name, file_name_on, has_plain_name, is_piece, is_uuid_text,
    is_verbatim, lemma_dir_before_name, lemma_plain_is_file_name, lies_below, lowercase,
    name_extension, name_stem, new_uuid, path_extension, path_file_name, path_file_stem,
    path_relative_to, path_with_file_name, plain_name, tail_after_sep, to_lowercase,
};
use crate::text::{
    first_at, holds_text, lemma_first_at_exists, replace_first, replaced_first, trim_text, trimmed,
};
use crate::media::{clip_type_from_lower, kind_for_lower};
use crate::text::join;
use crate::state::{opt_text, pushed, EditorState, EditorView};

verus! {

/// The manifest of a new project: version 2, no entries, no folders.
pub open spec fn new_manifest_value() -> JsonV {
    JsonV::Object(
        seq![
            ("version"@, JsonV::Int(2)),
            ("entries"@, JsonV::Array(Seq::empty())),
            ("folders"@, JsonV::Array(Seq::empty())),
        ],
    )
}

/// The manifest of a new project.
pub fn new_manifest() -> (r: Json)
    ensures
        r.deep() == new_manifest_value(),
{
    broadcast use group_json_lemmas;

    let mut es: Vec<(String, Json)> = Vec::new();
    es.push(("version".to_owned(), Json::Int(2)));
    es.push(("entries".to_owned(), Json::empty_array()));
    es.push(("folders".to_owned(), Json::empty_array()));
    assert(Json::deep_entries(es@) =~= new_manifest_value()->Object_0);
    Json::Object(es)
}

/// The timeline of a new project: 30 fps, 1920x1080, settings not yet
/// configured, no tracks.
pub open spec fn new_project_timeline_value() -> JsonV {
    JsonV::Object(
        seq![
            ("fps"@, JsonV::Int(30)),
            ("width"@, JsonV::Int(1920)),
            ("height"@, JsonV::Int(1080)),
            ("settingsConfigured"@, JsonV::Bool(false)),
            ("tracks"@, JsonV::Array(Seq::empty())),
        ],
    )
}

/// The timeline of a new project.
pub fn new_project_timeline() -> (r: Json)
    ensures
        r.deep() == new_project_timeline_value(),
{
    broadcast use group_json_lemmas;

    let mut es: Vec<(String, Json)> = Vec::new();
    es.push(("fps".to_owned(), Json::Int(30)));
    es.push(("width".to_owned(), Json::Int(1920)));
    es.push(("height".to_owned(), Json::Int(1080)));
    es.push(("settingsConfigured".to_owned(), Json::Bool(false)));
    es.push(("tracks".to_owned(), Json::empty_array()));
    assert(Json::deep_entries(es@) =~= new_project_timeline_value()->Object_0);
    Json::Object(es)
}

impl EditorState {
    /// Gives the state the manifest of a new project when it has none.
    pub fn ensure_manifest(&mut self)
        ensures
            final(self)@ == (EditorView {
                manifest: Some(
                    match old(self)@.manifest {
                        Some(m) => m,
                        None => new_manifest_value(),
                    },
                ),
                ..old(self)@
            }),
    {
        if self.manifest.is_none() {
            self.manifest = Some(new_manifest());
        }
    }

    /// Appends an entry to the manifest's `entries` array, when the state
    /// has a manifest that holds one.
    pub fn add_media_entry(&mut self, entry: Json)
        ensures
            final(self)@ == (EditorView {
                manifest: match old(self)@.manifest {
                    Some(m) => match m.array_field("entries"@) {
                        Some(es) => Some(m.with_field("entries"@, JsonV::Array(es.push(entry.deep())))),
                        None => Some(m),
                    },
                    None => None,
                },
                ..old(self)@
            }),
    {
        broadcast use group_json_lemmas;

        if let Some(m) = &mut self.manifest {
            let ghost m0 = m.deep();
            match m.take_array_field("entries") {
                Some(mut es) => {
                    let ghost es0 = deep_seq(es@);
                    let ghost ev = entry.deep();
                    es.push(entry);
                    assert(deep_seq(es@) =~= es0.push(ev));
                    proof {
                        lemma_with_field_twice(m0, "entries"@, JsonV::Null, JsonV::Array(deep_seq(es@)));
                    }
                    m.set("entries", Json::Array(es));
                },
                None => {},
            }
        }
    }
}

/// The index of the first track of kind `kind`.
pub open spec fn first_track_of_kind(tracks: Seq<JsonV>, kind: Seq<char>, i: int) -> bool {
    &&& 0 <= i < tracks.len()
    &&& tracks[i].str_field("type"@) == Some(kind)
    &&& forall|j: int| 0 <= j < i ==> (#[trigger] tracks[j]).str_field("type"@) != Some(kind)
}

/// The tracks after adding a clip of kind `kind` to the first track of that
/// kind, or to a new track with id `track_id` appended for it.
pub open spec fn tracks_with_media_clip(
    tracks: Seq<JsonV>,
    kind: Seq<char>,
    track_id: Seq<char>,
    clip: JsonV,
) -> Seq<JsonV> {
    let (grown, ti) = if exists|i: int| first_track_of_kind(tracks, kind, i) {
        (tracks, choose|i: int| first_track_of_kind(tracks, kind, i))
    } else {
        (tracks.push(new_track_of(track_id, kind)), tracks.len() as int)
    };
    match clips_of(grown[ti]) {
        Some(cs) => grown.update(ti, grown[ti].with_field("clips"@, JsonV::Array(cs.push(clip)))),
        None => grown,
    }
}

/// The kind of clip a manifest entry makes: its `type`, else `video`.
pub open spec fn entry_kind(entry: JsonV) -> Seq<char> {
    match entry.str_field("type"@) {
        Some(t) => t,
        None => "video"@,
    }
}

/// What placing the media `media_ref` at `start` does: with `frames` the
/// length the entry's duration gives, `track_id` the id of a track made
/// for it and `clip_id` the id of the clip.
pub open spec fn place_outcome(
    s: EditorView,
    media_ref: Seq<char>,
    start: i64,
    frames: i64,
    track_id: Seq<char>,
    clip_id: Seq<char>,
) -> (EditorView, Result<Seq<char>, Seq<char>>) {
    match media_entry(s.manifest, media_ref) {
        None => (s, Err("media not found"@)),
        Some(entry) => {
            let s1 = pushed(s);
            let kind = entry_kind(entry);
            match tracks_of(s1.timeline) {
                None => (s1, Err("no tracks"@)),
                Some(ts) => {
                    let clip = new_clip(
                        clip_id,
                        media_ref,
                        kind,
                        start,
                        if frames < 1 {
                            1
                        } else {
                            frames
                        },
                        JsonV::Int(0),
                        JsonV::Int(0),
                    );
                    (
                        EditorView {
                            timeline: s1.timeline.with_field(
                                "tracks"@,
                                JsonV::Array(tracks_with_media_clip(ts, kind, track_id, clip)),
                            ),
                            ..s1
                        },
                        Ok(clip_id),
                    )
                },
            }
        },
    }
}

/// The entry's `duration` field, as handed to the length computation.
pub open spec fn entry_duration(manifest: Option<JsonV>, media_ref: Seq<char>) -> Option<JsonV> {
    media_entry(manifest, media_ref)->0.field("duration"@)
}

/// Places the manifest media `media_ref` on the timeline at `start_frame`,
/// on the first track of its kind (a new track when there is none), and
/// returns the new clip's id. The clip lasts `frames_for` of the entry's
/// `duration` field, and at least one frame: turning seconds into frames
/// is arithmetic on floating point, which the caller supplies. The
/// timeline is recorded for undo first.
pub fn add_imported_to_timeline<F: Fn(Option<Json>) -> i64>(
    state: &mut EditorState,
    media_ref: &str,
    start_frame: i64,
    frames_for: F,
) -> (r: Result<String, String>)
    requires
        forall|d: Option<Json>| call_requires(frames_for, (d,)),
    ensures
        match media_entry(old(state)@.manifest, media_ref@) {
            None => final(state)@ == old(state)@ && r is Err && r->Err_0@ == "media not found"@,
            Some(_) => exists|d: Option<Json>, frames: i64, track_id: Seq<char>, clip_id: Seq<char>|
                #![trigger call_ensures(frames_for, (d,), frames), is_uuid_text(track_id), is_uuid_text(clip_id)]
                {
                    &&& opt_deep(d) == entry_duration(old(state)@.manifest, media_ref@)
                    &&& call_ensures(frames_for, (d,), frames)
                    &&& is_uuid_text(track_id)
                    &&& is_uuid_text(clip_id)
                    &&& (final(state)@, crate::edit::text_result(r)) == place_outcome(
                        old(state)@,
                        media_ref@,
                        start_frame,
                        frames,
                        track_id,
                        clip_id,
                    )
                },
        },
{
    broadcast use group_json_lemmas;

    let entry = match find_media_entry(state.manifest.as_ref(), media_ref) {
        Some(e) => e,
        None => {
            return Err("media not found".to_owned());
        },
    };
    assert(opt_deep(state.manifest) == old(state)@.manifest);
    let kind: String = match entry.get("type") {
        Some(v) => match v.as_str() {
            Some(s) => s.clone(),
            None => "video".to_owned(),
        },
        None => "video".to_owned(),
    };
    let duration: Option<Json> = match entry.get("duration") {
        Some(v) => Some(v.copy()),
        None => None,
    };
    let ghost d_arg = duration;
    let frames = frames_for(duration);
    let duration_frames = if frames < 1 {
        1
    } else {
        frames
    };
    state.push_undo();
    let ghost s1 = state@;
    let track_id = new_uuid();
    let clip_id = new_uuid();
    let ghost tid = track_id@;
    let ghost cid = clip_id@;
    let mut tracks = match state.timeline.take_array_field("tracks") {
        Some(t) => t,
        None => {
            let r = Err("no tracks".to_owned());
            assert((state@, crate::edit::text_result(r)) == place_outcome(
                old(state)@,
                media_ref@,
                start_frame,
                frames,
                tid,
                cid,
            ));
            return r;
        },
    };
    let ghost ts = deep_seq(tracks@);
    let mut found: Option<usize> = None;
    let mut i: usize = 0;
    let kind_owned = kind.clone();
    while i < tracks.len() && found.is_none()
        invariant
            ts == deep_seq(tracks@),
            ts.len() == tracks@.len(),
            kind_owned@ == kind@,
            i <= tracks.len(),
            match found {
                None => forall|j: int| 0 <= j < i ==> (#[trigger] ts[j]).str_field("type"@) != Some(kind@),
                Some(k) => k < tracks.len() && first_track_of_kind(ts, kind@, k as int),
            },
        decreases tracks.len() - i + (if found is None { 1int } else { 0int }),
    {
        broadcast use group_json_lemmas;

        let t = &tracks[i];
        assert(t.deep() == ts[i as int]);
        let hit = match t.get("type") {
            Some(v) => match v.as_str() {
                Some(s) => *s == kind_owned,
                None => false,
            },
            None => false,
        };
        if hit {
            found = Some(i);
        } else {
            i = i + 1;
        }
    }
    let ti: usize = match found {
        Some(k) => {
            proof {
                let c = choose|c: int| first_track_of_kind(ts, kind@, c);
                if c < k {
                    assert(ts[c].str_field("type"@) != Some(kind@));
                } else if c > k {
                    assert(ts[k as int].str_field("type"@) == Some(kind@));
                }
            }
            k
        },
        None => {
            let t = make_track(track_id, kind.as_str());
            tracks.push(t);
            tracks.len() - 1
        },
    };
    let ghost grown = deep_seq(tracks@);
    let cid_text = clip_id.clone();
    let clip = make_clip(
        clip_id,
        &media_ref.to_owned(),
        &kind,
        start_frame,
        duration_frames,
        Json::Int(0),
        Json::Int(0),
    );
    let ghost cv = clip.deep();
    let mut track = tracks.remove(ti);
    assert(track.deep() == grown[ti as int]);
    let ghost tk0 = track.deep();
    match track.take_array_field("clips") {
        Some(mut clips) => {
            let ghost cs0 = deep_seq(clips@);
            clips.push(clip);
            assert(deep_seq(clips@) =~= cs0.push(cv));
            proof {
                assert(tk0 is Object);
                lemma_with_field_twice(tk0, "clips"@, JsonV::Null, JsonV::Array(deep_seq(clips@)));
            }
            track.set("clips", Json::Array(clips));
            let ghost tk1 = track.deep();
            tracks.insert(ti, track);
            assert(deep_seq(tracks@) =~= grown.update(ti as int, tk1));
        },
        None => {
            tracks.insert(ti, track);
            assert(deep_seq(tracks@) =~= grown);
        },
    }
    let ghost tl = deep_seq(tracks@);
    proof {
        assert(s1.timeline is Object);
        lemma_with_field_twice(s1.timeline, "tracks"@, JsonV::Null, JsonV::Array(tl));
    }
    state.timeline.set("tracks", Json::Array(tracks));
    let r = Ok(cid_text);
    proof {
        assert(tl == tracks_with_media_clip(ts, kind@, tid, cv));
        assert(opt_deep(d_arg) == entry_duration(old(state)@.manifest, media_ref@));
        assert(call_ensures(frames_for, (d_arg,), frames));
        assert((state@, crate::edit::text_result(r)) == place_outcome(
            old(state)@,
            media_ref@,
            start_frame,
            frames,
            tid,
            cid,
        ));
    }
    r
}

/// The kind of media a file extension makes, or why it makes none.
pub open spec fn media_kind_outcome(ext: Option<Seq<char>>) -> Result<Seq<char>, Seq<char>> {
    match ext {
        None => Err("missing file extension"@),
        Some(e) => match kind_for_lower(lowercase(e)) {
            Some(k) => Ok(k),
            None => Err("unsupported extension ."@ + e),
        },
    }
}

/// The kind of media a file with extension `ext` is imported as.
pub fn media_kind_for_ext(ext: Option<&str>) -> (r: Result<&'static str, String>)
    ensures
        match r {
            Ok(k) => media_kind_outcome(opt_str_of(ext)) == Ok::<Seq<char>, Seq<char>>(k@),
            Err(e) => media_kind_outcome(opt_str_of(ext)) == Err::<Seq<char>, Seq<char>>(e@),
        },
{
    match ext {
        None => Err("missing file extension".to_owned()),
        Some(e) => {
            let lower = to_lowercase(e);
            match clip_type_from_lower(&lower) {
                Some(k) => Ok(k),
                None => Err(join("unsupported extension .", e)),
            }
        },
    }
}

pub open spec fn opt_str_of(v: Option<&str>) -> Option<Seq<char>> {
    match v {
        Some(s) => Some(s@),
        None => None,
    }
}

/// The kind of media the file at `path` is imported as, by its extension.
pub fn media_kind(path: &str) -> (r: Result<&'static str, String>)
    ensures
        exists|ext: Option<Seq<char>>|
            #![trigger media_kind_outcome(ext)]
            {
                &&& match ext {
                    Some(e) => exists|i: int|
                        #![trigger path@.subrange(i, i + e.len())]
                        1 <= i && i + e.len() <= path@.len() && path@[i - 1] == '.' && path@.subrange(
                            i,
                            i + e.len(),
                        ) == e && !e.contains('.') && (!is_verbatim(path@) ==> !e.contains('/')),
                    None => true,
                }
                &&& match (file_name_on(path@, true), file_name_on(path@, false)) {
                    (Some(w), Some(u)) => ext == name_extension(w) || ext == name_extension(u),
                    _ => true,
                }
                &&& match r {
                    Ok(k) => media_kind_outcome(ext) == Ok::<Seq<char>, Seq<char>>(k@),
                    Err(e) => media_kind_outcome(ext) == Err::<Seq<char>, Seq<char>>(e@),
                }
            },
        !path@.contains('.') ==> r is Err && r->Err_0@ == "missing file extension"@,
{
    let ext = path_extension(path);
    let ghost ev = opt_text(ext);
    let r = match ext {
        Some(e) => media_kind_for_ext(Some(e.as_str())),
        None => media_kind_for_ext(None),
    };
    assert(match r {
        Ok(k) => media_kind_outcome(ev) == Ok::<Seq<char>, Seq<char>>(k@),
        Err(e) => media_kind_outcome(ev) == Err::<Seq<char>, Seq<char>>(e@),
    });
    r
}

/// The text with every backslash turned into a slash.
pub open spec fn slashes(s: Seq<char>) -> Seq<char> {
    Seq::new(s.len(), |i: int| if s[i] == '\\' { '/' } else { s[i] })
}

/// `s` with every backslash turned into a slash.
pub fn forward_slashes(s: &str) -> (r: String)
    ensures
        r@ == slashes(s@),
{
    proof {
        reveal_strlit("/");
    }
    let n = s.unicode_len();
    let mut out = "".to_owned();
    proof {
        reveal_strlit("");
    }
    let mut seg: usize = 0;
    let mut i: usize = 0;
    assert(out@ =~= slashes(s@.subrange(0, 0)));
    while i < n
        invariant
            n == s@.len(),
            seg <= i <= n,
            out@ == slashes(s@.subrange(0, seg as int)),
            forall|j: int| seg <= j < i ==> s@[j] != '\\',
        decreases n - i,
    {
        if s.get_char(i) == '\\' {
            let piece = s.substring_char(seg, i);
            let ghost before = out@;
            out.append(piece);
            out.append("/");
            proof {
                reveal_strlit("/");
                let target = slashes(s@.subrange(0, i + 1));
                assert(out@ == before + piece@ + "/"@);
                assert("/"@ == seq!['/']);
                assert forall|j: int| 0 <= j < target.len() implies out@[j] == target[j] by {
                    if j < seg {
                        assert(before[j] == slashes(s@.subrange(0, seg as int))[j]);
                    } else if j < i {
                        assert(piece@[j - seg] == s@[j]);
                    }
                }
                assert(out@ =~= target);
            }
            seg = i + 1;
        }
        i = i + 1;
    }
    let piece = s.substring_char(seg, n);
    let ghost before = out@;
    out.append(piece);
    proof {
        let target = slashes(s@);
        assert forall|j: int| 0 <= j < target.len() implies out@[j] == target[j] by {
            if j < seg {
                assert(before[j] == slashes(s@.subrange(0, seg as int))[j]);
            } else {
                assert(piece@[j - seg] == s@[j]);
            }
        }
        assert(out@ =~= target);
    }
    out
}

/// The `source` object of a manifest entry: a path relative to the project
/// when the file lies inside it (with forward slashes), else its absolute
/// path.
pub open spec fn source_value(relative: Option<Seq<char>>, absolute: Seq<char>) -> JsonV {
    match relative {
        Some(rel) => JsonV::Object(
            seq![("project"@, JsonV::Object(seq![("relativePath"@, JsonV::Str(slashes(rel)))]))],
        ),
        None => JsonV::Object(
            seq![("external"@, JsonV::Object(seq![("absolutePath"@, JsonV::Str(absolute))]))],
        ),
    }
}

/// A one-entry object.
pub(crate) fn single(key: &str, value: Json) -> (r: Json)
    ensures
        r.deep() == JsonV::Object(seq![(key@, value.deep())]),
{
    broadcast use group_json_lemmas;

    let ghost v = value.deep();
    let mut es: Vec<(String, Json)> = Vec::new();
    es.push((key.to_owned(), value));
    assert(Json::deep_entries(es@) =~= seq![(key@, v)]);
    Json::Object(es)
}

/// The `source` object of a manifest entry.
pub fn media_source_json(relative: Option<&str>, absolute: &str) -> (r: Json)
    ensures
        r.deep() == source_value(opt_str_of(relative), absolute@),
{
    match relative {
        Some(rel) => single("project", single("relativePath", Json::Str(forward_slashes(rel)))),
        None => single("external", single("absolutePath", Json::text(absolute))),
    }
}

/// A manifest entry.
pub open spec fn media_entry_value(
    id: Seq<char>,
    name: Seq<char>,
    kind: Seq<char>,
    source: JsonV,
    duration: JsonV,
) -> JsonV {
    JsonV::Object(
        seq![
            ("id"@, JsonV::Str(id)),
            ("name"@, JsonV::Str(name)),
            ("type"@, JsonV::Str(kind)),
            ("source"@, source),
            ("duration"@, duration),
        ],
    )
}

/// A manifest entry with the given fields.
pub fn media_entry_json(id: String, name: String, kind: &str, source: Json, duration: Json) -> (r: Json)
    ensures
        r.deep() == media_entry_value(id@, name@, kind@, source.deep(), duration.deep()),
{
    broadcast use group_json_lemmas;

    let ghost (i, n, s, d) = (id@, name@, source.deep(), duration.deep());
    let mut es: Vec<(String, Json)> = Vec::new();
    es.push(("id".to_owned(), Json::Str(id)));
    es.push(("name".to_owned(), Json::Str(name)));
    es.push(("type".to_owned(), Json::text(kind)));
    es.push(("source".to_owned(), source));
    es.push(("duration".to_owned(), duration));
    assert(Json::deep_entries(es@) =~= media_entry_value(i, n, kind@, s, d)->Object_0);
    Json::Object(es)
}

/// The manifest entry for the file at `path` of kind `kind` and the given
/// duration: a fresh id, the file's stem as its name (`Untitled` when it
/// has none), and its location relative to `project_root` when it lies
/// inside the project, else its absolute path. Which stem and which
/// relative part a path has depends on the platform's separators; see
/// [`file_name_on`] and [`lies_below`] for the paths on which the
/// contract fixes them.
pub fn new_media_entry(path: &str, kind: &str, project_root: &str, duration: Json) -> (r: Json)
    ensures
        exists|id: Seq<char>, name: Seq<char>, rel: Option<Seq<char>>|
            #![trigger media_entry_value(id, name, kind@, source_value(rel, path@), duration.deep())]
            {
                &&& is_uuid_text(id)
                &&& match (file_name_on(path@, true), file_name_on(path@, false)) {
                    (Some(w), Some(u)) => name == name_stem(w) || name == name_stem(u),
                    _ => name == "Untitled"@ || (0 < name.len() && is_piece(name, path@)),
                }
                &&& match rel {
                    Some(x) => x.len() <= path@.len() && is_piece(x, path@),
                    None => true,
                }
                &&& lies_below(path@, project_root@) ==> rel == Some(
                    path@.subrange(project_root@.len() + 1int, path@.len() as int),
                )
                &&& r.deep() == media_entry_value(id, name, kind@, source_value(rel, path@), duration.deep())
            },
{
    let name = match path_file_stem(path) {
        Some(n) => n,
        None => "Untitled".to_owned(),
    };
    let relative = path_relative_to(path, project_root);
    let source = match &relative {
        Some(rel) => media_source_json(Some(rel.as_str()), path),
        None => media_source_json(None, path),
    };
    let id = new_uuid();
    let ghost (idv, nv, rv) = (id@, name@, opt_text(relative));
    let r = media_entry_json(id, name, kind, source, duration);
    assert(is_uuid_text(idv));
    assert(r.deep() == media_entry_value(idv, nv, kind@, source_value(rv, path@), duration.deep()));
    r
}

/// The error reported when importing the file at `path` fails: the file's
/// name, or the whole path when it has none, then the reason.
pub fn import_failure(path: &str, err: &str) -> (r: String)
    ensures
        exists|name: Seq<char>|
            #![trigger name + ": "@ + err@]
            {
                &&& (name == path@ && !has_plain_name(path@)) || as_file_name(name, path@)
                &&& r@ == name + ": "@ + err@
            },
{
    let name = match path_file_name(path) {
        Some(n) => n,
        None => path.to_owned(),
    };
    let a = join(name.as_str(), ": ");
    let r = join(a.as_str(), err);
    assert(r@ == name@ + ": "@ + err@);
    r
}

/// The error reported for a file that does not exist.
pub fn file_not_found(path: &str) -> (r: String)
    ensures
        r@ == "file not found: "@ + path@,
{
    join("file not found: ", path)
}

/// The name a new project is created under: `name` without surrounding
/// whitespace, or `Untitled Project` when nothing is left.
pub fn project_name(name: &str) -> (r: String)
    ensures
        r@ == if trimmed(name@).len() == 0 {
            "Untitled Project"@
        } else {
            trimmed(name@)
        },
{
    let t = trim_text(name);
    if t.unicode_len() == 0 {
        "Untitled Project".to_owned()
    } else {
        t
    }
}

/// The directory name used when a project named `safe_name` already
/// exists: the name, a hyphen, and the first eight characters of a fresh
/// UUID.
pub fn numbered_project_name(safe_name: &str) -> (r: String)
    ensures
        exists|u: Seq<char>| #![trigger is_uuid_text(u)]
            is_uuid_text(u) && r@ == safe_name@ + "-"@ + u.subrange(0, 8),
{
    let u = new_uuid();
    let prefix = u.as_str().substring_char(0, 8);
    let a = join(safe_name, "-");
    let r = join(a.as_str(), prefix);
    assert(is_uuid_text(u@));
    r
}


/// The file name of the `ffprobe` that ships beside an FFmpeg whose file
/// is named `file_name`: the name with its first `ffmpeg` replaced by
/// `ffprobe`, or `ffprobe.exe` when the FFmpeg path has no file name.
pub open spec fn probe_name(file_name: Option<Seq<char>>) -> Seq<char> {
    match file_name {
        Some(n) => replaced_first(n, "ffmpeg"@, "ffprobe"@),
        None => "ffprobe.exe"@,
    }
}

/// Renaming a plain name's first `ffmpeg` to `ffprobe` leaves a plain name.
proof fn lemma_probe_name_plain(n: Seq<char>)
    requires
        plain_name(n),
    ensures
        plain_name(probe_name(Some(n))),
{
    reveal_strlit("ffmpeg");
    reveal_strlit("ffprobe");
    let (from, to) = ("ffmpeg"@, "ffprobe"@);
    let r = probe_name(Some(n));
    if holds_text(n, from) {
        let j = choose|j: int| 0 <= j && j + from.len() <= n.len() && #[trigger] n.subrange(j, j + from.len()) == from;
        lemma_first_at_exists(n, from, j);
        let i = choose|i: int| first_at(n, from, i);
        assert(r == n.take(i) + to + n.skip(i + from.len()));
        assert(r.len() == n.len() + 1);
        assert forall|k: int| 0 <= k < r.len() implies r[k] != '/' && r[k] != '\\' && r[k] != ':' by {
            if k < i {
                assert(r[k] == n[k]);
            } else if k < i + 7 {
                assert(r[k] == to[k - i]);
            } else {
                assert(r[k] == n[k - 1]);
            }
        }
        assert(r != seq!['.']);
        assert(r != seq!['.', '.']);
    }
}

/// The path of the `ffprobe` that ships beside the FFmpeg at `ffmpeg`: in
/// the same directory, named by [`probe_name`] after FFmpeg's file name.
pub fn ffprobe_beside(ffmpeg: &str) -> (r: String)
    ensures
        exists|f: Option<Seq<char>>|
            #![trigger probe_name(f)]
            {
                &&& match f {
                    Some(n) => as_file_name(n, ffmpeg@),
                    None => !has_plain_name(ffmpeg@),
                }
                &&& plain_name(probe_name(f)) ==> r@.len() >= probe_name(f).len() && r@.subrange(
                    r@.len() - probe_name(f).len(),
                    r@.len() as int,
                ) == probe_name(f)
            },
        dir_before_name(ffmpeg@) is Some ==> appended(
            r@,
            dir_before_name(ffmpeg@)->0,
            probe_name(file_name_on(ffmpeg@, true)),
        ),
        plain_name(ffmpeg@) ==> r@ == probe_name(Some(ffmpeg@)),
{
    proof {
        if dir_before_name(ffmpeg@) is Some {
            lemma_dir_before_name(ffmpeg@);
            lemma_probe_name_plain(tail_after_sep(ffmpeg@, true));
        }
        if plain_name(ffmpeg@) {
            lemma_plain_is_file_name(ffmpeg@);
            lemma_probe_name_plain(ffmpeg@);
        }
    }
    let file_name = path_file_name(ffmpeg);
    let name = match &file_name {
        Some(n) => replace_first(n.as_str(), "ffmpeg", "ffprobe"),
        None => "ffprobe.exe".to_owned(),
    };
    let r = path_with_file_name(ffmpeg, name.as_str());
    assert(name@ == probe_name(opt_text(file_name)));
    r
}

/// Which `ffprobe` to run: the one found on the `PATH`, else the one
/// beside FFmpeg when FFmpeg was found and that file exists.
pub open spec fn ffprobe_choice(
    on_path: Result<Seq<char>, Seq<char>>,
    beside: Option<Seq<char>>,
    beside_exists: bool,
) -> Result<Seq<char>, Seq<char>> {
    match on_path {
        Ok(p) => Ok(p),
        Err(_) => match beside {
            Some(b) => if beside_exists {
                Ok(b)
            } else {
                Err("ffprobe not found (install FFmpeg)"@)
            },
            None => Err("ffprobe not found (install FFmpeg)"@),
        },
    }
}

/// Picks the `ffprobe` to run from what the `PATH` search gave, the path
/// beside FFmpeg (when FFmpeg was found) and whether a file is there.
pub fn find_ffprobe(on_path: Result<String, String>, beside: Option<String>, beside_exists: bool) -> (r: Result<
    String,
    String,
>)
    ensures
        text_result(r) == ffprobe_choice(text_result(on_path), opt_text(beside), beside_exists),
{
    match on_path {
        Ok(p) => Ok(p),
        Err(_) => match beside {
            Some(b) => if beside_exists {
                Ok(b)
            } else {
                Err("ffprobe not found (install FFmpeg)".to_owned())
            },
            None => Err("ffprobe not found (install FFmpeg)".to_owned()),
        },
    }
}

/// Where the media manifest is saved: the open project, which must hold a
/// manifest.
pub open spec fn manifest_save_target(s: EditorView) -> Result<Seq<char>, Seq<char>> {
    match s.project_path {
        None => Err("no project"@),
        Some(p) => if s.manifest is None {
            Err("no manifest"@)
        } else {
            Ok(p)
        },
    }
}

/// Where the media manifest is saved, or why it cannot be.
pub fn manifest_save_path(state: &EditorState) -> (r: Result<String, String>)
    ensures
        text_result(r) == manifest_save_target(state@),
{
    match &state.project_path {
        None => Err("no project".to_owned()),
        Some(p) => if state.manifest.is_none() {
            Err("no manifest".to_owned())
        } else {
            Ok(p.clone())
        },
    }
}

} // verus!
