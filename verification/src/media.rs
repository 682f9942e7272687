use vstd::prelude::*;
use crate::json::{deep_seq, opt_deep_ref, Json, JsonV};
use crate::json_props::group_json_lemmas;
use crate::outside::{
    appendable_base, appended, file_name_on, is_verbatim, join_path, lemma_plain_is_file_name,
    lowercase, name_extension, path_extension, plain_name, relative_text, to_lowercase,
};

verus! {

/// The entries of a media manifest, when it holds an `entries` array.
pub open spec fn manifest_entries(manifest: Option<JsonV>) -> Option<Seq<JsonV>> {
    match manifest {
        Some(m) => m.array_field("entries"@),
        None => None,
    }
}

/// The index of the first entry with id `id`.
pub open spec fn first_entry_at(entries: Seq<JsonV>, id: Seq<char>, i: int) -> bool {
    &&& 0 <= i < entries.len()
    &&& entries[i].str_field("id"@) == Some(id)
    &&& forall|j: int| 0 <= j < i ==> (#[trigger] entries[j]).str_field("id"@) != Some(id)
}

/// The first manifest entry with id `id`.
pub open spec fn media_entry(manifest: Option<JsonV>, id: Seq<char>) -> Option<JsonV> {
    match manifest_entries(manifest) {
        Some(es) => if exists|i: int| first_entry_at(es, id, i) {
            Some(es[choose|i: int| first_entry_at(es, id, i)])
        } else {
            None
        },
        None => None,
    }
}

/// A copy of the first manifest entry with id `media_ref`.
pub fn find_media_entry(manifest: Option<&Json>, media_ref: &str) -> (r: Option<Json>)
    ensures
        match r {
            Some(e) => media_entry(opt_deep_ref(manifest), media_ref@) == Some(e.deep()),
            None => media_entry(opt_deep_ref(manifest), media_ref@) is None,
        },
{
    broadcast use group_json_lemmas;

    let m = match manifest {
        Some(m) => m,
        None => {
            return None;
        },
    };
    let entries = match m.get("entries") {
        Some(v) => match v.as_array() {
            Some(a) => a,
            None => {
                return None;
            },
        },
        None => {
            return None;
        },
    };
    let ghost es = deep_seq(entries@);
    let key = media_ref.to_owned();
    let mut i: usize = 0;
    while i < entries.len()
        invariant
            es == deep_seq(entries@),
            es.len() == entries@.len(),
            manifest_entries(opt_deep_ref(manifest)) == Some(es),
            key@ == media_ref@,
            i <= entries.len(),
            forall|j: int| 0 <= j < i ==> (#[trigger] es[j]).str_field("id"@) != Some(media_ref@),
        decreases entries.len() - i,
    {
        broadcast use group_json_lemmas;

        let e = &entries[i];
        assert(e.deep() == es[i as int]);
        let hit = match e.get("id") {
            Some(v) => match v.as_str() {
                Some(s) => *s == key,
                None => false,
            },
            None => false,
        };
        if hit {
            proof {
                assert(first_entry_at(es, media_ref@, i as int));
                let c = choose|k: int| first_entry_at(es, media_ref@, k);
                if c < i {
                    assert(es[c].str_field("id"@) != Some(media_ref@));
                } else if c > i {
                    assert(es[i as int].str_field("id"@) == Some(media_ref@));
                }
            }
            return Some(e.copy());
        }
        i = i + 1;
    }
    None
}

/// Copies of all manifest entries, none when the manifest holds no
/// `entries` array.
pub fn list_media(manifest: Option<&Json>) -> (r: Vec<Json>)
    ensures
        deep_seq(r@) == match manifest_entries(opt_deep_ref(manifest)) {
            Some(es) => es,
            None => Seq::empty(),
        },
{
    broadcast use group_json_lemmas;

    let mut out: Vec<Json> = Vec::new();
    let entries = match manifest {
        Some(m) => match m.get("entries") {
            Some(v) => match v.as_array() {
                Some(a) => a,
                None => {
                    assert(deep_seq(out@) =~= Seq::empty());
                    return out;
                },
            },
            None => {
                assert(deep_seq(out@) =~= Seq::empty());
                return out;
            },
        },
        None => {
            assert(deep_seq(out@) =~= Seq::empty());
            return out;
        },
    };
    let mut i: usize = 0;
    while i < entries.len()
        invariant
            i <= entries.len(),
            out@.len() == i,
            forall|j: int| 0 <= j < i ==> (#[trigger] out@[j]).deep() == entries@[j].deep(),
        decreases entries.len() - i,
    {
        let c = entries[i].copy();
        out.push(c);
        i = i + 1;
    }
    assert(deep_seq(out@) =~= deep_seq(entries@));
    out
}

/// Where a media file lives, as a manifest entry's `source` says.
pub enum MediaSource {
    /// An absolute path outside the project.
    External(String),
    /// A path relative to the project directory.
    InProject(String),
}

/// The location a `source` object names: `external.absolutePath`, else
/// `project.relativePath`. A source whose first present branch lacks its
/// text path names nothing.
pub open spec fn source_location(source: JsonV) -> Option<(bool, Seq<char>)> {
    match source.field("external"@) {
        Some(ext) => match ext.str_field("absolutePath"@) {
            Some(p) => Some((true, p)),
            None => None,
        },
        None => match source.field("project"@) {
            Some(proj) => match proj.str_field("relativePath"@) {
                Some(p) => Some((false, p)),
                None => None,
            },
            None => None,
        },
    }
}

pub open spec fn source_view(s: MediaSource) -> (bool, Seq<char>) {
    match s {
        MediaSource::External(p) => (true, p@),
        MediaSource::InProject(p) => (false, p@),
    }
}

/// The location a manifest entry's `source` object names.
pub fn media_source(source: &Json) -> (r: Option<MediaSource>)
    ensures
        match r {
            Some(s) => source_location(source.deep()) == Some(source_view(s)),
            None => source_location(source.deep()) is None,
        },
{
    if let Some(ext) = source.get("external") {
        return match ext.get("absolutePath") {
            Some(p) => match p.as_str() {
                Some(s) => Some(MediaSource::External(s.clone())),
                None => None,
            },
            None => None,
        };
    }
    if let Some(proj) = source.get("project") {
        return match proj.get("relativePath") {
            Some(p) => match p.as_str() {
                Some(s) => Some(MediaSource::InProject(s.clone())),
                None => None,
            },
            None => None,
        };
    }
    None
}

/// The path of the media file a `source` object names: an external path
/// as it is, a project path joined to `project_root`.
pub fn resolve_media_path(project_root: &str, source: &Json) -> (r: Option<String>)
    ensures
        r is Some <==> source_location(source.deep()) is Some,
        match source_location(source.deep()) {
            Some((true, p)) => r is Some && r->0@ == p,
            Some((false, rel)) => r is Some && (appendable_base(project_root@) && relative_text(rel)
                ==> appended(r->0@, project_root@, rel)),
            None => r is None,
        },
{
    match media_source(source) {
        Some(MediaSource::External(p)) => Some(p),
        Some(MediaSource::InProject(rel)) => Some(join_path(project_root, rel.as_str())),
        None => None,
    }
}

/// The kind of clip a lowercase file extension makes.
pub open spec fn kind_for_lower(ext: Seq<char>) -> Option<Seq<char>> {
    if ext == "mov"@ || ext == "mp4"@ || ext == "m4v"@ {
        Some("video"@)
    } else if ext == "mp3"@ || ext == "wav"@ || ext == "aac"@ || ext == "m4a"@ {
        Some("audio"@)
    } else if ext == "png"@ || ext == "jpg"@ || ext == "jpeg"@ || ext == "tiff"@ || ext == "heic"@
        || ext == "webp"@ {
        Some("image"@)
    } else if ext == "json"@ || ext == "lottie"@ {
        Some("lottie"@)
    } else {
        None
    }
}

pub open spec fn opt_str_view(v: Option<&'static str>) -> Option<Seq<char>> {
    match v {
        Some(s) => Some(s@),
        None => None,
    }
}

/// Whether `a` has the text of `b`.
fn is(a: &String, b: &str) -> (r: bool)
    ensures
        r == (a@ == b@),
{
    *a == b.to_owned()
}

/// The kind of clip a lowercase file extension makes.
pub fn clip_type_from_lower(ext: &String) -> (r: Option<&'static str>)
    ensures
        opt_str_view(r) == kind_for_lower(ext@),
{
    if is(ext, "mov") || is(ext, "mp4") || is(ext, "m4v") {
        Some("video")
    } else if is(ext, "mp3") || is(ext, "wav") || is(ext, "aac") || is(ext, "m4a") {
        Some("audio")
    } else if is(ext, "png") || is(ext, "jpg") || is(ext, "jpeg") || is(ext, "tiff") || is(
        ext,
        "heic",
    ) || is(ext, "webp") {
        Some("image")
    } else if is(ext, "json") || is(ext, "lottie") {
        Some("lottie")
    } else {
        None
    }
}

/// The kind of clip a file extension makes, whatever its case.
pub fn clip_type_from_ext(ext: &str) -> (r: Option<&'static str>)
    ensures
        opt_str_view(r) == kind_for_lower(lowercase(ext@)),
{
    let lower = to_lowercase(ext);
    clip_type_from_lower(&lower)
}

/// A lowercase extension of a still image.
pub open spec fn image_lower(ext: Seq<char>) -> bool {
    ext == "png"@ || ext == "jpg"@ || ext == "jpeg"@ || ext == "webp"@ || ext == "tiff"@ || ext
        == "heic"@
}

/// A lowercase extension is that of a still image exactly when it makes an
/// `image` clip: [`is_image_path`] and [`clip_type_from_ext`] agree on
/// every extension.
pub proof fn law_image_extension_is_image_kind(ext: Seq<char>)
    ensures
        image_lower(ext) <==> kind_for_lower(ext) == Some("image"@),
{
    reveal_strlit("image");
    reveal_strlit("video");
    reveal_strlit("audio");
    reveal_strlit("lottie");
    reveal_strlit("mov");
    reveal_strlit("mp4");
    reveal_strlit("m4v");
    reveal_strlit("mp3");
    reveal_strlit("wav");
    reveal_strlit("aac");
    reveal_strlit("m4a");
    reveal_strlit("png");
    reveal_strlit("jpg");
    reveal_strlit("jpeg");
    reveal_strlit("tiff");
    reveal_strlit("heic");
    reveal_strlit("webp");
    reveal_strlit("json");
    assert("mov"@[0] == 'm' && "mov"@[1] == 'o' && "mov"@[2] == 'v');
    assert("mp4"@[0] == 'm' && "mp4"@[1] == 'p' && "mp4"@[2] == '4');
    assert("m4v"@[0] == 'm' && "m4v"@[1] == '4' && "m4v"@[2] == 'v');
    assert("mp3"@[0] == 'm' && "mp3"@[1] == 'p' && "mp3"@[2] == '3');
    assert("wav"@[0] == 'w' && "wav"@[1] == 'a' && "wav"@[2] == 'v');
    assert("aac"@[0] == 'a' && "aac"@[1] == 'a' && "aac"@[2] == 'c');
    assert("m4a"@[0] == 'm' && "m4a"@[1] == '4' && "m4a"@[2] == 'a');
    assert("png"@[0] == 'p' && "png"@[1] == 'n' && "png"@[2] == 'g');
    assert("jpg"@[0] == 'j' && "jpg"@[1] == 'p' && "jpg"@[2] == 'g');
    assert("jpeg"@[0] == 'j' && "jpeg"@[1] == 'p' && "jpeg"@[2] == 'e');
    assert("tiff"@[0] == 't' && "tiff"@[1] == 'i' && "tiff"@[2] == 'f');
    assert("heic"@[0] == 'h' && "heic"@[1] == 'e' && "heic"@[2] == 'i');
    assert("webp"@[0] == 'w' && "webp"@[1] == 'e' && "webp"@[2] == 'b');
    assert("json"@[0] == 'j' && "json"@[1] == 's' && "json"@[2] == 'o');
    if image_lower(ext) {
        assert(ext.len() >= 3);
        assert(ext[0] == 'p' || ext[0] == 'j' || ext[0] == 't' || ext[0] == 'h' || ext[0] == 'w');
    }
    assert("video"@[0] != "image"@[0]);
    assert("audio"@[0] != "image"@[0]);
    assert("lottie"@[0] != "image"@[0]);
}

/// The kind of clip an extension makes, by its lowercase form: `audio`
/// exactly for `mp3`, `wav`, `aac` and `m4a`; `video` exactly for `mov`,
/// `mp4` and `m4v`; `image` exactly for `png`, `jpg`, `jpeg`, `tiff`,
/// `heic` and `webp`; `lottie` exactly for `json` and `lottie`; none for
/// any other.
pub proof fn law_media_kinds(ext: Seq<char>)
    ensures
        kind_for_lower(ext) == Some("audio"@) <==> (ext == "mp3"@ || ext == "wav"@ || ext == "aac"@ || ext
            == "m4a"@),
        kind_for_lower(ext) == Some("video"@) <==> (ext == "mov"@ || ext == "mp4"@ || ext == "m4v"@),
        kind_for_lower(ext) == Some("image"@) <==> (ext == "png"@ || ext == "jpg"@ || ext == "jpeg"@ || ext
            == "tiff"@ || ext == "heic"@ || ext == "webp"@),
        kind_for_lower(ext) == Some("lottie"@) <==> (ext == "json"@ || ext == "lottie"@),
        kind_for_lower(ext) is None <==> !(ext == "mp3"@ || ext == "wav"@ || ext == "aac"@ || ext == "m4a"@
            || ext == "mov"@ || ext == "mp4"@ || ext == "m4v"@ || ext == "png"@ || ext == "jpg"@ || ext
            == "jpeg"@ || ext == "tiff"@ || ext == "heic"@ || ext == "webp"@ || ext == "json"@ || ext
            == "lottie"@),
{
    reveal_strlit("image");
    reveal_strlit("video");
    reveal_strlit("audio");
    reveal_strlit("lottie");
    reveal_strlit("mov");
    reveal_strlit("mp4");
    reveal_strlit("m4v");
    reveal_strlit("mp3");
    reveal_strlit("wav");
    reveal_strlit("aac");
    reveal_strlit("m4a");
    reveal_strlit("png");
    reveal_strlit("jpg");
    reveal_strlit("jpeg");
    reveal_strlit("tiff");
    reveal_strlit("heic");
    reveal_strlit("webp");
    reveal_strlit("json");
    assert("mov"@[0] == 'm' && "mov"@[1] == 'o' && "mov"@[2] == 'v');
    assert("mp4"@[0] == 'm' && "mp4"@[1] == 'p' && "mp4"@[2] == '4');
    assert("m4v"@[0] == 'm' && "m4v"@[1] == '4' && "m4v"@[2] == 'v');
    assert("mp3"@[0] == 'm' && "mp3"@[1] == 'p' && "mp3"@[2] == '3');
    assert("wav"@[0] == 'w' && "wav"@[1] == 'a' && "wav"@[2] == 'v');
    assert("aac"@[0] == 'a' && "aac"@[1] == 'a' && "aac"@[2] == 'c');
    assert("m4a"@[0] == 'm' && "m4a"@[1] == '4' && "m4a"@[2] == 'a');
    assert("png"@[0] == 'p' && "png"@[1] == 'n' && "png"@[2] == 'g');
    assert("jpg"@[0] == 'j' && "jpg"@[1] == 'p' && "jpg"@[2] == 'g');
    assert("jpeg"@[0] == 'j' && "jpeg"@[1] == 'p' && "jpeg"@[2] == 'e');
    assert("tiff"@[0] == 't' && "tiff"@[1] == 'i' && "tiff"@[2] == 'f');
    assert("heic"@[0] == 'h' && "heic"@[1] == 'e' && "heic"@[2] == 'i');
    assert("webp"@[0] == 'w' && "webp"@[1] == 'e' && "webp"@[2] == 'b');
    assert("json"@[0] == 'j' && "json"@[1] == 's' && "json"@[2] == 'o');
    assert("video"@[0] != "audio"@[0]);
    assert("video"@[0] != "image"@[0]);
    assert("audio"@[0] != "image"@[0]);
    assert("lottie"@.len() != "image"@.len());
    assert("lottie"@.len() != "audio"@.len());
    assert("lottie"@.len() != "video"@.len());
    assert("lottie"@[0] == 'l');
}

/// Whether a lowercase extension is that of a still image.
pub fn is_image_extension(ext: &String) -> (r: bool)
    ensures
        r == image_lower(ext@),
{
    is(ext, "png") || is(ext, "jpg") || is(ext, "jpeg") || is(ext, "webp") || is(ext, "tiff") || is(
        ext,
        "heic",
    )
}

/// Whether a path names a still image, by its extension, whatever its case.
pub fn is_image_path(path: &str) -> (r: bool)
    ensures
        r ==> exists|e: Seq<char>, i: int|
            #![trigger lowercase(e), path@.subrange(i, i + e.len())]
            {
                &&& image_lower(lowercase(e))
                &&& 1 <= i && i + e.len() <= path@.len()
                &&& path@[i - 1] == '.'
                &&& path@.subrange(i, i + e.len()) == e
                &&& !e.contains('.')
                &&& !is_verbatim(path@) ==> !e.contains('/')
            },
        !path@.contains('.') ==> !r,
        match (file_name_on(path@, true), file_name_on(path@, false)) {
            (Some(w), Some(u)) => r == image_ext(name_extension(w)) || r == image_ext(name_extension(u)),
            _ => true,
        },
        plain_name(path@) ==> r == image_ext(name_extension(path@)),
{
    proof {
        if plain_name(path@) {
            lemma_plain_is_file_name(path@);
        }
    }
    match path_extension(path) {
        Some(e) => {
            let lower = to_lowercase(e.as_str());
            let r = is_image_extension(&lower);
            proof {
                if r {
                    let i = choose|i: int|
                        1 <= i && i + e@.len() <= path@.len() && path@[i - 1] == '.' && #[trigger] path@.subrange(
                            i,
                            i + e@.len(),
                        ) == e@;
                    assert(path@.subrange(i, i + e@.len()) == e@);
                    assert(lowercase(e@) == lower@);
                }
            }
            r
        },
        None => false,
    }
}

/// Whether an extension, if any, is that of a still image, whatever its
/// case.
pub open spec fn image_ext(ext: Option<Seq<char>>) -> bool {
    match ext {
        Some(e) => image_lower(lowercase(e)),
        None => false,
    }
}

/// An entry that carries an id makes some entry the first to carry it.
proof fn lemma_first_entry_exists(entries: Seq<JsonV>, id: Seq<char>, k: int)
    requires
        0 <= k < entries.len(),
        entries[k].str_field("id"@) == Some(id),
    ensures
        exists|i: int| first_entry_at(entries, id, i),
    decreases k,
{
    if exists|j: int| 0 <= j < k && entries[j].str_field("id"@) == Some(id) {
        let j = choose|j: int| 0 <= j < k && entries[j].str_field("id"@) == Some(id);
        lemma_first_entry_exists(entries, id, j);
    } else {
        assert(first_entry_at(entries, id, k));
    }
}

/// At most one entry is the first to carry an id.
proof fn lemma_first_entry_unique(entries: Seq<JsonV>, id: Seq<char>, i: int)
    requires
        first_entry_at(entries, id, i),
    ensures
        (choose|j: int| first_entry_at(entries, id, j)) == i,
{
    let j = choose|j: int| first_entry_at(entries, id, j);
    assert(first_entry_at(entries, id, j));
    if j < i {
        assert(entries[j].str_field("id"@) == Some(id));
    } else if j > i {
        assert(entries[i].str_field("id"@) == Some(id));
    }
}

/// After an entry is added to a manifest that held none with its id,
/// looking that id up finds the entry, and every other id finds what it
/// found before.
pub proof fn law_find_added_entry(m: JsonV, entry: JsonV, other: Seq<char>)
    requires
        m.array_field("entries"@) is Some,
        entry.str_field("id"@) is Some,
        media_entry(Some(m), entry.str_field("id"@)->0) is None,
    ensures
        ({
            let id = entry.str_field("id"@)->0;
            let es = m.array_field("entries"@)->0;
            let m2 = m.with_field("entries"@, JsonV::Array(es.push(entry)));
            &&& media_entry(Some(m2), id) == Some(entry)
            &&& other != id ==> media_entry(Some(m2), other) == media_entry(Some(m), other)
        }),
{
    let id = entry.str_field("id"@)->0;
    let es = m.array_field("entries"@)->0;
    let es2 = es.push(entry);
    let m2 = m.with_field("entries"@, JsonV::Array(es2));
    crate::json::lemma_field_after_set(m, "entries"@, JsonV::Array(es2));
    assert(manifest_entries(Some(m2)) == Some(es2));
    assert forall|k: int| 0 <= k < es.len() implies es[k].str_field("id"@) != Some(id) by {
        if es[k].str_field("id"@) == Some(id) {
            lemma_first_entry_exists(es, id, k);
        }
    }
    assert forall|j: int| 0 <= j < es.len() implies #[trigger] es2[j] == es[j] by {
    }
    assert(first_entry_at(es2, id, es.len() as int));
    lemma_first_entry_unique(es2, id, es.len() as int);
    if other != id {
        if exists|i: int| first_entry_at(es, other, i) {
            let i = choose|i: int| first_entry_at(es, other, i);
            assert(first_entry_at(es2, other, i));
            lemma_first_entry_unique(es2, other, i);
        } else {
            assert forall|i: int| !first_entry_at(es2, other, i) by {
                if first_entry_at(es2, other, i) {
                    if i < es.len() {
                        assert forall|j: int| 0 <= j < i implies (#[trigger] es[j]).str_field("id"@) != Some(other) by {
                            assert(es2[j] == es[j]);
                        }
                        assert(first_entry_at(es, other, i));
                    }
                }
            }
        }
    }
}

} // verus!
