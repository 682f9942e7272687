use vstd::prelude::*;
use crate::edit::{clips_of, tracks_of};
use crate::json::{deep_seq, i64_or, opt_deep, Json, JsonV};
use crate::json_props::group_json_lemmas;
use crate::media::manifest_entries;
use crate::outside::{
    appendable_base, appended, as_file_name, dir_before_name, has_plain_name, is_verbatim, join_path,
    path_file_name, path_parent, plain_name, relative_text,
};
use crate::state::{max_int, opt_text};
use crate::text::join;

verus! {

/// The file holding a project's timeline.
pub const TIMELINE_FILENAME: &'static str = "project.json";

/// The file holding a project's media manifest.
pub const MANIFEST_FILENAME: &'static str = "media.json";

/// The file holding a project's generation log.
pub const GENERATION_LOG_FILENAME: &'static str = "generation-log.json";

/// A project's thumbnail image.
pub const THUMBNAIL_FILENAME: &'static str = "thumbnail.jpg";

/// The directory of a project's imported media.
pub const MEDIA_DIR: &'static str = "media";

/// Why a project could not be read or written.
#[derive(Debug)]
pub enum ProjectError {
    NotFound(String),
    InvalidTimeline(String),
    InvalidManifest(String),
    Io(String),
}

/// The text each error is reported with.
pub open spec fn project_error_text(e: ProjectError) -> Seq<char> {
    match e {
        ProjectError::NotFound(s) => "project not found: "@ + s@,
        ProjectError::InvalidTimeline(s) => "invalid timeline JSON: "@ + s@,
        ProjectError::InvalidManifest(s) => "invalid manifest JSON: "@ + s@,
        ProjectError::Io(s) => "io error: "@ + s@,
    }
}

impl ProjectError {
    /// The text the error is reported with.
    pub fn message(&self) -> (r: String)
        ensures
            r@ == project_error_text(*self),
    {
        match self {
            ProjectError::NotFound(s) => join("project not found: ", s.as_str()),
            ProjectError::InvalidTimeline(s) => join("invalid timeline JSON: ", s.as_str()),
            ProjectError::InvalidManifest(s) => join("invalid manifest JSON: ", s.as_str()),
            ProjectError::Io(s) => join("io error: ", s.as_str()),
        }
    }
}

/// A project package as it was read: its directory, its timeline
/// (`project.json`) and its media manifest (`media.json`), when present.
pub struct ProjectPackage {
    pub path: String,
    pub timeline: Json,
    pub manifest: Option<Json>,
}

/// What the project list shows of a project.
#[derive(Debug)]
pub struct ProjectSummary {
    pub path: String,
    pub name: String,
    pub fps: i64,
    pub width: i64,
    pub height: i64,
    pub track_count: usize,
    pub clip_count: usize,
    pub media_count: usize,
    pub total_frames: i64,
}

/// The text with every trailing copy of `suffix` removed, as
/// `str::trim_end_matches` removes them.
pub open spec fn trim_end_all(s: Seq<char>, suffix: Seq<char>) -> Seq<char>
    decreases s.len(),
{
    if suffix.len() > 0 && s.len() >= suffix.len() && s.subrange(s.len() - suffix.len(), s.len() as int)
        == suffix {
        trim_end_all(s.subrange(0, s.len() - suffix.len()), suffix)
    } else {
        s
    }
}

/// Whether `s` ends with `suffix`.
fn ends_with_text(s: &str, suffix: &str, len: usize) -> (r: bool)
    requires
        len <= s@.len(),
    ensures
        r == (suffix@.len() <= len && s@.subrange(len - suffix@.len(), len as int) == suffix@),
{
    let n = suffix.unicode_len();
    if n > len {
        return false;
    }
    let mut k: usize = 0;
    while k < n
        invariant
            n == suffix@.len(),
            n <= len <= s@.len(),
            k <= n,
            forall|j: int| 0 <= j < k ==> s@[len - n + j] == suffix@[j],
        decreases n - k,
    {
        if s.get_char(len - n + k) != suffix.get_char(k) {
            assert(s@.subrange(len - n, len as int)[k as int] != suffix@[k as int]);
            return false;
        }
        k = k + 1;
    }
    assert(s@.subrange(len - n, len as int) =~= suffix@);
    true
}

/// `s` with every trailing copy of `suffix` removed.
pub fn trim_end_matches(s: &str, suffix: &str) -> (r: String)
    ensures
        r@ == trim_end_all(s@, suffix@),
{
    let total = s.unicode_len();
    let n = suffix.unicode_len();
    let mut len: usize = total;
    assert(s@.subrange(0, len as int) =~= s@);
    while n > 0 && ends_with_text(s, suffix, len)
        invariant
            n == suffix@.len(),
            len <= s@.len(),
            total == s@.len(),
            trim_end_all(s@, suffix@) == trim_end_all(s@.subrange(0, len as int), suffix@),
        decreases len,
    {
        let ghost cur = s@.subrange(0, len as int);
        assert(cur.subrange(cur.len() - n, cur.len() as int) =~= s@.subrange(len - n, len as int));
        assert(cur.subrange(0, cur.len() - n) =~= s@.subrange(0, len - n));
        len = len - n;
    }
    proof {
        let cur = s@.subrange(0, len as int);
        if n > 0 && len >= n {
            assert(cur.subrange(cur.len() - n, cur.len() as int) =~= s@.subrange(len - n, len as int));
        }
    }
    s.substring_char(0, len).to_owned()
}

/// The number of clips over the tracks that hold a `clips` array.
pub open spec fn clip_total(tracks: Seq<JsonV>) -> int
    decreases tracks.len(),
{
    if tracks.len() == 0 {
        0
    } else {
        clip_total(tracks.drop_last()) + match clips_of(tracks.last()) {
            Some(cs) => cs.len() as int,
            None => 0,
        }
    }
}

/// The end frame a summary counts for a clip: its `endFrame`, else
/// `startFrame + durationFrames` when it has both, else nothing.
pub open spec fn summary_end(clip: JsonV) -> Option<int> {
    match clip.i64_field("endFrame"@) {
        Some(e) => Some(e as int),
        None => match (clip.i64_field("startFrame"@), clip.i64_field("durationFrames"@)) {
            (Some(s), Some(d)) => Some(s + d),
            _ => None,
        },
    }
}

pub open spec fn summary_max_clips(clips: Seq<JsonV>) -> int
    decreases clips.len(),
{
    if clips.len() == 0 {
        0
    } else {
        let prev = summary_max_clips(clips.drop_last());
        match summary_end(clips.last()) {
            Some(e) => max_int(prev, e),
            None => prev,
        }
    }
}

pub open spec fn summary_max_tracks(tracks: Seq<JsonV>) -> int
    decreases tracks.len(),
{
    if tracks.len() == 0 {
        0
    } else {
        max_int(
            summary_max_tracks(tracks.drop_last()),
            match clips_of(tracks.last()) {
                Some(cs) => summary_max_clips(cs),
                None => 0,
            },
        )
    }
}

/// The tracks a summary counts: the timeline's `tracks`, none when absent.
pub open spec fn summary_tracks(t: JsonV) -> Seq<JsonV> {
    match tracks_of(t) {
        Some(ts) => ts,
        None => Seq::empty(),
    }
}

/// The numbers a summary reports fit their types: every end frame it
/// counts fits in an `i64`, and the clip count in a `usize`.
pub open spec fn summary_fits(t: JsonV) -> bool {
    let ts = summary_tracks(t);
    &&& clip_total(ts) <= usize::MAX
    &&& forall|ti: int, ci: int|
        0 <= ti < ts.len() && clips_of(ts[ti]) is Some && 0 <= ci < clips_of(ts[ti])->0.len()
            ==> (summary_end(#[trigger] clips_of(ts[ti])->0[ci]) matches Some(e) ==> i64::MIN <= e
            <= i64::MAX)
}

/// The name shown for a project: the last component of its path without
/// trailing `.palmier` extensions, or `Untitled Project`.
pub open spec fn summary_name(file_name: Option<Seq<char>>) -> Seq<char> {
    trim_end_all(
        match file_name {
            Some(n) => n,
            None => "Untitled Project"@,
        },
        ".palmier"@,
    )
}

proof fn lemma_clip_total_nonneg(tracks: Seq<JsonV>)
    ensures
        clip_total(tracks) >= 0,
        forall|k: int| 0 <= k <= tracks.len() ==> clip_total(#[trigger] tracks.take(k)) <= clip_total(
            tracks,
        ),
    decreases tracks.len(),
{
    if tracks.len() > 0 {
        let rest = tracks.drop_last();
        lemma_clip_total_nonneg(rest);
        assert forall|k: int| 0 <= k <= tracks.len() implies clip_total(#[trigger] tracks.take(k))
            <= clip_total(tracks) by {
            if k < tracks.len() {
                assert(tracks.take(k) =~= rest.take(k));
            } else {
                assert(tracks.take(k) =~= tracks);
            }
        }
    } else {
        assert forall|k: int| 0 <= k <= tracks.len() implies clip_total(#[trigger] tracks.take(k))
            <= clip_total(tracks) by {
            assert(tracks.take(k) =~= tracks);
        }
    }
}

impl ProjectPackage {
    /// The summary of the package, named after `file_name`, the last
    /// component of its path.
    pub fn summary_named(&self, file_name: Option<String>) -> (r: ProjectSummary)
        requires
            summary_fits(self.timeline.deep()),
        ensures
            r.path@ == self.path@,
            r.name@ == summary_name(opt_text(file_name)),
            r.fps == i64_or(self.timeline.deep().i64_field("fps"@), 30),
            r.width == i64_or(self.timeline.deep().i64_field("width"@), 1920),
            r.height == i64_or(self.timeline.deep().i64_field("height"@), 1080),
            r.track_count == summary_tracks(self.timeline.deep()).len(),
            r.clip_count == clip_total(summary_tracks(self.timeline.deep())),
            r.media_count == match manifest_entries(opt_deep(self.manifest)) {
                Some(es) => es.len(),
                None => 0,
            },
            r.total_frames == summary_max_tracks(summary_tracks(self.timeline.deep())),
    {
        broadcast use group_json_lemmas;

        let t = &self.timeline;
        let fps = match t.get("fps") {
            Some(v) => match v.as_i64() {
                Some(x) => x,
                None => 30,
            },
            None => 30,
        };
        let width = match t.get("width") {
            Some(v) => match v.as_i64() {
                Some(x) => x,
                None => 1920,
            },
            None => 1920,
        };
        let height = match t.get("height") {
            Some(v) => match v.as_i64() {
                Some(x) => x,
                None => 1080,
            },
            None => 1080,
        };
        let empty: Vec<Json> = Vec::new();
        let tracks: &Vec<Json> = match t.get("tracks") {
            Some(v) => match v.as_array() {
                Some(a) => a,
                None => &empty,
            },
            None => &empty,
        };
        let ghost ts = deep_seq(tracks@);
        assert(ts == summary_tracks(t.deep()));
        proof {
            lemma_clip_total_nonneg(ts);
        }
        let mut clip_count: usize = 0;
        let mut total_frames: i64 = 0;
        let mut ti: usize = 0;
        while ti < tracks.len()
            invariant
                ts == deep_seq(tracks@),
                ts.len() == tracks@.len(),
                ts == summary_tracks(t.deep()),
                summary_fits(t.deep()),
                forall|k: int| 0 <= k <= ts.len() ==> clip_total(#[trigger] ts.take(k)) <= clip_total(ts),
                ti <= tracks.len(),
                clip_count == clip_total(ts.take(ti as int)),
                total_frames == summary_max_tracks(ts.take(ti as int)),
                total_frames >= 0,
            decreases tracks.len() - ti,
        {
            broadcast use group_json_lemmas;

            let track = &tracks[ti];
            assert(track.deep() == ts[ti as int]);
            assert(ts.take(ti + 1).drop_last() =~= ts.take(ti as int));
            assert(clip_total(ts.take(ti + 1)) <= clip_total(ts));
            match track.get("clips") {
                Some(cv) => match cv.as_array() {
                    Some(clips) => {
                        let ghost cs = deep_seq(clips@);
                        clip_count = clip_count + clips.len();
                        let mut best: i64 = 0;
                        let mut ci: usize = 0;
                        while ci < clips.len()
                            invariant
                                cs == deep_seq(clips@),
                                cs.len() == clips@.len(),
                                clips_of(ts[ti as int]) == Some(cs),
                                ti < ts.len(),
                                ts == summary_tracks(t.deep()),
                                summary_fits(t.deep()),
                                ci <= clips.len(),
                                best == summary_max_clips(cs.take(ci as int)),
                            decreases clips.len() - ci,
                        {
                            broadcast use group_json_lemmas;

                            let clip = &clips[ci];
                            assert(clip.deep() == cs[ci as int]);
                            assert(cs.take(ci + 1).drop_last() =~= cs.take(ci as int));
                            proof {
                                let ts2 = summary_tracks(t.deep());
                                assert(clips_of(ts2[ti as int])->0 == cs);
                                assert(summary_end(clips_of(ts2[ti as int])->0[ci as int]) matches Some(
                                    e,
                                ) ==> i64::MIN <= e <= i64::MAX);
                            }
                            let end_frame = match clip.get("endFrame") {
                                Some(v) => v.as_i64(),
                                None => None,
                            };
                            match end_frame {
                                Some(e) => {
                                    if e > best {
                                        best = e;
                                    }
                                },
                                None => {
                                    let s = match clip.get("startFrame") {
                                        Some(v) => v.as_i64(),
                                        None => None,
                                    };
                                    let d = match clip.get("durationFrames") {
                                        Some(v) => v.as_i64(),
                                        None => None,
                                    };
                                    match (s, d) {
                                        (Some(s), Some(d)) => {
                                            let e = s + d;
                                            if e > best {
                                                best = e;
                                            }
                                        },
                                        _ => {},
                                    }
                                },
                            }
                            ci = ci + 1;
                        }
                        assert(cs.take(clips.len() as int) =~= cs);
                        if best > total_frames {
                            total_frames = best;
                        }
                    },
                    None => {},
                },
                None => {},
            }
            ti = ti + 1;
        }
        assert(ts.take(tracks.len() as int) =~= ts);
        let media_count: usize = match &self.manifest {
            Some(m) => match m.get("entries") {
                Some(v) => match v.as_array() {
                    Some(a) => a.len(),
                    None => 0,
                },
                None => 0,
            },
            None => 0,
        };
        let base: String = match &file_name {
            Some(n) => n.clone(),
            None => "Untitled Project".to_owned(),
        };
        let name = trim_end_matches(base.as_str(), ".palmier");
        ProjectSummary {
            path: self.path.clone(),
            name,
            fps,
            width,
            height,
            track_count: tracks.len(),
            clip_count,
            media_count,
            total_frames,
        }
    }

    /// The summary of the package, named after the last component of its
    /// path.
    pub fn summary(&self) -> (r: ProjectSummary)
        requires
            summary_fits(self.timeline.deep()),
        ensures
            r.path@ == self.path@,
            exists|n: Option<Seq<char>>|
                #![trigger summary_name(n)]
                {
                    &&& r.name@ == summary_name(n)
                    &&& match n {
                        Some(f) => as_file_name(f, self.path@),
                        None => !has_plain_name(self.path@),
                    }
                },
            r.fps == i64_or(self.timeline.deep().i64_field("fps"@), 30),
            r.width == i64_or(self.timeline.deep().i64_field("width"@), 1920),
            r.height == i64_or(self.timeline.deep().i64_field("height"@), 1080),
            r.track_count == summary_tracks(self.timeline.deep()).len(),
            r.clip_count == clip_total(summary_tracks(self.timeline.deep())),
            r.media_count == match manifest_entries(opt_deep(self.manifest)) {
                Some(es) => es.len(),
                None => 0,
            },
            r.total_frames == summary_max_tracks(summary_tracks(self.timeline.deep())),
    {
        let file_name = path_file_name(self.path.as_str());
        let r = self.summary_named(file_name);
        assert(r.name@ == summary_name(opt_text(file_name)));
        r
    }
}

/// Where new projects are kept: `Palmier Pro` inside the user's
/// `Documents` directory under `home`, or inside the working directory
/// when there is no home directory; each name is appended after one
/// separator (see [`appended`]), for a home that [`appendable_base`] admits.
pub fn default_storage_directory(home: Option<String>) -> (r: String)
    ensures
        match home {
            Some(h) => appendable_base(h@) ==> exists|docs: Seq<char>|
                #![trigger appended(docs, h@, "Documents"@)]
                appended(docs, h@, "Documents"@) && (!is_verbatim(docs) ==> appended(
                    r@,
                    docs,
                    "Palmier Pro"@,
                )),
            None => appended(r@, "."@, "Palmier Pro"@),
        },
{
    proof {
        reveal_strlit("Documents");
        reveal_strlit("Palmier Pro");
        reveal_strlit(".");
        assert(relative_text("Documents"@));
        assert(relative_text("Palmier Pro"@));
    }
    let docs: String = match &home {
        Some(h) => join_path(h.as_str(), "Documents"),
        None => ".".to_owned(),
    };
    proof {
        if home is Some && appendable_base(home->0@) {
            let d = docs@;
            assert(d.len() > 0 && d.last() == 's') by {
                let h = home->0@;
                if h.len() == 0 {
                } else if h.last() == '/' {
                    assert(d == h + "Documents"@);
                } else if h.last() == '\\' {
                    assert(d == h + "Documents"@ || d == h + seq!['/'] + "Documents"@);
                } else {
                    assert(d == h + seq!['/'] + "Documents"@ || d == h + seq!['\\'] + "Documents"@);
                }
            }
        }
    }
    join_path(docs.as_str(), "Palmier Pro")
}

/// The directory of a project package: the path itself when it is a
/// directory, else the directory that holds it (the path when it has no
/// parent).
pub open spec fn package_root_of(path: Seq<char>, is_dir: bool, parent: Option<Seq<char>>) -> Seq<char> {
    if is_dir {
        path
    } else {
        match parent {
            Some(p) => p,
            None => path,
        }
    }
}

/// The directory of the project package at `path`; `is_dir` tells
/// whether that path is a directory. For a file at a root, a `/` and a
/// plain name (see [`dir_before_name`]) it is that root.
pub fn package_root(path: &str, is_dir: bool) -> (r: String)
    ensures
        exists|parent: Option<Seq<char>>|
            #![trigger package_root_of(path@, is_dir, parent)]
            {
                &&& match parent {
                    Some(p) => p.len() < path@.len() && path@.subrange(0, p.len() as int) == p,
                    None => true,
                }
                &&& r@ == package_root_of(path@, is_dir, parent)
            },
        !is_dir && dir_before_name(path@) is Some ==> r@ == dir_before_name(path@)->0,
        !is_dir && plain_name(path@) ==> r@ == Seq::<char>::empty(),
{
    if is_dir {
        let r = path.to_owned();
        assert(r@ == package_root_of(path@, is_dir, None));
        r
    } else {
        let parent = path_parent(path);
        let ghost pv = opt_text(parent);
        let r = match parent {
            Some(p) => p,
            None => path.to_owned(),
        };
        assert(r@ == package_root_of(path@, is_dir, pv));
        r
    }
}

/// The error for a package without its timeline file.
pub fn missing_timeline(root: &str) -> (r: ProjectError)
    ensures
        r is NotFound,
        r->NotFound_0@ == "missing "@ + TIMELINE_FILENAME@ + " in "@ + root@,
{
    let a = join("missing ", TIMELINE_FILENAME);
    let b = join(a.as_str(), " in ");
    ProjectError::NotFound(join(b.as_str(), root))
}


/// The end frame a summary counts for a clip, computed wide.
fn summary_end_wide(clip: &Json) -> (r: Option<i128>)
    ensures
        match summary_end(clip.deep()) {
            Some(e) => r == Some(e as i128),
            None => r is None,
        },
{
    match clip.get("endFrame") {
        Some(v) => match v.as_i64() {
            Some(e) => {
                return Some(e as i128);
            },
            None => {},
        },
        None => {},
    }
    let s = match clip.get("startFrame") {
        Some(v) => v.as_i64(),
        None => None,
    };
    let d = match clip.get("durationFrames") {
        Some(v) => v.as_i64(),
        None => None,
    };
    match (s, d) {
        (Some(a), Some(b)) => Some(a as i128 + b as i128),
        _ => None,
    }
}

/// Whether the numbers a summary of the timeline reports fit their types
/// (see [`summary_fits`]).
pub fn summary_fits_check(timeline: &Json) -> (r: bool)
    ensures
        r == summary_fits(timeline.deep()),
{
    broadcast use group_json_lemmas;

    let empty: Vec<Json> = Vec::new();
    let tracks: &Vec<Json> = match timeline.get("tracks") {
        Some(tv) => match tv.as_array() {
            Some(t) => t,
            None => &empty,
        },
        None => &empty,
    };
    let ghost ts = deep_seq(tracks@);
    assert(ts == summary_tracks(timeline.deep()));
    let mut total: usize = 0;
    let mut ti: usize = 0;
    assert(ts.take(0) =~= Seq::<JsonV>::empty());
    while ti < tracks.len()
        invariant
            ts == deep_seq(tracks@),
            ts.len() == tracks@.len(),
            ts == summary_tracks(timeline.deep()),
            ti <= tracks.len(),
            total == clip_total(ts.take(ti as int)),
            forall|t: int, c: int|
                0 <= t < ti && clips_of(ts[t]) is Some && 0 <= c < clips_of(ts[t])->0.len()
                    ==> (summary_end(#[trigger] clips_of(ts[t])->0[c]) matches Some(e) ==> i64::MIN <= e
                    <= i64::MAX),
        decreases tracks.len() - ti,
    {
        broadcast use group_json_lemmas;

        let track = &tracks[ti];
        assert(track.deep() == ts[ti as int]);
        assert(ts.take(ti + 1).drop_last() =~= ts.take(ti as int));
        match track.get("clips") {
            Some(cv) => match cv.as_array() {
                Some(clips) => {
                    let ghost cs = deep_seq(clips@);
                    if clips.len() > usize::MAX - total {
                        proof {
                            lemma_clip_total_nonneg(ts);
                            assert(clip_total(ts.take(ti + 1)) <= clip_total(ts));
                        }
                        return false;
                    }
                    let mut ci: usize = 0;
                    while ci < clips.len()
                        invariant
                            cs == deep_seq(clips@),
                            cs.len() == clips@.len(),
                            clips_of(ts[ti as int]) == Some(cs),
                            ti < ts.len(),
                            ts == summary_tracks(timeline.deep()),
                            ci <= clips.len(),
                            forall|c: int|
                                0 <= c < ci ==> (summary_end(#[trigger] cs[c]) matches Some(e) ==> i64::MIN
                                    <= e <= i64::MAX),
                        decreases clips.len() - ci,
                    {
                        broadcast use group_json_lemmas;

                        let clip = &clips[ci];
                        assert(clip.deep() == cs[ci as int]);
                        match summary_end_wide(clip) {
                            Some(e) => {
                                if !(-0x8000_0000_0000_0000i128 <= e && e <= 0x7fff_ffff_ffff_ffffi128) {
                                    assert(clips_of(ts[ti as int])->0[ci as int] == cs[ci as int]);
                                    return false;
                                }
                            },
                            None => {},
                        }
                        ci = ci + 1;
                    }
                    total = total + clips.len();
                    assert forall|t: int, c: int|
                        0 <= t < ti + 1 && clips_of(ts[t]) is Some && 0 <= c < clips_of(ts[t])->0.len()
                            implies (summary_end(#[trigger] clips_of(ts[t])->0[c]) matches Some(e)
                            ==> i64::MIN <= e <= i64::MAX) by {
                        if t == ti {
                            assert(clips_of(ts[t])->0[c] == cs[c]);
                        }
                    }
                },
                None => {},
            },
            None => {},
        }
        ti = ti + 1;
    }
    assert(ts.take(tracks.len() as int) =~= ts);
    true
}

/// The end frame the original's project list counts for `clip`: its
/// `endFrame`, else `startFrame + durationFrames` when it has both.
pub open spec fn listed_end(clip: JsonV) -> Option<int> {
    if clip.i64_field("endFrame"@) is Some {
        Some(clip.i64_field("endFrame"@)->0 as int)
    } else if clip.i64_field("startFrame"@) is Some && clip.i64_field("durationFrames"@) is Some {
        Some(clip.i64_field("startFrame"@)->0 + clip.i64_field("durationFrames"@)->0)
    } else {
        None
    }
}

/// The largest counted end of the clips is at least 0 and every counted
/// end, and is 0 or one of them.
proof fn lemma_summary_max_clips(cs: Seq<JsonV>)
    ensures
        summary_max_clips(cs) >= 0,
        forall|ci: int|
            0 <= ci < cs.len() && listed_end(#[trigger] cs[ci]) is Some ==> listed_end(cs[ci])->0
                <= summary_max_clips(cs),
        summary_max_clips(cs) == 0 || exists|ci: int|
            0 <= ci < cs.len() && listed_end(#[trigger] cs[ci]) == Some(summary_max_clips(cs)),
    decreases cs.len(),
{
    if cs.len() > 0 {
        let rest = cs.drop_last();
        lemma_summary_max_clips(rest);
        assert(summary_end(cs.last()) == listed_end(cs.last()));
        assert forall|ci: int|
            0 <= ci < cs.len() && listed_end(#[trigger] cs[ci]) is Some implies listed_end(cs[ci])->0
                <= summary_max_clips(cs) by {
            if ci < rest.len() {
                assert(cs[ci] == rest[ci]);
            }
        }
        if summary_max_clips(cs) != 0 {
            if summary_max_clips(cs) == summary_max_clips(rest) {
                let ci = choose|ci: int|
                    0 <= ci < rest.len() && listed_end(#[trigger] rest[ci]) == Some(summary_max_clips(rest));
                assert(cs[ci] == rest[ci]);
            } else {
                assert(listed_end(cs[cs.len() - 1]) == Some(summary_max_clips(cs)));
            }
        }
    }
}

/// The largest counted end over the tracks is at least 0 and every
/// counted end of a clip of a track that holds clips, and is 0 or one of
/// them.
proof fn lemma_summary_max_tracks(ts: Seq<JsonV>)
    ensures
        summary_max_tracks(ts) >= 0,
        forall|ti: int, ci: int|
            0 <= ti < ts.len() && clips_of(ts[ti]) is Some && 0 <= ci < clips_of(ts[ti])->0.len()
                && listed_end(#[trigger] clips_of(ts[ti])->0[ci]) is Some ==> listed_end(
                clips_of(ts[ti])->0[ci],
            )->0 <= summary_max_tracks(ts),
        summary_max_tracks(ts) == 0 || exists|ti: int, ci: int|
            0 <= ti < ts.len() && clips_of(ts[ti]) is Some && 0 <= ci < clips_of(ts[ti])->0.len()
                && listed_end(#[trigger] clips_of(ts[ti])->0[ci]) == Some(summary_max_tracks(ts)),
    decreases ts.len(),
{
    if ts.len() > 0 {
        let rest = ts.drop_last();
        lemma_summary_max_tracks(rest);
        let last = ts[ts.len() - 1];
        assert(last == ts.last());
        if let Some(cs) = clips_of(last) {
            lemma_summary_max_clips(cs);
        }
        assert forall|ti: int, ci: int|
            0 <= ti < ts.len() && clips_of(ts[ti]) is Some && 0 <= ci < clips_of(ts[ti])->0.len()
                && listed_end(#[trigger] clips_of(ts[ti])->0[ci]) is Some implies listed_end(
                clips_of(ts[ti])->0[ci],
            )->0 <= summary_max_tracks(ts) by {
            if ti < rest.len() {
                assert(ts[ti] == rest[ti]);
            }
        }
        if summary_max_tracks(ts) != 0 {
            if summary_max_tracks(ts) == summary_max_tracks(rest) {
                let (ti, ci) = choose|ti: int, ci: int|
                    0 <= ti < rest.len() && clips_of(rest[ti]) is Some && 0 <= ci < clips_of(rest[ti])->0.len()
                        && listed_end(#[trigger] clips_of(rest[ti])->0[ci]) == Some(summary_max_tracks(rest));
                assert(ts[ti] == rest[ti]);
            } else {
                let cs = clips_of(last)->0;
                let ci = choose|ci: int| 0 <= ci < cs.len() && listed_end(#[trigger] cs[ci]) == Some(summary_max_clips(cs));
                assert(clips_of(ts[ts.len() - 1])->0[ci] == cs[ci]);
            }
        }
    }
}

/// A summary's total frame count is the largest end frame it counts over
/// all tracks: at least 0, at least every counted end (see
/// [`listed_end`]) of every clip of every track that holds clips, and
/// either 0 or one of those ends.
pub proof fn law_summary_total_is_largest_end(t: JsonV)
    ensures
        summary_max_tracks(summary_tracks(t)) >= 0,
        forall|ti: int, ci: int|
            0 <= ti < summary_tracks(t).len() && clips_of(summary_tracks(t)[ti]) is Some && 0 <= ci
                < clips_of(summary_tracks(t)[ti])->0.len() && listed_end(
                #[trigger] clips_of(summary_tracks(t)[ti])->0[ci],
            ) is Some ==> listed_end(clips_of(summary_tracks(t)[ti])->0[ci])->0 <= summary_max_tracks(
                summary_tracks(t),
            ),
        summary_max_tracks(summary_tracks(t)) == 0 || exists|ti: int, ci: int|
            0 <= ti < summary_tracks(t).len() && clips_of(summary_tracks(t)[ti]) is Some && 0 <= ci
                < clips_of(summary_tracks(t)[ti])->0.len() && listed_end(
                #[trigger] clips_of(summary_tracks(t)[ti])->0[ci],
            ) == Some(summary_max_tracks(summary_tracks(t))),
{
    lemma_summary_max_tracks(summary_tracks(t));
}

} // verus!
