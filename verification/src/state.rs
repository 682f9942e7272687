use vstd::prelude::*;
use crate::edit::{clips_of, duration_of, start_of, tracks_of};
use crate::json::{deep_seq, i64_or, opt_deep, Json, JsonV};
use crate::json_props::group_json_lemmas;
use crate::project::ProjectPackage;

verus! {

/// How many timelines the undo history keeps.
pub const UNDO_LIMIT: usize = 50;

/// The editor's state: the open project, its timeline and media manifest,
/// and the history of timelines that `undo` goes back through.
pub struct EditorState {
    pub project_path: Option<String>,
    pub timeline: Json,
    pub manifest: Option<Json>,
    pub undo_stack: UndoHistory,
}

/// Earlier timelines, the most recent last.
pub struct UndoHistory {
    stack: Vec<Json>,
}

impl View for UndoHistory {
    type V = Seq<JsonV>;

    closed spec fn view(&self) -> Seq<JsonV> {
        deep_seq(self.stack@)
    }
}

impl UndoHistory {
    /// A history never holds more than [`UNDO_LIMIT`] timelines.
    #[verifier::type_invariant]
    closed spec fn within_limit(self) -> bool {
        self.stack@.len() <= UNDO_LIMIT
    }

    /// An empty history.
    pub fn new() -> (r: UndoHistory)
        ensures
            r@ == Seq::<JsonV>::empty(),
    {
        let r = UndoHistory { stack: Vec::new() };
        assert(deep_seq(r.stack@) =~= Seq::<JsonV>::empty());
        r
    }

    /// The number of recorded timelines, at most [`UNDO_LIMIT`].
    pub fn len(&self) -> (r: usize)
        ensures
            r == self@.len(),
            r <= UNDO_LIMIT,
    {
        broadcast use group_json_lemmas;

        proof {
            use_type_invariant(self);
        }
        self.stack.len()
    }

    /// Forgets every recorded timeline.
    pub fn clear(&mut self)
        ensures
            final(self)@ == Seq::<JsonV>::empty(),
    {
        self.stack = Vec::new();
        assert(deep_seq(self.stack@) =~= Seq::<JsonV>::empty());
    }

    /// Records `timeline`, dropping the oldest entry beyond the limit.
    pub fn record(&mut self, timeline: Json)
        ensures
            final(self)@ == record(old(self)@, timeline.deep()),
            final(self)@.len() <= UNDO_LIMIT,
    {
        broadcast use group_json_lemmas;

        proof {
            use_type_invariant(&*self);
        }
        let ghost h0 = deep_seq(self.stack@);
        let ghost tv = timeline.deep();
        let mut stack: Vec<Json> = Vec::new();
        std::mem::swap(&mut stack, &mut self.stack);
        stack.push(timeline);
        assert(deep_seq(stack@) =~= h0.push(tv));
        if stack.len() > UNDO_LIMIT {
            let ghost h1 = deep_seq(stack@);
            stack.remove(0);
            assert(deep_seq(stack@) =~= h1.drop_first());
        }
        self.stack = stack;
    }

    /// Takes the most recent timeline out of the history.
    pub fn pop(&mut self) -> (r: Option<Json>)
        ensures
            old(self)@.len() <= UNDO_LIMIT,
            old(self)@.len() == 0 ==> r is None && final(self)@ == old(self)@,
            old(self)@.len() > 0 ==> r is Some && r->0.deep() == old(self)@.last() && final(self)@
                == old(self)@.drop_last(),
    {
        broadcast use group_json_lemmas;

        proof {
            use_type_invariant(&*self);
        }
        let ghost h0 = deep_seq(self.stack@);
        let mut stack: Vec<Json> = Vec::new();
        std::mem::swap(&mut stack, &mut self.stack);
        let r = stack.pop();
        assert(deep_seq(stack@) =~= if h0.len() > 0 {
            h0.drop_last()
        } else {
            h0
        });
        self.stack = stack;
        r
    }
}

/// The value of an [`EditorState`].
pub struct EditorView {
    pub project_path: Option<Seq<char>>,
    pub timeline: JsonV,
    pub manifest: Option<JsonV>,
    /// Earlier timelines, the most recent last.
    pub history: Seq<JsonV>,
}

pub open spec fn opt_text(v: Option<String>) -> Option<Seq<char>> {
    match v {
        Some(s) => Some(s@),
        None => None,
    }
}

/// The history after recording `timeline`: it is appended, and the oldest
/// entry is dropped when that makes the history longer than the limit.
pub open spec fn record(history: Seq<JsonV>, timeline: JsonV) -> Seq<JsonV> {
    let h = history.push(timeline);
    if h.len() > UNDO_LIMIT {
        h.drop_first()
    } else {
        h
    }
}

/// The state after recording the current timeline in the history.
pub open spec fn pushed(s: EditorView) -> EditorView {
    EditorView { history: record(s.history, s.timeline), ..s }
}

/// The state after going back one step, and whether there was a step to
/// go back.
pub open spec fn undone(s: EditorView) -> (EditorView, bool) {
    if s.history.len() == 0 {
        (s, false)
    } else {
        (EditorView { timeline: s.history.last(), history: s.history.drop_last(), ..s }, true)
    }
}

/// The timeline of a new editor: 30 fps, 1920x1080, no tracks.
pub open spec fn default_timeline() -> JsonV {
    JsonV::Object(
        seq![
            ("fps"@, JsonV::Int(30)),
            ("width"@, JsonV::Int(1920)),
            ("height"@, JsonV::Int(1080)),
            ("tracks"@, JsonV::Array(Seq::empty())),
        ],
    )
}

/// The end frame of a clip, `start + duration`.
pub open spec fn end_of(clip: JsonV) -> int {
    start_of(clip) + duration_of(clip)
}

pub open spec fn max_int(a: int, b: int) -> int {
    if a < b {
        b
    } else {
        a
    }
}

/// The largest end frame of the clips, and at least 0.
pub open spec fn clips_max_end(clips: Seq<JsonV>) -> int
    decreases clips.len(),
{
    if clips.len() == 0 {
        0
    } else {
        max_int(clips_max_end(clips.drop_last()), end_of(clips.last()))
    }
}

/// The largest end frame of the clips of the tracks that hold a `clips`
/// array, and at least 0.
pub open spec fn tracks_max_end(tracks: Seq<JsonV>) -> int
    decreases tracks.len(),
{
    if tracks.len() == 0 {
        0
    } else {
        max_int(
            tracks_max_end(tracks.drop_last()),
            match clips_of(tracks.last()) {
                Some(cs) => clips_max_end(cs),
                None => 0,
            },
        )
    }
}

/// The number of frames the timeline spans: the largest end frame of its
/// clips, 0 for an empty timeline.
pub open spec fn timeline_frames(t: JsonV) -> int {
    match tracks_of(t) {
        Some(ts) => tracks_max_end(ts),
        None => 0,
    }
}

/// Every clip's end frame fits in an `i64`.
pub open spec fn ends_fit(t: JsonV) -> bool {
    match tracks_of(t) {
        Some(ts) => forall|ti: int, ci: int|
            0 <= ti < ts.len() && clips_of(ts[ti]) is Some && 0 <= ci < clips_of(ts[ti])->0.len()
                ==> i64::MIN <= end_of(#[trigger] clips_of(ts[ti])->0[ci]) <= i64::MAX,
        None => true,
    }
}

impl View for EditorState {
    type V = EditorView;

    open spec fn view(&self) -> EditorView {
        EditorView {
            project_path: opt_text(self.project_path),
            timeline: self.timeline.deep(),
            manifest: opt_deep(self.manifest),
            history: self.undo_stack@,
        }
    }
}

impl EditorState {
    /// Makes the package the open project, with an empty history.
    pub fn load_package(&mut self, package: ProjectPackage)
        ensures
            final(self)@ == (EditorView {
                project_path: Some(package.path@),
                timeline: package.timeline.deep(),
                manifest: opt_deep(package.manifest),
                history: Seq::empty(),
            }),
    {
        self.project_path = Some(package.path);
        self.timeline = package.timeline;
        self.manifest = package.manifest;
        self.undo_stack.clear();
    }

    /// Records the current timeline so that `undo` can return to it.
    pub fn push_undo(&mut self)
        ensures
            final(self)@ == pushed(old(self)@),
            final(self)@.history.len() <= UNDO_LIMIT,
    {
        let t = self.timeline.copy();
        self.undo_stack.record(t);
    }

    /// Goes back to the most recently recorded timeline; false when there
    /// is none.
    pub fn undo(&mut self) -> (r: bool)
        ensures
            (final(self)@, r) == undone(old(self)@),
            old(self)@.history.len() <= UNDO_LIMIT,
    {
        match self.undo_stack.pop() {
            Some(prev) => {
                self.timeline = prev;
                true
            },
            None => false,
        }
    }

    /// The timeline's `width`, 1920 when it has none.
    pub fn width(&self) -> (r: i64)
        ensures
            r == i64_or(self@.timeline.i64_field("width"@), 1920),
    {
        match self.timeline.get("width") {
            Some(v) => match v.as_i64() {
                Some(w) => w,
                None => 1920,
            },
            None => 1920,
        }
    }

    /// The timeline's `height`, 1080 when it has none.
    pub fn height(&self) -> (r: i64)
        ensures
            r == i64_or(self@.timeline.i64_field("height"@), 1080),
    {
        match self.timeline.get("height") {
            Some(v) => match v.as_i64() {
                Some(h) => h,
                None => 1080,
            },
            None => 1080,
        }
    }

    /// The number of frames the timeline spans.
    pub fn total_frames(&self) -> (r: i64)
        requires
            ends_fit(self@.timeline),
        ensures
            r == timeline_frames(self@.timeline),
    {
        timeline_total_frames(&self.timeline)
    }
}

impl Default for EditorState {
    /// A new editor: no project, the default timeline, an empty history.
    fn default() -> (r: Self)
        ensures
            r@ == (EditorView {
                project_path: None,
                timeline: default_timeline(),
                manifest: None,
                history: Seq::empty(),
            }),
    {
        broadcast use group_json_lemmas;

        let mut es: Vec<(String, Json)> = Vec::new();
        es.push(("fps".to_owned(), Json::Int(30)));
        es.push(("width".to_owned(), Json::Int(1920)));
        es.push(("height".to_owned(), Json::Int(1080)));
        es.push(("tracks".to_owned(), Json::empty_array()));
        assert(Json::deep_entries(es@) =~= default_timeline()->Object_0);
        EditorState {
            project_path: None,
            timeline: Json::Object(es),
            manifest: None,
            undo_stack: UndoHistory::new(),
        }
    }
}

/// The number of frames a timeline spans: the largest end frame of its
/// clips, 0 when it has none.
pub fn timeline_total_frames(timeline: &Json) -> (r: i64)
    requires
        ends_fit(timeline.deep()),
    ensures
        r == timeline_frames(timeline.deep()),
{
    broadcast use group_json_lemmas;

    let mut max_frame: i64 = 0;
    let tracks = match timeline.get("tracks") {
        Some(tv) => match tv.as_array() {
            Some(t) => t,
            None => {
                return 0;
            },
        },
        None => {
            return 0;
        },
    };
    let ghost ts = deep_seq(tracks@);
    let mut ti: usize = 0;
    while ti < tracks.len()
        invariant
            ts == deep_seq(tracks@),
            ts.len() == tracks@.len(),
            tracks_of(timeline.deep()) == Some(ts),
            ends_fit(timeline.deep()),
            ti <= tracks.len(),
            max_frame == tracks_max_end(ts.take(ti as int)),
            max_frame >= 0,
        decreases tracks.len() - ti,
    {
        broadcast use group_json_lemmas;

        let track = &tracks[ti];
        assert(track.deep() == ts[ti as int]);
        assert(ts.take(ti + 1).drop_last() =~= ts.take(ti as int));
        let ghost before = max_frame as int;
        match track.get("clips") {
            Some(cv) => match cv.as_array() {
                Some(clips) => {
                    let ghost cs = deep_seq(clips@);
                    let mut ci: usize = 0;
                    let mut best: i64 = 0;
                    while ci < clips.len()
                        invariant
                            cs == deep_seq(clips@),
                            cs.len() == clips@.len(),
                            clips_of(ts[ti as int]) == Some(cs),
                            ti < ts.len(),
                            tracks_of(timeline.deep()) == Some(ts),
                            ends_fit(timeline.deep()),
                            ci <= clips.len(),
                            best == clips_max_end(cs.take(ci as int)),
                        decreases clips.len() - ci,
                    {
                        broadcast use group_json_lemmas;

                        let clip = &clips[ci];
                        assert(clip.deep() == cs[ci as int]);
                        assert(cs.take(ci + 1).drop_last() =~= cs.take(ci as int));
                        let start: i64 = match clip.get("startFrame") {
                            Some(v) => match v.as_i64() {
                                Some(x) => x,
                                None => 0,
                            },
                            None => 0,
                        };
                        let dur: i64 = match clip.get("durationFrames") {
                            Some(v) => match v.as_i64() {
                                Some(x) => x,
                                None => 0,
                            },
                            None => 0,
                        };
                        proof {
                            let ts2 = tracks_of(timeline.deep())->0;
                            assert(ts2 == ts);
                            assert(clips_of(ts2[ti as int])->0 == cs);
                            assert(i64::MIN <= end_of(clips_of(ts2[ti as int])->0[ci as int]) <= i64::MAX);
                        }
                        let end = start + dur;
                        if end > best {
                            best = end;
                        }
                        ci = ci + 1;
                    }
                    assert(cs.take(clips.len() as int) =~= cs);
                    if best > max_frame {
                        max_frame = best;
                    }
                },
                None => {},
            },
            None => {},
        }
        ti = ti + 1;
    }
    assert(ts.take(tracks.len() as int) =~= ts);
    max_frame
}

/// After recording the timeline, `undo` reports a step and restores the
/// timeline; the history is back as it was unless recording had to drop
/// its oldest entry.
pub proof fn law_undo_restores(s: EditorView)
    ensures
        undone(pushed(s)).1,
        undone(pushed(s)).0.timeline == s.timeline,
        undone(pushed(s)).0.project_path == s.project_path,
        undone(pushed(s)).0.manifest == s.manifest,
        s.history.len() < UNDO_LIMIT ==> undone(pushed(s)).0 == s,
{
    let h = s.history.push(s.timeline);
    if h.len() <= UNDO_LIMIT {
        assert(h.drop_last() =~= s.history);
    }
}

/// Recording never makes the history longer than the limit, given a
/// history within it.
pub proof fn law_history_bounded(s: EditorView)
    requires
        s.history.len() <= UNDO_LIMIT,
    ensures
        pushed(s).history.len() <= UNDO_LIMIT,
{
}

/// With an empty history, `undo` reports no step and changes nothing.
pub proof fn law_undo_empty(s: EditorView)
    requires
        s.history.len() == 0,
    ensures
        undone(s) == (s, false),
{
}


/// Whether every clip's end frame fits in an `i64` (see [`ends_fit`]).
pub fn frames_fit(timeline: &Json) -> (r: bool)
    ensures
        r == ends_fit(timeline.deep()),
{
    broadcast use group_json_lemmas;

    let tracks = match timeline.get("tracks") {
        Some(tv) => match tv.as_array() {
            Some(t) => t,
            None => {
                return true;
            },
        },
        None => {
            return true;
        },
    };
    let ghost ts = deep_seq(tracks@);
    let mut ti: usize = 0;
    while ti < tracks.len()
        invariant
            ts == deep_seq(tracks@),
            ts.len() == tracks@.len(),
            tracks_of(timeline.deep()) == Some(ts),
            ti <= tracks.len(),
            forall|t: int, c: int|
                0 <= t < ti && clips_of(ts[t]) is Some && 0 <= c < clips_of(ts[t])->0.len()
                    ==> i64::MIN <= end_of(#[trigger] clips_of(ts[t])->0[c]) <= i64::MAX,
        decreases tracks.len() - ti,
    {
        broadcast use group_json_lemmas;

        let track = &tracks[ti];
        assert(track.deep() == ts[ti as int]);
        match track.get("clips") {
            Some(cv) => match cv.as_array() {
                Some(clips) => {
                    let ghost cs = deep_seq(clips@);
                    let mut ci: usize = 0;
                    while ci < clips.len()
                        invariant
                            cs == deep_seq(clips@),
                            cs.len() == clips@.len(),
                            clips_of(ts[ti as int]) == Some(cs),
                            ti < ts.len(),
                            tracks_of(timeline.deep()) == Some(ts),
                            ci <= clips.len(),
                            forall|c: int| 0 <= c < ci ==> i64::MIN <= end_of(#[trigger] cs[c]) <= i64::MAX,
                        decreases clips.len() - ci,
                    {
                        broadcast use group_json_lemmas;

                        let clip = &clips[ci];
                        assert(clip.deep() == cs[ci as int]);
                        let (s, d) = crate::edit::clip_span(clip);
                        let e: i128 = s as i128 + d as i128;
                        if !(-0x8000_0000_0000_0000i128 <= e && e <= 0x7fff_ffff_ffff_ffffi128) {
                            assert(!(i64::MIN <= end_of(clips_of(ts[ti as int])->0[ci as int]) <= i64::MAX));
                            return false;
                        }
                        ci = ci + 1;
                    }
                    assert forall|t: int, c: int|
                        0 <= t < ti + 1 && clips_of(ts[t]) is Some && 0 <= c < clips_of(ts[t])->0.len()
                            implies i64::MIN <= end_of(#[trigger] clips_of(ts[t])->0[c]) <= i64::MAX by {
                        if t == ti {
                            assert(clips_of(ts[t])->0[c] == cs[c]);
                        }
                    }
                },
                None => {},
            },
            None => {},
        }
        ti = ti + 1;
    }
    true
}


impl EditorState {
    /// Where the open project is saved: its path, or the error `no project
    /// open` when none is open.
    pub fn save_path(&self) -> (r: Result<String, String>)
        ensures
            crate::edit::text_result(r) == match self@.project_path {
                Some(p) => Ok(p),
                None => Err("no project open"@),
            },
    {
        match &self.project_path {
            Some(p) => Ok(p.clone()),
            None => Err("no project open".to_owned()),
        }
    }
}


/// The state after `n` calls of `undo`.
pub open spec fn undone_times(s: EditorView, n: nat) -> EditorView
    decreases n,
{
    if n == 0 {
        s
    } else {
        undone(undone_times(s, (n - 1) as nat)).0
    }
}

/// Each call of `undo` takes one timeline off the history, until none is
/// left.
proof fn lemma_undone_times_len(s: EditorView, n: nat)
    ensures
        undone_times(s, n).history.len() == if s.history.len() >= n {
            s.history.len() - n
        } else {
            0
        },
    decreases n,
{
    if n > 0 {
        lemma_undone_times_len(s, (n - 1) as nat);
    }
}

/// A history holds at most [`UNDO_LIMIT`] timelines, so at most that many
/// calls of `undo` in a row report a step: once that many have been made,
/// the next one reports none.
pub proof fn law_undo_run_bounded(s: EditorView, n: nat)
    requires
        s.history.len() <= UNDO_LIMIT,
        n >= UNDO_LIMIT,
    ensures
        !undone(undone_times(s, n)).1,
{
    lemma_undone_times_len(s, n);
}

/// The history after recording each timeline of `timelines` in turn.
pub open spec fn recorded_all(history: Seq<JsonV>, timelines: Seq<JsonV>) -> Seq<JsonV>
    decreases timelines.len(),
{
    if timelines.len() == 0 {
        history
    } else {
        record(recorded_all(history, timelines.drop_last()), timelines.last())
    }
}

/// The newest [`UNDO_LIMIT`] timelines of `h`.
pub open spec fn newest_kept(h: Seq<JsonV>) -> Seq<JsonV> {
    if h.len() > UNDO_LIMIT {
        h.skip(h.len() - UNDO_LIMIT)
    } else {
        h
    }
}

/// Recording a run of timelines keeps the newest [`UNDO_LIMIT`] of the
/// history followed by the run.
pub proof fn law_record_run(history: Seq<JsonV>, timelines: Seq<JsonV>)
    requires
        history.len() <= UNDO_LIMIT,
    ensures
        recorded_all(history, timelines) == newest_kept(history + timelines),
    decreases timelines.len(),
{
    if timelines.len() == 0 {
        assert(history + timelines =~= history);
    } else {
        let prev = timelines.drop_last();
        let t = timelines.last();
        law_record_run(history, prev);
        let y = history + prev;
        assert(history + timelines =~= y.push(t));
        let x = newest_kept(y);
        let h = x.push(t);
        if h.len() > UNDO_LIMIT {
            assert(h.drop_first() =~= newest_kept(y.push(t)));
        } else {
            assert(x == y);
        }
    }
}

/// After `n` calls of `undo` with at least `n` timelines recorded, the
/// history has lost its newest `n`.
proof fn lemma_undone_times_history(s: EditorView, n: nat)
    requires
        n <= s.history.len(),
    ensures
        undone_times(s, n).history == s.history.take(s.history.len() - n),
        undone_times(s, n).project_path == s.project_path,
        undone_times(s, n).manifest == s.manifest,
    decreases n,
{
    if n == 0 {
        assert(s.history.take(s.history.len() as int) =~= s.history);
    } else {
        lemma_undone_times_history(s, (n - 1) as nat);
        let h = s.history.take(s.history.len() - (n - 1));
        assert(h.drop_last() =~= s.history.take(s.history.len() - n));
    }
}

/// Successive calls of `undo` restore the recorded timelines newest first:
/// the `k`-th call, for each `k` up to the length of the history, reports
/// a step and restores the `k`-th newest timeline, leaving the project
/// and the manifest alone.
pub proof fn law_undo_run_restores(s: EditorView, k: nat)
    requires
        1 <= k <= s.history.len(),
    ensures
        undone(undone_times(s, (k - 1) as nat)).1,
        undone_times(s, k).timeline == s.history[s.history.len() - k],
        undone_times(s, k).project_path == s.project_path,
        undone_times(s, k).manifest == s.manifest,
{
    lemma_undone_times_history(s, (k - 1) as nat);
    let h = s.history.take(s.history.len() - (k - 1));
    assert(h.last() == s.history[s.history.len() - k]);
}

/// The frame where `clip` ends: its `startFrame` plus its
/// `durationFrames`, a missing field counting 0.
pub open spec fn clip_end_frame(clip: JsonV) -> int {
    (match clip.i64_field("startFrame"@) {
        Some(v) => v as int,
        None => 0,
    }) + (match clip.i64_field("durationFrames"@) {
        Some(v) => v as int,
        None => 0,
    })
}

/// The clips' largest end frame is at least 0 and every end frame, and is
/// 0 or one of them.
proof fn lemma_clips_max_end(cs: Seq<JsonV>)
    ensures
        clips_max_end(cs) >= 0,
        forall|ci: int| 0 <= ci < cs.len() ==> clip_end_frame(#[trigger] cs[ci]) <= clips_max_end(cs),
        clips_max_end(cs) == 0 || exists|ci: int| 0 <= ci < cs.len() && clip_end_frame(#[trigger] cs[ci]) == clips_max_end(cs),
    decreases cs.len(),
{
    if cs.len() > 0 {
        let rest = cs.drop_last();
        lemma_clips_max_end(rest);
        assert(end_of(cs.last()) == clip_end_frame(cs.last()));
        assert forall|ci: int| 0 <= ci < cs.len() implies clip_end_frame(#[trigger] cs[ci]) <= clips_max_end(cs) by {
            if ci < rest.len() {
                assert(cs[ci] == rest[ci]);
            }
        }
        if clips_max_end(cs) != 0 {
            if clips_max_end(cs) == end_of(cs.last()) {
                assert(clip_end_frame(cs[cs.len() - 1]) == clips_max_end(cs));
            } else {
                let ci = choose|ci: int| 0 <= ci < rest.len() && clip_end_frame(#[trigger] rest[ci]) == clips_max_end(rest);
                assert(cs[ci] == rest[ci]);
            }
        }
    }
}

/// The tracks' largest end frame is at least 0 and the end frame of every
/// clip of a track that holds clips, and is 0 or one of them.
proof fn lemma_tracks_max_end(ts: Seq<JsonV>)
    ensures
        tracks_max_end(ts) >= 0,
        forall|ti: int, ci: int|
            0 <= ti < ts.len() && clips_of(ts[ti]) is Some && 0 <= ci < clips_of(ts[ti])->0.len()
                ==> clip_end_frame(#[trigger] clips_of(ts[ti])->0[ci]) <= tracks_max_end(ts),
        tracks_max_end(ts) == 0 || exists|ti: int, ci: int|
            0 <= ti < ts.len() && clips_of(ts[ti]) is Some && 0 <= ci < clips_of(ts[ti])->0.len()
                && clip_end_frame(#[trigger] clips_of(ts[ti])->0[ci]) == tracks_max_end(ts),
    decreases ts.len(),
{
    if ts.len() > 0 {
        let rest = ts.drop_last();
        lemma_tracks_max_end(rest);
        let last = ts[ts.len() - 1];
        assert(last == ts.last());
        if let Some(cs) = clips_of(last) {
            lemma_clips_max_end(cs);
        }
        assert forall|ti: int, ci: int|
            0 <= ti < ts.len() && clips_of(ts[ti]) is Some && 0 <= ci < clips_of(ts[ti])->0.len() implies
                clip_end_frame(#[trigger] clips_of(ts[ti])->0[ci]) <= tracks_max_end(ts) by {
            if ti < rest.len() {
                assert(ts[ti] == rest[ti]);
            }
        }
        if tracks_max_end(ts) != 0 {
            if tracks_max_end(ts) == tracks_max_end(rest) {
                let (ti, ci) = choose|ti: int, ci: int|
                    0 <= ti < rest.len() && clips_of(rest[ti]) is Some && 0 <= ci < clips_of(rest[ti])->0.len()
                        && clip_end_frame(#[trigger] clips_of(rest[ti])->0[ci]) == tracks_max_end(rest);
                assert(ts[ti] == rest[ti]);
            } else {
                let cs = clips_of(last)->0;
                let ci = choose|ci: int| 0 <= ci < cs.len() && clip_end_frame(#[trigger] cs[ci]) == clips_max_end(cs);
                assert(clips_of(ts[ts.len() - 1])->0[ci] == cs[ci]);
            }
        }
    }
}

/// The number of frames a timeline spans is the largest end frame of its
/// clips: at least 0, at least the end of every clip of every track that
/// holds clips, and either 0 or the end of one of them.
pub proof fn law_total_frames_is_last_end(t: JsonV)
    ensures
        timeline_frames(t) >= 0,
        forall|ti: int, ci: int|
            tracks_of(t) is Some && 0 <= ti < tracks_of(t)->0.len() && clips_of(tracks_of(t)->0[ti]) is Some
                && 0 <= ci < clips_of(tracks_of(t)->0[ti])->0.len() ==> clip_end_frame(
                #[trigger] clips_of(tracks_of(t)->0[ti])->0[ci],
            ) <= timeline_frames(t),
        timeline_frames(t) == 0 || exists|ti: int, ci: int|
            tracks_of(t) is Some && 0 <= ti < tracks_of(t)->0.len() && clips_of(tracks_of(t)->0[ti]) is Some
                && 0 <= ci < clips_of(tracks_of(t)->0[ti])->0.len() && clip_end_frame(
                #[trigger] clips_of(tracks_of(t)->0[ti])->0[ci],
            ) == timeline_frames(t),
{
    if let Some(ts) = tracks_of(t) {
        lemma_tracks_max_end(ts);
    }
}

} // verus!
