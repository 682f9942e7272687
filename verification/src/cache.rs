use vstd::prelude::*;
use crate::text::{decimal, decimal_text, join, lemma_decimal_injective, lemma_split_at_last};

verus! {

/// How many rendered frames the preview cache keeps.
pub const CACHE_MAX: usize = 180;

/// No key occurs twice.
pub open spec fn keys_unique(entries: Seq<(Seq<char>, Seq<u8>)>) -> bool {
    forall|i: int, j: int|
        0 <= i < entries.len() && 0 <= j < entries.len() && i != j ==> #[trigger] entries[i].0
            != #[trigger] entries[j].0
}

/// The bytes stored under `key`.
pub open spec fn lookup(entries: Seq<(Seq<char>, Seq<u8>)>, key: Seq<char>) -> Option<Seq<u8>> {
    if exists|i: int| 0 <= i < entries.len() && entries[i].0 == key {
        Some(entries[choose|i: int| 0 <= i < entries.len() && entries[i].0 == key].1)
    } else {
        None
    }
}

/// The entries without the one stored under `key`.
pub open spec fn without_key(entries: Seq<(Seq<char>, Seq<u8>)>, key: Seq<char>) -> Seq<
    (Seq<char>, Seq<u8>),
>
    decreases entries.len(),
{
    if entries.len() == 0 {
        Seq::empty()
    } else if entries.last().0 == key {
        without_key(entries.drop_last(), key)
    } else {
        without_key(entries.drop_last(), key).push(entries.last())
    }
}

/// The entries after storing `value` under `key`: an earlier entry for the
/// key is dropped, the new entry becomes the most recent, and the least
/// recent entries are dropped while there are more than [`CACHE_MAX`].
pub open spec fn stored(entries: Seq<(Seq<char>, Seq<u8>)>, key: Seq<char>, value: Seq<u8>) -> Seq<
    (Seq<char>, Seq<u8>),
> {
    let e = without_key(entries, key).push((key, value));
    if e.len() > CACHE_MAX {
        e.skip(e.len() - CACHE_MAX)
    } else {
        e
    }
}

/// Rendered preview frames by key, least recently stored first.
pub struct FrameCache {
    entries: Vec<(String, Vec<u8>)>,
}

pub open spec fn entry_view(e: (String, Vec<u8>)) -> (Seq<char>, Seq<u8>) {
    (e.0@, e.1@)
}

impl View for FrameCache {
    type V = Seq<(Seq<char>, Seq<u8>)>;

    closed spec fn view(&self) -> Seq<(Seq<char>, Seq<u8>)> {
        self.entries@.map_values(|e: (String, Vec<u8>)| entry_view(e))
    }
}

impl FrameCache {
    #[verifier::type_invariant]
    closed spec fn well_formed(self) -> bool {
        &&& self@.len() <= CACHE_MAX
        &&& keys_unique(self@)
    }

    /// An empty cache.
    pub fn new() -> (r: FrameCache)
        ensures
            r@ == Seq::<(Seq<char>, Seq<u8>)>::empty(),
    {
        let r = FrameCache { entries: Vec::new() };
        assert(r@ =~= Seq::<(Seq<char>, Seq<u8>)>::empty());
        r
    }

    /// A copy of the bytes stored under `key`.
    pub fn get(&self, key: &str) -> (r: Option<Vec<u8>>)
        ensures
            match r {
                Some(v) => lookup(self@, key@) == Some(v@),
                None => lookup(self@, key@) is None,
            },
    {
        proof {
            use_type_invariant(self);
        }
        let k = key.to_owned();
        let mut i: usize = 0;
        while i < self.entries.len()
            invariant
                k@ == key@,
                i <= self.entries.len(),
                self@.len() == self.entries@.len(),
                keys_unique(self@),
                forall|j: int| 0 <= j < i ==> (#[trigger] self@[j]).0 != key@,
            decreases self.entries.len() - i,
        {
            assert(self@[i as int] == entry_view(self.entries@[i as int]));
            if self.entries[i].0 == k {
                let v = self.entries[i].1.clone();
                proof {
                    let c = choose|j: int| 0 <= j < self@.len() && self@[j].0 == key@;
                    assert(self@[c].0 == self@[i as int].0);
                }
                return Some(v);
            }
            i = i + 1;
        }
        None
    }

    /// Stores `value` under `key` as the most recent entry, dropping the
    /// least recent entries beyond [`CACHE_MAX`].
    pub fn insert(&mut self, key: String, value: Vec<u8>)
        ensures
            final(self)@ == stored(old(self)@, key@, value@),
    {
        proof {
            use_type_invariant(&*self);
        }
        let ghost e0 = self@;
        let mut kept: Vec<(String, Vec<u8>)> = Vec::new();
        let mut i: usize = 0;
        assert(e0.take(0) =~= Seq::<(Seq<char>, Seq<u8>)>::empty());
        while i < self.entries.len()
            invariant
                e0 == self@,
                self@.len() == self.entries@.len(),
                i <= self.entries.len(),
                keys_unique(e0),
                kept@.map_values(|e: (String, Vec<u8>)| entry_view(e)) == without_key(
                    e0.take(i as int),
                    key@,
                ),
            decreases self.entries.len() - i,
        {
            assert(e0[i as int] == entry_view(self.entries@[i as int]));
            assert(e0.take(i + 1).drop_last() =~= e0.take(i as int));
            if self.entries[i].0 != key {
                let ghost before = kept@;
                let k = self.entries[i].0.clone();
                let v = self.entries[i].1.clone();
                kept.push((k, v));
                assert(kept@.map_values(|e: (String, Vec<u8>)| entry_view(e)) =~= before.map_values(
                    |e: (String, Vec<u8>)| entry_view(e),
                ).push(e0[i as int]));
            }
            i = i + 1;
        }
        assert(e0.take(self.entries.len() as int) =~= e0);
        let ghost before_push = kept@;
        kept.push((key, value));
        let ghost pushed = kept@.map_values(|e: (String, Vec<u8>)| entry_view(e));
        assert(pushed =~= before_push.map_values(|e: (String, Vec<u8>)| entry_view(e)).push(
            (key@, value@),
        ));
        let ghost full = pushed;
        let mut drop: usize = 0;
        if kept.len() > CACHE_MAX {
            drop = kept.len() - CACHE_MAX;
        }
        let mut out: Vec<(String, Vec<u8>)> = Vec::new();
        let mut j: usize = drop;
        while j < kept.len()
            invariant
                drop <= j <= kept.len(),
                full == kept@.map_values(|e: (String, Vec<u8>)| entry_view(e)),
                out@.map_values(|e: (String, Vec<u8>)| entry_view(e)) == full.subrange(
                    drop as int,
                    j as int,
                ),
            decreases kept.len() - j,
        {
            let ghost before = out@;
            let k = kept[j].0.clone();
            let v = kept[j].1.clone();
            out.push((k, v));
            assert(out@.map_values(|e: (String, Vec<u8>)| entry_view(e)) =~= before.map_values(
                |e: (String, Vec<u8>)| entry_view(e),
            ).push(full[j as int]));
            assert(full.subrange(drop as int, j + 1) =~= full.subrange(drop as int, j as int).push(
                full[j as int],
            ));
            j = j + 1;
        }
        proof {
            let r = out@.map_values(|e: (String, Vec<u8>)| entry_view(e));
            assert(r =~= stored(e0, key@, value@));
            law_put_bounded(e0, key@, value@);
        }
        self.entries = out;
    }

    /// Empties the cache.
    pub fn clear(&mut self)
        ensures
            final(self)@ == Seq::<(Seq<char>, Seq<u8>)>::empty(),
    {
        self.entries = Vec::new();
        assert(self@ =~= Seq::<(Seq<char>, Seq<u8>)>::empty());
    }
}

/// Every entry left after dropping a key is an entry of the original,
/// with another key.
proof fn lemma_without_key_from(entries: Seq<(Seq<char>, Seq<u8>)>, key: Seq<char>)
    ensures
        forall|i: int|
            0 <= i < without_key(entries, key).len() ==> (#[trigger] without_key(entries, key)[i]).0
                != key && exists|j: int| 0 <= j < entries.len() && entries[j] == without_key(entries, key)[i],
    decreases entries.len(),
{
    if entries.len() > 0 {
        let rest = entries.drop_last();
        lemma_without_key_from(rest, key);
        let w = without_key(entries, key);
        assert forall|i: int| 0 <= i < w.len() implies (#[trigger] w[i]).0 != key && exists|j: int|
            0 <= j < entries.len() && entries[j] == w[i] by {
            if i < without_key(rest, key).len() {
                let j = choose|j: int| 0 <= j < rest.len() && rest[j] == without_key(rest, key)[i];
                assert(entries[j] == w[i]);
            } else {
                assert(entries[entries.len() - 1] == w[i]);
            }
        }
    }
}

/// Dropping one key keeps the other keys unique.
proof fn lemma_without_key_unique(entries: Seq<(Seq<char>, Seq<u8>)>, key: Seq<char>)
    requires
        keys_unique(entries),
    ensures
        keys_unique(without_key(entries, key)),
        without_key(entries, key).len() <= entries.len(),
    decreases entries.len(),
{
    if entries.len() > 0 {
        let rest = entries.drop_last();
        assert(keys_unique(rest)) by {
            assert forall|i: int, j: int|
                0 <= i < rest.len() && 0 <= j < rest.len() && i != j implies #[trigger] rest[i].0
                != #[trigger] rest[j].0 by {
                assert(entries[i] == rest[i] && entries[j] == rest[j]);
            }
        }
        lemma_without_key_unique(rest, key);
        lemma_without_key_from(rest, key);
        let wr = without_key(rest, key);
        let w = without_key(entries, key);
        if entries.last().0 != key {
            assert forall|i: int, j: int|
                0 <= i < w.len() && 0 <= j < w.len() && i != j implies #[trigger] w[i].0
                != #[trigger] w[j].0 by {
                if i < wr.len() && j < wr.len() {
                    assert(w[i] == wr[i] && w[j] == wr[j]);
                } else if i < wr.len() {
                    let k = choose|k: int| 0 <= k < rest.len() && rest[k] == wr[i];
                    assert(entries[k] == wr[i]);
                    assert(entries[entries.len() - 1].0 != entries[k].0);
                } else {
                    let k = choose|k: int| 0 <= k < rest.len() && rest[k] == wr[j];
                    assert(entries[k] == wr[j]);
                    assert(entries[entries.len() - 1].0 != entries[k].0);
                }
            }
        }
    }
}

/// Storing keeps the cache within its bound and its keys unique.
pub proof fn law_put_bounded(entries: Seq<(Seq<char>, Seq<u8>)>, key: Seq<char>, value: Seq<u8>)
    requires
        keys_unique(entries),
    ensures
        stored(entries, key, value).len() <= CACHE_MAX,
        keys_unique(stored(entries, key, value)),
{
    lemma_pushed_unique(entries, key, value);
    let e = without_key(entries, key).push((key, value));
    if e.len() > CACHE_MAX {
        let s = e.skip(e.len() - CACHE_MAX);
        assert forall|i: int, j: int|
            0 <= i < s.len() && 0 <= j < s.len() && i != j implies #[trigger] s[i].0 != #[trigger] s[j].0 by {
            assert(s[i] == e[i + e.len() - CACHE_MAX] && s[j] == e[j + e.len() - CACHE_MAX]);
        }
    }
}

/// A copy of the frame cached under `key`.
pub fn get_cached(cache: &FrameCache, key: &str) -> (r: Option<Vec<u8>>)
    ensures
        match r {
            Some(v) => lookup(cache@, key@) == Some(v@),
            None => lookup(cache@, key@) is None,
        },
{
    cache.get(key)
}

/// Caches `data` under `key`.
pub fn put_cache(cache: &mut FrameCache, key: String, data: Vec<u8>)
    ensures
        final(cache)@ == stored(old(cache)@, key@, data@),
{
    cache.insert(key, data);
}

/// Empties the preview cache.
pub fn clear_preview_cache(cache: &mut FrameCache)
    ensures
        final(cache)@ == Seq::<(Seq<char>, Seq<u8>)>::empty(),
{
    cache.clear();
}

/// The text of a cache key: `media:frame:WxH`.
pub open spec fn cache_key_text(media_ref: Seq<char>, source_frame: i64, w: i64, h: i64) -> Seq<char> {
    media_ref + ":"@ + decimal(source_frame as int) + ":"@ + decimal(w as int) + "x"@ + decimal(
        h as int,
    )
}

/// The key under which the frame of `media_ref` at `source_frame`, rendered
/// at `w` x `h`, is cached.
pub fn cache_key(media_ref: &str, source_frame: i64, w: i64, h: i64) -> (r: String)
    ensures
        r@ == cache_key_text(media_ref@, source_frame, w, h),
{
    let a = join(media_ref, ":");
    let b = join(a.as_str(), decimal_text(source_frame).as_str());
    let c = join(b.as_str(), ":");
    let d = join(c.as_str(), decimal_text(w).as_str());
    let e = join(d.as_str(), "x");
    join(e.as_str(), decimal_text(h).as_str())
}


/// Different frames never share a cache key: two keys are equal only for
/// the same media reference, source frame, width and height, even when a
/// media reference holds `:` or `x`.
pub proof fn law_cache_key_injective(
    r1: Seq<char>,
    f1: i64,
    w1: i64,
    h1: i64,
    r2: Seq<char>,
    f2: i64,
    w2: i64,
    h2: i64,
)
    requires
        cache_key_text(r1, f1, w1, h1) == cache_key_text(r2, f2, w2, h2),
    ensures
        r1 == r2,
        f1 == f2,
        w1 == w2,
        h1 == h2,
{
    reveal_strlit(":");
    reveal_strlit("x");
    lemma_decimal_injective(f1 as int, f2 as int);
    lemma_decimal_injective(f2 as int, f1 as int);
    lemma_decimal_injective(w1 as int, w2 as int);
    lemma_decimal_injective(w2 as int, w1 as int);
    lemma_decimal_injective(h1 as int, h2 as int);
    lemma_decimal_injective(h2 as int, h1 as int);
    let (df1, dw1, dh1) = (decimal(f1 as int), decimal(w1 as int), decimal(h1 as int));
    let (df2, dw2, dh2) = (decimal(f2 as int), decimal(w2 as int), decimal(h2 as int));
    let b1 = r1 + ":"@ + df1;
    let b2 = r2 + ":"@ + df2;
    let a1 = b1 + ":"@ + dw1;
    let a2 = b2 + ":"@ + dw2;
    assert(":"@ =~= seq![':']);
    assert("x"@ =~= seq!['x']);
    lemma_split_at_last(a1, dh1, a2, dh2, 'x');
    lemma_split_at_last(b1, dw1, b2, dw2, ':');
    lemma_split_at_last(r1, df1, r2, df2, ':');
}

/// With unique keys, the bytes stored under `key` are those of the entry
/// that carries it.
proof fn lemma_lookup_at(entries: Seq<(Seq<char>, Seq<u8>)>, key: Seq<char>, i: int)
    requires
        keys_unique(entries),
        0 <= i < entries.len(),
        entries[i].0 == key,
    ensures
        lookup(entries, key) == Some(entries[i].1),
{
    let j = choose|j: int| 0 <= j < entries.len() && entries[j].0 == key;
    if j != i {
        assert(entries[i].0 != entries[j].0);
    }
}

/// Every entry with another key survives dropping `key`.
proof fn lemma_without_key_keeps(entries: Seq<(Seq<char>, Seq<u8>)>, key: Seq<char>)
    ensures
        forall|j: int|
            0 <= j < entries.len() && (#[trigger] entries[j]).0 != key ==> exists|i: int|
                0 <= i < without_key(entries, key).len() && without_key(entries, key)[i] == entries[j],
    decreases entries.len(),
{
    if entries.len() > 0 {
        let rest = entries.drop_last();
        lemma_without_key_keeps(rest, key);
        let w = without_key(entries, key);
        let wr = without_key(rest, key);
        assert forall|j: int| 0 <= j < entries.len() && (#[trigger] entries[j]).0 != key implies exists|i: int|
            0 <= i < w.len() && w[i] == entries[j] by {
            if j < rest.len() {
                assert(rest[j] == entries[j]);
                let i = choose|i: int| 0 <= i < wr.len() && wr[i] == rest[j];
                assert(w[i] == wr[i]);
            } else {
                assert(w[w.len() - 1] == entries[j]);
            }
        }
    }
}

/// Dropping `key` leaves what every other key holds.
proof fn lemma_without_key_lookup(entries: Seq<(Seq<char>, Seq<u8>)>, key: Seq<char>, other: Seq<char>)
    requires
        keys_unique(entries),
        other != key,
    ensures
        lookup(without_key(entries, key), other) == lookup(entries, other),
{
    let w = without_key(entries, key);
    lemma_without_key_unique(entries, key);
    if exists|j: int| 0 <= j < entries.len() && entries[j].0 == other {
        let j = choose|j: int| 0 <= j < entries.len() && entries[j].0 == other;
        lemma_lookup_at(entries, other, j);
        let i = choose|i: int| 0 <= i < w.len() && w[i] == entries[j];
        assert(exists|i: int| 0 <= i < w.len() && w[i] == entries[j]) by {
            lemma_without_key_keeps(entries, key);
            assert(entries[j].0 != key);
        }
        lemma_lookup_at(w, other, i);
    } else {
        assert forall|i: int| 0 <= i < w.len() implies w[i].0 != other by {
            lemma_without_key_from(entries, key);
            let j = choose|j: int| 0 <= j < entries.len() && entries[j] == w[i];
            assert(entries[j].0 != other);
        }
    }
}

/// Reading the key just stored gives the bytes stored.
pub proof fn law_get_after_put(entries: Seq<(Seq<char>, Seq<u8>)>, key: Seq<char>, value: Seq<u8>)
    requires
        keys_unique(entries),
    ensures
        lookup(stored(entries, key, value), key) == Some(value),
{
    law_put_bounded(entries, key, value);
    let e = without_key(entries, key).push((key, value));
    let s = stored(entries, key, value);
    assert(s[s.len() - 1] == (key, value));
    lemma_lookup_at(s, key, s.len() - 1);
}

/// Storing under one key changes what no other key holds, except that the
/// least recently stored entries leave a full cache: an entry that is
/// still there holds what it held, and below the bound none leaves.
pub proof fn law_put_keeps_others(
    entries: Seq<(Seq<char>, Seq<u8>)>,
    key: Seq<char>,
    value: Seq<u8>,
    other: Seq<char>,
)
    requires
        keys_unique(entries),
        other != key,
    ensures
        lookup(stored(entries, key, value), other) is Some ==> lookup(stored(entries, key, value), other)
            == lookup(entries, other),
        entries.len() < CACHE_MAX ==> lookup(stored(entries, key, value), other) == lookup(
            entries,
            other,
        ),
{
    law_put_bounded(entries, key, value);
    lemma_without_key_unique(entries, key);
    lemma_without_key_lookup(entries, key, other);
    let w = without_key(entries, key);
    let e = w.push((key, value));
    let s = stored(entries, key, value);
    lemma_pushed_unique(entries, key, value);
    if lookup(s, other) is Some {
        let i = choose|i: int| 0 <= i < s.len() && s[i].0 == other;
        lemma_lookup_at(s, other, i);
        let n = e.len() - s.len();
        assert(s[i] == e[i + n]);
        assert(i + n < w.len());
        assert(e[i + n] == w[i + n]);
        lemma_lookup_at(w, other, i + n);
    }
    if entries.len() < CACHE_MAX {
        assert(s == e);
        if exists|i: int| 0 <= i < w.len() && w[i].0 == other {
            let i = choose|i: int| 0 <= i < w.len() && w[i].0 == other;
            assert(e[i] == w[i]);
            lemma_lookup_at(e, other, i);
            lemma_lookup_at(w, other, i);
        } else {
            assert forall|i: int| 0 <= i < e.len() implies e[i].0 != other by {
                if i < w.len() {
                    assert(e[i] == w[i]);
                }
            }
        }
    }
}

/// An empty cache holds nothing.
pub proof fn law_cleared_empty(key: Seq<char>)
    ensures
        lookup(Seq::<(Seq<char>, Seq<u8>)>::empty(), key) is None,
{
}

/// The entries after storing each `(key, bytes)` of `puts` in turn into an
/// empty cache without a bound: every key stored once, by the time of its
/// latest store, least recent first, with the bytes stored last.
pub open spec fn recency(puts: Seq<(Seq<char>, Seq<u8>)>) -> Seq<(Seq<char>, Seq<u8>)>
    decreases puts.len(),
{
    if puts.len() == 0 {
        Seq::empty()
    } else {
        without_key(recency(puts.drop_last()), puts.last().0).push(puts.last())
    }
}

/// The entries after storing each `(key, bytes)` of `puts` in turn, from
/// `entries` on.
pub open spec fn stored_all(entries: Seq<(Seq<char>, Seq<u8>)>, puts: Seq<(Seq<char>, Seq<u8>)>) -> Seq<
    (Seq<char>, Seq<u8>),
>
    decreases puts.len(),
{
    if puts.len() == 0 {
        entries
    } else {
        stored(stored_all(entries, puts.drop_last()), puts.last().0, puts.last().1)
    }
}

/// The newest [`CACHE_MAX`] entries of `entries`.
pub open spec fn newest(entries: Seq<(Seq<char>, Seq<u8>)>) -> Seq<(Seq<char>, Seq<u8>)> {
    if entries.len() > CACHE_MAX {
        entries.skip(entries.len() - CACHE_MAX)
    } else {
        entries
    }
}

/// Dropping a key that no entry carries changes nothing.
proof fn lemma_without_absent_key(entries: Seq<(Seq<char>, Seq<u8>)>, key: Seq<char>)
    requires
        forall|i: int| 0 <= i < entries.len() ==> (#[trigger] entries[i]).0 != key,
    ensures
        without_key(entries, key) == entries,
    decreases entries.len(),
{
    if entries.len() > 0 {
        let rest = entries.drop_last();
        assert forall|i: int| 0 <= i < rest.len() implies (#[trigger] rest[i]).0 != key by {
            assert(rest[i] == entries[i]);
        }
        lemma_without_absent_key(rest, key);
        assert(entries.last() == entries[entries.len() - 1]);
        assert(rest.push(entries.last()) =~= entries);
    }
}

/// With unique keys, dropping a key drops at most one entry.
proof fn lemma_without_key_len(entries: Seq<(Seq<char>, Seq<u8>)>, key: Seq<char>)
    requires
        keys_unique(entries),
    ensures
        without_key(entries, key).len() + 1 >= entries.len(),
    decreases entries.len(),
{
    if entries.len() > 0 {
        let rest = entries.drop_last();
        assert(keys_unique(rest)) by {
            assert forall|i: int, j: int|
                0 <= i < rest.len() && 0 <= j < rest.len() && i != j implies #[trigger] rest[i].0
                != #[trigger] rest[j].0 by {
                assert(entries[i] == rest[i] && entries[j] == rest[j]);
            }
        }
        if entries.last().0 == key {
            assert forall|i: int| 0 <= i < rest.len() implies (#[trigger] rest[i]).0 != key by {
                assert(rest[i] == entries[i]);
                assert(entries[i].0 != entries[entries.len() - 1].0);
            }
            lemma_without_absent_key(rest, key);
        } else {
            lemma_without_key_len(rest, key);
        }
    }
}

/// Dropping a key from two runs of entries one after the other drops it
/// from each.
proof fn lemma_without_key_concat(
    a: Seq<(Seq<char>, Seq<u8>)>,
    b: Seq<(Seq<char>, Seq<u8>)>,
    key: Seq<char>,
)
    ensures
        without_key(a + b, key) == without_key(a, key) + without_key(b, key),
    decreases b.len(),
{
    if b.len() == 0 {
        assert(a + b =~= a);
        assert(without_key(a, key) + without_key(b, key) =~= without_key(a, key));
    } else {
        lemma_without_key_concat(a, b.drop_last(), key);
        assert((a + b).drop_last() =~= a + b.drop_last());
        assert((a + b).last() == b.last());
        if b.last().0 != key {
            assert(without_key(a, key) + without_key(b.drop_last(), key).push(b.last()) =~= (without_key(
                a,
                key,
            ) + without_key(b.drop_last(), key)).push(b.last()));
        }
    }
}

/// Storing a new entry keeps the keys unique, before any entry is dropped.
proof fn lemma_pushed_unique(entries: Seq<(Seq<char>, Seq<u8>)>, key: Seq<char>, value: Seq<u8>)
    requires
        keys_unique(entries),
    ensures
        keys_unique(without_key(entries, key).push((key, value))),
{
    lemma_without_key_unique(entries, key);
    lemma_without_key_from(entries, key);
    let f = without_key(entries, key);
    let e = f.push((key, value));
    assert forall|i: int, j: int|
        0 <= i < e.len() && 0 <= j < e.len() && i != j implies #[trigger] e[i].0 != #[trigger] e[j].0 by {
        if i < f.len() && j < f.len() {
            assert(e[i] == f[i] && e[j] == f[j]);
        } else if i < f.len() {
            assert(e[i] == f[i]);
        } else {
            assert(e[j] == f[j]);
        }
    }
}

/// Storing into the newest entries of a run gives the newest entries of
/// storing into the whole run.
proof fn lemma_stored_newest(entries: Seq<(Seq<char>, Seq<u8>)>, key: Seq<char>, value: Seq<u8>)
    requires
        keys_unique(entries),
    ensures
        stored(newest(entries), key, value) == newest(without_key(entries, key).push((key, value))),
{
    let m = CACHE_MAX as int;
    if entries.len() <= m {
        assert(newest(entries) == entries);
    } else {
        let d = entries.len() - m;
        let t = entries.skip(d);
        let p = entries.take(d);
        assert(p + t =~= entries);
        lemma_without_key_concat(p, t, key);
        assert(keys_unique(t)) by {
            assert forall|i: int, j: int|
                0 <= i < t.len() && 0 <= j < t.len() && i != j implies #[trigger] t[i].0
                != #[trigger] t[j].0 by {
                assert(t[i] == entries[i + d] && t[j] == entries[j + d]);
            }
        }
        lemma_without_key_len(t, key);
        let wp = without_key(p, key);
        let q = without_key(t, key).push((key, value));
        assert(without_key(entries, key).push((key, value)) =~= wp + q);
        assert(q.len() >= m);
        let all = wp + q;
        assert(newest(all) =~= all.skip(all.len() - m));
        assert(all.skip(all.len() - m) =~= q.skip(q.len() - m));
        if q.len() > m {
            assert(newest(q) == q.skip(q.len() - m));
        } else {
            assert(q.skip(0) =~= q);
        }
    }
}

/// What storing runs of entries gives: the newest [`CACHE_MAX`] entries of
/// [`recency`], so that the cache holds the bytes last stored under each
/// of the [`CACHE_MAX`] keys most recently stored, and nothing else.
pub proof fn law_put_run(puts: Seq<(Seq<char>, Seq<u8>)>)
    ensures
        stored_all(Seq::empty(), puts) == newest(recency(puts)),
        keys_unique(recency(puts)),
    decreases puts.len(),
{
    if puts.len() > 0 {
        let prev = puts.drop_last();
        law_put_run(prev);
        lemma_stored_newest(recency(prev), puts.last().0, puts.last().1);
        lemma_pushed_unique(recency(prev), puts.last().0, puts.last().1);
        assert(puts.last() == (puts.last().0, puts.last().1));
    }
}

/// In the unbounded run of stores, each key holds the bytes of its last
/// store, and a key never stored is absent.
pub proof fn law_recency_latest(puts: Seq<(Seq<char>, Seq<u8>)>, key: Seq<char>)
    ensures
        lookup(recency(puts), key) == (if exists|i: int| 0 <= i < puts.len() && puts[i].0 == key {
            Some(puts[choose|i: int| last_store_at(puts, key, i)].1)
        } else {
            None
        }),
    decreases puts.len(),
{
    law_put_run(puts);
    if puts.len() > 0 {
        let prev = puts.drop_last();
        law_recency_latest(prev, key);
        law_put_run(prev);
        let (k, v) = (puts.last().0, puts.last().1);
        assert(puts.last() == (k, v));
        if k == key {
            law_get_after_put(recency(prev), k, v);
            lemma_pushed_unique(recency(prev), k, v);
            assert(last_store_at(puts, key, puts.len() - 1));
            let c = choose|i: int| last_store_at(puts, key, i);
            assert(c == puts.len() - 1);
            assert(recency(puts) == without_key(recency(prev), k).push((k, v)));
            let e = without_key(recency(prev), k).push((k, v));
            assert(e[e.len() - 1] == (k, v));
            lemma_lookup_at(e, key, e.len() - 1);
        } else {
            let w = without_key(recency(prev), k);
            let e = w.push((k, v));
            lemma_without_key_lookup(recency(prev), k, key);
            lemma_pushed_unique(recency(prev), k, v);
            lemma_without_key_unique(recency(prev), k);
            if exists|i: int| 0 <= i < w.len() && w[i].0 == key {
                let i = choose|i: int| 0 <= i < w.len() && w[i].0 == key;
                assert(e[i] == w[i]);
                lemma_lookup_at(e, key, i);
                lemma_lookup_at(w, key, i);
            } else {
                assert forall|i: int| 0 <= i < e.len() implies e[i].0 != key by {
                    if i < w.len() {
                        assert(e[i] == w[i]);
                    }
                }
            }
            if exists|i: int| 0 <= i < puts.len() && puts[i].0 == key {
                let j = choose|i: int| 0 <= i < puts.len() && puts[i].0 == key;
                assert(j < prev.len());
                assert(prev[j].0 == key);
                lemma_last_store_exists(prev, key);
                let c = choose|i: int| last_store_at(prev, key, i);
                assert forall|q: int| c < q < puts.len() implies (#[trigger] puts[q]).0 != key by {
                    if q < prev.len() {
                        assert(prev[q] == puts[q]);
                    }
                }
                assert(puts[c] == prev[c]);
                assert(last_store_at(puts, key, c));
                lemma_last_store_unique(puts, key, c);
                let c2 = choose|i: int| last_store_at(puts, key, i);
                lemma_last_store_exists(puts, key);
                lemma_last_store_unique(puts, key, c2);
            } else {
                assert forall|i: int| 0 <= i < prev.len() implies prev[i].0 != key by {
                    assert(prev[i] == puts[i]);
                }
            }
        }
    }
}

/// `i` is the position of the last store under `key` in `puts`.
pub open spec fn last_store_at(puts: Seq<(Seq<char>, Seq<u8>)>, key: Seq<char>, i: int) -> bool {
    &&& 0 <= i < puts.len()
    &&& puts[i].0 == key
    &&& forall|j: int| i < j < puts.len() ==> (#[trigger] puts[j]).0 != key
}

/// A key stored at all has a last store.
proof fn lemma_last_store_exists(puts: Seq<(Seq<char>, Seq<u8>)>, key: Seq<char>)
    requires
        exists|i: int| 0 <= i < puts.len() && puts[i].0 == key,
    ensures
        exists|i: int| last_store_at(puts, key, i),
    decreases puts.len(),
{
    if puts.last().0 == key {
        assert(last_store_at(puts, key, puts.len() - 1));
    } else {
        let prev = puts.drop_last();
        let j = choose|i: int| 0 <= i < puts.len() && puts[i].0 == key;
        assert(j < prev.len() && prev[j] == puts[j]);
        lemma_last_store_exists(prev, key);
        let c = choose|i: int| last_store_at(prev, key, i);
        assert forall|k: int| c < k < puts.len() implies (#[trigger] puts[k]).0 != key by {
            if k < prev.len() {
                assert(prev[k] == puts[k]);
            }
        }
        assert(last_store_at(puts, key, c));
    }
}

/// The last store under a key is at one position.
proof fn lemma_last_store_unique(puts: Seq<(Seq<char>, Seq<u8>)>, key: Seq<char>, i: int)
    requires
        last_store_at(puts, key, i),
    ensures
        forall|j: int| last_store_at(puts, key, j) ==> j == i,
{
    assert forall|j: int| last_store_at(puts, key, j) implies j == i by {
        if j < i {
            assert(puts[i].0 != key);
        } else if i < j {
            assert(puts[j].0 != key);
        }
    }
}

} // verus!
