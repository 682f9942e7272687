use vstd::prelude::*;
use base64::Engine;

verus! {

/// `c` is a lowercase hexadecimal digit.
pub open spec fn is_lower_hex(c: char) -> bool {
    ('0' <= c && c <= '9') || ('a' <= c && c <= 'f')
}

/// `s` has the shape of a version-4 UUID in lowercase hyphenated form:
/// 36 characters, hyphens at positions 8, 13, 18 and 23, the version digit
/// `4` at position 14, and lowercase hexadecimal digits elsewhere.
pub open spec fn is_uuid_text(s: Seq<char>) -> bool {
    &&& s.len() == 36
    &&& forall|i: int|
        0 <= i < 36 ==> if i == 8 || i == 13 || i == 18 || i == 23 {
            #[trigger] s[i] == '-'
        } else {
            is_lower_hex(s[i])
        }
    &&& s[14] == '4'
}

/// A fresh identifier: `uuid::Uuid::new_v4` rendered by its `Display`
/// impl (`to_string`). The contract claims only the textual shape that
/// the uuid crate's hyphenated lowercase formatting gives every version-4
/// UUID; the value is random, and uuid panics when the system's random
/// source fails, which no precondition can exclude.
#[verifier::external_body]
pub(crate) fn new_uuid() -> (r: String)
    ensures
        is_uuid_text(r@),
{
    uuid::Uuid::new_v4().to_string()
}

/// The character of the standard base64 alphabet for `v` in `0..64`:
/// `A`-`Z`, `a`-`z`, `0`-`9`, `+`, `/`.
pub open spec fn base64_char(v: int) -> char {
    if v < 26 {
        (('A' as int) + v) as char
    } else if v < 52 {
        (('a' as int) + v - 26) as char
    } else if v < 62 {
        (('0' as int) + v - 52) as char
    } else if v == 62 {
        '+'
    } else {
        '/'
    }
}

/// Standard base64 with `=` padding (RFC 4648): every three bytes become
/// four characters of six bits each, and a last group of one or two bytes
/// is padded with `=` to four characters.
pub open spec fn base64_standard(b: Seq<u8>) -> Seq<char>
    decreases b.len(),
{
    let b0 = if b.len() > 0 { b[0] as int } else { 0 };
    let b1 = if b.len() > 1 { b[1] as int } else { 0 };
    let b2 = if b.len() > 2 { b[2] as int } else { 0 };
    if b.len() == 0 {
        Seq::empty()
    } else if b.len() == 1 {
        seq![base64_char(b0 / 4), base64_char((b0 % 4) * 16), '=', '=']
    } else if b.len() == 2 {
        seq![base64_char(b0 / 4), base64_char((b0 % 4) * 16 + b1 / 16), base64_char((b1 % 16) * 4), '=']
    } else {
        seq![
            base64_char(b0 / 4),
            base64_char((b0 % 4) * 16 + b1 / 16),
            base64_char((b1 % 16) * 4 + b2 / 64),
            base64_char(b2 % 64),
        ] + base64_standard(b.skip(3))
    }
}

/// `base64::engine::general_purpose::STANDARD.encode`. The contract
/// claims that the result is the standard padded encoding of `bytes`
/// ([`base64_standard`]), four characters for every three bytes begun; the
/// precondition leaves out inputs whose encoded length does not fit in
/// `usize`, on which the crate panics.
#[verifier::external_body]
pub(crate) fn encode_base64(bytes: &Vec<u8>) -> (r: String)
    requires
        4 * ((bytes@.len() + 2) / 3) <= usize::MAX,
    ensures
        r@ == base64_standard(bytes@),
        r@.len() == 4 * ((bytes@.len() + 2) / 3),
{
    base64::engine::general_purpose::STANDARD.encode(bytes)
}

/// The text that `str::to_lowercase` gives for `s`.
pub uninterp spec fn lowercase(s: Seq<char>) -> Seq<char>;

/// `str::to_lowercase`: the contract claims that the result is the
/// standard library's lowercase mapping of `s`, named by [`lowercase`].
#[verifier::external_body]
pub(crate) fn to_lowercase(s: &str) -> (r: String)
    ensures
        r@ == lowercase(s@),
{
    s.to_lowercase()
}

/// `s` starts with the verbatim prefix `\\?\`, under which Windows reads
/// only `\` as a separator and takes the rest of the text as it stands.
pub open spec fn is_verbatim(s: Seq<char>) -> bool {
    &&& s.len() >= 4
    &&& s[0] == '\\'
    &&& s[1] == '\\'
    &&& s[2] == '?'
    &&& s[3] == '\\'
}

/// `c` separates path components on Windows (`win`) or on other platforms.
pub open spec fn is_sep(c: char, win: bool) -> bool {
    c == '/' || (win && c == '\\')
}

/// The text of `s` after its last separator (all of `s` without one).
pub open spec fn tail_after_sep(s: Seq<char>, win: bool) -> Seq<char>
    decreases s.len(),
{
    if s.len() == 0 {
        s
    } else if is_sep(s.last(), win) {
        Seq::empty()
    } else {
        tail_after_sep(s.drop_last(), win).push(s.last())
    }
}

/// The file name of `path` under the separators of Windows (`win`) or of
/// other platforms, for a path whose last component is a plain name: the
/// text after the last separator, not empty, not `.` or `..` (and, on
/// Windows, without `:`), in a path that starts neither with the verbatim
/// prefix nor with two separators (which Windows reads as a network prefix
/// that takes the following components).
pub open spec fn file_name_on(path: Seq<char>, win: bool) -> Option<Seq<char>> {
    let t = tail_after_sep(path, win);
    if is_verbatim(path) || (path.len() >= 2 && is_sep(path[0], true) && is_sep(path[1], true)) || t.len()
        == 0 || t == seq!['.'] || t == seq!['.', '.'] || (win && t.contains(':')) {
        None
    } else {
        Some(t)
    }
}

/// The stem of a file name as `Path::file_stem` documents it: the text
/// before the final `.`; the whole name without a `.`, and the whole name
/// when the only `.` begins it.
pub open spec fn name_stem(name: Seq<char>) -> Seq<char> {
    if exists|k: int| last_dot_at(name, k) {
        let k = choose|k: int| last_dot_at(name, k);
        if k > 0 {
            name.subrange(0, k)
        } else {
            name
        }
    } else {
        name
    }
}

/// `k` is the position of the last `.` in `name`.
pub open spec fn last_dot_at(name: Seq<char>, k: int) -> bool {
    &&& 0 <= k < name.len()
    &&& name[k] == '.'
    &&& forall|j: int| k < j < name.len() ==> name[j] != '.'
}

/// The extension of a file name as `Path::extension` documents it: the
/// text after the final `.`; none without a `.`, and none when the only
/// `.` begins the name.
pub open spec fn name_extension(name: Seq<char>) -> Option<Seq<char>> {
    if exists|k: int| last_dot_at(name, k) {
        let k = choose|k: int| last_dot_at(name, k);
        if k > 0 {
            Some(name.subrange(k + 1, name.len() as int))
        } else {
            None
        }
    } else {
        None
    }
}

/// `std::path::Path::extension`, taken as text when it is valid UTF-8.
/// The extension is a slice of the path's file name, but which characters
/// separate components depends on the platform; so the contract claims
/// what holds on every platform: an extension is a piece of the path right
/// after a `.` and holds no `.` (nor `/`, but for a verbatim path); a path
/// without a `.` has none; and a path whose last component is a plain
/// name (see [`file_name_on`]) has the extension the documentation
/// describes for that name ([`name_extension`]), under the separators of
/// Windows or under those of other platforms.
#[verifier::external_body]
pub(crate) fn path_extension(path: &str) -> (r: Option<String>)
    ensures
        match r {
            Some(e) => {
                &&& path@.len() > e@.len()
                &&& exists|i: int|
                    #![trigger path@.subrange(i, i + e@.len())]
                    1 <= i && i + e@.len() <= path@.len() && path@[i - 1] == '.' && path@.subrange(
                        i,
                        i + e@.len(),
                    ) == e@
                &&& !e@.contains('.')
                &&& !is_verbatim(path@) ==> !e@.contains('/')
            },
            None => true,
        },
        !path@.contains('.') ==> r is None,
        match (file_name_on(path@, true), file_name_on(path@, false)) {
            (Some(w), Some(u)) => opt_text_of(r) == name_extension(w) || opt_text_of(r) == name_extension(u),
            _ => true,
        },
{
    std::path::Path::new(path).extension().and_then(|e| e.to_str()).map(|e| e.to_string())
}

/// The text of an optional string.
pub open spec fn opt_text_of(v: Option<String>) -> Option<Seq<char>> {
    match v {
        Some(t) => Some(t@),
        None => None,
    }
}

/// A path component that every platform reads as a plain relative name:
/// not empty, not `.` or `..`, with no separator and no drive colon.
pub open spec fn plain_name(rel: Seq<char>) -> bool {
    &&& rel.len() > 0
    &&& rel != seq!['.']
    &&& rel != seq!['.', '.']
    &&& !rel.contains('/')
    &&& !rel.contains('\\')
    &&& !rel.contains(':')
}

/// `rel` is a relative path on every platform: no drive colon, and it does
/// not begin with a separator.
pub open spec fn relative_text(rel: Seq<char>) -> bool {
    &&& !rel.contains(':')
    &&& rel.len() > 0 ==> rel[0] != '/' && rel[0] != '\\'
}

/// `r` is `base`, then one separator unless `base` is empty or already
/// ends in one, then `rel`. The separator is `/` or, on Windows, `\`; a
/// trailing `\` separates only on Windows.
pub open spec fn appended(r: Seq<char>, base: Seq<char>, rel: Seq<char>) -> bool {
    if base.len() == 0 {
        r == rel
    } else if base.last() == '/' {
        r == base + rel
    } else if base.last() == '\\' {
        r == base + rel || r == base + seq!['/'] + rel
    } else {
        r == base + seq!['/'] + rel || r == base + seq!['\\'] + rel
    }
}

/// `base` can take a relative path by plain appending: it is not a
/// verbatim path (whose joins Windows normalizes) and does not end in a
/// drive colon (a bare drive takes no separator).
pub open spec fn appendable_base(base: Seq<char>) -> bool {
    !is_verbatim(base) && (base.len() > 0 ==> base.last() != ':')
}

/// `std::path::Path::join` of `base` and `rel`, as text. As `PathBuf::push`
/// documents, a relative path is appended after one separator, which is
/// left out when `base` is empty or ends in one; the contract claims this
/// for a base that [`appendable_base`] admits and a path that
/// [`relative_text`] admits. Of other joins nothing is claimed.
#[verifier::external_body]
pub(crate) fn join_path(base: &str, rel: &str) -> (r: String)
    ensures
        appendable_base(base@) && relative_text(rel@) ==> appended(r@, base@, rel@),
{
    std::path::Path::new(base).join(rel).to_string_lossy().into_owned()
}

/// `piece` occurs in `s` as a run of consecutive characters.
pub open spec fn is_piece(piece: Seq<char>, s: Seq<char>) -> bool {
    exists|i: int| 0 <= i && i + piece.len() <= s.len() && #[trigger] s.subrange(i, i + piece.len()) == piece
}

/// `n` is a file name of `path` as far as [`path_file_name`] tells: a
/// non-empty piece of the path (without `/`, but for a verbatim path), and
/// the plain last component under one platform's separators when the path
/// ends in one.
pub open spec fn as_file_name(n: Seq<char>, path: Seq<char>) -> bool {
    &&& 0 < n.len() <= path.len()
    &&& is_piece(n, path)
    &&& !is_verbatim(path) ==> !n.contains('/')
    &&& match (file_name_on(path, true), file_name_on(path, false)) {
        (Some(w), Some(u)) => n == w || n == u,
        _ => true,
    }
}

/// `path` ends in a plain last component under the separators of both
/// kinds of platform, so that it has a file name on each.
pub open spec fn has_plain_name(path: Seq<char>) -> bool {
    file_name_on(path, true) is Some && file_name_on(path, false) is Some
}

/// `std::path::Path::file_name`, taken as text when it is valid UTF-8.
/// The name is a slice of the path, but what ends a component depends on
/// the platform; so the contract claims that a file name is a non-empty
/// piece of the path (without `/`, but for a verbatim path), and that a
/// path whose last component is a plain name (see [`file_name_on`]) has
/// that name, under the separators of Windows or of other platforms.
#[verifier::external_body]
pub(crate) fn path_file_name(path: &str) -> (r: Option<String>)
    ensures
        match r {
            Some(n) => {
                &&& 0 < n@.len() <= path@.len()
                &&& is_piece(n@, path@)
                &&& !is_verbatim(path@) ==> !n@.contains('/')
            },
            None => true,
        },
        match (file_name_on(path@, true), file_name_on(path@, false)) {
            (Some(w), Some(u)) => opt_text_of(r) == Some(w) || opt_text_of(r) == Some(u),
            _ => true,
        },
{
    std::path::Path::new(path).file_name().and_then(|n| n.to_str()).map(|n| n.to_string())
}

/// `std::path::Path::file_stem`, taken as text when it is valid UTF-8.
/// The stem is a slice of the path's file name, and never empty; what ends
/// a component depends on the platform, so the contract claims that a stem
/// is a non-empty piece of the path, and that a path whose last component
/// is a plain name (see [`file_name_on`]) has the stem the documentation
/// describes for that name ([`name_stem`]), under the separators of Windows
/// or of other platforms.
#[verifier::external_body]
pub(crate) fn path_file_stem(path: &str) -> (r: Option<String>)
    ensures
        match r {
            Some(n) => 0 < n@.len() && is_piece(n@, path@),
            None => true,
        },
        match (file_name_on(path@, true), file_name_on(path@, false)) {
            (Some(w), Some(u)) => opt_text_of(r) == Some(name_stem(w)) || opt_text_of(r) == Some(
                name_stem(u),
            ),
            _ => true,
        },
{
    std::path::Path::new(path).file_stem().and_then(|n| n.to_str()).map(|n| n.to_string())
}

/// `root` is a directory path whose components a path `root/rel` starts
/// with on every platform: not empty, not ending in a separator or a drive
/// colon, and not starting with two separators (which Windows reads as a
/// network or verbatim prefix that may take the following components).
pub open spec fn simple_root(root: Seq<char>) -> bool {
    &&& root.len() > 0
    &&& !(root.len() >= 2 && is_sep(root[0], true) && is_sep(root[1], true))
    &&& root.last() != '/'
    &&& root.last() != '\\'
    &&& root.last() != ':'
}

/// `rel` is a relative path of plain names joined by single `/`s, which
/// every platform reads as those names: not empty, no backslash or `:`, no
/// separator at either end or twice in a row, and no `.` or `..` name.
pub open spec fn plain_names(rel: Seq<char>) -> bool {
    &&& rel.len() > 0
    &&& !rel.contains('\\')
    &&& !rel.contains(':')
    &&& forall|i: int|
        0 <= i < rel.len() && #[trigger] rel[i] == '/' ==> 0 < i < rel.len() - 1 && rel[i + 1] != '/'
    &&& forall|i: int| 0 <= i < rel.len() && name_starts(rel, i) ==> !dot_name_at(rel, i)
}

/// A name of `rel` starts at `i`.
pub open spec fn name_starts(rel: Seq<char>, i: int) -> bool {
    i == 0 || rel[i - 1] == '/'
}

/// The name starting at `i` is `.` or `..`.
pub open spec fn dot_name_at(rel: Seq<char>, i: int) -> bool {
    &&& rel[i] == '.'
    &&& (i + 1 == rel.len() || rel[i + 1] == '/' || (rel[i + 1] == '.' && (i + 2 == rel.len() || rel[i
        + 2] == '/')))
}

/// `path` is `root`, a `/`, then plain names (see [`plain_names`]).
pub open spec fn lies_below(path: Seq<char>, root: Seq<char>) -> bool {
    &&& simple_root(root)
    &&& path.len() > root.len() + 1
    &&& path.subrange(0, root.len() as int) == root
    &&& path[root.len() as int] == '/'
    &&& plain_names(path.subrange(root.len() + 1int, path.len() as int))
}

/// `std::path::Path::strip_prefix`: the part of `path` below the directory
/// `root`, as text, when `path` lies inside it. The part is the path's
/// components after those of `root`, a slice of the path; which components
/// match depends on the platform. The contract claims that the part is a
/// piece of the path, and that a path made of a simple root, a `/` and
/// plain names (see [`lies_below`]) gives those names.
#[verifier::external_body]
pub(crate) fn path_relative_to(path: &str, root: &str) -> (r: Option<String>)
    ensures
        match r {
            Some(rel) => rel@.len() <= path@.len() && is_piece(rel@, path@),
            None => true,
        },
        lies_below(path@, root@) ==> opt_text_of(r) == Some(
            path@.subrange(root@.len() + 1int, path@.len() as int),
        ),
{
    std::path::Path::new(path).strip_prefix(root).ok().map(|p| p.to_string_lossy().into_owned())
}

/// `root` is a [`simple_root`] that `Path::parent` gives back as it
/// stands when it precedes a last name: it does not end in a `.` name,
/// which `parent` would trim away.
pub open spec fn parent_root(root: Seq<char>) -> bool {
    &&& simple_root(root)
    &&& !(root.len() >= 2 && root.last() == '.' && is_sep(root[root.len() - 2], true))
}

/// The directory part of a path made of a [`parent_root`], a `/` and a
/// plain last name: the text before that `/`. None for other paths.
pub open spec fn dir_before_name(path: Seq<char>) -> Option<Seq<char>> {
    let name = tail_after_sep(path, true);
    let cut = path.len() - name.len() - 1;
    if 0 <= cut && path[cut] == '/' && plain_name(name) && parent_root(path.subrange(0, cut)) {
        Some(path.subrange(0, cut))
    } else {
        None
    }
}

/// `std::path::Path::parent`, as text. The parent is the path with its
/// last component (and the separators after it) cut off, so the contract
/// claims that it is a shorter beginning of the path; that a path made of
/// a root, a `/` and a plain name (see [`dir_before_name`]) has that root
/// as its parent; and that a plain name alone has the empty path as its
/// parent.
#[verifier::external_body]
pub(crate) fn path_parent(path: &str) -> (r: Option<String>)
    ensures
        match r {
            Some(p) => p@.len() < path@.len() && path@.subrange(0, p@.len() as int) == p@,
            None => true,
        },
        dir_before_name(path@) is Some ==> opt_text_of(r) == dir_before_name(path@),
        plain_name(path@) ==> opt_text_of(r) == Some(Seq::<char>::empty()),
{
    std::path::Path::new(path).parent().map(|p| p.to_string_lossy().into_owned())
}

/// `std::path::Path::with_file_name`, as text: the path with its file
/// name replaced by `name`. How the old name is cut off depends on the
/// platform, so the contract claims that the result ends with a plain
/// `name`; that for a path made of a root, a `/` and a plain name (see
/// [`dir_before_name`]) it is the root, one separator and `name`; and that
/// for a plain name alone it is `name`.
#[verifier::external_body]
pub(crate) fn path_with_file_name(path: &str, name: &str) -> (r: String)
    ensures
        plain_name(name@) ==> r@.len() >= name@.len() && r@.subrange(
            r@.len() - name@.len(),
            r@.len() as int,
        ) == name@,
        plain_name(name@) && dir_before_name(path@) is Some ==> appended(
            r@,
            dir_before_name(path@)->0,
            name@,
        ),
        plain_name(name@) && plain_name(path@) ==> r@ == name@,
{
    std::path::Path::new(path).with_file_name(name).to_string_lossy().into_owned()
}

/// Without a separator, the text after the last separator is all of it.
proof fn lemma_tail_without_sep(s: Seq<char>, win: bool)
    requires
        !s.contains('/'),
        !s.contains('\\'),
    ensures
        tail_after_sep(s, win) == s,
    decreases s.len(),
{
    if s.len() > 0 {
        assert(!s.drop_last().contains('/')) by {
            if s.drop_last().contains('/') {
                let k = choose|k: int| 0 <= k < s.drop_last().len() && s.drop_last()[k] == '/';
                assert(s[k] == '/');
            }
        }
        assert(!s.drop_last().contains('\\')) by {
            if s.drop_last().contains('\\') {
                let k = choose|k: int| 0 <= k < s.drop_last().len() && s.drop_last()[k] == '\\';
                assert(s[k] == '\\');
            }
        }
        lemma_tail_without_sep(s.drop_last(), win);
        assert(s.last() != '/' && s.last() != '\\') by {
            assert(s[s.len() - 1] == s.last());
        }
        assert(s.drop_last().push(s.last()) =~= s);
    }
}

/// A plain name is its own file name on every platform.
pub proof fn lemma_plain_is_file_name(p: Seq<char>)
    requires
        plain_name(p),
    ensures
        file_name_on(p, true) == Some(p),
        file_name_on(p, false) == Some(p),
{
    lemma_tail_without_sep(p, true);
    lemma_tail_without_sep(p, false);
    assert(!is_verbatim(p)) by {
        if is_verbatim(p) {
            assert(p[0] == '\\');
        }
    }
    if p.len() >= 2 && is_sep(p[0], true) && is_sep(p[1], true) {
        assert(p[0] == '/' || p[0] == '\\');
    }
}

/// The text after the last separator ends `s`, holds no separator, and
/// follows a separator when it is not all of `s`.
proof fn lemma_tail_suffix(s: Seq<char>, win: bool)
    ensures
        tail_after_sep(s, win).len() <= s.len(),
        tail_after_sep(s, win) == s.subrange(s.len() - tail_after_sep(s, win).len(), s.len() as int),
        tail_after_sep(s, win).len() < s.len() ==> is_sep(s[s.len() - tail_after_sep(s, win).len() - 1], win),
    decreases s.len(),
{
    if s.len() > 0 && !is_sep(s.last(), win) {
        let rest = s.drop_last();
        lemma_tail_suffix(rest, win);
        let t = tail_after_sep(rest, win);
        assert(t.push(s.last()) =~= s.subrange(s.len() - t.len() - 1, s.len() as int));
        if t.len() < rest.len() {
            assert(s[s.len() - t.len() - 2] == rest[rest.len() - t.len() - 1]);
        }
    }
}

/// After a `/` and a tail without separators, that tail is the text after
/// the last separator.
proof fn lemma_tail_after_slash(a: Seq<char>, b: Seq<char>, win: bool)
    requires
        !b.contains('/'),
        !b.contains('\\'),
    ensures
        tail_after_sep(a + seq!['/'] + b, win) == b,
    decreases b.len(),
{
    let s = a + seq!['/'] + b;
    if b.len() == 0 {
        assert(s.last() == '/');
    } else {
        let c = b.last();
        assert(c == b[b.len() - 1]);
        assert(!b.drop_last().contains('/') && !b.drop_last().contains('\\')) by {
            if b.drop_last().contains('/') {
                let k = choose|k: int| 0 <= k < b.drop_last().len() && b.drop_last()[k] == '/';
                assert(b[k] == '/');
            }
            if b.drop_last().contains('\\') {
                let k = choose|k: int| 0 <= k < b.drop_last().len() && b.drop_last()[k] == '\\';
                assert(b[k] == '\\');
            }
        }
        lemma_tail_after_slash(a, b.drop_last(), win);
        assert(s.drop_last() =~= a + seq!['/'] + b.drop_last());
        assert(s.last() == c);
        assert(b.drop_last().push(c) =~= b);
    }
}

/// A path that [`dir_before_name`] splits is its directory, a `/` and its
/// plain last name, which is its file name on every platform.
pub(crate) proof fn lemma_dir_before_name(path: Seq<char>)
    requires
        dir_before_name(path) is Some,
    ensures
        path == dir_before_name(path)->0 + seq!['/'] + tail_after_sep(path, true),
        plain_name(tail_after_sep(path, true)),
        file_name_on(path, true) == Some(tail_after_sep(path, true)),
        file_name_on(path, false) == Some(tail_after_sep(path, true)),
{
    let name = tail_after_sep(path, true);
    let cut = path.len() - name.len() - 1;
    let root = path.subrange(0, cut);
    lemma_tail_suffix(path, true);
    assert(path =~= root + seq!['/'] + name);
    lemma_tail_after_slash(root, name, false);
    assert(!is_verbatim(path)) by {
        if is_verbatim(path) {
            if root.len() >= 2 {
                assert(root[0] == path[0] && root[1] == path[1]);
            } else {
                assert(root[0] == path[0]);
                assert(root.last() == root[0]);
            }
        }
    }
    if path.len() >= 2 && is_sep(path[0], true) && is_sep(path[1], true) {
        if root.len() >= 2 {
            assert(root[0] == path[0] && root[1] == path[1]);
        } else {
            assert(root[0] == path[0]);
            assert(root.last() == root[0]);
        }
    }
}

} // verus!
