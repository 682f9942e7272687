use vstd::prelude::*;

verus! {

/// The text of `a` followed by the text of `b`.
pub fn join(a: &str, b: &str) -> (r: String)
    ensures
        r@ == a@ + b@,
{
    let mut s = a.to_owned();
    s.append(b);
    s
}

/// Whether two texts are equal.
pub fn same_text(a: &str, b: &str) -> (r: bool)
    ensures
        r == (a@ == b@),
{
    let x = a.to_owned();
    let y = b.to_owned();
    x == y
}

/// `s` begins with `prefix`.
pub open spec fn starts_with(s: Seq<char>, prefix: Seq<char>) -> bool {
    prefix.len() <= s.len() && s.subrange(0, prefix.len() as int) == prefix
}

/// `s` holds `pat` somewhere.
pub open spec fn holds_text(s: Seq<char>, pat: Seq<char>) -> bool {
    exists|i: int| 0 <= i && i + pat.len() <= s.len() && #[trigger] s.subrange(i, i + pat.len()) == pat
}

/// Whether `s` holds `pat` at position `at`.
fn matches_at(s: &str, pat: &str, at: usize, slen: usize, plen: usize) -> (r: bool)
    requires
        slen == s@.len(),
        plen == pat@.len(),
        at + plen <= slen,
    ensures
        r == (s@.subrange(at as int, at + plen) == pat@),
{
    let mut k: usize = 0;
    while k < plen
        invariant
            slen == s@.len(),
            plen == pat@.len(),
            at + plen <= slen,
            k <= plen,
            forall|j: int| 0 <= j < k ==> s@[at + j] == pat@[j],
        decreases plen - k,
    {
        if s.get_char(at + k) != pat.get_char(k) {
            assert(s@.subrange(at as int, at + plen)[k as int] != pat@[k as int]);
            return false;
        }
        k = k + 1;
    }
    assert(s@.subrange(at as int, at + plen) =~= pat@);
    true
}

/// Whether `s` begins with `prefix`.
pub fn starts_with_text(s: &str, prefix: &str) -> (r: bool)
    ensures
        r == starts_with(s@, prefix@),
{
    let slen = s.unicode_len();
    let plen = prefix.unicode_len();
    if plen > slen {
        return false;
    }
    matches_at(s, prefix, 0, slen, plen)
}

/// Whether `s` holds `pat` somewhere.
pub fn contains_text(s: &str, pat: &str) -> (r: bool)
    ensures
        r == holds_text(s@, pat@),
{
    let slen = s.unicode_len();
    let plen = pat.unicode_len();
    if plen > slen {
        return false;
    }
    let last = slen - plen;
    let mut at: usize = 0;
    loop
        invariant
            slen == s@.len(),
            plen == pat@.len(),
            plen <= slen,
            last == slen - plen,
            at <= last,
            forall|i: int| 0 <= i < at ==> #[trigger] s@.subrange(i, i + plen) != pat@,
        decreases last - at,
    {
        if matches_at(s, pat, at, slen, plen) {
            return true;
        }
        if at == last {
            assert forall|i: int| 0 <= i && i + plen <= slen implies #[trigger] s@.subrange(i, i + plen) != pat@ by {
                if i == at {
                }
            }
            return false;
        }
        at = at + 1;
    }
}

/// Where `pat` first occurs in `s`: at `i`, and nowhere before.
pub open spec fn first_at(s: Seq<char>, pat: Seq<char>, i: int) -> bool {
    &&& 0 <= i && i + pat.len() <= s.len()
    &&& s.subrange(i, i + pat.len()) == pat
    &&& forall|j: int| 0 <= j < i ==> #[trigger] s.subrange(j, j + pat.len()) != pat
}

/// Where `pat` first occurs in `s`, if it does.
pub fn find_text(s: &str, pat: &str) -> (r: Option<usize>)
    ensures
        match r {
            Some(i) => first_at(s@, pat@, i as int),
            None => !holds_text(s@, pat@),
        },
{
    let slen = s.unicode_len();
    let plen = pat.unicode_len();
    if plen > slen {
        return None;
    }
    let last = slen - plen;
    let mut at: usize = 0;
    loop
        invariant
            slen == s@.len(),
            plen == pat@.len(),
            plen <= slen,
            last == slen - plen,
            at <= last,
            forall|i: int| 0 <= i < at ==> #[trigger] s@.subrange(i, i + plen) != pat@,
        decreases last - at,
    {
        if matches_at(s, pat, at, slen, plen) {
            return Some(at);
        }
        if at == last {
            assert forall|i: int| 0 <= i && i + plen <= slen implies #[trigger] s@.subrange(i, i + plen) != pat@ by {
                if i == at {
                }
            }
            return None;
        }
        at = at + 1;
    }
}

/// `s` with the first occurrence of `from` replaced by `to`, as
/// `str::replacen(from, to, 1)` gives it for a non-empty `from`.
pub open spec fn replaced_first(s: Seq<char>, from: Seq<char>, to: Seq<char>) -> Seq<char> {
    if holds_text(s, from) {
        let i = choose|i: int| first_at(s, from, i);
        s.take(i) + to + s.skip(i + from.len())
    } else {
        s
    }
}

/// Replaces the first occurrence of `from` in `s` by `to`.
pub fn replace_first(s: &str, from: &str, to: &str) -> (r: String)
    ensures
        r@ == replaced_first(s@, from@, to@),
{
    match find_text(s, from) {
        Some(i) => {
            proof {
                let k = choose|k: int| first_at(s@, from@, k);
                if k < i {
                    assert(s@.subrange(k, k + from@.len()) == from@);
                } else if k > i {
                    assert(s@.subrange(i as int, i + from@.len()) == from@);
                }
            }
            let slen = s.unicode_len();
            let head = s.substring_char(0, i);
            let tail = s.substring_char(i + from.unicode_len(), slen);
            let a = join(head, to);
            let r = join(a.as_str(), tail);
            assert(r@ =~= replaced_first(s@, from@, to@));
            r
        },
        None => s.to_owned(),
    }
}

/// The decimal digit for `d`.
pub open spec fn digit_char(d: int) -> char {
    if d == 0 {
        '0'
    } else if d == 1 {
        '1'
    } else if d == 2 {
        '2'
    } else if d == 3 {
        '3'
    } else if d == 4 {
        '4'
    } else if d == 5 {
        '5'
    } else if d == 6 {
        '6'
    } else if d == 7 {
        '7'
    } else if d == 8 {
        '8'
    } else {
        '9'
    }
}

/// The decimal digits of a natural number, without leading zeros.
pub open spec fn digits(n: nat) -> Seq<char>
    decreases n,
{
    if n < 10 {
        seq![digit_char(n as int)]
    } else {
        digits(n / 10) + seq![digit_char((n % 10) as int)]
    }
}

/// The decimal text of an integer, as `Display` writes it: a minus sign
/// for negative numbers, then the digits.
pub open spec fn decimal(n: int) -> Seq<char> {
    if n < 0 {
        seq!['-'] + digits((-n) as nat)
    } else {
        digits(n as nat)
    }
}

/// The one-character text of the digit `d`.
fn digit_text(d: u64) -> (r: &'static str)
    requires
        d < 10,
    ensures
        r@ == seq![digit_char(d as int)],
{
    proof {
        reveal_strlit("0");
        reveal_strlit("1");
        reveal_strlit("2");
        reveal_strlit("3");
        reveal_strlit("4");
        reveal_strlit("5");
        reveal_strlit("6");
        reveal_strlit("7");
        reveal_strlit("8");
        reveal_strlit("9");
    }
    if d == 0 {
        "0"
    } else if d == 1 {
        "1"
    } else if d == 2 {
        "2"
    } else if d == 3 {
        "3"
    } else if d == 4 {
        "4"
    } else if d == 5 {
        "5"
    } else if d == 6 {
        "6"
    } else if d == 7 {
        "7"
    } else if d == 8 {
        "8"
    } else {
        "9"
    }
}

/// The decimal digits of `n`.
pub fn digits_text(n: u64) -> (r: String)
    ensures
        r@ == digits(n as nat),
    decreases n,
{
    if n < 10 {
        digit_text(n).to_owned()
    } else {
        let mut s = digits_text(n / 10);
        s.append(digit_text(n % 10));
        s
    }
}

/// The decimal text of `n`.
pub fn decimal_text(n: i64) -> (r: String)
    ensures
        r@ == decimal(n as int),
{
    proof {
        reveal_strlit("-");
    }
    if n < 0 {
        let m: u64 = if n == i64::MIN {
            0x8000_0000_0000_0000u64
        } else {
            (-n) as u64
        };
        let mut s = "-".to_owned();
        let d = digits_text(m);
        s.append(d.as_str());
        s
    } else {
        digits_text(n as u64)
    }
}


/// Every character of `digits(n)` is a decimal digit.
proof fn lemma_digits_are_digits(n: nat)
    ensures
        digits(n).len() > 0,
        forall|i: int| 0 <= i < digits(n).len() ==> '0' <= #[trigger] digits(n)[i] <= '9',
        n >= 10 ==> digits(n).len() >= 2,
    decreases n,
{
    if n >= 10 {
        lemma_digits_are_digits(n / 10);
        let d = digits(n / 10);
        assert forall|i: int| 0 <= i < digits(n).len() implies '0' <= #[trigger] digits(n)[i] <= '9' by {
            if i < d.len() {
                assert(digits(n)[i] == d[i]);
            }
        }
    }
}

/// Different digits have different characters.
proof fn lemma_digit_char_injective(x: int, y: int)
    requires
        0 <= x < 10,
        0 <= y < 10,
        digit_char(x) == digit_char(y),
    ensures
        x == y,
{
}

/// Different natural numbers have different digits.
proof fn lemma_digits_injective(a: nat, b: nat)
    requires
        digits(a) == digits(b),
    ensures
        a == b,
    decreases a,
{
    lemma_digits_are_digits(a);
    lemma_digits_are_digits(b);
    if a < 10 && b < 10 {
        assert(digits(a)[0] == digit_char(a as int));
        assert(digits(b)[0] == digit_char(b as int));
        lemma_digit_char_injective(a as int, b as int);
    } else if a >= 10 && b >= 10 {
        let (da, db) = (digits(a), digits(b));
        assert(digit_char((a % 10) as int) == da.last());
        assert(digit_char((b % 10) as int) == db.last());
        lemma_digit_char_injective((a % 10) as int, (b % 10) as int);
        assert(digits(a / 10) =~= da.drop_last());
        assert(digits(b / 10) =~= db.drop_last());
        lemma_digits_injective(a / 10, b / 10);
        assert(a == 10 * (a / 10) + a % 10);
        assert(b == 10 * (b / 10) + b % 10);
    } else {
        assert(digits(a).len() != digits(b).len());
    }
}

/// Different integers have different decimal texts, and a decimal text
/// holds only digits and a leading minus sign.
pub(crate) proof fn lemma_decimal_injective(a: int, b: int)
    ensures
        decimal(a) == decimal(b) ==> a == b,
        !decimal(a).contains(':'),
        !decimal(a).contains('x'),
{
    let da = if a < 0 { (-a) as nat } else { a as nat };
    let db = if b < 0 { (-b) as nat } else { b as nat };
    lemma_digits_are_digits(da);
    lemma_digits_are_digits(db);
    if decimal(a) == decimal(b) {
        if a < 0 && b < 0 {
            assert(digits(da) =~= decimal(a).drop_first());
            assert(digits(db) =~= decimal(b).drop_first());
            lemma_digits_injective(da, db);
        } else if a < 0 {
            assert(decimal(a)[0] == '-');
            assert(decimal(b)[0] == digits(db)[0]);
        } else if b < 0 {
            assert(decimal(b)[0] == '-');
            assert(decimal(a)[0] == digits(da)[0]);
        } else {
            lemma_digits_injective(da, db);
        }
    }
    assert forall|i: int| 0 <= i < decimal(a).len() implies decimal(a)[i] != ':' && decimal(a)[i] != 'x' by {
        if a < 0 {
            if i > 0 {
                assert(decimal(a)[i] == digits(da)[i - 1]);
            }
        } else {
            assert(decimal(a)[i] == digits(da)[i]);
        }
    }
}

/// Two texts that each end in `c` followed by a tail without `c` split
/// there alike: equal texts have equal heads and equal tails.
pub(crate) proof fn lemma_split_at_last(a1: Seq<char>, b1: Seq<char>, a2: Seq<char>, b2: Seq<char>, c: char)
    requires
        a1 + seq![c] + b1 == a2 + seq![c] + b2,
        !b1.contains(c),
        !b2.contains(c),
    ensures
        a1 == a2,
        b1 == b2,
{
    let k1 = a1 + seq![c] + b1;
    let k2 = a2 + seq![c] + b2;
    assert(k1[a1.len() as int] == c);
    assert(k2[a2.len() as int] == c);
    if b1.len() < b2.len() {
        let i = b2.len() - b1.len() - 1;
        assert(k2[a2.len() + 1 + i] == b2[i]);
        assert(k1.len() == k2.len());
        assert(b2[i] == c);
        assert(b2.contains(c));
    }
    if b2.len() < b1.len() {
        let i = b1.len() - b2.len() - 1;
        assert(k1[a1.len() + 1 + i] == b1[i]);
        assert(k1.len() == k2.len());
        assert(b1[i] == c);
        assert(b1.contains(c));
    }
    assert(a1 =~= k1.subrange(0, a1.len() as int));
    assert(a2 =~= k2.subrange(0, a2.len() as int));
    assert(b1 =~= k1.subrange(a1.len() + 1int, k1.len() as int));
    assert(b2 =~= k2.subrange(a2.len() + 1int, k2.len() as int));
}

/// `c` is white space as `char::is_whitespace` defines it: the Unicode
/// `White_Space` characters.
pub open spec fn is_white(c: char) -> bool {
    ||| ('\u{9}' <= c && c <= '\u{d}')
    ||| c == ' '
    ||| c == '\u{85}'
    ||| c == '\u{a0}'
    ||| c == '\u{1680}'
    ||| ('\u{2000}' <= c && c <= '\u{200a}')
    ||| c == '\u{2028}'
    ||| c == '\u{2029}'
    ||| c == '\u{202f}'
    ||| c == '\u{205f}'
    ||| c == '\u{3000}'
}

/// `s[i..j]` is `s` without its leading and trailing white space.
pub open spec fn trim_bounds(s: Seq<char>, i: int, j: int) -> bool {
    &&& 0 <= i <= j <= s.len()
    &&& forall|k: int| 0 <= k < i ==> is_white(#[trigger] s[k])
    &&& forall|k: int| j <= k < s.len() ==> is_white(#[trigger] s[k])
    &&& i < j ==> !is_white(s[i]) && !is_white(s[j - 1])
}

/// The text `str::trim` gives for `s`: `s` without its leading and
/// trailing white space.
pub open spec fn trimmed(s: Seq<char>) -> Seq<char> {
    let (i, j) = choose|i: int, j: int| trim_bounds(s, i, j);
    s.subrange(i, j)
}

/// Whether `c` is white space (see [`is_white`]).
pub fn is_white_char(c: char) -> (r: bool)
    ensures
        r == is_white(c),
{
    ('\u{9}' <= c && c <= '\u{d}') || c == ' ' || c == '\u{85}' || c == '\u{a0}' || c == '\u{1680}'
        || ('\u{2000}' <= c && c <= '\u{200a}') || c == '\u{2028}' || c == '\u{2029}' || c
        == '\u{202f}' || c == '\u{205f}' || c == '\u{3000}'
}

/// Any two pairs of trim bounds cut out the same text.
proof fn lemma_trim_bounds_unique(s: Seq<char>, i: int, j: int, i2: int, j2: int)
    requires
        trim_bounds(s, i, j),
        trim_bounds(s, i2, j2),
    ensures
        s.subrange(i, j) == s.subrange(i2, j2),
{
    if i < j && i2 < j2 {
        if i < i2 {
            assert(is_white(s[i]));
        }
        if i2 < i {
            assert(is_white(s[i2]));
        }
        if j < j2 {
            assert(is_white(s[j2 - 1]));
        }
        if j2 < j {
            assert(is_white(s[j - 1]));
        }
    } else if i < j {
        if i < i2 {
            assert(is_white(s[i]));
        } else {
            assert(is_white(s[i]));
        }
    } else if i2 < j2 {
        if i2 < i {
            assert(is_white(s[i2]));
        } else {
            assert(is_white(s[i2]));
        }
    } else {
        assert(s.subrange(i, j) =~= Seq::<char>::empty());
        assert(s.subrange(i2, j2) =~= Seq::<char>::empty());
    }
}

/// `s` without its leading and trailing white space, as `str::trim`
/// gives it.
pub fn trim_text(s: &str) -> (r: String)
    ensures
        r@ == trimmed(s@),
{
    let n = s.unicode_len();
    let mut i: usize = 0;
    while i < n && is_white_char(s.get_char(i))
        invariant
            n == s@.len(),
            i <= n,
            forall|k: int| 0 <= k < i ==> is_white(#[trigger] s@[k]),
        decreases n - i,
    {
        i = i + 1;
    }
    let mut j: usize = n;
    while j > i && is_white_char(s.get_char(j - 1))
        invariant
            n == s@.len(),
            i <= j <= n,
            forall|k: int| 0 <= k < i ==> is_white(#[trigger] s@[k]),
            forall|k: int| j <= k < n ==> is_white(#[trigger] s@[k]),
            i < n ==> !is_white(s@[i as int]),
        decreases j - i,
    {
        j = j - 1;
    }
    proof {
        assert(trim_bounds(s@, i as int, j as int));
        let (a, b) = choose|a: int, b: int| trim_bounds(s@, a, b);
        lemma_trim_bounds_unique(s@, i as int, j as int, a, b);
    }
    s.substring_char(i, j).to_owned()
}

/// Text that holds `pat` holds it at a first position.
pub(crate) proof fn lemma_first_at_exists(s: Seq<char>, pat: Seq<char>, j: int)
    requires
        0 <= j && j + pat.len() <= s.len(),
        s.subrange(j, j + pat.len()) == pat,
    ensures
        exists|i: int| first_at(s, pat, i),
    decreases j,
{
    if exists|k: int| 0 <= k < j && #[trigger] s.subrange(k, k + pat.len()) == pat {
        let k = choose|k: int| 0 <= k < j && #[trigger] s.subrange(k, k + pat.len()) == pat;
        lemma_first_at_exists(s, pat, k);
    } else {
        assert(first_at(s, pat, j));
    }
}

} // verus!
