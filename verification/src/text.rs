//! Character-level string helpers shared by the class, style and URL code.
//!
//! Strings are modelled by their views, `Seq<char>`; every helper here is
//! stated over those sequences.
use vstd::prelude::*;
use vstd::string::*;

verus! {

/// `p` is a prefix of `s`.
pub open spec fn has_prefix(s: Seq<char>, p: Seq<char>) -> bool {
    p.len() <= s.len() && s.take(p.len() as int) == p
}

/// `p` is a suffix of `s`.
pub open spec fn has_suffix(s: Seq<char>, p: Seq<char>) -> bool {
    p.len() <= s.len() && s.skip(s.len() - p.len()) == p
}

/// What `str::strip_prefix` gives back, as a sequence.
pub open spec fn stripped_prefix(s: Seq<char>, p: Seq<char>) -> Option<Seq<char>> {
    if has_prefix(s, p) {
        Some(s.skip(p.len() as int))
    } else {
        None
    }
}

/// What `str::strip_suffix` gives back, as a sequence.
pub open spec fn stripped_suffix(s: Seq<char>, p: Seq<char>) -> Option<Seq<char>> {
    if has_suffix(s, p) {
        Some(s.take(s.len() - p.len()))
    } else {
        None
    }
}

/// Unicode `White_Space`, the property that `char::is_whitespace` tests.
pub open spec fn is_white_space(c: char) -> bool {
    ||| ('\u{9}' <= c && c <= '\u{d}')
    ||| c == ' '
    ||| c == '\u{85}'
    ||| c == '\u{a0}'
    ||| c == '\u{1680}'
    ||| ('\u{2000}' <= c && c <= '\u{200a}')
    ||| c == '\u{2028}'
    ||| c == '\u{2029}'
    ||| c == '\u{202f}'
    ||| c == '\u{205f}'
    ||| c == '\u{3000}'
}

/// Number of leading white-space characters of `s`.
pub open spec fn leading_white(s: Seq<char>) -> nat
    decreases s.len(),
{
    if s.len() > 0 && is_white_space(s[0]) {
        1 + leading_white(s.skip(1))
    } else {
        0
    }
}

/// Number of trailing white-space characters of `s`.
pub open spec fn trailing_white(s: Seq<char>) -> nat
    decreases s.len(),
{
    if s.len() > 0 && is_white_space(s.last()) {
        1 + trailing_white(s.drop_last())
    } else {
        0
    }
}

/// `str::trim`: `s` without leading and trailing white space.
pub open spec fn trimmed(s: Seq<char>) -> Seq<char> {
    let t = s.skip(leading_white(s) as int);
    t.take(t.len() - trailing_white(t))
}

/// Index of the last occurrence of `c` in `s`, or -1.
pub open spec fn last_index_of(s: Seq<char>, c: char) -> int
    decreases s.len(),
{
    if s.len() == 0 {
        -1
    } else if s.last() == c {
        s.len() - 1
    } else {
        last_index_of(s.drop_last(), c)
    }
}

/// `str::rsplit_once` on a single character: the parts before and after
/// the last occurrence of `c`.
pub open spec fn rsplit_once(s: Seq<char>, c: char) -> Option<(Seq<char>, Seq<char>)> {
    let k = last_index_of(s, c);
    if k < 0 {
        None
    } else {
        Some((s.take(k), s.skip(k + 1)))
    }
}

/// The string as an owned `String` with the same characters.
pub fn to_owned_string(s: &str) -> (r: String)
    ensures
        r@ == s@,
{
    s.to_owned()
}

/// Character equality of two strings.
pub fn str_eq(a: &str, b: &str) -> (r: bool)
    ensures
        r == (a@ == b@),
{
    let n = a.unicode_len();
    let m = b.unicode_len();
    if n != m {
        return false;
    }
    let mut i: usize = 0;
    while i < n
        invariant
            n == a@.len(),
            m == b@.len(),
            n == m,
            i <= n,
            forall|j: int| 0 <= j < i ==> a@[j] == b@[j],
        decreases n - i,
    {
        if a.get_char(i) != b.get_char(i) {
            assert(a@[i as int] != b@[i as int]);
            return false;
        }
        i += 1;
    }
    assert(a@ =~= b@);
    true
}

/// Whether the characters of `p` start `s`, comparing from offset `at`.
fn matches_at(s: &str, p: &str, at: usize) -> (r: bool)
    requires
        at + p@.len() <= s@.len(),
    ensures
        r == (s@.subrange(at as int, at + p@.len()) == p@),
{
    let m = p.unicode_len();
    let n = s.unicode_len();
    let mut i: usize = 0;
    while i < m
        invariant
            m == p@.len(),
            n == s@.len(),
            at + m <= s@.len(),
            i <= m,
            forall|j: int| 0 <= j < i ==> s@[at + j] == p@[j],
        decreases m - i,
    {
        if s.get_char(at + i) != p.get_char(i) {
            assert(s@.subrange(at as int, at + p@.len())[i as int] != p@[i as int]);
            return false;
        }
        i += 1;
    }
    assert(s@.subrange(at as int, at + p@.len()) =~= p@);
    true
}

/// `str::starts_with` for a string pattern.
pub fn starts_with(s: &str, p: &str) -> (r: bool)
    ensures
        r == has_prefix(s@, p@),
{
    let n = s.unicode_len();
    let m = p.unicode_len();
    if m > n {
        return false;
    }
    let r = matches_at(s, p, 0);
    assert(s@.subrange(0, p@.len() as int) =~= s@.take(p@.len() as int));
    r
}

/// `str::ends_with` for a string pattern.
pub fn ends_with(s: &str, p: &str) -> (r: bool)
    ensures
        r == has_suffix(s@, p@),
{
    let n = s.unicode_len();
    let m = p.unicode_len();
    if m > n {
        return false;
    }
    let r = matches_at(s, p, n - m);
    assert(s@.subrange(n - m, (n - m) + p@.len()) =~= s@.skip(s@.len() - p@.len()));
    r
}

/// `str::strip_prefix` for a string pattern.
pub fn strip_prefix<'a>(s: &'a str, p: &str) -> (r: Option<&'a str>)
    ensures
        r matches Some(t) ==> stripped_prefix(s@, p@) == Some(t@),
        r is None ==> stripped_prefix(s@, p@) is None,
{
    if starts_with(s, p) {
        let n = s.unicode_len();
        let m = p.unicode_len();
        let t = s.substring_char(m, n);
        assert(t@ =~= s@.skip(p@.len() as int));
        Some(t)
    } else {
        None
    }
}

/// `str::strip_suffix` for a string pattern.
pub fn strip_suffix<'a>(s: &'a str, p: &str) -> (r: Option<&'a str>)
    ensures
        r matches Some(t) ==> stripped_suffix(s@, p@) == Some(t@),
        r is None ==> stripped_suffix(s@, p@) is None,
{
    if ends_with(s, p) {
        let n = s.unicode_len();
        let m = p.unicode_len();
        let t = s.substring_char(0, n - m);
        assert(t@ =~= s@.take(s@.len() - p@.len()));
        Some(t)
    } else {
        None
    }
}

/// `char::is_whitespace`.
pub fn is_whitespace(c: char) -> (r: bool)
    ensures
        r == is_white_space(c),
{
    ('\u{9}' <= c && c <= '\u{d}') || c == ' ' || c == '\u{85}' || c == '\u{a0}' || c
        == '\u{1680}' || ('\u{2000}' <= c && c <= '\u{200a}') || c == '\u{2028}' || c
        == '\u{2029}' || c == '\u{202f}' || c == '\u{205f}' || c == '\u{3000}'
}

proof fn lemma_leading_white(s: Seq<char>, i: int)
    requires
        0 <= i <= s.len(),
        forall|j: int| 0 <= j < i ==> is_white_space(s[j]),
        i == s.len() || !is_white_space(s[i]),
    ensures
        leading_white(s) == i,
    decreases i,
{
    if i > 0 {
        lemma_leading_white(s.skip(1), i - 1);
    }
}

proof fn lemma_trailing_white(s: Seq<char>, i: int)
    requires
        0 <= i <= s.len(),
        forall|j: int| s.len() - i <= j < s.len() ==> is_white_space(s[j]),
        i == s.len() || !is_white_space(s[s.len() - i - 1]),
    ensures
        trailing_white(s) == i,
    decreases i,
{
    if i > 0 {
        lemma_trailing_white(s.drop_last(), i - 1);
    }
}

/// `str::trim`.
pub fn trim<'a>(s: &'a str) -> (r: &'a str)
    ensures
        r@ == trimmed(s@),
{
    let n = s.unicode_len();
    let mut i: usize = 0;
    while i < n && is_whitespace(s.get_char(i))
        invariant
            n == s@.len(),
            i <= n,
            forall|j: int| 0 <= j < i ==> is_white_space(s@[j]),
        decreases n - i,
    {
        i += 1;
    }
    proof {
        lemma_leading_white(s@, i as int);
    }
    let mut k: usize = 0;
    while k < n - i && is_whitespace(s.get_char(n - 1 - k))
        invariant
            n == s@.len(),
            i <= n,
            k <= n - i,
            forall|j: int| n - k <= j < n ==> is_white_space(s@[j]),
        decreases n - i - k,
    {
        k += 1;
    }
    let t = s.substring_char(i, n - k);
    proof {
        let u = s@.skip(i as int);
        assert forall|j: int| u.len() - k <= j < u.len() implies is_white_space(u[j]) by {
            assert(u[j] == s@[i + j]);
        }
        if k < n - i {
            assert(u[u.len() - k - 1] == s@[n - 1 - k]);
        }
        lemma_trailing_white(u, k as int);
        assert(t@ =~= trimmed(s@));
    }
    t
}

/// `str::rsplit_once` on a single character.
pub fn rsplit_once_char<'a>(s: &'a str, c: char) -> (r: Option<(&'a str, &'a str)>)
    ensures
        match r {
            Some((a, b)) => rsplit_once(s@, c) == Some((a@, b@)),
            None => rsplit_once(s@, c) is None,
        },
{
    let n = s.unicode_len();
    let mut k: usize = n;
    while k > 0 && s.get_char(k - 1) != c
        invariant
            n == s@.len(),
            k <= n,
            forall|j: int| k <= j < n ==> s@[j] != c,
        decreases k,
    {
        k -= 1;
    }
    proof {
        lemma_last_index_is(s@, c, k as int - 1);
    }
    if k == 0 {
        None
    } else {
        let a = s.substring_char(0, k - 1);
        let b = s.substring_char(k, n);
        assert(a@ =~= s@.take(k - 1));
        assert(b@ =~= s@.skip(k as int));
        Some((a, b))
    }
}

/// The index of a `c` with none after it (or -1 where there is none) is
/// `last_index_of`.
pub proof fn lemma_last_index_is(s: Seq<char>, c: char, k: int)
    requires
        -1 <= k < s.len(),
        k >= 0 ==> s[k] == c,
        forall|j: int| k < j < s.len() ==> s[j] != c,
    ensures
        last_index_of(s, c) == k,
    decreases s.len(),
{
    if s.len() > 0 && s.last() != c {
        let d = s.drop_last();
        assert forall|j: int| k < j < d.len() implies d[j] != c by {
            assert(d[j] == s[j]);
        }
        if k >= 0 {
            assert(d[k] == s[k]);
        }
        lemma_last_index_is(d, c, k);
    }
}

/// Index of the first occurrence of `c` in `s`, or -1.
pub open spec fn first_index_of(s: Seq<char>, c: char) -> int
    decreases s.len(),
{
    if s.len() == 0 {
        -1
    } else if s[0] == c {
        0
    } else if first_index_of(s.skip(1), c) < 0 {
        -1
    } else {
        first_index_of(s.skip(1), c) + 1
    }
}

/// `first_index_of` is -1 or the index of a `c` with none before it.
pub proof fn lemma_first_index_of(s: Seq<char>, c: char)
    ensures
        -1 <= first_index_of(s, c) < s.len(),
        first_index_of(s, c) >= 0 ==> s[first_index_of(s, c)] == c,
        forall|j: int| 0 <= j < s.len() && (first_index_of(s, c) < 0 || j < first_index_of(s, c))
            ==> s[j] != c,
    decreases s.len(),
{
    if s.len() > 0 && s[0] != c {
        lemma_first_index_of(s.skip(1), c);
        assert forall|j: int|
            0 <= j < s.len() && (first_index_of(s, c) < 0 || j < first_index_of(s, c)) implies s[j]
            != c by {
            if j > 0 {
                assert(s.skip(1)[j - 1] == s[j]);
            }
        }
    }
}

/// The index of a `c` with none before it (or the length, where there is
/// none) gives `first_index_of`.
proof fn lemma_first_index_is(s: Seq<char>, c: char, k: int)
    requires
        0 <= k <= s.len(),
        forall|j: int| 0 <= j < k ==> s[j] != c,
        k < s.len() ==> s[k] == c,
    ensures
        first_index_of(s, c) == if k < s.len() {
            k
        } else {
            -1
        },
    decreases k,
{
    if k > 0 {
        lemma_first_index_is(s.skip(1), c, k - 1);
    }
}

/// `str::split` on a single character: the pieces between occurrences of
/// `c`, in order (one piece more than there are occurrences).
pub open spec fn split_on(s: Seq<char>, c: char) -> Seq<Seq<char>>
    decreases s.len(),
{
    let k = first_index_of(s, c);
    if k < 0 {
        seq![s]
    } else {
        proof {
            lemma_first_index_of(s, c);
        }
        seq![s.take(k)] + split_on(s.skip(k + 1), c)
    }
}

/// `s.split(c)`, collected.
pub fn split_char<'a>(s: &'a str, c: char) -> (parts: Vec<&'a str>)
    ensures
        parts@.map_values(|p: &str| p@) == split_on(s@, c),
{
    let n = s.unicode_len();
    let mut parts: Vec<&'a str> = Vec::new();
    let mut start: usize = 0;
    let mut i: usize = 0;
    assert(s@.skip(0) =~= s@);
    assert(parts@.map_values(|p: &str| p@) + split_on(s@, c) =~= split_on(s@, c));
    while i < n
        invariant
            n == s@.len(),
            start <= i <= n,
            forall|j: int| start <= j < i ==> s@[j] != c,
            split_on(s@, c) == parts@.map_values(|p: &str| p@) + split_on(s@.skip(start as int), c),
        decreases n - i,
    {
        if s.get_char(i) == c {
            let piece = s.substring_char(start, i);
            let ghost rest = s@.skip(start as int);
            proof {
                assert forall|j: int| 0 <= j < i - start implies rest[j] != c by {
                    assert(rest[j] == s@[start + j]);
                }
                lemma_first_index_is(rest, c, i - start);
                assert(rest.take(i - start) =~= piece@);
                assert(rest.skip(i - start + 1) =~= s@.skip(i + 1));
            }
            let ghost before = parts@.map_values(|p: &str| p@);
            parts.push(piece);
            assert(parts@.map_values(|p: &str| p@) =~= before.push(piece@));
            assert(split_on(rest, c) == seq![piece@] + split_on(s@.skip(i + 1), c));
            assert(split_on(s@, c) =~= parts@.map_values(|p: &str| p@) + split_on(
                s@.skip(i + 1),
                c,
            ));
            start = i + 1;
        }
        i += 1;
    }
    let piece = s.substring_char(start, n);
    let ghost rest = s@.skip(start as int);
    proof {
        assert forall|j: int| 0 <= j < rest.len() implies rest[j] != c by {
            assert(rest[j] == s@[start + j]);
        }
        lemma_first_index_is(rest, c, rest.len() as int);
        assert(rest =~= piece@);
    }
    let ghost before = parts@.map_values(|p: &str| p@);
    parts.push(piece);
    assert(parts@.map_values(|p: &str| p@) =~= before.push(piece@));
    assert(split_on(s@, c) =~= parts@.map_values(|p: &str| p@));
    parts
}

/// `l` occurs in `t` as a run of consecutive characters.
pub open spec fn contains_text(t: Seq<char>, l: Seq<char>) -> bool {
    exists|i: int| 0 <= i && i + l.len() <= t.len() && #[trigger] t.subrange(i, i + l.len()) == l
}

/// `str::contains` for a string pattern.
pub fn contains_str(t: &str, l: &str) -> (r: bool)
    ensures
        r == contains_text(t@, l@),
{
    let n = t.unicode_len();
    let m = l.unicode_len();
    if m > n {
        return false;
    }
    let mut i: usize = 0;
    loop
        invariant
            n == t@.len(),
            m == l@.len(),
            m <= n,
            i <= n - m,
            forall|j: int| 0 <= j < i ==> #[trigger] t@.subrange(j, j + l@.len()) != l@,
        decreases n - m - i,
    {
        if matches_at(t, l, i) {
            return true;
        }
        if i == n - m {
            return false;
        }
        i += 1;
    }
}

/// Number of bytes of the UTF-8 encoding of `c`.
pub open spec fn utf8_width(c: char) -> nat {
    if c <= '\u{7f}' {
        1
    } else if c <= '\u{7ff}' {
        2
    } else if c <= '\u{ffff}' {
        3
    } else {
        4
    }
}

/// Number of bytes of the UTF-8 encoding of `s` (`str::len`).
pub open spec fn utf8_len(s: Seq<char>) -> nat
    decreases s.len(),
{
    if s.len() == 0 {
        0
    } else {
        utf8_len(s.drop_last()) + utf8_width(s.last())
    }
}

/// Number of bytes of the UTF-8 encoding of `s`.
pub fn utf8_len_of(s: &str) -> (n: u128)
    ensures
        n == utf8_len(s@),
{
    let m = s.unicode_len();
    let mut n: u128 = 0;
    let mut i: usize = 0;
    while i < m
        invariant
            m == s@.len(),
            i <= m,
            n == utf8_len(s@.take(i as int)),
            n <= 4 * i,
        decreases m - i,
    {
        let c = s.get_char(i);
        let w: u128 = if c <= '\u{7f}' {
            1
        } else if c <= '\u{7ff}' {
            2
        } else if c <= '\u{ffff}' {
            3
        } else {
            4
        };
        assert(s@.take(i + 1).drop_last() =~= s@.take(i as int));
        n = n + w;
        i += 1;
    }
    assert(s@.take(m as int) =~= s@);
    n
}

} // verus!
