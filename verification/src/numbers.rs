//! Numeric text: the integer parsers of std that the class and colour code
//! calls, and the grammar of decimal floating-point literals.
//!
//! Floating-point values never enter this crate. Where a class or a style
//! value carries a number, the library checks that its text is a literal that
//! `str::parse` accepts for a float and hands the text on; the renderer turns
//! it into a float.
use vstd::prelude::*;
use vstd::string::*;

verus! {

/// Value of `c` as a digit in base `radix` (10 or 16), or -1.
pub open spec fn digit_value(c: char, radix: int) -> int {
    if '0' <= c && c <= '9' {
        (c as int) - ('0' as int)
    } else if radix == 16 && 'a' <= c && c <= 'f' {
        (c as int) - ('a' as int) + 10
    } else if radix == 16 && 'A' <= c && c <= 'F' {
        (c as int) - ('A' as int) + 10
    } else {
        -1
    }
}

/// Every character of `s` is a digit in base `radix`.
pub open spec fn all_radix_digits(s: Seq<char>, radix: int) -> bool {
    forall|i: int| 0 <= i < s.len() ==> digit_value(#[trigger] s[i], radix) >= 0
}

/// The number that the digits `s` spell in base `radix`.
pub open spec fn digits_value(s: Seq<char>, radix: int) -> int
    decreases s.len(),
{
    if s.len() == 0 {
        0
    } else {
        digits_value(s.drop_last(), radix) * radix + digit_value(s.last(), radix)
    }
}

/// What `from_str_radix` of an unsigned integer type with largest value
/// `max` returns for `s`: an optional `+` sign followed by one or more
/// digits, whose value must not exceed `max`.
pub open spec fn unsigned_parse(s: Seq<char>, radix: int, max: int) -> Option<int> {
    let d = if s.len() > 0 && s[0] == '+' {
        s.skip(1)
    } else {
        s
    };
    if d.len() > 0 && all_radix_digits(d, radix) && digits_value(d, radix) <= max {
        Some(digits_value(d, radix))
    } else {
        None
    }
}

/// `s.parse::<u8>()`, as an option.
#[verifier::external_body]
pub(crate) fn parse_u8(s: &str) -> (r: Option<u8>)
    ensures
        match r {
            Some(v) => unsigned_parse(s@, 10, 255) == Some(v as int),
            None => unsigned_parse(s@, 10, 255) is None,
        },
{
    s.parse::<u8>().ok()
}

/// `s.parse::<u16>()`, as an option.
#[verifier::external_body]
pub(crate) fn parse_u16(s: &str) -> (r: Option<u16>)
    ensures
        match r {
            Some(v) => unsigned_parse(s@, 10, 65535) == Some(v as int),
            None => unsigned_parse(s@, 10, 65535) is None,
        },
{
    s.parse::<u16>().ok()
}

/// `u32::from_str_radix(s, 16)`, as an option.
#[verifier::external_body]
pub(crate) fn parse_hex_u32(s: &str) -> (r: Option<u32>)
    ensures
        match r {
            Some(v) => unsigned_parse(s@, 16, 0xffff_ffff) == Some(v as int),
            None => unsigned_parse(s@, 16, 0xffff_ffff) is None,
        },
{
    u32::from_str_radix(s, 16).ok()
}

/// `0` to `9`.
pub open spec fn is_ascii_digit(c: char) -> bool {
    '0' <= c && c <= '9'
}

/// Every character of `s` is `0` to `9`.
pub open spec fn all_ascii_digits(s: Seq<char>) -> bool {
    forall|i: int| 0 <= i < s.len() ==> is_ascii_digit(#[trigger] s[i])
}

/// Index of the first `.` in `s`, or -1.
pub open spec fn first_dot(s: Seq<char>) -> int
    decreases s.len(),
{
    if s.len() == 0 {
        -1
    } else if s[0] == '.' {
        0
    } else if first_dot(s.skip(1)) < 0 {
        -1
    } else {
        first_dot(s.skip(1)) + 1
    }
}

/// Index of the first `e` or `E` in `s`, or -1.
pub open spec fn first_exp_mark(s: Seq<char>) -> int
    decreases s.len(),
{
    if s.len() == 0 {
        -1
    } else if s[0] == 'e' || s[0] == 'E' {
        0
    } else if first_exp_mark(s.skip(1)) < 0 {
        -1
    } else {
        first_exp_mark(s.skip(1)) + 1
    }
}

/// `s` without one leading `+` or `-`.
pub open spec fn without_sign(s: Seq<char>) -> Seq<char> {
    if s.len() > 0 && (s[0] == '+' || s[0] == '-') {
        s.skip(1)
    } else {
        s
    }
}

/// `Digit+ | Digit+ '.' Digit* | Digit* '.' Digit+`
pub open spec fn is_mantissa(m: Seq<char>) -> bool {
    let d = first_dot(m);
    if d < 0 {
        m.len() > 0 && all_ascii_digits(m)
    } else {
        m.len() >= 2 && all_ascii_digits(m.take(d)) && all_ascii_digits(m.skip(d + 1))
    }
}

/// `Sign? Digit+`, the part after the exponent mark.
pub open spec fn is_exponent(x: Seq<char>) -> bool {
    let y = without_sign(x);
    y.len() > 0 && all_ascii_digits(y)
}

/// `Mantissa Exp?`
pub open spec fn is_decimal(b: Seq<char>) -> bool {
    let e = first_exp_mark(b);
    if e < 0 {
        is_mantissa(b)
    } else {
        is_mantissa(b.take(e)) && is_exponent(b.skip(e + 1))
    }
}

/// `s` spells the word whose lower-case letters are `lower` and whose
/// upper-case letters are `upper`, in any mix of cases.
pub open spec fn ascii_ci_eq(s: Seq<char>, lower: Seq<char>, upper: Seq<char>) -> bool {
    &&& s.len() == lower.len()
    &&& s.len() == upper.len()
    &&& forall|i: int| 0 <= i < s.len() ==> s[i] == lower[i] || s[i] == upper[i]
}

/// The literals that `str::parse` accepts for `f32`, as its documentation
/// gives the grammar:
/// `Sign? ('inf' | 'infinity' | 'nan' | Number)`, with
/// `Number ::= (Digit+ | Digit+ '.' Digit* | Digit* '.' Digit+) Exp?` and
/// `Exp ::= 'e' Sign? Digit+`; the words and the `e` in any case.
pub open spec fn is_float_literal(s: Seq<char>) -> bool {
    let b = without_sign(s);
    ||| ascii_ci_eq(b, seq!['i', 'n', 'f'], seq!['I', 'N', 'F'])
    ||| ascii_ci_eq(
        b,
        seq!['i', 'n', 'f', 'i', 'n', 'i', 't', 'y'],
        seq!['I', 'N', 'F', 'I', 'N', 'I', 'T', 'Y'],
    )
    ||| ascii_ci_eq(b, seq!['n', 'a', 'n'], seq!['N', 'A', 'N'])
    ||| is_decimal(b)
}

fn is_digit_char(c: char) -> (r: bool)
    ensures
        r == is_ascii_digit(c),
{
    '0' <= c && c <= '9'
}

/// Whether the characters `s[from..to]` are all ASCII digits.
fn all_digits_in(s: &Vec<char>, from: usize, to: usize) -> (r: bool)
    requires
        from <= to <= s.len(),
    ensures
        r == all_ascii_digits(s@.subrange(from as int, to as int)),
{
    let mut i = from;
    while i < to
        invariant
            from <= i <= to <= s.len(),
            forall|j: int| from <= j < i ==> is_ascii_digit(s@[j]),
        decreases to - i,
    {
        if !is_digit_char(s[i]) {
            assert(s@.subrange(from as int, to as int)[i - from] == s@[i as int]);
            return false;
        }
        i += 1;
    }
    assert forall|k: int| 0 <= k < to - from implies is_ascii_digit(
        #[trigger] s@.subrange(from as int, to as int)[k],
    ) by {
        assert(s@.subrange(from as int, to as int)[k] == s@[from + k]);
    }
    true
}

proof fn lemma_first_dot(s: Seq<char>, k: int)
    requires
        0 <= k <= s.len(),
        forall|j: int| 0 <= j < k ==> s[j] != '.',
        k < s.len() ==> s[k] == '.',
    ensures
        first_dot(s) == if k < s.len() {
            k
        } else {
            -1
        },
    decreases k,
{
    if k > 0 {
        lemma_first_dot(s.skip(1), k - 1);
    }
}

proof fn lemma_first_exp_mark(s: Seq<char>, k: int)
    requires
        0 <= k <= s.len(),
        forall|j: int| 0 <= j < k ==> s[j] != 'e' && s[j] != 'E',
        k < s.len() ==> (s[k] == 'e' || s[k] == 'E'),
    ensures
        first_exp_mark(s) == if k < s.len() {
            k
        } else {
            -1
        },
    decreases k,
{
    if k > 0 {
        lemma_first_exp_mark(s.skip(1), k - 1);
    }
}

/// Whether `s[from..to]` is a mantissa.
fn mantissa_in(s: &Vec<char>, from: usize, to: usize) -> (r: bool)
    requires
        from <= to <= s.len(),
    ensures
        r == is_mantissa(s@.subrange(from as int, to as int)),
{
    let ghost m = s@.subrange(from as int, to as int);
    let mut d = from;
    while d < to && s[d] != '.'
        invariant
            from <= d <= to <= s.len(),
            m == s@.subrange(from as int, to as int),
            forall|j: int| from <= j < d ==> s@[j] != '.',
        decreases to - d,
    {
        d += 1;
    }
    proof {
        assert forall|j: int| 0 <= j < d - from implies m[j] != '.' by {
            assert(m[j] == s@[from + j]);
        }
        lemma_first_dot(m, d - from);
    }
    if d == to {
        to > from && all_digits_in(s, from, to)
    } else {
        let a = all_digits_in(s, from, d);
        let b = all_digits_in(s, d + 1, to);
        proof {
            assert(m.take(d - from) =~= s@.subrange(from as int, d as int));
            assert(m.skip(d - from + 1) =~= s@.subrange(d + 1, to as int));
        }
        to - from >= 2 && a && b
    }
}

/// Whether `s[from..to]` is an exponent (`Sign? Digit+`).
fn exponent_in(s: &Vec<char>, from: usize, to: usize) -> (r: bool)
    requires
        from <= to <= s.len(),
    ensures
        r == is_exponent(s@.subrange(from as int, to as int)),
{
    let ghost x = s@.subrange(from as int, to as int);
    if from < to && (s[from] == '+' || s[from] == '-') {
        assert(x.skip(1) =~= s@.subrange(from + 1, to as int));
        from + 1 < to && all_digits_in(s, from + 1, to)
    } else {
        from < to && all_digits_in(s, from, to)
    }
}

/// Whether `s[from..]` spells the lower-case ASCII word `w`, ignoring case.
pub(crate) fn ci_eq_from(s: &Vec<char>, from: usize, w: &Vec<char>, u: &Vec<char>) -> (r: bool)
    requires
        from <= s.len(),
        w.len() == u.len(),
    ensures
        r == ascii_ci_eq(s@.skip(from as int), w@, u@),
{
    let ghost b = s@.skip(from as int);
    if s.len() - from != w.len() {
        return false;
    }
    let mut i: usize = 0;
    while i < w.len()
        invariant
            from <= s.len(),
            b == s@.skip(from as int),
            s.len() - from == w.len(),
            w.len() == u.len(),
            i <= w.len(),
            forall|j: int| 0 <= j < i ==> b[j] == w@[j] || b[j] == u@[j],
        decreases w.len() - i,
    {
        let c = s[from + i];
        let same = c == w[i] || c == u[i];
        assert(b[i as int] == c);
        if !same {
            return false;
        }
        i += 1;
    }
    true
}

/// Characters of a string, in order.
pub fn chars_of(s: &str) -> (v: Vec<char>)
    ensures
        v@ == s@,
{
    let n = s.unicode_len();
    let mut v: Vec<char> = Vec::new();
    let mut i: usize = 0;
    while i < n
        invariant
            n == s@.len(),
            i <= n,
            v@ == s@.take(i as int),
        decreases n - i,
    {
        v.push(s.get_char(i));
        i += 1;
        assert(v@ =~= s@.take(i as int));
    }
    assert(s@.take(n as int) =~= s@);
    v
}

/// Whether `str::parse` accepts `s` as an `f32` literal.
pub fn is_float_text(s: &str) -> (r: bool)
    ensures
        r == is_float_literal(s@),
{
    let v = chars_of(s);
    let n = v.len();
    let start: usize = if n > 0 && (v[0] == '+' || v[0] == '-') {
        1
    } else {
        0
    };
    let ghost b = without_sign(s@);
    assert(b =~= v@.skip(start as int));
    let inf = ci_eq_from(&v, start, &vec!['i', 'n', 'f'], &vec!['I', 'N', 'F']);
    let infinity = ci_eq_from(
        &v,
        start,
        &vec!['i', 'n', 'f', 'i', 'n', 'i', 't', 'y'],
        &vec!['I', 'N', 'F', 'I', 'N', 'I', 'T', 'Y'],
    );
    let nan = ci_eq_from(&v, start, &vec!['n', 'a', 'n'], &vec!['N', 'A', 'N']);
    let mut e = start;
    while e < n && v[e] != 'e' && v[e] != 'E'
        invariant
            start <= e <= n,
            n == v.len(),
            forall|j: int| start <= j < e ==> v@[j] != 'e' && v@[j] != 'E',
        decreases n - e,
    {
        e += 1;
    }
    proof {
        assert forall|j: int| 0 <= j < e - start implies b[j] != 'e' && b[j] != 'E' by {
            assert(b[j] == v@[start + j]);
        }
        lemma_first_exp_mark(b, e - start);
    }
    let dec = if e == n {
        assert(v@.subrange(start as int, n as int) =~= b);
        mantissa_in(&v, start, n)
    } else {
        assert(v@.subrange(start as int, e as int) =~= b.take(e - start));
        assert(v@.subrange(e + 1, n as int) =~= b.skip(e - start + 1));
        mantissa_in(&v, start, e) && exponent_in(&v, e + 1, n)
    };
    inf || infinity || nan || dec
}

} // verus!
