//! Text as sequences of characters: trimming, prefixes, splitting, case and
//! decimal numbers.

use vstd::prelude::*;
use vstd::string::StrSliceExecFns;

verus! {

/// Whether `c` is white space: one of the characters that Unicode classes
/// as `White_Space`.
pub open spec fn is_space(c: char) -> bool {
    let u = c as u32;
    ||| 0x09 <= u <= 0x0d
    ||| u == 0x20
    ||| u == 0x85
    ||| u == 0xa0
    ||| u == 0x1680
    ||| 0x2000 <= u <= 0x200a
    ||| u == 0x2028
    ||| u == 0x2029
    ||| u == 0x202f
    ||| u == 0x205f
    ||| u == 0x3000
}

/// `s` without the white space at its start.
pub open spec fn trim_start(s: Seq<char>) -> Seq<char>
    decreases s.len(),
{
    if s.len() > 0 && is_space(s.first()) {
        trim_start(s.drop_first())
    } else {
        s
    }
}

/// `s` without the white space at its end.
pub open spec fn trim_end(s: Seq<char>) -> Seq<char>
    decreases s.len(),
{
    if s.len() > 0 && is_space(s.last()) {
        trim_end(s.drop_last())
    } else {
        s
    }
}

/// `s` without the white space at its start and at its end.
pub open spec fn trim(s: Seq<char>) -> Seq<char> {
    trim_end(trim_start(s))
}

/// Whether `s` begins with `p`.
pub open spec fn has_prefix(s: Seq<char>, p: Seq<char>) -> bool {
    p.len() <= s.len() && s.subrange(0, p.len() as int) == p
}

/// What follows the first `n` characters of `s`.
pub open spec fn after(s: Seq<char>, n: int) -> Seq<char> {
    s.subrange(n, s.len() as int)
}

/// The upper-case form of an ASCII letter; any other character is itself.
pub open spec fn upper(c: char) -> char {
    if 'a' <= c <= 'z' {
        ((c as u8) - 32) as char
    } else {
        c
    }
}

/// The lower-case form of an ASCII letter; any other character is itself.
pub open spec fn lower(c: char) -> char {
    if 'A' <= c <= 'Z' {
        ((c as u8) + 32) as char
    } else {
        c
    }
}

/// `s` with its ASCII letters in upper case.
pub open spec fn to_upper(s: Seq<char>) -> Seq<char> {
    Seq::new(s.len(), |k: int| upper(s[k]))
}

/// `s` with its ASCII letters in lower case.
pub open spec fn to_lower(s: Seq<char>) -> Seq<char> {
    Seq::new(s.len(), |k: int| lower(s[k]))
}

/// The pieces of `s` between the occurrences of `sep`, in order. There is
/// always at least one piece, and a piece may be empty.
pub open spec fn split(s: Seq<char>, sep: char) -> Seq<Seq<char>>
    decreases s.len(),
{
    if s.len() == 0 {
        seq![Seq::<char>::empty()]
    } else {
        let head = split(s.drop_last(), sep);
        if s.last() == sep {
            head.push(Seq::<char>::empty())
        } else {
            head.drop_last().push(head.last().push(s.last()))
        }
    }
}

/// Whether `c` is a decimal digit.
pub open spec fn is_digit(c: char) -> bool {
    '0' <= c <= '9'
}

/// Whether `s` consists of decimal digits, and of at least one.
pub open spec fn all_digits(s: Seq<char>) -> bool {
    s.len() > 0 && forall|k: int| 0 <= k < s.len() ==> is_digit(#[trigger] s[k])
}

/// The number that the decimal digits of `s` write.
pub open spec fn decimal(s: Seq<char>) -> int
    decreases s.len(),
{
    if s.len() == 0 {
        0
    } else {
        10 * decimal(s.drop_last()) + (s.last() as u8 - 0x30)
    }
}

/// The number that `s` writes in decimal, with an optional sign before the
/// digits, if it is one that 32 bits hold.
pub open spec fn parse_i32(s: Seq<char>) -> Option<i32> {
    let negative = s.len() > 0 && s[0] == '-';
    let digits = if s.len() > 0 && (s[0] == '-' || s[0] == '+') {
        s.drop_first()
    } else {
        s
    };
    let value = if negative {
        -decimal(digits)
    } else {
        decimal(digits)
    };
    if all_digits(digits) && i32::MIN <= value <= i32::MAX {
        Some(value as i32)
    } else {
        None
    }
}

/// Trimming takes a piece out of the middle: `trim(s)` is `s` from some
/// index to another.
pub proof fn lemma_trim_start_is_suffix(s: Seq<char>)
    ensures
        exists|a: int| 0 <= a <= s.len() && trim_start(s) == #[trigger] s.subrange(a, s.len() as int),
    decreases s.len(),
{
    if s.len() > 0 && is_space(s.first()) {
        let t = s.drop_first();
        lemma_trim_start_is_suffix(t);
        let a = choose|a: int| 0 <= a <= t.len() && trim_start(t) == #[trigger] t.subrange(a, t.len() as int);
        assert(t.subrange(a, t.len() as int) == s.subrange(a + 1, s.len() as int));
    } else {
        assert(s == s.subrange(0, s.len() as int));
    }
}

/// The decimal value of digits is not negative, and grows with each digit.
pub proof fn lemma_decimal_bounds(s: Seq<char>)
    requires
        forall|k: int| 0 <= k < s.len() ==> is_digit(#[trigger] s[k]),
    ensures
        decimal(s) >= 0,
        s.len() > 0 ==> decimal(s) >= decimal(s.drop_last()),
    decreases s.len(),
{
    if s.len() > 0 {
        let t = s.drop_last();
        assert forall|k: int| 0 <= k < t.len() implies is_digit(#[trigger] t[k]) by {
            assert(t[k] == s[k]);
        }
        lemma_decimal_bounds(t);
        assert(is_digit(s[s.len() - 1]));
    }
}

/// Computes `is_space`.
pub fn is_space_char(c: char) -> (b: bool)
    ensures
        b == is_space(c),
{
    let u: u32 = c as u32;
    (0x09 <= u && u <= 0x0d) || u == 0x20 || u == 0x85 || u == 0xa0 || u == 0x1680 || (0x2000 <= u
        && u <= 0x200a) || u == 0x2028 || u == 0x2029 || u == 0x202f || u == 0x205f || u == 0x3000
}

/// Computes `upper`.
pub fn upper_char(c: char) -> (r: char)
    ensures
        r == upper(c),
{
    if 'a' <= c && c <= 'z' {
        ((c as u8) - 32) as char
    } else {
        c
    }
}

/// Computes `lower`.
pub fn lower_char(c: char) -> (r: char)
    ensures
        r == lower(c),
{
    if 'A' <= c && c <= 'Z' {
        ((c as u8) + 32) as char
    } else {
        c
    }
}

/// The characters of `s`.
pub fn to_chars(s: &str) -> (v: Vec<char>)
    ensures
        v@ == s@,
{
    let mut v: Vec<char> = Vec::new();
    for c in it: s.chars()
        invariant
            it.seq() == s@,
            v@ == s@.take(it.index() as int),
    {
        v.push(c);
        assert(s@.take(it.index() + 1) == s@.take(it.index() as int).push(c));
    }
    assert(s@.take(s@.len() as int) == s@);
    v
}

/// Whether two texts hold the same characters.
pub fn same_text(a: &str, b: &str) -> (eq: bool)
    ensures
        eq == (a@ == b@),
{
    let x = to_chars(a);
    let y = to_chars(b);
    assert(x@.subrange(0, x.len() as int) == x@);
    same_chars(&x, 0, x.len(), &y)
}

/// Whether the characters of `v` from `from` to `to` are those of `w`.
pub fn same_chars(v: &Vec<char>, from: usize, to: usize, w: &Vec<char>) -> (eq: bool)
    requires
        from <= to <= v.len(),
    ensures
        eq == (v@.subrange(from as int, to as int) == w@),
{
    if to - from != w.len() {
        return false;
    }
    let n = w.len();
    let mut i: usize = 0;
    while i < n
        invariant
            i <= n,
            n == w.len(),
            n == to - from,
            from <= to <= v.len(),
            forall|k: int| 0 <= k < i ==> v[from + k] == w[k],
        decreases n - i,
    {
        if v[from + i] != w[i] {
            assert(v@.subrange(from as int, to as int)[i as int] != w@[i as int]);
            return false;
        }
        i += 1;
    }
    assert(v@.subrange(from as int, to as int) =~= w@);
    true
}

/// Whether the characters of `v` from `from` to `to`, with ASCII letters in
/// the case that `fold` gives them, are those of `w`.
fn same_folded(v: &Vec<char>, from: usize, to: usize, w: &Vec<char>, to_up: bool) -> (eq: bool)
    requires
        from <= to <= v.len(),
    ensures
        to_up ==> eq == (to_upper(v@.subrange(from as int, to as int)) == w@),
        !to_up ==> eq == (to_lower(v@.subrange(from as int, to as int)) == w@),
{
    let ghost piece = v@.subrange(from as int, to as int);
    let ghost folded = if to_up {
        to_upper(piece)
    } else {
        to_lower(piece)
    };
    if to - from != w.len() {
        return false;
    }
    let n = w.len();
    let mut i: usize = 0;
    while i < n
        invariant
            i <= n,
            n == w.len(),
            n == to - from,
            from <= to <= v.len(),
            piece == v@.subrange(from as int, to as int),
            folded == if to_up {
                to_upper(piece)
            } else {
                to_lower(piece)
            },
            forall|k: int| 0 <= k < i ==> folded[k] == w[k],
        decreases n - i,
    {
        let c = if to_up {
            upper_char(v[from + i])
        } else {
            lower_char(v[from + i])
        };
        assert(c == folded[i as int]);
        if c != w[i] {
            return false;
        }
        i += 1;
    }
    assert(folded =~= w@);
    true
}

/// Whether the characters of `v` from `from` to `to`, in upper case, are
/// those of `name`.
pub fn upper_is(v: &Vec<char>, from: usize, to: usize, name: &str) -> (eq: bool)
    requires
        from <= to <= v.len(),
    ensures
        eq == (to_upper(v@.subrange(from as int, to as int)) == name@),
{
    let w = to_chars(name);
    same_folded(v, from, to, &w, true)
}

/// Whether the characters of `v` from `from` to `to`, in lower case, are
/// those of `name`.
pub fn lower_is(v: &Vec<char>, from: usize, to: usize, name: &str) -> (eq: bool)
    requires
        from <= to <= v.len(),
    ensures
        eq == (to_lower(v@.subrange(from as int, to as int)) == name@),
{
    let w = to_chars(name);
    same_folded(v, from, to, &w, false)
}

/// Whether `v` begins with `prefix`.
pub fn starts_with(v: &Vec<char>, prefix: &str) -> (b: bool)
    ensures
        b == has_prefix(v@, prefix@),
{
    let p = to_chars(prefix);
    if p.len() > v.len() {
        return false;
    }
    same_chars(v, 0, p.len(), &p)
}

/// The bounds of what trimming leaves of the characters of `v` from `from`
/// to `to`.
pub fn trim_bounds(v: &Vec<char>, from: usize, to: usize) -> (r: (usize, usize))
    requires
        from <= to <= v.len(),
    ensures
        from <= r.0 <= r.1 <= to,
        v@.subrange(r.0 as int, r.1 as int) == trim(v@.subrange(from as int, to as int)),
{
    let mut a: usize = from;
    while a < to && is_space_char(v[a])
        invariant
            from <= a <= to <= v.len(),
            trim_start(v@.subrange(from as int, to as int)) == trim_start(
                v@.subrange(a as int, to as int),
            ),
        decreases to - a,
    {
        assert(v@.subrange(a as int, to as int).drop_first() == v@.subrange(a + 1, to as int));
        a += 1;
    }
    assert(trim_start(v@.subrange(a as int, to as int)) == v@.subrange(a as int, to as int));
    let mut b: usize = to;
    while b > a && is_space_char(v[b - 1])
        invariant
            a <= b <= to <= v.len(),
            trim_end(v@.subrange(a as int, to as int)) == trim_end(v@.subrange(a as int, b as int)),
        decreases b - a,
    {
        assert(v@.subrange(a as int, b as int).drop_last() == v@.subrange(a as int, b - 1));
        b -= 1;
    }
    assert(trim_end(v@.subrange(a as int, b as int)) == v@.subrange(a as int, b as int));
    (a, b)
}

/// The text of `s` from character `from` to character `to`.
pub fn slice(s: &str, from: usize, to: usize) -> (r: String)
    requires
        from <= to <= s@.len(),
    ensures
        r@ == s@.subrange(from as int, to as int),
{
    s.substring_char(from, to).to_owned()
}

/// The pieces of the characters of `v` from `from` to `to` between the
/// occurrences of `sep`, each given by its bounds.
pub fn split_bounds(v: &Vec<char>, from: usize, to: usize, sep: char) -> (parts: Vec<
    (usize, usize),
>)
    requires
        from <= to <= v.len(),
    ensures
        parts.len() == split(v@.subrange(from as int, to as int), sep).len(),
        parts.len() >= 1,
        forall|k: int|
            0 <= k < parts.len() ==> {
                &&& from <= (#[trigger] parts[k]).0 <= parts[k].1 <= to
                &&& v@.subrange(parts[k].0 as int, parts[k].1 as int) == split(
                    v@.subrange(from as int, to as int),
                    sep,
                )[k]
            },
{
    let mut parts: Vec<(usize, usize)> = Vec::new();
    let mut start: usize = from;
    let mut i: usize = from;
    assert(v@.subrange(from as int, from as int) =~= Seq::<char>::empty());
    while i < to
        invariant
            from <= start <= i <= to <= v.len(),
            parts.len() + 1 == split(v@.subrange(from as int, i as int), sep).len(),
            v@.subrange(start as int, i as int) == split(
                v@.subrange(from as int, i as int),
                sep,
            ).last(),
            forall|k: int|
                0 <= k < parts.len() ==> {
                    &&& from <= (#[trigger] parts[k]).0 <= parts[k].1 <= to
                    &&& v@.subrange(parts[k].0 as int, parts[k].1 as int) == split(
                        v@.subrange(from as int, i as int),
                        sep,
                    )[k]
                },
        decreases to - i,
    {
        let ghost before = v@.subrange(from as int, i as int);
        let ghost next = v@.subrange(from as int, i + 1);
        assert(next.drop_last() == before);
        assert(next.last() == v@[i as int]);
        if v[i] == sep {
            parts.push((start, i));
            start = i + 1;
            assert(v@.subrange(start as int, i + 1) =~= Seq::<char>::empty());
        } else {
            assert(v@.subrange(start as int, i + 1) == v@.subrange(start as int, i as int).push(
                v@[i as int],
            ));
        }
        i += 1;
    }
    parts.push((start, to));
    parts
}

/// The largest size of a number that 32 bits hold with a sign.
pub const I32_REACH: i64 = 0x8000_0000;

/// The number that the digits `s` write, if `s` consists of digits and the
/// number is at most `I32_REACH`.
pub open spec fn small_decimal(s: Seq<char>) -> Option<int> {
    if all_digits(s) && decimal(s) <= I32_REACH {
        Some(decimal(s))
    } else {
        None
    }
}

/// Reads decimal digits from the characters of `v` from `from` to `to`.
fn parse_digits(v: &Vec<char>, from: usize, to: usize) -> (r: Option<i64>)
    requires
        from <= to <= v.len(),
    ensures
        match small_decimal(v@.subrange(from as int, to as int)) {
            Some(n) => r == Some(n as i64),
            None => r is None,
        },
{
    let ghost digits = v@.subrange(from as int, to as int);
    if from == to {
        return None;
    }
    let mut i: usize = from;
    let mut value: i64 = 0;
    while i < to
        invariant
            from <= i <= to <= v.len(),
            digits == v@.subrange(from as int, to as int),
            forall|k: int| from <= k < i ==> is_digit(#[trigger] v[k]),
            value == decimal(v@.subrange(from as int, i as int)),
            0 <= value <= I32_REACH,
        decreases to - i,
    {
        let c = v[i];
        let ghost sofar = v@.subrange(from as int, i as int);
        let ghost next = v@.subrange(from as int, i + 1);
        assert(next.drop_last() == sofar);
        assert(next.last() == c);
        if !('0' <= c && c <= '9') {
            assert(!is_digit(digits[i - from]));
            return None;
        }
        let d: i64 = (c as u8 - 0x30) as i64;
        let grown: i64 = 10 * value + d;
        if grown > I32_REACH {
            proof {
                lemma_decimal_tail(digits, i - from + 1);
                assert(digits.take(i - from + 1) == next);
            }
            return None;
        }
        value = grown;
        i += 1;
    }
    assert(v@.subrange(from as int, to as int) == digits);
    assert(all_digits(digits)) by {
        assert forall|k: int| 0 <= k < digits.len() implies is_digit(#[trigger] digits[k]) by {
            assert(digits[k] == v[from + k]);
        }
    }
    Some(value)
}

/// Reads a decimal number with an optional sign from the characters of `v`
/// from `from` to `to`.
pub fn parse_i32_chars(v: &Vec<char>, from: usize, to: usize) -> (r: Option<i32>)
    requires
        from <= to <= v.len(),
    ensures
        r == parse_i32(v@.subrange(from as int, to as int)),
{
    let ghost s = v@.subrange(from as int, to as int);
    let signed = from < to && (v[from] == '-' || v[from] == '+');
    let negative = from < to && v[from] == '-';
    let first = if signed {
        from + 1
    } else {
        from
    };
    proof {
        if signed {
            assert(s.drop_first() == v@.subrange(first as int, to as int));
        }
        if first < to {
            lemma_decimal_bounds_if_digits(v@.subrange(first as int, to as int));
        }
    }
    match parse_digits(v, first, to) {
        Some(value) => if negative {
            Some((-value) as i32)
        } else if value > 0x7fff_ffff {
            None
        } else {
            Some(value as i32)
        },
        None => None,
    }
}

/// The decimal value of digits is not negative.
proof fn lemma_decimal_bounds_if_digits(s: Seq<char>)
    ensures
        all_digits(s) ==> decimal(s) >= 0,
{
    if all_digits(s) {
        lemma_decimal_bounds(s);
    }
}

/// Digits that follow can only make a number larger: the value of all of
/// `s` is at least the value of its first `n` characters, where the rest
/// are digits too. Where `s` is not all digits nothing is claimed.
pub proof fn lemma_decimal_tail(s: Seq<char>, n: int)
    requires
        0 <= n <= s.len(),
    ensures
        (forall|k: int| 0 <= k < s.len() ==> is_digit(#[trigger] s[k])) ==> decimal(s) >= decimal(
            s.take(n),
        ),
    decreases s.len() - n,
{
    if forall|k: int| 0 <= k < s.len() ==> is_digit(#[trigger] s[k]) {
        if n == s.len() {
            assert(s.take(n) == s);
        } else {
            lemma_decimal_tail(s, n + 1);
            let t = s.take(n + 1);
            assert forall|k: int| 0 <= k < t.len() implies is_digit(#[trigger] t[k]) by {
                assert(t[k] == s[k]);
            }
            lemma_decimal_bounds(t);
            assert(t.drop_last() == s.take(n));
        }
    }
}

} // verus!
