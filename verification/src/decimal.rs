//! Syntax of the decimal numbers in which the site reports coordinates.
//!
//! A coordinate is accepted when it is written as
//!
//! ```text
//! Float  ::= Sign? ( 'inf' | 'infinity' | 'nan' | Number )
//! Number ::= ( Digit+ | Digit+ '.' Digit* | Digit* '.' Digit+ ) Exp?
//! Exp    ::= 'e' Sign? Digit+
//! ```
//!
//! with letters in either case, which is the syntax that the standard
//! library reads as a 64-bit floating-point number.

use vstd::prelude::*;
use crate::text::{chars_of, is_digit, is_sign};

verus! {

/// ASCII lower-case form of `c`.
pub open spec fn lower(c: char) -> char {
    if 65 <= c as u32 <= 90 {
        ((c as u32 + 32) as u8) as char
    } else {
        c
    }
}

/// Index of the first character at or after `i` that is no digit.
pub open spec fn digits_end(s: Seq<char>, i: int) -> int
    decreases s.len() - i,
{
    if 0 <= i < s.len() && is_digit(s[i]) {
        digits_end(s, i + 1)
    } else {
        i
    }
}

/// From `from` to its end, `s` reads as `word`, letter case aside.
pub open spec fn is_word(s: Seq<char>, from: int, word: Seq<char>) -> bool {
    &&& s.len() - from == word.len()
    &&& forall|i: int| 0 <= i < word.len() ==> lower(#[trigger] s[from + i]) == word[i]
}

/// From `at` to its end, `s` is an exponent: `e`, an optional sign, digits.
pub open spec fn is_exponent(s: Seq<char>, at: int) -> bool {
    let digits = if at + 1 < s.len() && is_sign(s[at + 1]) {
        at + 2
    } else {
        at + 1
    };
    &&& 0 <= at < s.len()
    &&& lower(s[at]) == 'e'
    &&& digits < s.len()
    &&& digits_end(s, digits) == s.len()
}

/// From `from` to its end, `s` is a number: digits with at most one point
/// among them, at least one digit, and an optional exponent.
pub open spec fn is_number(s: Seq<char>, from: int) -> bool {
    let whole_end = digits_end(s, from);
    let pointed = whole_end < s.len() && s[whole_end] == '.';
    let mantissa_end = if pointed {
        digits_end(s, whole_end + 1)
    } else {
        whole_end
    };
    let digit_count = if pointed {
        mantissa_end - from - 1
    } else {
        mantissa_end - from
    };
    &&& digit_count >= 1
    &&& (mantissa_end == s.len() || is_exponent(s, mantissa_end))
}

/// `s` is written as a decimal floating-point number.
pub open spec fn is_float_text(s: Seq<char>) -> bool {
    let from: int = if s.len() > 0 && is_sign(s[0]) {
        1
    } else {
        0
    };
    ||| is_word(s, from, seq!['i', 'n', 'f'])
    ||| is_word(s, from, seq!['i', 'n', 'f', 'i', 'n', 'i', 't', 'y'])
    ||| is_word(s, from, seq!['n', 'a', 'n'])
    ||| is_number(s, from)
}

/// From `from` up to `to`, `s` holds digits only.
pub open spec fn digits_between(s: Seq<char>, from: int, to: int) -> bool {
    &&& 0 <= from <= to <= s.len()
    &&& forall|j: int| from <= j < to ==> is_digit(#[trigger] s[j])
}

/// From `from` to its end, `s` falls into the parts of a number: digits up
/// to `whole_end`; then nothing, or a point and digits, up to
/// `mantissa_end`, with a digit on one side of the point at least; then
/// nothing, or `e`, an optional sign, and one or more digits, which start at
/// `exponent_digits`.
pub open spec fn has_number_shape(
    s: Seq<char>,
    from: int,
    whole_end: int,
    mantissa_end: int,
    exponent_digits: int,
) -> bool {
    &&& digits_between(s, from, whole_end)
    &&& if mantissa_end == whole_end {
        whole_end > from
    } else {
        &&& whole_end < s.len()
        &&& s[whole_end] == '.'
        &&& digits_between(s, whole_end + 1, mantissa_end)
        &&& mantissa_end - from > 1
    }
    &&& if mantissa_end == s.len() {
        exponent_digits == s.len()
    } else {
        &&& mantissa_end < s.len()
        &&& lower(s[mantissa_end]) == 'e'
        &&& exponent_digits == mantissa_end + 1 || (exponent_digits == mantissa_end + 2 && is_sign(
            s[mantissa_end + 1],
        ))
        &&& exponent_digits < s.len()
        &&& digits_between(s, exponent_digits, s.len() as int)
    }
}

/// The digits that start at `i` end where `digits_end` says: all before it
/// are digits, and what stands there is none.
pub proof fn lemma_digits_end(s: Seq<char>, i: int)
    requires
        0 <= i <= s.len(),
    ensures
        digits_between(s, i, digits_end(s, i)),
        digits_end(s, i) == s.len() || !is_digit(s[digits_end(s, i)]),
    decreases s.len() - i,
{
    if i < s.len() && is_digit(s[i]) {
        lemma_digits_end(s, i + 1);
    }
}

/// A run of digits from `i` that stops at `to` before a character that is no
/// digit, or at the end, is the run that `digits_end` finds.
pub proof fn lemma_digits_end_unique(s: Seq<char>, i: int, to: int)
    requires
        digits_between(s, i, to),
        to == s.len() || !is_digit(s[to]),
    ensures
        digits_end(s, i) == to,
    decreases to - i,
{
    if i < to {
        assert(is_digit(s[i]));
        lemma_digits_end_unique(s, i + 1, to);
    }
}

/// A text is a number exactly when it falls into the parts of one.
pub proof fn lemma_number_shape(s: Seq<char>, from: int)
    requires
        0 <= from <= s.len(),
    ensures
        is_number(s, from) <==> exists|whole_end: int, mantissa_end: int, exponent_digits: int|
            has_number_shape(s, from, whole_end, mantissa_end, exponent_digits),
{
    if is_number(s, from) {
        let whole_end = digits_end(s, from);
        lemma_digits_end(s, from);
        let pointed = whole_end < s.len() && s[whole_end] == '.';
        let mantissa_end = if pointed {
            digits_end(s, whole_end + 1)
        } else {
            whole_end
        };
        if pointed {
            lemma_digits_end(s, whole_end + 1);
        }
        let exponent_digits = if mantissa_end == s.len() {
            s.len() as int
        } else if mantissa_end + 1 < s.len() && is_sign(s[mantissa_end + 1]) {
            mantissa_end + 2
        } else {
            mantissa_end + 1
        };
        if mantissa_end < s.len() {
            lemma_digits_end(s, exponent_digits);
        }
        assert(has_number_shape(s, from, whole_end, mantissa_end, exponent_digits));
    }
    if exists|whole_end: int, mantissa_end: int, exponent_digits: int|
        has_number_shape(s, from, whole_end, mantissa_end, exponent_digits) {
        let (whole_end, mantissa_end, exponent_digits) = choose|
            whole_end: int,
            mantissa_end: int,
            exponent_digits: int,
        | has_number_shape(s, from, whole_end, mantissa_end, exponent_digits);
        lemma_digits_end_unique(s, from, whole_end);
        if mantissa_end != whole_end {
            lemma_digits_end_unique(s, whole_end + 1, mantissa_end);
        }
        if mantissa_end < s.len() {
            assert(is_digit(s[exponent_digits]));
            lemma_digits_end_unique(s, exponent_digits, s.len() as int);
        }
        assert(is_number(s, from));
    }
}

/// ASCII lower-case form of `c`.
fn lower_of(c: char) -> (r: char)
    ensures
        r == lower(c),
{
    let n: u32 = c as u32;
    if 65 <= n && n <= 90 {
        ((n + 32) as u8) as char
    } else {
        c
    }
}

/// Whether a digit stands at `i`.
fn digit_at(v: &Vec<char>, i: usize) -> (r: bool)
    requires
        i < v.len(),
    ensures
        r == is_digit(v@[i as int]),
{
    let n: u32 = v[i] as u32;
    48 <= n && n <= 57
}

/// Whether a sign stands at `i`.
fn sign_at(v: &Vec<char>, i: usize) -> (r: bool)
    ensures
        r == (i < v.len() && is_sign(v@[i as int])),
{
    i < v.len() && (v[i] == '+' || v[i] == '-')
}

/// The index after the digits that start at `i`.
fn skip_digits(v: &Vec<char>, i: usize) -> (j: usize)
    requires
        i <= v.len(),
    ensures
        j == digits_end(v@, i as int),
        i <= j <= v.len(),
{
    let mut j: usize = i;
    while j < v.len() && digit_at(v, j)
        invariant
            i <= j <= v.len(),
            digits_end(v@, j as int) == digits_end(v@, i as int),
        decreases v.len() - j,
    {
        j += 1;
    }
    j
}

/// Whether `v` reads as `word` from `from` to its end, letter case aside.
fn word_at(v: &Vec<char>, from: usize, word: &Vec<char>) -> (r: bool)
    requires
        from <= v.len(),
    ensures
        r == is_word(v@, from as int, word@),
{
    if v.len() - from != word.len() {
        return false;
    }
    let mut i: usize = 0;
    while i < word.len()
        invariant
            from <= v.len(),
            v.len() - from == word.len(),
            i <= word.len(),
            forall|k: int| 0 <= k < i ==> lower(#[trigger] v@[from + k]) == word@[k],
        decreases word.len() - i,
    {
        if lower_of(v[from + i]) != word[i] {
            return false;
        }
        i += 1;
    }
    true
}

/// Whether `v` is an exponent from `at` to its end.
fn exponent_at(v: &Vec<char>, at: usize) -> (r: bool)
    requires
        at < v.len(),
    ensures
        r == is_exponent(v@, at as int),
{
    if lower_of(v[at]) != 'e' {
        return false;
    }
    let digits: usize = if sign_at(v, at + 1) {
        at + 2
    } else {
        at + 1
    };
    digits < v.len() && skip_digits(v, digits) == v.len()
}

/// Whether `v` is a number from `from` to its end.
fn number_at(v: &Vec<char>, from: usize) -> (r: bool)
    requires
        from <= v.len(),
    ensures
        r == is_number(v@, from as int),
{
    let whole_end: usize = skip_digits(v, from);
    let pointed: bool = whole_end < v.len() && v[whole_end] == '.';
    let mantissa_end: usize = if pointed {
        skip_digits(v, whole_end + 1)
    } else {
        whole_end
    };
    let digit_count: usize = if pointed {
        mantissa_end - from - 1
    } else {
        mantissa_end - from
    };
    digit_count >= 1 && (mantissa_end == v.len() || exponent_at(v, mantissa_end))
}

/// Whether `s` is written as a decimal floating-point number.
pub fn is_float(s: &str) -> (r: bool)
    ensures
        r == is_float_text(s@),
{
    let v = chars_of(s);
    let from: usize = if sign_at(&v, 0) {
        1
    } else {
        0
    };
    let inf: Vec<char> = vec!['i', 'n', 'f'];
    let infinity: Vec<char> = vec!['i', 'n', 'f', 'i', 'n', 'i', 't', 'y'];
    let nan: Vec<char> = vec!['n', 'a', 'n'];
    assert(inf@ =~= seq!['i', 'n', 'f']);
    assert(infinity@ =~= seq!['i', 'n', 'f', 'i', 'n', 'i', 't', 'y']);
    assert(nan@ =~= seq!['n', 'a', 'n']);
    word_at(&v, from, &inf) || word_at(&v, from, &infinity) || word_at(&v, from, &nan)
        || number_at(&v, from)
}

} // verus!
