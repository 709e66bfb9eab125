//! Text primitives: whitespace trimming, path segments, integer and
//! decimal-number syntax.

use vstd::prelude::*;
use vstd::std_specs::iter::IteratorSpec;
use vstd::string::*;

verus! {

/// Code points with the Unicode property `White_Space`.
pub open spec fn is_white_space(c: char) -> bool {
    let n = c as u32;
    ||| 0x09 <= n <= 0x0D
    ||| n == 0x20
    ||| n == 0x85
    ||| n == 0xA0
    ||| n == 0x1680
    ||| 0x2000 <= n <= 0x200A
    ||| n == 0x2028
    ||| n == 0x2029
    ||| n == 0x202F
    ||| n == 0x205F
    ||| n == 0x3000
}

/// `s` without its leading whitespace.
pub open spec fn trim_start_spec(s: Seq<char>) -> Seq<char>
    decreases s.len(),
{
    if s.len() > 0 && is_white_space(s[0]) {
        trim_start_spec(s.drop_first())
    } else {
        s
    }
}

/// `s` without its trailing whitespace.
pub open spec fn trim_end_spec(s: Seq<char>) -> Seq<char>
    decreases s.len(),
{
    if s.len() > 0 && is_white_space(s.last()) {
        trim_end_spec(s.drop_last())
    } else {
        s
    }
}

/// `s` without leading and trailing whitespace.
pub open spec fn trimmed(s: Seq<char>) -> Seq<char> {
    trim_end_spec(trim_start_spec(s))
}

/// Leading whitespace ends at `k`: the trimmed text starts there.
pub proof fn lemma_trim_start(s: Seq<char>, k: int)
    requires
        0 <= k <= s.len(),
        forall|j: int| 0 <= j < k ==> is_white_space(s[j]),
        k == s.len() || !is_white_space(s[k]),
    ensures
        trim_start_spec(s) == s.subrange(k, s.len() as int),
    decreases k,
{
    if k == 0 {
        assert(s.subrange(0, s.len() as int) =~= s);
    } else {
        let rest = s.drop_first();
        lemma_trim_start(rest, k - 1);
        assert(rest.subrange(k - 1, rest.len() as int) =~= s.subrange(k, s.len() as int));
    }
}

/// Trailing whitespace starts at `k`: the trimmed text ends there.
pub proof fn lemma_trim_end(s: Seq<char>, k: int)
    requires
        0 <= k <= s.len(),
        forall|j: int| k <= j < s.len() ==> is_white_space(s[j]),
        k == 0 || !is_white_space(s[k - 1]),
    ensures
        trim_end_spec(s) == s.subrange(0, k),
    decreases s.len() - k,
{
    if k == s.len() {
        assert(s.subrange(0, k) =~= s);
    } else {
        let rest = s.drop_last();
        lemma_trim_end(rest, k);
        assert(rest.subrange(0, k) =~= s.subrange(0, k));
    }
}

/// Trimmed text keeps no whitespace at either end, and trimming it again
/// changes nothing.
pub proof fn lemma_trimmed_is_bare(s: Seq<char>)
    ensures
        trimmed(s).len() > 0 ==> !is_white_space(trimmed(s)[0]) && !is_white_space(
            trimmed(s).last(),
        ),
        trimmed(trimmed(s)) == trimmed(s),
{
    lemma_trim_start_bare(s);
    lemma_trim_end_bare(trim_start_spec(s));
    let t = trimmed(s);
    if t.len() > 0 {
        lemma_trim_end_keeps_head(trim_start_spec(s));
    }
}

/// Text trimmed at its start does not begin with whitespace.
proof fn lemma_trim_start_bare(s: Seq<char>)
    ensures
        trim_start_spec(s).len() > 0 ==> !is_white_space(trim_start_spec(s)[0]),
    decreases s.len(),
{
    if s.len() > 0 && is_white_space(s[0]) {
        lemma_trim_start_bare(s.drop_first());
    }
}

/// Text trimmed at its end does not end in whitespace.
proof fn lemma_trim_end_bare(s: Seq<char>)
    ensures
        trim_end_spec(s).len() > 0 ==> !is_white_space(trim_end_spec(s).last()),
    decreases s.len(),
{
    if s.len() > 0 && is_white_space(s.last()) {
        lemma_trim_end_bare(s.drop_last());
    }
}

/// Trimming the end of a text leaves its first character in place.
proof fn lemma_trim_end_keeps_head(s: Seq<char>)
    ensures
        trim_end_spec(s).len() > 0 ==> s.len() > 0 && trim_end_spec(s)[0] == s[0],
    decreases s.len(),
{
    if s.len() > 0 && is_white_space(s.last()) {
        lemma_trim_end_keeps_head(s.drop_last());
    }
}

/// Whether `c` is whitespace.
pub fn is_white_space_char(c: char) -> (r: bool)
    ensures
        r == is_white_space(c),
{
    let n: u32 = c as u32;
    (0x09 <= n && n <= 0x0D) || n == 0x20 || n == 0x85 || n == 0xA0 || n == 0x1680 || (0x2000 <= n
        && n <= 0x200A) || n == 0x2028 || n == 0x2029 || n == 0x202F || n == 0x205F || n == 0x3000
}

/// A copy of `s` without its leading and trailing whitespace.
pub fn trim_owned(s: &str) -> (r: String)
    ensures
        r@ == trimmed(s@),
{
    let v = chars_of(s);
    let n: usize = v.len();
    let mut start: usize = 0;
    while start < n && is_white_space_char(v[start])
        invariant
            start <= n,
            n == v.len(),
            forall|j: int| 0 <= j < start ==> is_white_space(v@[j]),
        decreases n - start,
    {
        start += 1;
    }
    let mut end: usize = n;
    while end > start && is_white_space_char(v[end - 1])
        invariant
            start <= end <= n,
            n == v.len(),
            forall|j: int| end <= j < n ==> is_white_space(v@[j]),
        decreases end,
    {
        end -= 1;
    }
    proof {
        let tail = v@.subrange(start as int, n as int);
        lemma_trim_start(v@, start as int);
        lemma_trim_end(tail, end - start);
        assert(tail.subrange(0, end - start) =~= v@.subrange(start as int, end as int));
    }
    s.substring_char(start, end).to_owned()
}

/// `c` is one of the ASCII digits `0` to `9`.
pub open spec fn is_digit(c: char) -> bool {
    48 <= c as u32 <= 57
}

/// `c` is `+` or `-`.
pub open spec fn is_sign(c: char) -> bool {
    c == '+' || c == '-'
}

/// Value of a sequence of ASCII digits read as a decimal numeral.
pub open spec fn digits_value(s: Seq<char>) -> nat
    decreases s.len(),
{
    if s.len() == 0 {
        0
    } else {
        (digits_value(s.drop_last()) * 10 + (s.last() as u32 - 48)) as nat
    }
}

/// Every character of `s` is a digit.
pub open spec fn all_digits(s: Seq<char>) -> bool {
    forall|i: int| 0 <= i < s.len() ==> is_digit(#[trigger] s[i])
}

/// The 32-bit signed integer that `s` denotes: an optional sign, then one or
/// more ASCII digits, with a value that fits. `None` for any other text.
pub open spec fn parse_int_spec(s: Seq<char>) -> Option<int> {
    let signed = s.len() > 0 && is_sign(s[0]);
    let body = if signed { s.drop_first() } else { s };
    let magnitude = digits_value(body) as int;
    let value = if signed && s[0] == '-' { -magnitude } else { magnitude };
    if body.len() > 0 && all_digits(body) && i32::MIN <= value <= i32::MAX {
        Some(value)
    } else {
        None
    }
}

/// The value of the digits of `v` from `start` on, where all of them are
/// digits and the value is at most 2^31.
fn digits_magnitude(v: &Vec<char>, start: usize) -> (r: Option<u64>)
    requires
        start <= v.len(),
    ensures
        match r {
            Some(m) => all_digits(v@.subrange(start as int, v.len() as int)) && m == digits_value(
                v@.subrange(start as int, v.len() as int),
            ) && m <= 2147483648,
            None => !all_digits(v@.subrange(start as int, v.len() as int)) || digits_value(
                v@.subrange(start as int, v.len() as int),
            ) > 2147483648,
        },
{
    let n: usize = v.len();
    let ghost body = v@.subrange(start as int, n as int);
    let mut magnitude: u64 = 0;
    let mut too_big: bool = false;
    let mut i: usize = start;
    while i < n
        invariant
            start <= i <= n,
            n == v.len(),
            body == v@.subrange(start as int, n as int),
            forall|j: int| start <= j < i ==> is_digit(v@[j]),
            !too_big ==> magnitude == digits_value(v@.subrange(start as int, i as int))
                && magnitude <= 2147483648,
            too_big ==> digits_value(v@.subrange(start as int, i as int)) > 2147483648,
        decreases n - i,
    {
        let c: u32 = v[i] as u32;
        if c < 48 || c > 57 {
            assert(body[i - start] == v@[i as int]);
            return None;
        }
        let digit: u64 = (c - 48) as u64;
        proof {
            let shorter = v@.subrange(start as int, i as int);
            let longer = v@.subrange(start as int, i + 1);
            assert(longer.drop_last() =~= shorter);
            assert(longer.last() == v@[i as int]);
            assert(digits_value(longer) == digits_value(shorter) * 10 + digit);
        }
        if !too_big {
            magnitude = magnitude * 10 + digit;
            if magnitude > 2147483648 {
                too_big = true;
            }
        }
        i += 1;
    }
    assert(v@.subrange(start as int, i as int) == body);
    assert forall|j: int| 0 <= j < body.len() implies is_digit(#[trigger] body[j]) by {
        assert(body[j] == v@[start + j]);
    }
    if too_big {
        None
    } else {
        Some(magnitude)
    }
}

/// Reads `s` as a 32-bit signed integer in decimal.
pub fn parse_i32(s: &str) -> (r: Option<i32>)
    ensures
        match r {
            Some(v) => parse_int_spec(s@) == Some(v as int),
            None => parse_int_spec(s@).is_none(),
        },
{
    let v = chars_of(s);
    let n: usize = v.len();
    let signed: bool = n > 0 && (v[0] == '+' || v[0] == '-');
    let start: usize = if signed {
        1
    } else {
        0
    };
    proof {
        if signed {
            assert(v@.subrange(start as int, n as int) =~= s@.drop_first());
        } else {
            assert(v@.subrange(start as int, n as int) =~= s@);
        }
    }
    if start == n {
        return None;
    }
    let magnitude: u64 = match digits_magnitude(&v, start) {
        Some(m) => m,
        None => {
            return None;
        },
    };
    let value: i64 = if signed && v[0] == '-' {
        -(magnitude as i64)
    } else {
        magnitude as i64
    };
    if value > 2147483647 {
        None
    } else {
        Some(value as i32)
    }
}

/// The character that writes the digit `d`.
pub open spec fn digit_char(d: nat) -> char {
    ((48 + d) as u8) as char
}

/// Decimal numeral of a natural number, without leading zeros.
pub open spec fn digits_text(n: nat) -> Seq<char>
    decreases n,
{
    if n < 10 {
        seq![digit_char(n)]
    } else {
        digits_text(n / 10).push(digit_char(n % 10))
    }
}

/// Decimal numeral of an integer, with `-` in front of a negative one.
pub open spec fn decimal_text(n: int) -> Seq<char> {
    if n < 0 {
        seq!['-'] + digits_text((-n) as nat)
    } else {
        digits_text(n as nat)
    }
}

/// The numeral of a natural number is made of digits, at least one, and
/// its value is that number.
pub proof fn lemma_digits_text(n: nat)
    ensures
        digits_text(n).len() >= 1,
        all_digits(digits_text(n)),
        digits_value(digits_text(n)) == n,
    decreases n,
{
    let text = digits_text(n);
    if n < 10 {
        assert(text.drop_last() =~= Seq::<char>::empty());
        assert(digits_value(text.drop_last()) == 0);
        assert(text.last() == digit_char(n));
    } else {
        lemma_digits_text(n / 10);
        let front = digits_text(n / 10);
        assert(text.drop_last() =~= front);
        assert(text.last() == digit_char(n % 10));
        assert forall|i: int| 0 <= i < text.len() implies is_digit(#[trigger] text[i]) by {
            if i < front.len() {
                assert(text[i] == front[i]);
            }
        }
    }
}

/// Reading the numeral of a 32-bit integer gives the integer back.
pub proof fn lemma_parse_decimal_text(n: int)
    requires
        i32::MIN <= n <= i32::MAX,
    ensures
        parse_int_spec(decimal_text(n)) == Some(n),
{
    let text = decimal_text(n);
    if n < 0 {
        lemma_digits_text((-n) as nat);
        assert(text.drop_first() =~= digits_text((-n) as nat));
        assert(text[0] == '-');
    } else {
        lemma_digits_text(n as nat);
        assert(is_digit(text[0]));
    }
}

/// The numeral of one decimal digit.
pub fn digit_text(d: u64) -> (r: String)
    requires
        d < 10,
    ensures
        r@ == seq![digit_char(d as nat)],
{
    let numeral: &str = if d == 0 {
        "0"
    } else if d == 1 {
        "1"
    } else if d == 2 {
        "2"
    } else if d == 3 {
        "3"
    } else if d == 4 {
        "4"
    } else if d == 5 {
        "5"
    } else if d == 6 {
        "6"
    } else if d == 7 {
        "7"
    } else if d == 8 {
        "8"
    } else {
        "9"
    };
    proof {
        reveal_strlit("0");
        reveal_strlit("1");
        reveal_strlit("2");
        reveal_strlit("3");
        reveal_strlit("4");
        reveal_strlit("5");
        reveal_strlit("6");
        reveal_strlit("7");
        reveal_strlit("8");
        reveal_strlit("9");
        assert(numeral@ =~= seq![digit_char(d as nat)]);
    }
    numeral.to_owned()
}

/// The decimal numeral of `n`.
pub fn i32_text(n: i32) -> (r: String)
    ensures
        r@ == decimal_text(n as int),
{
    let whole: u64 = if n < 0 {
        (-(n as i64)) as u64
    } else {
        n as u64
    };
    let mut left: u64 = whole;
    let mut digits: String = String::new();
    while left >= 10
        invariant
            digits_text(whole as nat) == digits_text(left as nat) + digits@,
        decreases left,
    {
        let last = digit_text(left % 10);
        proof {
            assert(digits_text(left as nat) =~= digits_text((left / 10) as nat) + last@);
        }
        digits = last.concat(digits.as_str());
        left = left / 10;
    }
    let first = digit_text(left);
    let numeral = first.concat(digits.as_str());
    if n < 0 {
        proof {
            reveal_strlit("-");
            assert("-"@ =~= seq!['-']);
        }
        "-".to_owned().concat(numeral.as_str())
    } else {
        numeral
    }
}

/// The characters of `s`, one element per character.
pub fn chars_of(s: &str) -> (v: Vec<char>)
    ensures
        v@ == s@,
{
    broadcast use {axiom_spec_iter, next_postcondition};

    let mut v: Vec<char> = Vec::new();
    let mut rest = s.chars();
    loop
        invariant
            rest.obeys_prophetic_iter_laws(),
            rest.decrease() is Some,
            v@ + rest.remaining() == s@,
        decreases rest.decrease()->0,
    {
        match rest.next() {
            Some(c) => {
                v.push(c);
                assert(v@ + rest.remaining() =~= s@);
            },
            None => {
                assert(v@ =~= s@);
                return v;
            },
        }
    }
}

/// Index at which the last `/`-separated segment of `s` begins.
pub open spec fn last_segment_start(s: Seq<char>) -> int
    decreases s.len(),
{
    if s.len() == 0 || s.last() == '/' {
        s.len() as int
    } else {
        last_segment_start(s.drop_last())
    }
}

/// What follows the last `/` of `s`; all of `s` where it holds no `/`.
pub open spec fn last_segment(s: Seq<char>) -> Seq<char> {
    s.subrange(last_segment_start(s), s.len() as int)
}

/// The last segment starts at `k` when a `/` (or nothing) stands before `k`
/// and none stands after it.
pub proof fn lemma_last_segment_start(s: Seq<char>, k: int)
    requires
        0 <= k <= s.len(),
        k == 0 || s[k - 1] == '/',
        forall|j: int| k <= j < s.len() ==> s[j] != '/',
    ensures
        last_segment_start(s) == k,
    decreases s.len(),
{
    if s.len() > k {
        lemma_last_segment_start(s.drop_last(), k);
    }
}

/// The last segment is a suffix of the text, holds no `/`, and is preceded by
/// a `/` unless it is the whole text.
pub proof fn lemma_last_segment(s: Seq<char>)
    ensures
        0 <= last_segment_start(s) <= s.len(),
        last_segment_start(s) == 0 || s[last_segment_start(s) - 1] == '/',
        forall|j: int| last_segment_start(s) <= j < s.len() ==> s[j] != '/',
    decreases s.len(),
{
    if !(s.len() == 0 || s.last() == '/') {
        let t = s.drop_last();
        lemma_last_segment(t);
        assert forall|j: int| last_segment_start(s) <= j < s.len() implies s[j] != '/' by {
            if j < t.len() {
                assert(t[j] == s[j]);
            }
        }
    }
}

/// The last `/`-separated segment of `path`.
pub fn last_segment_of(path: &str) -> (r: String)
    ensures
        r@ == last_segment(path@),
{
    let v = chars_of(path);
    let n: usize = v.len();
    let mut k: usize = n;
    while k > 0 && v[k - 1] != '/'
        invariant
            k <= n,
            n == v.len(),
            forall|j: int| k <= j < n ==> v@[j] != '/',
        decreases k,
    {
        k -= 1;
    }
    proof {
        lemma_last_segment_start(v@, k as int);
    }
    path.substring_char(k, n).to_owned()
}

} // verus!
