//! Scanning text: blanks, separators and numbers.

use vstd::prelude::*;
use vstd::string::StrSliceExecFns;

verus! {

/// Whether `c` is white space: a character with the Unicode property
/// `White_Space`.
pub open spec fn is_whitespace(c: char) -> bool {
    let code = c as u32;
    ||| 0x09 <= code <= 0x0d
    ||| code == 0x20
    ||| code == 0x85
    ||| code == 0xa0
    ||| code == 0x1680
    ||| 0x2000 <= code <= 0x200a
    ||| code == 0x2028
    ||| code == 0x2029
    ||| code == 0x202f
    ||| code == 0x205f
    ||| code == 0x3000
}

/// The first place from `from` up to `to` that holds no white space, or
/// `to` where all is white.
pub open spec fn skip_blanks(text: Seq<char>, from: int, to: int) -> int
    decreases to - from,
{
    if from >= to {
        to
    } else if is_whitespace(text[from]) {
        skip_blanks(text, from + 1, to)
    } else {
        from
    }
}

/// The place after the last character between `from` and `to` that is
/// no white space, or `from` where all is white.
pub open spec fn drop_blanks(text: Seq<char>, from: int, to: int) -> int
    decreases to - from,
{
    if from >= to {
        from
    } else if is_whitespace(text[to - 1]) {
        drop_blanks(text, from, to - 1)
    } else {
        to
    }
}

/// The part of `text` between `from` and `to` without the white space
/// at its two ends: where it begins and where it ends.
pub open spec fn spec_trim(text: Seq<char>, from: int, to: int) -> (int, int) {
    let first = skip_blanks(text, from, to);
    (first, drop_blanks(text, first, to))
}

/// The first place from `from` up to `to` that holds `c`, or `to` where
/// none does.
pub open spec fn spec_find_char(text: Seq<char>, c: char, from: int, to: int) -> int
    decreases to - from,
{
    if from >= to {
        to
    } else if text[from] == c {
        from
    } else {
        spec_find_char(text, c, from + 1, to)
    }
}

/// What is found between `from` and `to` lies between them.
pub proof fn lemma_find_char_between(text: Seq<char>, c: char, from: int, to: int)
    requires
        from <= to,
    ensures
        from <= spec_find_char(text, c, from, to) <= to,
    decreases to - from,
{
    if from < to && text[from] != c {
        lemma_find_char_between(text, c, from + 1, to);
    }
}

/// The number that the decimal digits of `text` from `from` up to `to`
/// spell; 0 where there are none.
pub open spec fn decimal_value(text: Seq<char>, from: int, to: int) -> int
    decreases to - from,
{
    if from >= to {
        0
    } else {
        decimal_value(text, from, to - 1) * 10 + (text[to - 1] as u32 - 48)
    }
}

/// Whether every character of `text` from `from` up to `to` is a
/// decimal digit.
pub open spec fn all_digits(text: Seq<char>, from: int, to: int) -> bool {
    forall|i: int| from <= i < to ==> '0' <= #[trigger] text[i] <= '9'
}

/// The number that `text` spells between `from` and `to`: one or more
/// decimal digits, after a `+` or not, whose value a `usize` can hold.
pub open spec fn number_of(text: Seq<char>, from: int, to: int) -> Option<int> {
    let digits = if from < to && text[from] == '+' {
        from + 1
    } else {
        from
    };
    if digits >= to || !all_digits(text, digits, to) || decimal_value(text, digits, to)
        > usize::MAX {
        None
    } else {
        Some(decimal_value(text, digits, to))
    }
}

/// The value of some digits is no less than the value of the digits
/// that they begin with.
pub proof fn lemma_decimal_value_grows(text: Seq<char>, from: int, middle: int, to: int)
    requires
        from <= middle <= to,
        all_digits(text, from, to),
    ensures
        0 <= decimal_value(text, from, middle) <= decimal_value(text, from, to),
    decreases to - middle,
{
    if middle < to {
        lemma_decimal_value_grows(text, from, middle, to - 1);
        assert('0' <= text[to - 1] <= '9');
    } else {
        lemma_decimal_value_nonnegative(text, from, to);
    }
}

/// The value of some digits is not negative.
pub proof fn lemma_decimal_value_nonnegative(text: Seq<char>, from: int, to: int)
    requires
        all_digits(text, from, to),
    ensures
        0 <= decimal_value(text, from, to),
    decreases to - from,
{
    if from < to {
        lemma_decimal_value_nonnegative(text, from, to - 1);
        assert('0' <= text[to - 1] <= '9');
    }
}

/// The characters of `s`.
pub fn to_chars(s: &str) -> (chars: Vec<char>)
    ensures
        chars@ == s@,
{
    let mut chars: Vec<char> = Vec::new();
    for c in it: s.chars()
        invariant
            chars@ == it.seq().take(it.index()),
    {
        chars.push(c);
    }
    chars
}

/// The part of `text` from character `from` up to character `to`, as a
/// string of its own.
pub fn substring(text: &str, from: usize, to: usize) -> (part: String)
    requires
        from <= to <= text@.len(),
    ensures
        part@ == text@.subrange(from as int, to as int),
{
    text.substring_char(from, to).to_owned()
}

/// Whether `c` is white space.
pub fn is_blank(c: char) -> (blank: bool)
    ensures
        blank == is_whitespace(c),
{
    let code = c as u32;
    (0x09 <= code && code <= 0x0d) || code == 0x20 || code == 0x85 || code == 0xa0 || code
        == 0x1680 || (0x2000 <= code && code <= 0x200a) || code == 0x2028 || code == 0x2029
        || code == 0x202f || code == 0x205f || code == 0x3000
}

/// Finds the part between `from` and `to` that is left when the white
/// space at its two ends is dropped.
pub fn trim(chars: &Vec<char>, from: usize, to: usize) -> (range: (usize, usize))
    requires
        from <= to <= chars@.len(),
    ensures
        (range.0 as int, range.1 as int) == spec_trim(chars@, from as int, to as int),
        from <= range.0 <= range.1 <= to,
{
    let mut first: usize = from;
    while first < to && is_blank(chars[first])
        invariant
            from <= first <= to <= chars@.len(),
            skip_blanks(chars@, from as int, to as int) == skip_blanks(
                chars@,
                first as int,
                to as int,
            ),
        decreases to - first,
    {
        first += 1;
    }
    let mut end: usize = to;
    while first < end && is_blank(chars[end - 1])
        invariant
            first <= end <= to <= chars@.len(),
            drop_blanks(chars@, first as int, to as int) == drop_blanks(
                chars@,
                first as int,
                end as int,
            ),
        decreases end - first,
    {
        end -= 1;
    }
    (first, end)
}

/// Finds the first `c` between `from` and `to`; `to` where there is
/// none.
pub fn find_char(chars: &Vec<char>, c: char, from: usize, to: usize) -> (at: usize)
    requires
        from <= to <= chars@.len(),
    ensures
        at == spec_find_char(chars@, c, from as int, to as int),
        from <= at <= to,
{
    let mut at: usize = from;
    while at < to && chars[at] != c
        invariant
            from <= at <= to <= chars@.len(),
            spec_find_char(chars@, c, from as int, to as int) == spec_find_char(
                chars@,
                c,
                at as int,
                to as int,
            ),
        decreases to - at,
    {
        at += 1;
    }
    at
}

/// Reads the number between `from` and `to`: one or more decimal
/// digits, after a `+` or not. There is none where another character
/// stands there, or where the value is too large for a `usize`.
pub fn parse_number(chars: &Vec<char>, from: usize, to: usize) -> (number: Option<usize>)
    requires
        from <= to <= chars@.len(),
    ensures
        match number {
            Some(value) => number_of(chars@, from as int, to as int) == Some(value as int),
            None => number_of(chars@, from as int, to as int) is None,
        },
{
    let digits: usize = if from < to && chars[from] == '+' {
        from + 1
    } else {
        from
    };
    if digits >= to {
        return None;
    }
    let mut value: usize = 0;
    let mut at: usize = digits;
    while at < to
        invariant
            digits <= at <= to <= chars@.len(),
            digits == if from < to && chars@[from as int] == '+' {
                from + 1
            } else {
                from as int
            },
            all_digits(chars@, digits as int, at as int),
            value == decimal_value(chars@, digits as int, at as int),
        decreases to - at,
    {
        let c = chars[at];
        if !('0' <= c && c <= '9') {
            assert(!all_digits(chars@, digits as int, to as int)) by {
                assert(!('0' <= chars@[at as int] <= '9'));
            }
            return None;
        }
        let digit: usize = ((c as u32) - 48) as usize;
        proof {
            assert(decimal_value(chars@, digits as int, at + 1) == value * 10 + digit);
            if all_digits(chars@, digits as int, to as int) {
                lemma_decimal_value_grows(chars@, digits as int, at + 1, to as int);
            }
        }
        let tens = match value.checked_mul(10) {
            None => {
                return None;
            },
            Some(tens) => tens,
        };
        value = match tens.checked_add(digit) {
            None => {
                return None;
            },
            Some(sum) => sum,
        };
        at += 1;
    }
    Some(value)
}

} // verus!
