//! Text as sequences of characters: searching, splitting, trimming, and decimal numbers.

use vstd::prelude::*;
use vstd::string::StringSliceAdditionalSpecFns;

verus! {

broadcast use vstd::string::group_string_axioms;

/// The index of the first `c` in `s`, or the length of `s` where there is none.
pub open spec fn position(s: Seq<char>, c: char) -> int
    decreases s.len(),
{
    if s.len() == 0 || s[0] == c {
        0
    } else {
        1 + position(s.drop_first(), c)
    }
}

/// The pieces of `s` between its separators: one more than there are separators.
pub open spec fn split(s: Seq<char>, separator: char) -> Seq<Seq<char>>
    decreases s.len(),
{
    let at = position(s, separator);
    if 0 <= at < s.len() {
        seq![s.take(at)] + split(s.skip(at + 1), separator)
    } else {
        seq![s]
    }
}

/// White space among the ASCII characters.
pub open spec fn is_space(c: char) -> bool {
    c == ' ' || 9 <= c as u32 <= 13
}

/// `s` without the white space at its start.
pub open spec fn trim_start(s: Seq<char>) -> Seq<char>
    decreases s.len(),
{
    if s.len() > 0 && is_space(s[0]) {
        trim_start(s.drop_first())
    } else {
        s
    }
}

/// `s` without the white space at its end.
pub open spec fn trim_end(s: Seq<char>) -> Seq<char>
    decreases s.len(),
{
    if s.len() > 0 && is_space(s.last()) {
        trim_end(s.drop_last())
    } else {
        s
    }
}

/// `s` without the white space at its two ends.
pub open spec fn trimmed(s: Seq<char>) -> Seq<char> {
    trim_end(trim_start(s))
}

/// `c` made small where it is an ASCII capital.
pub open spec fn lowercase_char(c: char) -> char {
    if 'A' <= c <= 'Z' {
        ((c as u32 + 32) as u32) as char
    } else {
        c
    }
}

/// `s` with its ASCII capitals made small, and everything else as it was.
pub open spec fn lowercased(s: Seq<char>) -> Seq<char> {
    s.map_values(|c: char| lowercase_char(c))
}

pub open spec fn is_digit(c: char) -> bool {
    '0' <= c <= '9'
}

/// The number that a run of decimal digits writes.
pub open spec fn decimal_value(digits: Seq<char>) -> int
    decreases digits.len(),
{
    if digits.len() == 0 {
        0
    } else {
        decimal_value(digits.drop_last()) * 10 + (digits.last() as int - '0' as int)
    }
}

/// The decimal digits of `n`, without leading zeros.
pub open spec fn decimal(n: nat) -> Seq<char>
    decreases n,
{
    let digit = ((n % 10) as u32 + '0' as u32) as char;
    if n < 10 {
        seq![digit]
    } else {
        decimal(n / 10).push(digit)
    }
}

/// What an unsigned number may look like: digits, with at most one `+` before them.
pub open spec fn unsigned_digits(s: Seq<char>) -> Seq<char> {
    if s.len() > 0 && s[0] == '+' {
        s.drop_first()
    } else {
        s
    }
}

/// The number that `s` writes, where `s` writes one that fits in 64 bits.
pub open spec fn unsigned_value(s: Seq<char>) -> Option<int> {
    let digits = unsigned_digits(s);
    if digits.len() > 0 && (forall|i: int| 0 <= i < digits.len() ==> is_digit(digits[i]))
        && decimal_value(digits) <= u64::MAX {
        Some(decimal_value(digits))
    } else {
        None
    }
}

/// Whether two texts have the same characters.
pub fn same_text(a: &str, b: &str) -> (same: bool)
    ensures
        same == (a@ == b@),
{
    a.to_owned() == b.to_owned()
}

/// Whether `text`, with its ASCII capitals made small, is `small`.
pub fn is_lowercased(text: &str, small: &str) -> (same: bool)
    ensures
        same == (lowercased(text@) == small@),
{
    let length: usize = text.unicode_len();
    if length != small.unicode_len() {
        assert(lowercased(text@).len() == text@.len());
        return false;
    }
    let mut i: usize = 0;
    while i < length
        invariant
            length == text@.len() == small@.len(),
            i <= length,
            forall|j: int| 0 <= j < i ==> lowercase_char(text@[j]) == small@[j],
        decreases length - i,
    {
        let c: char = text.get_char(i);
        let lower: char = if 'A' <= c && c <= 'Z' {
            (c as u8 + 32) as char
        } else {
            c
        };
        if lower != small.get_char(i) {
            assert(lowercased(text@)[i as int] != small@[i as int]);
            return false;
        }
        i += 1;
    }
    assert(lowercased(text@) =~= small@);
    true
}

/// Before the position there is no `c`, and at it, short of the end, there is one.
pub proof fn lemma_position(s: Seq<char>, c: char)
    ensures
        0 <= position(s, c) <= s.len(),
        forall|j: int| 0 <= j < position(s, c) ==> s[j] != c,
        position(s, c) < s.len() ==> s[position(s, c)] == c,
    decreases s.len(),
{
    if s.len() > 0 && s[0] != c {
        let rest = s.drop_first();
        lemma_position(rest, c);
        assert forall|j: int| 0 <= j < position(s, c) implies s[j] != c by {
            if j > 0 {
                assert(s[j] == rest[j - 1]);
            }
        }
    }
}

/// An index before which there is no `c`, and at which there is one or the end, is the position.
pub proof fn lemma_position_is(s: Seq<char>, c: char, at: int)
    requires
        0 <= at <= s.len(),
        forall|j: int| 0 <= j < at ==> s[j] != c,
        at < s.len() ==> s[at] == c,
    ensures
        position(s, c) == at,
{
    lemma_position(s, c);
    let found = position(s, c);
    if found < at {
        assert(s[found] != c);
    } else if at < found {
        assert(s[at] != c);
    }
}

/// The index of the first `c` in `text`, or its length where there is none.
pub fn find_ascii(text: &str, c: char) -> (at: usize)
    requires
        vstd::string::is_ascii(text),
        (c as u32) < 128,
    ensures
        at == position(text@, c),
        at <= text@.len(),
{
    let bytes: &[u8] = text.as_bytes();
    let mut at: usize = 0;
    while at < bytes.len() && bytes[at] != c as u8
        invariant
            vstd::string::is_ascii(text),
            (c as u32) < 128,
            bytes@ == text.spec_bytes(),
            at <= bytes@.len(),
            forall|j: int| 0 <= j < at ==> text@[j] != c,
        decreases bytes@.len() - at,
    {
        at += 1;
    }
    proof {
        lemma_position_is(text@, c, at as int);
    }
    at
}

/// `text` without the white space at its two ends.
pub fn trim_ascii(text: &str) -> (inner: &str)
    requires
        vstd::string::is_ascii(text),
    ensures
        inner@ == trimmed(text@),
        vstd::string::is_ascii(inner),
{
    let bytes: &[u8] = text.as_bytes();
    let length: usize = bytes.len();
    let mut from: usize = 0;
    proof {
        assert(text@.skip(0) =~= text@);
    }
    while from < length && (bytes[from] == 32 || (9 <= bytes[from] && bytes[from] <= 13))
        invariant
            vstd::string::is_ascii(text),
            bytes@ == text.spec_bytes(),
            length == bytes@.len() == text@.len(),
            from <= length,
            trim_start(text@) == trim_start(text@.skip(from as int)),
        decreases length - from,
    {
        assert(text@.skip(from as int).drop_first() =~= text@.skip(from + 1));
        from += 1;
    }
    let ghost front = text@.skip(from as int);
    assert(trim_start(text@) == front);
    let mut to: usize = length;
    proof {
        assert(front =~= text@.subrange(from as int, to as int));
    }
    while from < to && (bytes[to - 1] == 32 || (9 <= bytes[to - 1] && bytes[to - 1] <= 13))
        invariant
            vstd::string::is_ascii(text),
            bytes@ == text.spec_bytes(),
            length == bytes@.len() == text@.len(),
            from <= to <= length,
            trim_end(front) == trim_end(text@.subrange(from as int, to as int)),
        decreases to - from,
    {
        assert(text@.subrange(from as int, to as int).drop_last() =~= text@.subrange(
            from as int,
            to - 1,
        ));
        to -= 1;
    }
    text.substring_ascii(from, to)
}

/// `trim_start` takes `skipped` characters away, all of them white space, and then no more.
pub proof fn lemma_trim_start(s: Seq<char>) -> (skipped: int)
    ensures
        0 <= skipped <= s.len(),
        trim_start(s) == s.skip(skipped),
        forall|j: int| 0 <= j < skipped ==> is_space(s[j]),
        skipped < s.len() ==> !is_space(s[skipped]),
    decreases s.len(),
{
    if s.len() > 0 && is_space(s[0]) {
        let rest = s.drop_first();
        let more = lemma_trim_start(rest);
        assert(rest.skip(more) =~= s.skip(more + 1));
        assert forall|j: int| 0 <= j < more + 1 implies is_space(s[j]) by {
            if j > 0 {
                assert(s[j] == rest[j - 1]);
            }
        }
        more + 1
    } else {
        assert(s.skip(0) =~= s);
        0
    }
}

/// `trim_end` keeps `kept` characters, and what it takes away is all of it white space.
pub proof fn lemma_trim_end(s: Seq<char>) -> (kept: int)
    ensures
        0 <= kept <= s.len(),
        trim_end(s) == s.take(kept),
        forall|j: int| kept <= j < s.len() ==> is_space(s[j]),
        0 < kept ==> !is_space(s[kept - 1]),
    decreases s.len(),
{
    if s.len() > 0 && is_space(s.last()) {
        let rest = s.drop_last();
        let kept = lemma_trim_end(rest);
        assert(rest.take(kept) =~= s.take(kept));
        assert forall|j: int| kept <= j < s.len() implies is_space(s[j]) by {
            if j < rest.len() {
                assert(s[j] == rest[j]);
            }
        }
        kept
    } else {
        assert(s.take(s.len() as int) =~= s);
        s.len() as int
    }
}

/// What is left after trimming is a stretch of the text, with no white space at its ends.
pub proof fn lemma_trimmed(s: Seq<char>)
    ensures
        trimmed(s).len() <= s.len(),
        forall|c: char| #[trigger] trimmed(s).contains(c) ==> s.contains(c),
        trimmed(s).len() > 0 ==> !is_space(trimmed(s)[0]) && !is_space(trimmed(s).last()),
{
    let from = lemma_trim_start(s);
    let front = s.skip(from);
    let kept = lemma_trim_end(front);
    assert forall|c: char| #[trigger] trimmed(s).contains(c) implies s.contains(c) by {
        let i = choose|i: int| 0 <= i < trimmed(s).len() && trimmed(s)[i] == c;
        assert(s[from + i] == c);
    }
}

/// Trimming leaves a text alone that has no white space at its ends.
pub proof fn lemma_trimmed_already(s: Seq<char>)
    requires
        s.len() > 0 ==> !is_space(s[0]) && !is_space(s.last()),
    ensures
        trimmed(s) == s,
{
}

/// The number that `text` writes, where it writes one that fits in 64 bits.
pub fn parse_unsigned(text: &str) -> (number: Option<u64>)
    ensures
        number matches Some(n) ==> unsigned_value(text@) == Some(n as int),
        number is None ==> unsigned_value(text@) is None,
{
    let length: usize = text.unicode_len();
    let from: usize = if length > 0 && text.get_char(0) == '+' {
        1
    } else {
        0
    };
    let ghost digits = unsigned_digits(text@);
    assert(digits =~= text@.skip(from as int));
    if from == length {
        return None;
    }
    let mut value: u64 = 0;
    let mut i: usize = from;
    assert(digits.take(0) =~= Seq::<char>::empty());
    while i < length
        invariant
            length == text@.len(),
            from <= i <= length,
            digits == unsigned_digits(text@),
            digits == text@.skip(from as int),
            forall|j: int| 0 <= j < i - from ==> is_digit(digits[j]),
            value == decimal_value(digits.take(i - from)),
        decreases length - i,
    {
        let c: char = text.get_char(i);
        assert(c == digits[i - from]);
        if c < '0' || '9' < c {
            return None;
        }
        let digit: u64 = (c as u32 - '0' as u32) as u64;
        assert(digits.take(i - from + 1).drop_last() =~= digits.take(i - from));
        assert(decimal_value(digits.take(i - from + 1)) == value * 10 + digit);
        if value > (u64::MAX - digit) / 10 {
            proof {
                if forall|j: int| 0 <= j < digits.len() ==> is_digit(digits[j]) {
                    lemma_decimal_value_grows(digits, i - from + 1);
                }
            }
            return None;
        }
        value = value * 10 + digit;
        i += 1;
    }
    assert(digits.take(length - from) =~= digits);
    Some(value)
}

/// The digits of a number write that number.
pub proof fn lemma_decimal(n: nat)
    ensures
        decimal(n).len() > 0,
        forall|i: int| 0 <= i < decimal(n).len() ==> is_digit(#[trigger] decimal(n)[i]),
        decimal_value(decimal(n)) == n,
    decreases n,
{
    let digit = ((n % 10) as u32 + '0' as u32) as char;
    assert(is_digit(digit) && digit as int - '0' as int == n % 10);
    if n < 10 {
        assert(decimal(n).drop_last() =~= Seq::<char>::empty());
        assert(decimal_value(decimal(n).drop_last()) == 0);
    } else {
        lemma_decimal(n / 10);
        assert(decimal(n).drop_last() =~= decimal(n / 10));
    }
}

/// More digits write no smaller number.
proof fn lemma_decimal_value_grows(digits: Seq<char>, n: int)
    requires
        0 <= n <= digits.len(),
        forall|j: int| 0 <= j < digits.len() ==> is_digit(digits[j]),
    ensures
        0 <= decimal_value(digits.take(n)) <= decimal_value(digits),
    decreases digits.len(),
{
    if digits.len() == 0 {
        assert(digits.take(n) =~= digits);
    } else if n == digits.len() {
        let shorter = digits.drop_last();
        lemma_decimal_value_grows(shorter, n - 1);
        assert(shorter.take(n - 1) =~= shorter);
        assert(digits.take(n) =~= digits);
    } else {
        let shorter = digits.drop_last();
        lemma_decimal_value_grows(shorter, n);
        assert(shorter.take(n) =~= digits.take(n));
    }
}

} // verus!
