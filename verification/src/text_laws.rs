//! What holds of the ways to search, split and trim a text and to write and read numbers.

use crate::text::{
    decimal, decimal_value, is_digit, is_space, lemma_decimal, lemma_position, lemma_trim_end,
    lemma_trim_start, lemma_trimmed, lowercased, position, split, trimmed, unsigned_digits,
    unsigned_value,
};
use vstd::prelude::*;

verus! {

/// Pieces with a separator between each two of them.
pub open spec fn joined(pieces: Seq<Seq<char>>, separator: char) -> Seq<char>
    decreases pieces.len(),
{
    if pieces.len() == 0 {
        Seq::empty()
    } else if pieces.len() == 1 {
        pieces[0]
    } else {
        pieces[0] + seq![separator] + joined(pieces.drop_first(), separator)
    }
}

/// The pieces of a text give it back when they are joined, and no piece holds the separator.
pub proof fn law_split(text: Seq<char>, separator: char)
    ensures
        split(text, separator).len() > 0,
        joined(split(text, separator), separator) == text,
        forall|i: int|
            0 <= i < split(text, separator).len() ==> !(#[trigger] split(
                text,
                separator,
            )[i]).contains(separator),
    decreases text.len(),
{
    lemma_position(text, separator);
    let at = position(text, separator);
    let pieces = split(text, separator);
    if at < text.len() {
        let rest = text.skip(at + 1);
        law_split(rest, separator);
        assert(pieces.drop_first() =~= split(rest, separator));
        assert(joined(pieces, separator) =~= text);
        assert forall|i: int| 0 <= i < pieces.len() implies !(#[trigger] pieces[i]).contains(
            separator,
        ) by {
            if i > 0 {
                assert(pieces[i] == split(rest, separator)[i - 1]);
            }
        }
    }
}

/// Whether a character is white space: a space, or one of those from the tab to the carriage return.
pub open spec fn is_blank(c: char) -> bool {
    c as u32 == 32 || c as u32 == 9 || c as u32 == 10 || c as u32 == 11 || c as u32 == 12 || c
        as u32 == 13
}

/// Whether a text is all white space.
pub open spec fn all_blank(text: Seq<char>) -> bool {
    forall|i: int| 0 <= i < text.len() ==> is_blank(#[trigger] text[i])
}

/// The two ways to say what white space is agree.
proof fn lemma_blank(c: char)
    ensures
        is_blank(c) == is_space(c),
{
}

/// A text is white space, what is left of it when it is trimmed, and white space again. What is left
/// neither begins nor ends with white space.
pub proof fn law_trimmed(text: Seq<char>)
    ensures
        exists|left: Seq<char>, right: Seq<char>|
            all_blank(left) && all_blank(right) && text == #[trigger] (left + trimmed(text) + right),
        trimmed(text).len() > 0 ==> !is_blank(trimmed(text)[0]) && !is_blank(trimmed(text).last()),
{
    let from = lemma_trim_start(text);
    let front = text.skip(from);
    let kept = lemma_trim_end(front);
    let left = text.take(from);
    let right = front.skip(kept);
    assert forall|i: int| 0 <= i < right.len() implies is_blank(#[trigger] right[i]) by {
        assert(right[i] == front[kept + i]);
    }
    assert(all_blank(left));
    assert(text =~= left + trimmed(text) + right);
    lemma_trimmed(text);
    lemma_blank(trimmed(text)[0]);
    lemma_blank(trimmed(text).last());
}

/// In small letters, the letters from `A` to `Z` have a code that is higher by 32, and everything
/// else is as it was.
pub proof fn law_lowercased(text: Seq<char>)
    ensures
        lowercased(text).len() == text.len(),
        forall|i: int|
            0 <= i < text.len() && 65 <= text[i] as u32 <= 90 ==> (#[trigger] lowercased(
                text,
            )[i]) as u32 == text[i] as u32 + 32,
        forall|i: int|
            0 <= i < text.len() && !(65 <= text[i] as u32 <= 90) ==> #[trigger] lowercased(text)[i]
                == text[i],
{
}

/// The digits of a number have no needless zero before them, and write it: each digit counts ten
/// times what it would one place further.
pub proof fn law_decimal(n: nat)
    ensures
        decimal(n).len() > 0,
        forall|i: int| 0 <= i < decimal(n).len() ==> '0' <= #[trigger] decimal(n)[i] <= '9',
        decimal(n).len() > 1 ==> decimal(n)[0] != '0',
        decimal_value(decimal(n)) == n,
    decreases n,
{
    lemma_decimal(n);
    if n >= 10 {
        law_decimal(n / 10);
        if decimal(n / 10).len() == 1 {
            let digit = decimal(n / 10);
            assert(digit.drop_last() =~= Seq::<char>::empty());
            assert(decimal_value(digit.drop_last()) == 0);
        }
    }
}

/// What digits write, one digit after the other.
pub proof fn law_decimal_value(digits: Seq<char>, digit: char)
    ensures
        decimal_value(Seq::empty()) == 0,
        decimal_value(digits.push(digit)) == decimal_value(digits) * 10 + (digit as int - 48),
{
    assert(digits.push(digit).drop_last() =~= digits);
}

/// Whether the characters are digits, at least one, of a number that fits in 64 bits.
pub open spec fn are_digits_of_number(digits: Seq<char>) -> bool {
    &&& digits.len() > 0
    &&& forall|i: int| 0 <= i < digits.len() ==> '0' <= #[trigger] digits[i] <= '9'
    &&& decimal_value(digits) <= 18_446_744_073_709_551_615
}

/// Which texts write a number that fits in 64 bits, and which number: digits and nothing else, at
/// least one, with or without a `+` before them.
pub proof fn law_unsigned_value(text: Seq<char>)
    ensures
        are_digits_of_number(text) ==> unsigned_value(text) == Some(decimal_value(text)),
        text.len() > 0 && text[0] == '+' && are_digits_of_number(text.skip(1)) ==> unsigned_value(
            text,
        ) == Some(decimal_value(text.skip(1))),
        !are_digits_of_number(text) && !(text.len() > 0 && text[0] == '+' && are_digits_of_number(
            text.skip(1),
        )) ==> unsigned_value(text) is None,
{
    assert(text.len() > 0 ==> text.skip(1) =~= text.drop_first());
    let digits = unsigned_digits(text);
    if unsigned_value(text) is Some {
        assert forall|i: int| 0 <= i < digits.len() implies '0' <= #[trigger] digits[i] <= '9' by {
            assert(is_digit(digits[i]));
        }
        assert(are_digits_of_number(digits));
    }
    if are_digits_of_number(text) {
        assert('0' <= text[0]);
    }
}

/// A number that is written in digits is read back, with or without a `+` before them, exactly where
/// it fits in 64 bits.
pub proof fn law_number_reads_back(n: nat)
    ensures
        unsigned_value(decimal(n)) == if n <= 18_446_744_073_709_551_615 {
            Some(n as int)
        } else {
            None
        },
        unsigned_value(seq!['+'] + decimal(n)) == unsigned_value(decimal(n)),
{
    law_decimal(n);
    law_unsigned_value(decimal(n));
    law_unsigned_value(seq!['+'] + decimal(n));
    assert(decimal(n)[0] != '+');
    assert((seq!['+'] + decimal(n)).skip(1) =~= decimal(n));
}

} // verus!
