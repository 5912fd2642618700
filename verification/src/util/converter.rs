//! Conversions between text and the plain values the ledger takes.

use crate::error::LedgerError;
use vstd::prelude::*;
use vstd::string::StrSliceExecFns;
use vstd::string::StringExecFns;

verus! {

/// The value of a decimal digit, or `None` for any other character.
pub open spec fn digit_value(c: char) -> Option<nat> {
    if '0' <= c <= '9' {
        Some((c as nat - '0' as nat) as nat)
    } else {
        None
    }
}

/// Whether `text` is one or more decimal digits.
pub open spec fn is_digits(text: Seq<char>) -> bool {
    &&& text.len() > 0
    &&& forall|i: int| 0 <= i < text.len() ==> digit_value(#[trigger] text[i]) is Some
}

/// The number that a sequence of decimal digits writes.
pub open spec fn digits_value(text: Seq<char>) -> nat
    decreases text.len(),
{
    if text.len() == 0 {
        0
    } else {
        digits_value(text.drop_last()) * 10 + digit_value(text.last()).unwrap()
    }
}

/// `text` without a leading plus sign.
pub open spec fn unsigned_part(text: Seq<char>) -> Seq<char> {
    if text.len() > 0 && text[0] == '+' {
        text.drop_first()
    } else {
        text
    }
}

/// The 16-bit number that `text` writes: decimal digits, with leading zeros
/// and one leading plus sign allowed, and a value of at most 65535.
pub open spec fn parsed_u16(text: Seq<char>) -> Option<u16> {
    let digits = unsigned_part(text);
    if is_digits(digits) && digits_value(digits) <= u16::MAX {
        Some(digits_value(digits) as u16)
    } else {
        None
    }
}

/// More digits never write a smaller number.
pub proof fn lemma_digits_value_grows(text: Seq<char>, k: int)
    requires
        0 <= k <= text.len(),
    ensures
        digits_value(text.take(k)) <= digits_value(text),
    decreases text.len() - k,
{
    if k == text.len() {
        assert(text.take(k) =~= text);
    } else {
        assert(text.take(k + 1).drop_last() =~= text.take(k));
        lemma_digits_value_grows(text, k + 1);
    }
}

/// Reads a 16-bit number from its decimal text.
pub fn convert_to_u16(input: String) -> (outcome: Result<u16, LedgerError>)
    ensures
        match outcome {
            Ok(value) => parsed_u16(input@) == Some(value),
            Err(reason) => reason == LedgerError::InvalidNumber && parsed_u16(input@) is None,
        },
{
    let text = input.as_str();
    let length = text.unicode_len();
    let start: usize = if length > 0 && text.get_char(0) == '+' {
        1
    } else {
        0
    };
    let ghost digits = unsigned_part(input@);
    proof {
        assert(digits =~= input@.skip(start as int));
    }
    if start == length {
        return Err(LedgerError::InvalidNumber);
    }
    let mut value: u32 = 0;
    let mut i: usize = start;
    while i < length
        invariant
            start <= i <= length,
            length == input@.len(),
            text@ == input@,
            digits == input@.skip(start as int),
            digits == unsigned_part(input@),
            forall|j: int| 0 <= j < i - start ==> digit_value(#[trigger] digits[j]) is Some,
            value == digits_value(digits.take(i - start)),
            value <= u16::MAX,
        decreases length - i,
    {
        let c = text.get_char(i);
        if c < '0' || c > '9' {
            assert(digits[i - start] == c);
            assert(digit_value(digits[i - start]) is None);
            assert(!is_digits(digits));
            return Err(LedgerError::InvalidNumber);
        }
        let digit: u32 = c as u32 - '0' as u32;
        let next: u32 = value * 10 + digit;
        proof {
            assert(digits.take(i - start + 1).drop_last() =~= digits.take(i - start));
            assert(digits.take(i - start + 1).last() == c);
            assert(next == digits_value(digits.take(i - start + 1)));
        }
        if next > 65535 {
            proof {
                lemma_digits_value_grows(digits, i - start + 1);
                assert(digits_value(digits) > u16::MAX);
            }
            return Err(LedgerError::InvalidNumber);
        }
        value = next;
        i = i + 1;
    }
    assert(digits.take(length - start) =~= digits);
    Ok(value as u16)
}

/// Copies string slices into owned strings, one for one.
pub fn convert_vec_of_str_to_vec_of_string(vec: Vec<&str>) -> (strings: Vec<String>)
    ensures
        strings@.len() == vec@.len(),
        forall|i: int| 0 <= i < vec@.len() ==> strings@[i]@ == vec@[i]@,
{
    let mut strings: Vec<String> = Vec::new();
    let mut i: usize = 0;
    while i < vec.len()
        invariant
            i <= vec@.len(),
            strings@.len() == i,
            forall|j: int| 0 <= j < i ==> strings@[j]@ == vec@[j]@,
        decreases vec@.len() - i,
    {
        strings.push(String::from_str(vec[i]));
        i = i + 1;
    }
    strings
}

} // verus!
