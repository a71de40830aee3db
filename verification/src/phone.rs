use vstd::prelude::*;

use crate::chars::{chars_of, is_word_char, word_char};

verus! {

/// Whether a character is a decimal digit.
pub open spec fn is_digit_char(c: char) -> bool {
    ('0' as u32) <= (c as u32) && (c as u32) <= ('9' as u32)
}

/// Executable test for [`is_digit_char`].
pub(crate) fn digit_char(c: char) -> (r: bool)
    ensures
        r == is_digit_char(c),
{
    let u = c as u32;
    ('0' as u32) <= u && u <= ('9' as u32)
}

/// The first position at or after `i` that holds a word character (or the
/// end of the sequence): the loose delimiters a phone number may carry
/// between its digit groups are exactly the non-word characters.
pub open spec fn skip_delims(s: Seq<char>, i: int) -> int
    decreases s.len() - i,
{
    if 0 <= i < s.len() && !is_word_char(s[i]) {
        skip_delims(s, i + 1)
    } else {
        i
    }
}

pub proof fn lemma_skip_delims_bounds(s: Seq<char>, i: int)
    requires
        0 <= i <= s.len(),
    ensures
        i <= skip_delims(s, i) <= s.len(),
    decreases s.len() - i,
{
    if i < s.len() && !is_word_char(s[i]) {
        lemma_skip_delims_bounds(s, i + 1);
    }
}

/// Whether every character in `s[lo..hi]` is a decimal digit.
pub open spec fn all_digits(s: Seq<char>, lo: int, hi: int) -> bool {
    forall|k: int| lo <= k < hi ==> is_digit_char(s[k])
}

/// The accepted phone-number shape: three digits, three digits, then zero
/// to five digits, each group loosely delimited by any run of non-word
/// characters, with nothing else before or after.
pub open spec fn spec_phone_shape(s: Seq<char>) -> bool {
    let a = skip_delims(s, 3);
    let b = skip_delims(s, a + 3);
    &&& s.len() >= 3
    &&& all_digits(s, 0, 3)
    &&& a + 3 <= s.len()
    &&& all_digits(s, a, a + 3)
    &&& s.len() - b <= 5
    &&& all_digits(s, b, s.len() as int)
}

/// Scan past delimiters: the executable counterpart of [`skip_delims`].
fn skip_delims_from(source: &Vec<char>, start: usize) -> (r: usize)
    requires
        start <= source@.len(),
    ensures
        r == skip_delims(source@, start as int),
        start <= r <= source@.len(),
{
    let n = source.len();
    let mut i = start;
    while i < n && !word_char(source[i])
        invariant
            n == source@.len(),
            start <= i <= n,
            skip_delims(source@, start as int) == skip_delims(source@, i as int),
        decreases n - i,
    {
        i += 1;
    }
    i
}

/// Check that `source[lo..hi]` consists of decimal digits only.
fn digits_between(source: &Vec<char>, lo: usize, hi: usize) -> (r: bool)
    requires
        lo <= hi <= source@.len(),
    ensures
        r == all_digits(source@, lo as int, hi as int),
{
    let mut i = lo;
    while i < hi
        invariant
            lo <= i <= hi <= source@.len(),
            forall|k: int| lo <= k < i ==> is_digit_char(source@[k]),
        decreases hi - i,
    {
        if !digit_char(source[i]) {
            return false;
        }
        i += 1;
    }
    true
}

/// Whether the submitted identity looks like a phone number: the fixed
/// 3-3-(0..5) digit grouping, optionally delimited by non-word
/// characters.
pub fn phone_shape(phone: &str) -> (r: bool)
    ensures
        r == spec_phone_shape(phone@),
{
    let source = chars_of(phone);
    let n = source.len();
    if n < 3 {
        return false;
    }
    if !digits_between(&source, 0, 3) {
        return false;
    }
    let a = skip_delims_from(&source, 3);
    if a > n - 3 {
        return false;
    }
    if !digits_between(&source, a, a + 3) {
        return false;
    }
    let b = skip_delims_from(&source, a + 3);
    if n - b > 5 {
        return false;
    }
    digits_between(&source, b, n)
}

} // verus!
