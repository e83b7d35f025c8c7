//! How raw 32-bit draws are mapped onto the shapes that callers ask for.

use vstd::prelude::*;

verus! {

/// The low byte of a raw draw.
pub open spec fn low_byte(raw: u32) -> u8 {
    (raw % 256) as u8
}

/// The lowercase letter that a raw draw selects: `'a'` plus the draw modulo 26.
pub open spec fn lowercase_letter(raw: u32) -> char {
    ((97 + raw % 26) as u8) as char
}

/// The character of the 62-character alphabet that a raw draw selects: with
/// `v` the draw modulo 62, a digit for `v < 10`, a lowercase letter for
/// `10 <= v < 36`, an uppercase letter otherwise.
pub open spec fn alphanumeric_char(raw: u32) -> char {
    let v = raw % 62;
    if v < 10 {
        ((48 + v) as u8) as char
    } else if v < 36 {
        ((97 + v - 10) as u8) as char
    } else {
        ((65 + v - 36) as u8) as char
    }
}

/// Whether `c` is one of the 62 ASCII letters and digits.
pub open spec fn is_alphanumeric(c: char) -> bool {
    ||| '0' <= c <= '9'
    ||| 'a' <= c <= 'z'
    ||| 'A' <= c <= 'Z'
}

/// The member of the inclusive range `[min, max]` that a raw draw selects:
/// `min` plus the draw modulo the number of members.
pub open spec fn in_inclusive_range(min: int, max: int, raw: u32) -> int {
    min + (raw as int) % (max - min + 1)
}

/// The member of the half-open range `[min, max)` that a raw draw selects:
/// `min` plus the draw modulo the number of members.
pub open spec fn in_half_open_range(min: int, max: int, raw: u32) -> int {
    min + (raw as int) % (max - min)
}

/// Whatever the raw draw, what it selects from a range lies in the range.
pub proof fn law_ranges_contain_what_they_select(min: int, max: int, raw: u32)
    ensures
        min <= max ==> min <= in_inclusive_range(min, max, raw) <= max,
        min < max ==> min <= in_half_open_range(min, max, raw) < max,
{
}

/// Whatever the raw draw, the characters that it selects are a lowercase
/// letter and one of the 62 letters and digits.
pub proof fn law_characters_are_in_their_alphabet(raw: u32)
    ensures
        'a' <= lowercase_letter(raw) <= 'z',
        is_alphanumeric(alphanumeric_char(raw)),
{
}

/// The XOR of all the words of `s`.
pub open spec fn xor_fold(s: Seq<u32>) -> u32
    decreases s.len(),
{
    if s.len() == 0 {
        0
    } else {
        xor_fold(s.drop_last()) ^ s.last()
    }
}

/// The 64-bit value whose high half is `high` and whose low half is `low`.
pub open spec fn join_words(high: u32, low: u32) -> int {
    high as int * 0x1_0000_0000 + low as int
}

/// The same 64 bits read as a signed value in two's complement.
pub open spec fn join_words_signed(high: u32, low: u32) -> int {
    if high >= 0x8000_0000 {
        join_words(high, low) - 0x1_0000_0000_0000_0000
    } else {
        join_words(high, low)
    }
}

} // verus!
