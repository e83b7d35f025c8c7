//! Text forms of the library's values, for people to read.

use vstd::prelude::*;
use vstd::string::StringExecFns;
use crate::error::VrdError;
use crate::mersenne_twister::{MersenneTwisterConfig, MersenneTwisterParams};
use crate::outside::push_char;
use crate::random::Random;

verus! {

/// The character of a decimal digit.
pub open spec fn digit_char(d: nat) -> char {
    ((48 + d) as u8) as char
}

/// The decimal digits of `n`, most significant first, without leading zeros.
pub open spec fn decimal(n: nat) -> Seq<char>
    decreases n,
{
    if n < 10 {
        seq![digit_char(n)]
    } else {
        decimal(n / 10).push(digit_char(n % 10))
    }
}

/// The character of a hexadecimal digit, in lower case.
pub open spec fn hex_digit_char(d: nat) -> char {
    if d < 10 {
        ((48 + d) as u8) as char
    } else {
        ((97 + d - 10) as u8) as char
    }
}

/// The four bits of `v` that make its hexadecimal digit number `i`, counted
/// from the most significant of eight.
pub open spec fn nibble(v: u32, i: int) -> u32 {
    (v >> ((28 - 4 * i) as u32)) & 0xf
}

/// `v` as `0x` and eight hexadecimal digits in lower case.
pub open spec fn hex_word(v: u32) -> Seq<char> {
    "0x"@ + Seq::new(8, |i: int| hex_digit_char(nibble(v, i) as nat))
}

/// The decimal forms of `words`, separated by a comma and a space.
pub open spec fn word_list(words: Seq<u32>) -> Seq<char>
    decreases words.len(),
{
    if words.len() == 0 {
        Seq::empty()
    } else if words.len() == 1 {
        decimal(words[0] as nat)
    } else {
        word_list(words.drop_last()) + ", "@ + decimal(words.last() as nat)
    }
}

/// Appends the decimal digits of `n` to `out`.
pub fn push_decimal(out: &mut String, n: u64)
    ensures
        final(out)@ == old(out)@ + decimal(n as nat),
    decreases n,
{
    if n >= 10 {
        push_decimal(out, n / 10);
    }
    let d: u64 = n % 10;
    push_char(out, ((48 + d) as u8) as char);
    assert(out@ =~= old(out)@ + decimal(n as nat));
}

/// Appends `0x` and the eight hexadecimal digits of `v` to `out`.
pub fn push_hex_word(out: &mut String, v: u32)
    ensures
        final(out)@ == old(out)@ + hex_word(v),
{
    let ghost before = out@;
    out.append("0x");
    let mut i: u32 = 0;
    while i < 8
        invariant
            i <= 8,
            out@ == before + "0x"@ + Seq::new(
                i as nat,
                |j: int| hex_digit_char(nibble(v, j) as nat),
            ),
        decreases 8 - i,
    {
        let shift: u32 = 28 - 4 * i;
        let d: u32 = (v >> shift) & 0xf;
        assert(d < 16) by (bit_vector)
            requires
                d == (v >> shift) & 0xf,
        ;
        if d < 10 {
            push_char(out, ((48 + d) as u8) as char);
        } else {
            push_char(out, ((97 + d - 10) as u8) as char);
        }
        assert(out@ =~= before + "0x"@ + Seq::new(
            (i + 1) as nat,
            |j: int| hex_digit_char(nibble(v, j) as nat),
        ));
        i += 1;
    }
    assert(out@ =~= before + hex_word(v));
}

impl Random {
    /// The text form of a state: the words in decimal, then the cursor.
    pub open spec fn text(self) -> Seq<char> {
        "Random { mt: ["@ + word_list(self.mt@) + "], mti: "@ + decimal(self.mti as nat) + " }"@
    }

    /// Renders the generator for a reader: all 624 words and the cursor.
    pub fn to_text(&self) -> (s: String)
        ensures
            s@ == self.text(),
    {
        let mut s = String::from_str("Random { mt: [");
        let ghost head = s@;
        let mut i: usize = 0;
        while i < 624
            invariant
                i <= 624,
                head == "Random { mt: ["@,
                s@ == head + word_list(self.mt@.take(i as int)),
            decreases 624 - i,
        {
            if i > 0 {
                s.append(", ");
            }
            push_decimal(&mut s, self.mt[i] as u64);
            proof {
                let now = self.mt@.take(i + 1);
                assert(now.drop_last() =~= self.mt@.take(i as int));
                assert(now.last() == self.mt@[i as int]);
                assert(s@ =~= head + word_list(now));
            }
            i += 1;
        }
        assert(self.mt@.take(624) =~= self.mt@);
        s.append("], mti: ");
        push_decimal(&mut s, self.mti as u64);
        s.append(" }");
        s
    }
}

impl MersenneTwisterParams {
    /// The text form of the constants: each by name, in hexadecimal.
    pub open spec fn text(self) -> Seq<char> {
        "MersenneTwisterParams { matrix_a: "@ + hex_word(self.matrix_a)
            + ", upper_mask: "@ + hex_word(self.upper_mask)
            + ", lower_mask: "@ + hex_word(self.lower_mask)
            + ", tempering_mask_b: "@ + hex_word(self.tempering_mask_b)
            + ", tempering_mask_c: "@ + hex_word(self.tempering_mask_c)
            + " }"@
    }
}

impl<const N: usize, const M: usize> MersenneTwisterConfig<N, M> {
    /// The text form of a configuration.
    pub open spec fn text(self) -> Seq<char> {
        "MersenneTwisterConfig { params: "@ + self.params.text() + " }"@
    }

    /// Renders the configuration for a reader: every constant by name, in
    /// hexadecimal.
    pub fn to_text(&self) -> (s: String)
        ensures
            s@ == self.text(),
    {
        let mut s = String::from_str("MersenneTwisterConfig { params: ");
        s.append("MersenneTwisterParams { matrix_a: ");
        push_hex_word(&mut s, self.params.matrix_a);
        s.append(", upper_mask: ");
        push_hex_word(&mut s, self.params.upper_mask);
        s.append(", lower_mask: ");
        push_hex_word(&mut s, self.params.lower_mask);
        s.append(", tempering_mask_b: ");
        push_hex_word(&mut s, self.params.tempering_mask_b);
        s.append(", tempering_mask_c: ");
        push_hex_word(&mut s, self.params.tempering_mask_c);
        s.append(" }");
        s.append(" }");
        assert(s@ =~= self.text());
        s
    }
}

impl VrdError {
    /// The text that this error is reported with.
    pub open spec fn text(self) -> Seq<char> {
        match self {
            VrdError::LogError(detail) => "Log error: "@ + detail@,
            VrdError::GeneralError(detail) => "General error: "@ + detail@,
        }
    }

    /// Renders the error for a reader: a prefix that names the kind, then the detail.
    pub fn to_text(&self) -> (s: String)
        ensures
            s@ == self.text(),
    {
        match self {
            VrdError::LogError(detail) => String::from_str("Log error: ").concat(detail.as_str()),
            VrdError::GeneralError(detail) => String::from_str("General error: ").concat(
                detail.as_str(),
            ),
        }
    }
}

} // verus!
