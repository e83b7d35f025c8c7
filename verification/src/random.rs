//! The generator: 624 words of state, a cursor, and the operations that seed,
//! twist and draw from it.

use vstd::prelude::*;
use vstd::arithmetic::div_mod::lemma_fundamental_div_mod_converse;
use crate::error::ArgumentError;
use crate::mapping::{
    alphanumeric_char, in_half_open_range, in_inclusive_range, is_alphanumeric, join_words,
    join_words_signed, low_byte, lowercase_letter, xor_fold,
};
use crate::outside::{entropy_word, push_char};
use crate::state::{
    after, next_output, next_state, output, outputs, seed_step, seed_word, seed_words, seeded,
    twist_upto, twisted, GeneratorState, DEFAULT_SEED, LOWER_MASK, MATRIX_A, SEED_MULTIPLIER, SHIFT_SIZE,
    STATE_SIZE, TEMPERING_MASK_B, TEMPERING_MASK_C, UNSEEDED, UPPER_MASK,
};

verus! {

/// A Mersenne Twister generator.
#[derive(Debug, Eq, Hash, Ord, PartialEq, PartialOrd)]
pub struct Random {
    /// The working state.
    pub mt: [u32; 624],
    /// Position in `mt` of the next word to hand out.
    pub mti: usize,
}

impl View for Random {
    type V = GeneratorState;

    open spec fn view(&self) -> GeneratorState {
        GeneratorState { words: self.mt@, index: self.mti as nat }
    }
}

impl Clone for Random {
    /// A copy: an independent generator in the same state, which hands out
    /// the same draws from here on.
    fn clone(&self) -> (copy: Self)
        ensures
            copy == *self,
    {
        Random { mt: self.mt, mti: self.mti }
    }
}

impl Default for Random {
    /// The same as [`Random::new`].
    fn default() -> (rng: Self)
        ensures
            exists|seed: u32| rng@ == seeded(seed),
    {
        Random::new()
    }
}

/// One step of the seeding recurrence, in wrapping arithmetic.
fn next_seed_word(prev: u32, i: u32) -> (word: u32)
    ensures
        word == seed_step(prev, i as nat),
{
    let scrambled: u32 = prev ^ (prev >> 30);
    let product: u32 = SEED_MULTIPLIER.wrapping_mul(scrambled);
    proof {
        let full = SEED_MULTIPLIER as int * scrambled as int;
        let sum = product as int + i as int;
        assert(product == full % 0x1_0000_0000);
        assert(full + i == 0x1_0000_0000 * (full / 0x1_0000_0000) + sum);
        if sum < 0x1_0000_0000 {
            lemma_fundamental_div_mod_converse(full + i, 0x1_0000_0000, full / 0x1_0000_0000, sum);
        } else {
            lemma_fundamental_div_mod_converse(
                full + i,
                0x1_0000_0000,
                full / 0x1_0000_0000 + 1,
                sum - 0x1_0000_0000,
            );
        }
    }
    product.wrapping_add(i)
}

impl Random {
    /// A generator seeded with `seed`.
    pub fn from_seed(seed: u32) -> (rng: Random)
        ensures
            rng@ == seeded(seed),
    {
        let mut rng = Random { mt: [0u32; 624], mti: STATE_SIZE };
        rng.seed(seed);
        rng
    }

    /// A generator seeded with a value that the thread-local generator of
    /// the `rand` crate supplies: the state is that of some seed, and which
    /// one differs from call to call.
    pub fn new() -> (rng: Random)
        ensures
            exists|seed: u32| rng@ == seeded(seed),
    {
        let seed = entropy_word();
        let rng = Random::from_seed(seed);
        assert(rng@ == seeded(seed));
        rng
    }

    /// The cursor.
    pub fn mti(&self) -> (i: usize)
        ensures
            i == self.mti,
    {
        self.mti
    }

    /// Sets the cursor and leaves the words alone. A value of 624 or more
    /// makes the next draw twist first; the value 626 makes it reseed with
    /// 5489 before that.
    pub fn set_mti(&mut self, value: usize)
        ensures
            final(self).mti == value,
            final(self).mt == old(self).mt,
    {
        self.mti = value;
    }

    /// Re-initialises every word from `seed` and puts the cursor at the end,
    /// so that the next draw twists first. Nothing of the earlier state
    /// survives.
    pub fn seed(&mut self, seed: u32)
        ensures
            final(self)@ == seeded(seed),
    {
        self.mt[0] = seed;
        let mut i: usize = 1;
        while i < STATE_SIZE
            invariant
                1 <= i <= STATE_SIZE,
                forall|j: int| 0 <= j < i ==> self.mt@[j] == seed_word(seed, j as nat),
            decreases STATE_SIZE - i,
        {
            self.mt[i] = next_seed_word(self.mt[i - 1], i as u32);
            i += 1;
        }
        self.mti = STATE_SIZE;
        assert(self.mt@ =~= seed_words(seed));
    }

    /// Regenerates all 624 words in place, in one forward pass, and puts the
    /// cursor at 0.
    pub fn twist(&mut self)
        ensures
            final(self)@ == (GeneratorState { words: twisted(old(self)@.words), index: 0 }),
    {
        let mut i: usize = 0;
        while i < STATE_SIZE
            invariant
                i <= STATE_SIZE,
                self.mt@ == twist_upto(old(self).mt@, i as nat),
            decreases STATE_SIZE - i,
        {
            let x: u32 = (self.mt[i] & UPPER_MASK) | (self.mt[(i + 1) % STATE_SIZE] & LOWER_MASK);
            let mut x_a: u32 = x >> 1;
            if x % 2 != 0 {
                x_a = x_a ^ MATRIX_A;
            }
            self.mt[i] = self.mt[(i + SHIFT_SIZE) % STATE_SIZE] ^ x_a;
            i += 1;
        }
        self.mti = 0;
    }

    /// Draws the next raw 32-bit value.
    pub fn rand(&mut self) -> (y: u32)
        ensures
            y == next_output(old(self)@),
            final(self)@ == next_state(old(self)@),
            1 <= final(self).mti <= 624,
    {
        if self.mti >= STATE_SIZE {
            if self.mti == UNSEEDED {
                self.seed(DEFAULT_SEED);
            }
            self.twist();
        }
        let y: u32 = self.mt[self.mti];
        self.mti += 1;
        let y1: u32 = y ^ (y >> 11);
        let y2: u32 = y1 ^ ((y1 << 7) & TEMPERING_MASK_B);
        let y3: u32 = y2 ^ ((y2 << 15) & TEMPERING_MASK_C);
        y3 ^ (y3 >> 18)
    }

    /// `len` bytes, each the low byte of one raw draw.
    pub fn bytes(&mut self, len: usize) -> (res: Vec<u8>)
        ensures
            res@.len() == len,
            res@ == Seq::new(len as nat, |k: int| low_byte(output(old(self)@, k as nat))),
            final(self)@ == after(old(self)@, len as nat),
    {
        let ghost start = self@;
        let mut res: Vec<u8> = Vec::with_capacity(len);
        let mut k: usize = 0;
        while k < len
            invariant
                k <= len,
                res@.len() == k,
                self@ == after(start, k as nat),
                forall|j: int| 0 <= j < k ==> res@[j] == low_byte(output(start, j as nat)),
            decreases len - k,
        {
            let raw: u32 = self.rand();
            res.push((raw % 256) as u8);
            k += 1;
        }
        assert(res@ =~= Seq::new(len as nat, |k: int| low_byte(output(start, k as nat))));
        res
    }

    /// A lowercase ASCII letter, selected by one raw draw.
    pub fn char(&mut self) -> (c: char)
        ensures
            c == lowercase_letter(next_output(old(self)@)),
            'a' <= c <= 'z',
            final(self)@ == next_state(old(self)@),
    {
        let raw: u32 = self.rand();
        ((97 + raw % 26) as u8) as char
    }

    /// An ASCII letter or digit, selected by one raw draw.
    pub fn alphanumeric(&mut self) -> (c: char)
        ensures
            c == alphanumeric_char(next_output(old(self)@)),
            is_alphanumeric(c),
            final(self)@ == next_state(old(self)@),
    {
        let v: u32 = self.rand() % 62;
        if v < 10 {
            ((48 + v) as u8) as char
        } else if v < 36 {
            ((97 + v - 10) as u8) as char
        } else {
            ((65 + v - 36) as u8) as char
        }
    }

    /// A string of `length` ASCII letters and digits, each selected by one raw
    /// draw.
    pub fn string(&mut self, length: usize) -> (res: String)
        ensures
            res@.len() == length,
            res@ == Seq::new(
                length as nat,
                |k: int| alphanumeric_char(output(old(self)@, k as nat)),
            ),
            forall|k: int| 0 <= k < length ==> is_alphanumeric(#[trigger] res@[k]),
            final(self)@ == after(old(self)@, length as nat),
    {
        let ghost start = self@;
        let mut res = String::new();
        let mut k: usize = 0;
        while k < length
            invariant
                k <= length,
                res@.len() == k,
                self@ == after(start, k as nat),
                forall|j: int| 0 <= j < k ==> res@[j] == alphanumeric_char(output(start, j as nat)),
                forall|j: int| 0 <= j < k ==> is_alphanumeric(#[trigger] res@[j]),
            decreases length - k,
        {
            let c = self.alphanumeric();
            push_char(&mut res, c);
            k += 1;
        }
        assert(res@ =~= Seq::new(
            length as nat,
            |k: int| alphanumeric_char(output(start, k as nat)),
        ));
        res
    }

    /// A member of the inclusive range `[min, max]`, selected by one raw draw:
    /// `min` plus the draw modulo the size of the range. An inverted range is
    /// reported and draws nothing.
    pub fn integer(&mut self, min: i32, max: i32) -> (r: Result<i32, ArgumentError>)
        ensures
            min > max ==> r == Err::<i32, ArgumentError>(ArgumentError::InvertedRange),
            min > max ==> *final(self) == *old(self),
            min <= max ==> (r matches Ok(v) && min <= v <= max && v == in_inclusive_range(
                min as int,
                max as int,
                next_output(old(self)@),
            )),
            min <= max ==> final(self)@ == next_state(old(self)@),
    {
        if min > max {
            return Err(ArgumentError::InvertedRange);
        }
        let width: u64 = (max as i64 - min as i64 + 1) as u64;
        let raw: u32 = self.rand();
        let offset: u64 = raw as u64 % width;
        Ok((min as i64 + offset as i64) as i32)
    }

    /// The same as [`Random::integer`].
    pub fn range(&mut self, min: i32, max: i32) -> (r: Result<i32, ArgumentError>)
        ensures
            min > max ==> r == Err::<i32, ArgumentError>(ArgumentError::InvertedRange),
            min > max ==> *final(self) == *old(self),
            min <= max ==> (r matches Ok(v) && min <= v <= max && v == in_inclusive_range(
                min as int,
                max as int,
                next_output(old(self)@),
            )),
            min <= max ==> final(self)@ == next_state(old(self)@),
    {
        self.integer(min, max)
    }

    /// A member of the inclusive range `[min, max]`, selected by one raw draw:
    /// `min` plus the draw modulo the size of the range. An inverted range is
    /// reported and draws nothing.
    pub fn uint(&mut self, min: u32, max: u32) -> (r: Result<u32, ArgumentError>)
        ensures
            min > max ==> r == Err::<u32, ArgumentError>(ArgumentError::InvertedRange),
            min > max ==> *final(self) == *old(self),
            min <= max ==> (r matches Ok(v) && min <= v <= max && v == in_inclusive_range(
                min as int,
                max as int,
                next_output(old(self)@),
            )),
            min <= max ==> final(self)@ == next_state(old(self)@),
    {
        if min > max {
            return Err(ArgumentError::InvertedRange);
        }
        let width: u64 = max as u64 - min as u64 + 1;
        let raw: u32 = self.rand();
        let offset: u64 = raw as u64 % width;
        Ok((min as u64 + offset) as u32)
    }

    /// A member of the half-open range `[min, max)`, selected by one raw draw:
    /// `min` plus the draw modulo `max - min`. Small values are slightly
    /// favoured where `max - min` does not divide 2^32. A range without
    /// members is reported and draws nothing.
    pub fn random_range(&mut self, min: u32, max: u32) -> (r: Result<u32, ArgumentError>)
        ensures
            max <= min ==> r == Err::<u32, ArgumentError>(ArgumentError::EmptyRange),
            max <= min ==> *final(self) == *old(self),
            min < max ==> (r matches Ok(v) && min <= v < max && v == in_half_open_range(
                min as int,
                max as int,
                next_output(old(self)@),
            )),
            min < max ==> final(self)@ == next_state(old(self)@),
    {
        if max <= min {
            return Err(ArgumentError::EmptyRange);
        }
        let raw: u32 = self.rand();
        Ok(min + raw % (max - min))
    }

    /// The XOR of 32 consecutive raw draws.
    pub fn pseudo(&mut self) -> (res: u32)
        ensures
            res == xor_fold(outputs(old(self)@, 32)),
            final(self)@ == after(old(self)@, 32),
    {
        let ghost start = self@;
        let mut res: u32 = 0;
        let mut k: usize = 0;
        while k < 32
            invariant
                k <= 32,
                self@ == after(start, k as nat),
                res == xor_fold(outputs(start, k as nat)),
            decreases 32 - k,
        {
            let raw: u32 = self.rand();
            proof {
                let longer = outputs(start, (k + 1) as nat);
                assert(longer.drop_last() =~= outputs(start, k as nat));
                assert(longer.last() == raw);
            }
            res = res ^ raw;
            k += 1;
        }
        res
    }

    /// A 64-bit value: the first of two raw draws is its high half, the
    /// second its low half.
    pub fn u64(&mut self) -> (res: u64)
        ensures
            res == join_words(output(old(self)@, 0), output(old(self)@, 1)),
            final(self)@ == after(old(self)@, 2),
    {
        let ghost start = self@;
        let high: u32 = self.rand();
        let low: u32 = self.rand();
        proof {
            assert(after(start, 1) == next_state(after(start, 0)));
            assert(after(start, 2) == next_state(after(start, 1)));
            assert(((high as u64) << 32) | (low as u64) == high as u64 * 0x1_0000_0000 + low as u64)
                by (bit_vector);
        }
        ((high as u64) << 32) | (low as u64)
    }

    /// A signed 64-bit value: the bits of two raw draws, the first as the
    /// high half, read in two's complement.
    pub fn i64(&mut self) -> (res: i64)
        ensures
            res == join_words_signed(output(old(self)@, 0), output(old(self)@, 1)),
            final(self)@ == after(old(self)@, 2),
    {
        let bits: u64 = self.u64();
        if bits >= 0x8000_0000_0000_0000 {
            let below: u64 = bits - 0x8000_0000_0000_0000;
            below as i64 + i64::MIN
        } else {
            bits as i64
        }
    }

    /// The 24 high bits of one raw draw: the numerator of a fraction over
    /// 2^24, which lies in `[0, 1)` and is exact in single precision.
    pub fn fraction24(&mut self) -> (bits: u32)
        ensures
            bits == next_output(old(self)@) / 256,
            bits < 0x100_0000,
            final(self)@ == next_state(old(self)@),
    {
        let raw: u32 = self.rand();
        assert(raw >> 8 == raw / 256 && (raw >> 8) < 0x100_0000) by (bit_vector);
        raw >> 8
    }

    /// The 53 high bits of a 64-bit value made of two raw draws: the numerator
    /// of a fraction over 2^53, which lies in `[0, 1)` and is exact in double
    /// precision.
    pub fn fraction53(&mut self) -> (bits: u64)
        ensures
            bits == join_words(output(old(self)@, 0), output(old(self)@, 1)) / 2048,
            bits < 0x20_0000_0000_0000,
            final(self)@ == after(old(self)@, 2),
    {
        let whole: u64 = self.u64();
        assert(whole >> 11 == whole / 2048 && (whole >> 11) < 0x20_0000_0000_0000)
            by (bit_vector);
        whole >> 11
    }
}

} // verus!
