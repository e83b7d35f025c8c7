//! The mathematical model of the generator: its state, the seeding rule, the
//! twist and the tempering transform, as pure functions on sequences of words.

use vstd::prelude::*;

verus! {

/// Number of 32-bit words in the state.
pub const STATE_SIZE: usize = 624;

/// Offset of the word that the recurrence combines with.
pub const SHIFT_SIZE: usize = 397;

/// The twist matrix constant.
pub const MATRIX_A: u32 = 0x9908_b0df;

/// Selects the most significant bit of a word.
pub const UPPER_MASK: u32 = 0x8000_0000;

/// Selects the 31 least significant bits of a word.
pub const LOWER_MASK: u32 = 0x7fff_ffff;

/// First tempering mask.
pub const TEMPERING_MASK_B: u32 = 0x9d2c_5680;

/// Second tempering mask.
pub const TEMPERING_MASK_C: u32 = 0xefc6_0000;

/// Multiplier of the seeding recurrence.
pub const SEED_MULTIPLIER: u32 = 1812433253;

/// Seed used when a generator is read while its cursor holds the
/// marker of a state that was never seeded.
pub const DEFAULT_SEED: u32 = 5489;

/// Cursor value that marks a state that was never seeded.
pub const UNSEEDED: usize = 626;

/// A generator state as a mathematical value: the words and the cursor.
pub struct GeneratorState {
    /// The working state; 624 words in every well-formed state.
    pub words: Seq<u32>,
    /// Position of the next word to temper and hand out.
    pub index: nat,
}

impl GeneratorState {
    /// A state is well formed when it holds exactly 624 words.
    pub open spec fn wf(self) -> bool {
        self.words.len() == STATE_SIZE
    }
}

/// The word that seeding puts at position `i` after the word `prev`:
/// `1812433253 * (prev ^ (prev >> 30)) + i` modulo 2^32.
pub open spec fn seed_step(prev: u32, i: nat) -> u32 {
    ((SEED_MULTIPLIER as int * ((prev ^ (prev >> 30)) as int) + i as int) % 0x1_0000_0000) as u32
}

/// Word `i` of the state that seeding with `seed` produces: the seed itself
/// at position 0, and at every later position the step from the word before.
pub open spec fn seed_word(seed: u32, i: nat) -> u32
    decreases i,
{
    if i == 0 {
        seed
    } else {
        seed_step(seed_word(seed, (i - 1) as nat), i)
    }
}

/// The 624 words that seeding with `seed` produces.
pub open spec fn seed_words(seed: u32) -> Seq<u32> {
    Seq::new(STATE_SIZE as nat, |i: int| seed_word(seed, i as nat))
}

/// The state right after seeding with `seed`: all words fresh, cursor at the end.
pub open spec fn seeded(seed: u32) -> GeneratorState {
    GeneratorState { words: seed_words(seed), index: STATE_SIZE as nat }
}

/// The value that the twist combines with the word 397 places ahead: the top
/// bit of `hi` joined with the low 31 bits of `lo`, shifted right by one, and
/// XORed with the matrix constant when the joined value is odd.
pub open spec fn mix(hi: u32, lo: u32) -> u32 {
    let x: u32 = (hi & UPPER_MASK) | (lo & LOWER_MASK);
    if x % 2 != 0 {
        (x >> 1) ^ MATRIX_A
    } else {
        x >> 1
    }
}

/// The words after the twist has rewritten positions `0..k`, in order and in
/// place: position `i` reads positions `i + 1` and `i + 397` (both modulo 624)
/// of the words as they stand when it is reached.
pub open spec fn twist_upto(words: Seq<u32>, k: nat) -> Seq<u32>
    decreases k,
{
    if k == 0 {
        words
    } else {
        let w = twist_upto(words, (k - 1) as nat);
        let i = k - 1;
        let n = STATE_SIZE as int;
        w.update(i, w[(i + SHIFT_SIZE) % n] ^ mix(w[i], w[(i + 1) % n]))
    }
}

/// The words after a complete twist.
pub open spec fn twisted(words: Seq<u32>) -> Seq<u32> {
    twist_upto(words, STATE_SIZE as nat)
}

/// The output tempering transform.
pub open spec fn temper(y: u32) -> u32 {
    let y1: u32 = y ^ (y >> 11);
    let y2: u32 = y1 ^ ((y1 << 7) & TEMPERING_MASK_B);
    let y3: u32 = y2 ^ ((y2 << 15) & TEMPERING_MASK_C);
    y3 ^ (y3 >> 18)
}

/// The state from which the next word is read: `st` itself while its cursor
/// is inside the words; otherwise the twisted words (of the default seeding
/// when the cursor holds the never-seeded marker) with the cursor at 0.
pub open spec fn refilled(st: GeneratorState) -> GeneratorState {
    if st.index < STATE_SIZE {
        st
    } else if st.index == UNSEEDED {
        GeneratorState { words: twisted(seed_words(DEFAULT_SEED)), index: 0 }
    } else {
        GeneratorState { words: twisted(st.words), index: 0 }
    }
}

/// The value that the next raw draw from `st` returns.
pub open spec fn next_output(st: GeneratorState) -> u32 {
    let r = refilled(st);
    temper(r.words[r.index as int])
}

/// The state that the next raw draw from `st` leaves behind.
pub open spec fn next_state(st: GeneratorState) -> GeneratorState {
    let r = refilled(st);
    GeneratorState { words: r.words, index: r.index + 1 }
}

/// The state after `n` raw draws from `st`.
pub open spec fn after(st: GeneratorState, n: nat) -> GeneratorState
    decreases n,
{
    if n == 0 {
        st
    } else {
        next_state(after(st, (n - 1) as nat))
    }
}

/// The value of raw draw number `k` from `st`, counting from 0.
pub open spec fn output(st: GeneratorState, k: nat) -> u32 {
    next_output(after(st, k))
}

/// The first `n` raw draws from `st`, in order.
pub open spec fn outputs(st: GeneratorState, n: nat) -> Seq<u32> {
    Seq::new(n, |k: int| output(st, k as nat))
}

} // verus!
