//! What holds of the generator whatever its seed and however many draws are
//! taken, proved from the model.

use vstd::prelude::*;
use crate::random::Random;
use crate::state::{
    after, mix, next_state, output, outputs, seed_step, seed_word, seed_words, seeded,
    temper, twist_upto, twisted, GeneratorState, DEFAULT_SEED, SEED_MULTIPLIER, STATE_SIZE,
};

verus! {

/// Whether every word of `words` is zero.
pub open spec fn all_zero(words: Seq<u32>) -> bool {
    forall|i: int| 0 <= i < words.len() ==> words[i] == 0
}

/// A generator is what its words and its cursor are: two generators with the
/// same view are equal.
pub proof fn law_view_is_the_generator(a: Random, b: Random)
    requires
        a@ == b@,
    ensures
        a == b,
{
    assert(a.mt@ == b.mt@);
    assert(a.mt == b.mt);
}

/// Every generator holds exactly 624 words, and so does every seeded state.
pub proof fn law_states_are_well_formed(rng: Random, seed: u32)
    ensures
        rng@.wf(),
        seeded(seed).wf(),
{
}

/// Seeding is deterministic and forgets what came before: two generators
/// seeded with the same value, whatever they held, are in the same state, and
/// from there they hand out the same raw draws and pass through the same
/// states, however many draws are taken.
pub proof fn law_same_seed_same_draws(a: Random, b: Random, seed: u32, n: nat)
    requires
        a@ == seeded(seed),
        b@ == seeded(seed),
    ensures
        a == b,
        outputs(a@, n) == outputs(b@, n),
        after(a@, n) == after(b@, n),
{
    law_view_is_the_generator(a, b);
}

/// A twist keeps the number of words.
pub proof fn lemma_twist_upto_len(words: Seq<u32>, k: nat)
    requires
        words.len() == STATE_SIZE,
        k <= STATE_SIZE,
    ensures
        twist_upto(words, k).len() == STATE_SIZE,
    decreases k,
{
    if k > 0 {
        lemma_twist_upto_len(words, (k - 1) as nat);
    }
}

/// While the twist has rewritten positions `0..k`, the positions from `k` on
/// still hold what they held, and a position before `k` holds what it was
/// given when the twist passed it.
pub proof fn lemma_twist_upto_frame(words: Seq<u32>, k: nat, j: int)
    requires
        words.len() == STATE_SIZE,
        k <= STATE_SIZE,
        0 <= j < STATE_SIZE,
    ensures
        j >= k ==> twist_upto(words, k)[j] == words[j],
        j < k ==> twist_upto(words, k)[j] == twist_upto(words, (j + 1) as nat)[j],
    decreases k,
{
    if k > 0 {
        lemma_twist_upto_len(words, (k - 1) as nat);
        lemma_twist_upto_frame(words, (k - 1) as nat, j);
    }
}

/// What the twist puts at position `i`, over the old and the new words.
pub open spec fn twisted_word(words: Seq<u32>, i: int) -> u32 {
    if i < 227 {
        words[i + 397] ^ mix(words[i], words[i + 1])
    } else if i < 623 {
        twisted(words)[i - 227] ^ mix(words[i], words[i + 1])
    } else {
        twisted(words)[396] ^ mix(words[623], twisted(words)[0])
    }
}

/// The word that the twist puts at position `i` is what the recurrence says.
pub proof fn lemma_twisted_word(words: Seq<u32>, i: int)
    requires
        words.len() == STATE_SIZE,
        0 <= i < STATE_SIZE,
    ensures
        twisted(words).len() == STATE_SIZE,
        twisted(words)[i] == twisted_word(words, i),
{
    let before = twist_upto(words, i as nat);
    lemma_twist_upto_len(words, STATE_SIZE as nat);
    lemma_twist_upto_len(words, i as nat);
    lemma_twist_upto_frame(words, STATE_SIZE as nat, i);
    lemma_twist_upto_frame(words, i as nat, i);
    lemma_twist_upto_frame(words, i as nat, (i + 1) % 624);
    lemma_twist_upto_frame(words, i as nat, (i + 397) % 624);
    lemma_twist_upto_frame(words, STATE_SIZE as nat, (i + 1) % 624);
    lemma_twist_upto_frame(words, STATE_SIZE as nat, (i + 397) % 624);
    assert(twist_upto(words, (i + 1) as nat)[i] == before[(i + 397) % 624] ^ mix(
        before[i],
        before[(i + 1) % 624],
    ));
}

/// The twist as a recurrence over the old and the new words: each of the
/// first 227 new words is made of three old words; each later one of a new
/// word 227 places back and two old words; and the last one of the new word at
/// position 396, the old last word and the new first word.
pub proof fn law_twist_recurrence(words: Seq<u32>)
    requires
        words.len() == STATE_SIZE,
    ensures
        twisted(words).len() == STATE_SIZE,
        forall|i: int|
            0 <= i < 227 ==> #[trigger] twisted(words)[i] == words[i + 397] ^ mix(
                words[i],
                words[i + 1],
            ),
        forall|i: int|
            227 <= i < 623 ==> #[trigger] twisted(words)[i] == twisted(words)[i - 227] ^ mix(
                words[i],
                words[i + 1],
            ),
        twisted(words)[623] == twisted(words)[396] ^ mix(words[623], twisted(words)[0]),
{
    lemma_twist_upto_len(words, STATE_SIZE as nat);
    assert forall|i: int| 0 <= i < 624 implies #[trigger] twisted(words)[i] == twisted_word(
        words,
        i,
    ) by {
        lemma_twisted_word(words, i);
    }
}

/// Draws that stay inside the words neither twist nor change a word: from a
/// state whose cursor leaves room for `k` draws, draw `j < k` is the tempered
/// word `j` places past the cursor, and after `k` draws the cursor has moved
/// by `k`.
pub proof fn law_draws_read_consecutive_words(st: GeneratorState, k: nat)
    requires
        st.index + k <= STATE_SIZE,
    ensures
        after(st, k) == (GeneratorState { words: st.words, index: st.index + k }),
        forall|j: nat|
            j < k ==> #[trigger] output(st, j) == temper(st.words[(st.index + j) as int]),
    decreases k,
{
    if k > 0 {
        law_draws_read_consecutive_words(st, (k - 1) as nat);
        assert forall|j: nat| j < k implies #[trigger] output(st, j) == temper(
            st.words[(st.index + j) as int],
        ) by {
            law_draws_read_consecutive_words(st, j);
        }
    }
}

/// After a seeding, the first draw twists, the next 623 only move the cursor,
/// and the 625th twists exactly once more: it leaves the words twisted a
/// second time and the cursor at 1.
pub proof fn law_regeneration_boundary(seed: u32)
    ensures
        forall|k: nat|
            1 <= k <= 624 ==> #[trigger] after(seeded(seed), k) == (GeneratorState {
                words: twisted(seed_words(seed)),
                index: k,
            }),
        after(seeded(seed), 625) == (GeneratorState {
            words: twisted(twisted(seed_words(seed))),
            index: 1,
        }),
{
    let first = GeneratorState { words: twisted(seed_words(seed)), index: 1 };
    assert(after(seeded(seed), 0) == seeded(seed));
    assert(after(seeded(seed), 1) == next_state(after(seeded(seed), 0)));
    assert(after(seeded(seed), 1) == first);
    assert forall|k: nat| 1 <= k <= 624 implies #[trigger] after(seeded(seed), k) == (
    GeneratorState { words: twisted(seed_words(seed)), index: k }) by {
        law_draws_read_consecutive_words(first, (k - 1) as nat);
        lemma_after_splits(seeded(seed), 1, (k - 1) as nat);
    }
    assert(after(seeded(seed), 625) == next_state(after(seeded(seed), 624)));
}

/// Taking `a` draws and then `b` more is taking `a + b` draws.
pub proof fn lemma_after_splits(st: GeneratorState, a: nat, b: nat)
    ensures
        after(after(st, a), b) == after(st, a + b),
        forall|j: nat| j < b ==> #[trigger] output(after(st, a), j) == output(st, a + j),
    decreases b,
{
    if b > 0 {
        lemma_after_splits(st, a, (b - 1) as nat);
        assert forall|j: nat| j < b implies #[trigger] output(after(st, a), j) == output(
            st,
            a + j,
        ) by {
            lemma_after_splits(st, a, j);
        }
    }
}

/// After at least one draw the cursor lies in `1..=624` and there are 624
/// words, whatever the state was before.
pub proof fn law_cursor_stays_in_bounds(st: GeneratorState, n: nat)
    requires
        st.wf(),
        n >= 1,
    ensures
        1 <= after(st, n).index <= STATE_SIZE,
        after(st, n).wf(),
    decreases n,
{
    let prev = after(st, (n - 1) as nat);
    if n > 1 {
        law_cursor_stays_in_bounds(st, (n - 1) as nat);
    } else {
        assert(prev == st);
    }
    lemma_twist_upto_len(prev.words, STATE_SIZE as nat);
    lemma_twist_upto_len(seed_words(DEFAULT_SEED), STATE_SIZE as nat);
    assert(after(st, n) == next_state(prev));
}

/// The word that seeding puts after a zero word is its own position.
pub proof fn lemma_seed_word_after_zero(seed: u32, i: nat)
    requires
        i < 623,
        seed_word(seed, i) == 0,
    ensures
        seed_word(seed, i + 1) == i + 1,
{
    let prev = seed_word(seed, i);
    let scrambled = prev ^ (prev >> 30);
    assert(scrambled == 0) by (bit_vector)
        requires
            prev == 0,
            scrambled == prev ^ (prev >> 30),
    ;
    assert(SEED_MULTIPLIER as int * (scrambled as int) == 0);
    assert(seed_word(seed, i + 1) == seed_step(prev, i + 1));
}

/// No two neighbours among the words of a seeded state are both zero.
pub proof fn lemma_seeded_neighbours_not_both_zero(seed: u32, i: int)
    requires
        0 <= i < 623,
    ensures
        seed_words(seed)[i] != 0 || seed_words(seed)[i + 1] != 0,
{
    let w = seed_words(seed);
    assert(w[i] == seed_word(seed, i as nat));
    assert(w[i + 1] == seed_word(seed, (i + 1) as nat));
    if w[i] == 0 {
        lemma_seed_word_after_zero(seed, i as nat);
    }
}

/// A seeded state is never all zero, whatever the seed.
pub proof fn law_seeded_words_not_all_zero(seed: u32)
    ensures
        !all_zero(seed_words(seed)),
{
    lemma_seeded_neighbours_not_both_zero(seed, 0);
}

/// The value that the twist mixes in is zero only if the top bit of the
/// first word and the low 31 bits of the second are all zero.
pub proof fn lemma_mix_zero(hi: u32, lo: u32)
    by (bit_vector)
    ensures
        mix(hi, lo) == 0 ==> hi & 0x8000_0000 == 0 && lo & 0x7fff_ffff == 0,
{
}

/// Twisting a seeded state never yields words that are all zero, whatever
/// the seed.
pub proof fn law_twist_of_seeded_not_all_zero(seed: u32)
    ensures
        !all_zero(twisted(seed_words(seed))),
{
    let w = seed_words(seed);
    let t = twisted(w);
    lemma_twisted_word(w, 227);
    lemma_twisted_word(w, 228);
    if all_zero(t) {
        assert(t[227] == 0 && t[0] == 0 && t[228] == 0 && t[1] == 0);
        let m1 = mix(w[227], w[228]);
        let m2 = mix(w[228], w[229]);
        assert(m1 == 0) by (bit_vector)
            requires
                0u32 == 0u32 ^ m1,
        ;
        assert(m2 == 0) by (bit_vector)
            requires
                0u32 == 0u32 ^ m2,
        ;
        lemma_mix_zero(w[227], w[228]);
        lemma_mix_zero(w[228], w[229]);
        let x = w[228];
        let y = w[229];
        assert(x == 0) by (bit_vector)
            requires
                x & 0x8000_0000 == 0,
                x & 0x7fff_ffff == 0,
        ;
        assert(w[228] == seed_word(seed, 228));
        assert(w[229] == seed_word(seed, 229));
        lemma_seed_word_after_zero(seed, 228);
        assert(y == 229);
        assert(y & 0x7fff_ffff != 0) by (bit_vector)
            requires
                y == 229,
        ;
    }
}

} // verus!
