//! Picking from collections: one element, a shuffle, samples with and
//! without replacement, and a choice by weight.

use vstd::prelude::*;
use vstd::seq_lib::{group_to_multiset_ensures, to_multiset_update};
use vstd::multiset::group_multiset_axioms;
use crate::error::ArgumentError;
use crate::outside::swap_items;
use crate::random::Random;
use crate::state::{after, next_output, next_state, output, GeneratorState};

verus! {

/// `s` with the items at positions `i` and `j` exchanged.
pub open spec fn swapped<T>(s: Seq<T>, i: int, j: int) -> Seq<T> {
    s.update(i, s[j]).update(j, s[i])
}

/// The number of raw draws that shuffling `len` items takes: one for each
/// position from the last down to the second.
pub open spec fn shuffle_draws(len: nat) -> nat {
    if len == 0 {
        0
    } else {
        (len - 1) as nat
    }
}

/// `s` after the first `steps` steps of the shuffle that draws from `st`.
/// Step `t`, counting from 1, handles position `i = len - t`: it exchanges the
/// item there with the one at position `j`, where `j` is raw draw `t - 1` from
/// `st` modulo `i + 1`.
pub open spec fn shuffle_steps<T>(s: Seq<T>, st: GeneratorState, steps: nat) -> Seq<T>
    decreases steps,
{
    if steps == 0 {
        s
    } else {
        let before = shuffle_steps(s, st, (steps - 1) as nat);
        let i = s.len() - steps;
        let j = (output(st, (steps - 1) as nat) as int) % (i + 1);
        swapped(before, i, j)
    }
}

/// `s` after the whole shuffle that draws from `st`.
pub open spec fn shuffled<T>(s: Seq<T>, st: GeneratorState) -> Seq<T> {
    shuffle_steps(s, st, shuffle_draws(s.len()))
}

/// The positions `0, 1, .., len - 1` in order.
pub open spec fn positions(len: nat) -> Seq<usize> {
    Seq::new(len, |i: int| i as usize)
}

/// The order in which a sample without replacement takes the positions of
/// `len` items: the positions, shuffled with draws from `st`.
pub open spec fn sample_order(len: nat, st: GeneratorState) -> Seq<usize> {
    shuffled(positions(len), st)
}

/// The positions that a sample of `amount` with replacement takes among
/// `len` items: raw draw `k` from `st` modulo `len`, for each `k` in turn.
pub open spec fn replacement_order(len: nat, amount: nat, st: GeneratorState) -> Seq<usize> {
    Seq::new(amount, |k: int| ((output(st, k as nat) as int) % (len as int)) as usize)
}

/// Whether `picked` holds, in order, the elements of `values` at the
/// positions that `order` names.
pub open spec fn picks<T>(picked: Seq<&T>, values: Seq<T>, order: Seq<usize>) -> bool {
    &&& picked.len() == order.len()
    &&& forall|k: int|
        0 <= k < order.len() ==> {
            &&& 0 <= #[trigger] order[k] < values.len()
            &&& picked[k] == &values[order[k] as int]
        }
}

/// The sum of the weights.
pub open spec fn total_weight(weights: Seq<u32>) -> nat
    decreases weights.len(),
{
    if weights.len() == 0 {
        0
    } else {
        total_weight(weights.drop_last()) + weights.last() as nat
    }
}

/// The sum of the first `k` weights.
pub open spec fn running_weight(weights: Seq<u32>, k: int) -> nat {
    total_weight(weights.take(k))
}

/// The position that `draw` selects among `weights`: the first one at which
/// the running sum of the weights exceeds `draw`.
pub open spec fn weighted_index(weights: Seq<u32>, draw: nat) -> int
    decreases weights.len(),
{
    if weights.len() == 0 {
        0
    } else if draw < total_weight(weights.drop_last()) {
        weighted_index(weights.drop_last(), draw)
    } else {
        weights.len() - 1
    }
}

/// The value that a choice by weight holds against the running sum of the
/// weights: the next raw draw from `st` modulo the sum of the weights.
pub open spec fn weighted_draw(weights: Seq<u32>, st: GeneratorState) -> nat {
    (next_output(st) as nat) % total_weight(weights)
}

/// Why a choice by weight among `count` choices is refused, if it is: the
/// first of a count of weights that differs, a sum above `u32::MAX`, and a
/// sum of zero.
pub open spec fn weighted_choice_error(count: nat, weights: Seq<u32>) -> Option<ArgumentError> {
    if count != weights.len() {
        Some(ArgumentError::LengthMismatch)
    } else if total_weight(weights) > u32::MAX {
        Some(ArgumentError::WeightOverflow)
    } else if total_weight(weights) == 0 {
        Some(ArgumentError::ZeroTotalWeight)
    } else {
        None
    }
}

/// The running sum of the weights grows with the number of weights taken.
pub proof fn lemma_running_weight_grows(weights: Seq<u32>, a: int, b: int)
    requires
        0 <= a <= b <= weights.len(),
    ensures
        running_weight(weights, a) <= running_weight(weights, b),
    decreases b - a,
{
    if a < b {
        lemma_running_weight_grows(weights, a, b - 1);
        assert(weights.take(b).drop_last() =~= weights.take(b - 1));
    }
}

/// One more weight taken adds that weight to the running sum.
pub proof fn lemma_running_weight_step(weights: Seq<u32>, k: int)
    requires
        0 <= k < weights.len(),
    ensures
        running_weight(weights, k + 1) == running_weight(weights, k) + weights[k],
        running_weight(weights, weights.len() as int) == total_weight(weights),
{
    assert(weights.take(k + 1).drop_last() =~= weights.take(k));
    assert(weights.take(weights.len() as int) =~= weights);
}

/// A position whose stretch of the running sum holds `draw` is the one that
/// `draw` selects.
pub proof fn lemma_weighted_index_found(weights: Seq<u32>, draw: nat, k: int)
    requires
        0 <= k < weights.len(),
        running_weight(weights, k) <= draw < running_weight(weights, k + 1),
    ensures
        weighted_index(weights, draw) == k,
    decreases weights.len(),
{
    let front = weights.drop_last();
    assert(front =~= weights.take(weights.len() - 1));
    if k == weights.len() - 1 {
    } else {
        lemma_running_weight_grows(weights, k + 1, weights.len() - 1);
        assert(front.take(k) =~= weights.take(k));
        assert(front.take(k + 1) =~= weights.take(k + 1));
        lemma_weighted_index_found(front, draw, k);
    }
}

/// A draw below the sum of the weights selects a position that exists, whose
/// stretch of the running sum holds the draw, and whose weight is not zero.
pub proof fn law_weighted_index_in_range(weights: Seq<u32>, draw: nat)
    requires
        draw < total_weight(weights),
    ensures
        0 <= weighted_index(weights, draw) < weights.len(),
        running_weight(weights, weighted_index(weights, draw)) <= draw < running_weight(
            weights,
            weighted_index(weights, draw) + 1,
        ),
        weights[weighted_index(weights, draw)] > 0,
    decreases weights.len(),
{
    let front = weights.drop_last();
    let k = weighted_index(weights, draw);
    assert(front =~= weights.take(weights.len() - 1));
    if draw < total_weight(front) {
        law_weighted_index_in_range(front, draw);
        assert(front.take(k) =~= weights.take(k));
        assert(front.take(k + 1) =~= weights.take(k + 1));
    } else {
        assert(weights.take(weights.len() as int) =~= weights);
    }
    lemma_running_weight_step(weights, k);
}

/// Each choice owns as many of the possible draws as its weight says: a draw
/// below the sum of the weights selects position `k` exactly when it lies in
/// the stretch of the running sum that weight `k` adds.
pub proof fn law_weighted_index_owns_its_stretch(weights: Seq<u32>, draw: nat, k: int)
    requires
        0 <= k < weights.len(),
        draw < total_weight(weights),
    ensures
        weighted_index(weights, draw) == k <==> running_weight(weights, k) <= draw
            < running_weight(weights, k + 1),
        running_weight(weights, k + 1) - running_weight(weights, k) == weights[k],
{
    law_weighted_index_in_range(weights, draw);
    lemma_running_weight_step(weights, k);
    if running_weight(weights, k) <= draw < running_weight(weights, k + 1) {
        lemma_weighted_index_found(weights, draw, k);
    }
}

/// Exchanging two items changes nothing in what a sequence holds.
pub proof fn lemma_swapped_keeps_items<T>(s: Seq<T>, i: int, j: int)
    requires
        0 <= i < s.len(),
        0 <= j < s.len(),
    ensures
        swapped(s, i, j).len() == s.len(),
        swapped(s, i, j).to_multiset() == s.to_multiset(),
{
    broadcast use group_to_multiset_ensures;
    broadcast use group_multiset_axioms;

    let s1 = s.update(i, s[j]);
    to_multiset_update(s, i, s[j]);
    to_multiset_update(s1, j, s[i]);
    assert(s1[j] == s[j]);
    assert(s.to_multiset().count(s[i]) > 0);
    assert(s.to_multiset().count(s[j]) > 0);
    assert(swapped(s, i, j).to_multiset() =~= s.to_multiset());
}

/// Every step of the shuffle keeps the length and the items.
pub proof fn lemma_shuffle_steps_keep_items<T>(s: Seq<T>, st: GeneratorState, steps: nat)
    requires
        steps <= shuffle_draws(s.len()),
    ensures
        shuffle_steps(s, st, steps).len() == s.len(),
        shuffle_steps(s, st, steps).to_multiset() == s.to_multiset(),
    decreases steps,
{
    if steps > 0 {
        lemma_shuffle_steps_keep_items(s, st, (steps - 1) as nat);
        let before = shuffle_steps(s, st, (steps - 1) as nat);
        let i = s.len() - steps;
        let j = (output(st, (steps - 1) as nat) as int) % (i + 1);
        lemma_swapped_keeps_items(before, i, j);
    }
}

/// A shuffle rearranges: what comes out has the length of what went in and
/// holds the same items, each as often as before, whatever the draws.
pub proof fn law_shuffle_is_a_permutation<T>(s: Seq<T>, st: GeneratorState)
    ensures
        shuffled(s, st).len() == s.len(),
        shuffled(s, st).to_multiset() == s.to_multiset(),
{
    lemma_shuffle_steps_keep_items(s, st, shuffle_draws(s.len()));
}

/// The order of a sample names every position once: it has as many entries
/// as there are positions, each entry is a position, and no two are equal.
pub proof fn law_sample_order_is_a_permutation(len: nat, st: GeneratorState)
    requires
        len <= usize::MAX,
    ensures
        sample_order(len, st).len() == len,
        sample_order(len, st).to_multiset() == positions(len).to_multiset(),
        sample_order(len, st).no_duplicates(),
        forall|k: int| 0 <= k < len ==> 0 <= #[trigger] sample_order(len, st)[k] < len,
{
    broadcast use group_to_multiset_ensures;

    let ident = positions(len);
    let order = sample_order(len, st);
    law_shuffle_is_a_permutation(ident, st);
    assert(ident.no_duplicates());
    ident.lemma_multiset_has_no_duplicates();
    order.lemma_multiset_has_no_duplicates_conv();
    assert forall|k: int| 0 <= k < len implies 0 <= #[trigger] order[k] < len by {
        assert(order.to_multiset().count(order[k]) > 0);
        assert(ident.contains(order[k]));
    }
}

impl Random {
    /// One element of `values`, selected by one raw draw modulo the number of
    /// elements; `None`, and no draw, when there is none.
    pub fn choice<'a, T>(&mut self, values: &'a [T]) -> (r: Option<&'a T>)
        ensures
            values@.len() == 0 ==> r is None && *final(self) == *old(self),
            values@.len() > 0 ==> r == Some(
                &values@[(next_output(old(self)@) as int) % (values@.len() as int)],
            ) && final(self)@ == next_state(old(self)@),
    {
        if values.len() == 0 {
            return None;
        }
        let raw: u32 = self.rand();
        let index: usize = (raw as usize) % values.len();
        Some(&values[index])
    }

    /// Shuffles `values` in place: for each position from the last down to the
    /// second, one raw draw selects a position at or before it, and the two
    /// items change places. The result holds exactly the items that went in.
    pub fn shuffle<T>(&mut self, values: &mut [T])
        ensures
            final(values)@ == shuffled(old(values)@, old(self)@),
            final(values)@.len() == old(values)@.len(),
            final(values)@.to_multiset() == old(values)@.to_multiset(),
            final(self)@ == after(old(self)@, shuffle_draws(old(values)@.len())),
    {
        let len: usize = values.len();
        let ghost start = self@;
        let ghost items = values@;
        if len < 2 {
            return ;
        }
        let mut i: usize = len - 1;
        while i > 0
            invariant
                i < len,
                len == items.len(),
                values@.len() == len,
                values@ == shuffle_steps(items, start, (len - 1 - i) as nat),
                self@ == after(start, (len - 1 - i) as nat),
            decreases i,
        {
            let raw: u32 = self.rand();
            let j: usize = (raw as usize) % (i + 1);
            swap_items(values, i, j);
            i -= 1;
        }
        proof {
            lemma_shuffle_steps_keep_items(items, start, (len - 1) as nat);
        }
    }

    /// `amount` elements of `values` at distinct positions: the positions are
    /// shuffled with draws from this generator and the elements at the first
    /// `amount` of them are handed out, in that order. Asking for more than
    /// there are is reported and draws nothing.
    pub fn sample<'a, T>(&mut self, values: &'a [T], amount: usize) -> (r: Result<
        Vec<&'a T>,
        ArgumentError,
    >)
        ensures
            amount > values@.len() ==> (r matches Err(e) && e == ArgumentError::SampleTooLarge),
            amount > values@.len() ==> *final(self) == *old(self),
            amount <= values@.len() ==> (r matches Ok(picked) && picks(
                picked@,
                values@,
                sample_order(values@.len(), old(self)@).take(amount as int),
            )),
            amount <= values@.len() ==> sample_order(values@.len(), old(self)@).no_duplicates(),
            amount <= values@.len() ==> final(self)@ == after(
                old(self)@,
                shuffle_draws(values@.len()),
            ),
    {
        let len: usize = values.len();
        if amount > len {
            return Err(ArgumentError::SampleTooLarge);
        }
        let ghost start = self@;
        let mut order: Vec<usize> = Vec::with_capacity(len);
        let mut i: usize = 0;
        while i < len
            invariant
                i <= len,
                order@.len() == i,
                forall|j: int| 0 <= j < i ==> order@[j] == j as usize,
            decreases len - i,
        {
            order.push(i);
            i += 1;
        }
        assert(order@ =~= positions(len as nat));
        self.shuffle(order.as_mut_slice());
        proof {
            law_sample_order_is_a_permutation(len as nat, start);
        }
        let mut picked: Vec<&'a T> = Vec::with_capacity(amount);
        let mut k: usize = 0;
        while k < amount
            invariant
                k <= amount <= len,
                len == values@.len(),
                order@ == sample_order(len as nat, start),
                order@.len() == len,
                forall|j: int| 0 <= j < len ==> 0 <= #[trigger] order@[j] < len,
                picks(picked@, values@, order@.take(k as int)),
            decreases amount - k,
        {
            picked.push(&values[order[k]]);
            k += 1;
        }
        Ok(picked)
    }

    /// `amount` elements of `values`, each selected by one raw draw modulo the
    /// number of elements, so that an element may come more than once. Asking
    /// for any from no elements is reported and draws nothing.
    pub fn sample_with_replacement<'a, T>(&mut self, values: &'a [T], amount: usize) -> (r: Result<
        Vec<&'a T>,
        ArgumentError,
    >)
        ensures
            values@.len() == 0 && amount > 0 ==> (r matches Err(e)
                && e == ArgumentError::EmptyInput),
            values@.len() == 0 && amount > 0 ==> *final(self) == *old(self),
            values@.len() > 0 || amount == 0 ==> (r matches Ok(picked) && picks(
                picked@,
                values@,
                replacement_order(values@.len(), amount as nat, old(self)@),
            )),
            values@.len() > 0 || amount == 0 ==> final(self)@ == after(old(self)@, amount as nat),
    {
        let len: usize = values.len();
        let mut picked: Vec<&'a T> = Vec::new();
        if amount == 0 {
            return Ok(picked);
        }
        if len == 0 {
            return Err(ArgumentError::EmptyInput);
        }
        let ghost start = self@;
        let mut k: usize = 0;
        while k < amount
            invariant
                k <= amount,
                0 < len == values@.len(),
                self@ == after(start, k as nat),
                picks(picked@, values@, replacement_order(len as nat, k as nat, start)),
            decreases amount - k,
        {
            let raw: u32 = self.rand();
            let index: usize = (raw as usize) % len;
            picked.push(&values[index]);
            proof {
                let so_far = replacement_order(len as nat, k as nat, start);
                let now = replacement_order(len as nat, (k + 1) as nat, start);
                assert(now[k as int] == index);
                assert forall|j: int| 0 <= j < k implies now[j] == so_far[j] by {}
            }
            k += 1;
        }
        Ok(picked)
    }

    /// One of `choices`, selected by weight: one raw draw modulo the sum of
    /// the weights is held against the running sum of the weights, and the
    /// first choice at which the running sum exceeds it is handed out. A
    /// refusal draws nothing.
    pub fn weighted_choice<'a, T>(&mut self, choices: &'a [T], weights: &[u32]) -> (r: Result<
        &'a T,
        ArgumentError,
    >)
        ensures
            weighted_choice_error(choices@.len(), weights@) matches Some(e) ==> (r matches Err(x)
                && x == e),
            weighted_choice_error(choices@.len(), weights@) is Some ==> *final(self) == *old(self),
            weighted_choice_error(choices@.len(), weights@) is None ==> (r matches Ok(c) && c
                == &choices@[weighted_index(weights@, weighted_draw(weights@, old(self)@))]),
            weighted_choice_error(choices@.len(), weights@) is None ==> final(self)@ == next_state(
                old(self)@,
            ),
    {
        let len: usize = weights.len();
        if choices.len() != len {
            return Err(ArgumentError::LengthMismatch);
        }
        let mut total: u64 = 0;
        let mut k: usize = 0;
        while k < len
            invariant
                k <= len == weights@.len(),
                choices@.len() == len,
                total == running_weight(weights@, k as int),
                total <= u32::MAX,
            decreases len - k,
        {
            proof {
                lemma_running_weight_step(weights@, k as int);
            }
            total = total + weights[k] as u64;
            if total > u32::MAX as u64 {
                proof {
                    lemma_running_weight_grows(weights@, k + 1, len as int);
                    assert(weights@.take(len as int) =~= weights@);
                }
                return Err(ArgumentError::WeightOverflow);
            }
            k += 1;
        }
        assert(weights@.take(len as int) =~= weights@);
        if total == 0 {
            return Err(ArgumentError::ZeroTotalWeight);
        }
        let raw: u32 = self.rand();
        let draw: u32 = raw % (total as u32);
        let mut rest: u32 = draw;
        let mut i: usize = 0;
        assert(weights@.take(0) =~= Seq::<u32>::empty());
        while rest >= weights[i]
            invariant
                i < len == weights@.len(),
                running_weight(weights@, i as int) + rest == draw,
                draw < total_weight(weights@),
            decreases len - i,
        {
            proof {
                lemma_running_weight_step(weights@, i as int);
                if i + 1 == len {
                    assert(weights@.take(len as int) =~= weights@);
                }
            }
            rest = rest - weights[i];
            i += 1;
        }
        proof {
            lemma_running_weight_step(weights@, i as int);
            lemma_weighted_index_found(weights@, draw as nat, i as int);
        }
        Ok(&choices[i])
    }
}

} // verus!
