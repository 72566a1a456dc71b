//! The order-number counter of a session.

use vstd::prelude::*;

verus! {

/// Hands out order numbers 1, 2, 3, ... Exclusive access (`&mut`) is the
/// synchronisation: callers that share a counter put it behind a lock, so that
/// no two draws can observe the same value.
pub struct SequenceCounter {
    drawn: u32,
}

/// One draw: the value handed out is one more than the number of earlier draws.
pub open spec fn draw_step(before: nat, after: nat, value: u32) -> bool {
    &&& value as nat == before + 1
    &&& after == before + 1
}

impl SequenceCounter {
    /// How many values have been handed out.
    pub closed spec fn drawn(&self) -> nat {
        self.drawn as nat
    }

    /// A counter whose first draw is 1.
    pub fn new() -> (r: SequenceCounter)
        ensures
            r.drawn() == 0,
    {
        SequenceCounter { drawn: 0 }
    }

    /// How many values have been handed out.
    pub fn drawn_count(&self) -> (r: u32)
        ensures
            r as nat == self.drawn(),
    {
        self.drawn
    }

    /// Whether another value can be drawn without leaving `u32`.
    pub fn can_draw(&self) -> (r: bool)
        ensures
            r == (self.drawn() < u32::MAX),
    {
        self.drawn < u32::MAX
    }

    /// The next order number.
    pub fn next(&mut self) -> (r: u32)
        requires
            old(self).drawn() < u32::MAX,
        ensures
            draw_step(old(self).drawn(), final(self).drawn(), r),
    {
        self.drawn = self.drawn + 1;
        self.drawn
    }
}

/// Successive draws from a new counter hand out pairwise distinct values, and
/// after `n` draws they are exactly the numbers `1..=n`.
pub proof fn draws_are_distinct_and_contiguous(states: Seq<nat>, values: Seq<u32>)
    requires
        states.len() == values.len() + 1,
        states[0] == 0,
        forall|i: int| 0 <= i < values.len() ==> draw_step(#[trigger] states[i], states[i + 1], values[i]),
    ensures
        forall|i: int, j: int| 0 <= i < j < values.len() ==> values[i] != values[j],
        forall|i: int| 0 <= i < values.len() ==> 1 <= #[trigger] values[i] <= values.len(),
        forall|v: u32| 1 <= v <= values.len() ==> #[trigger] values.contains(v),
{
    assert forall|i: int| 0 <= i < values.len() implies values[i] as int == i + 1 by {
        lemma_value_is_index(states, values, i);
    }
    assert forall|v: u32| 1 <= v <= values.len() implies #[trigger] values.contains(v) by {
        assert(values[v - 1] == v);
    }
}

proof fn lemma_value_is_index(states: Seq<nat>, values: Seq<u32>, i: int)
    requires
        states.len() == values.len() + 1,
        states[0] == 0,
        forall|k: int| 0 <= k < values.len() ==> draw_step(#[trigger] states[k], states[k + 1], values[k]),
        0 <= i < values.len(),
    ensures
        states[i] == i,
        values[i] as int == i + 1,
    decreases i,
{
    if i > 0 {
        lemma_value_is_index(states, values, i - 1);
    }
    assert(draw_step(states[i], states[i + 1], values[i]));
}

} // verus!
