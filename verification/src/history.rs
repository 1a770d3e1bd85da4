//! The three most recent averages.
//!
//! The history is a ring of three optional slots. Recording a new average
//! overwrites the slot of the oldest one, so the two that were newest stay
//! where they are and only change their rank.
use crate::fixed::Price;
use vstd::prelude::*;

verus! {

/// The last three averages that were computed, each absent until enough
/// averages have been computed to fill it.
pub struct Recent {
    /// The newest average.
    pub latest: Option<int>,
    /// The one before it.
    pub penultimate: Option<int>,
    /// The one before that.
    pub penultimate_penultimate: Option<int>,
}

impl Recent {
    /// No average has been computed yet.
    pub open spec fn empty() -> Recent {
        Recent { latest: None, penultimate: None, penultimate_penultimate: None }
    }

    /// The history after `value` has been computed: every earlier average
    /// moves back by one rank, and the oldest of three is dropped.
    pub open spec fn record(self, value: int) -> Recent {
        Recent {
            latest: Some(value),
            penultimate: self.latest,
            penultimate_penultimate: self.penultimate,
        }
    }

    /// An older average is present only behind a newer one.
    pub open spec fn gapless(self) -> bool {
        &&& self.penultimate is Some ==> self.latest is Some
        &&& self.penultimate_penultimate is Some ==> self.penultimate is Some
    }

    /// Every average present lies between `lo` and `hi`.
    pub open spec fn within(self, lo: int, hi: int) -> bool {
        &&& self.latest matches Some(v) ==> lo <= v <= hi
        &&& self.penultimate matches Some(v) ==> lo <= v <= hi
        &&& self.penultimate_penultimate matches Some(v) ==> lo <= v <= hi
    }
}

/// A stored average as a mathematical integer.
pub open spec fn as_int(slot: Option<Price>) -> Option<int> {
    match slot {
        Some(v) => Some(v as int),
        None => None,
    }
}

/// A ring of the three most recent averages.
#[derive(Debug)]
pub struct AverageHistory {
    /// The averages, in slot order.
    slots: [Option<Price>; 3],
    /// The slot of the newest average, taken modulo three.
    head: usize,
}

impl View for AverageHistory {
    type V = Recent;

    closed spec fn view(&self) -> Recent {
        Recent {
            latest: as_int(self.slots[(self.head % 3) as int]),
            penultimate: as_int(self.slots[((self.head + 2) % 3) as int]),
            penultimate_penultimate: as_int(self.slots[((self.head + 1) % 3) as int]),
        }
    }
}

impl AverageHistory {
    /// Every average stored is a 64-bit number.
    pub proof fn lemma_view_within(&self)
        ensures
            self@.within(i64::MIN as int, i64::MAX as int),
    {
    }

    /// A history without averages.
    pub fn new() -> (h: Self)
        ensures
            h@ == Recent::empty(),
    {
        AverageHistory { slots: [None, None, None], head: 0 }
    }

    /// The newest average.
    pub fn latest(&self) -> (value: Option<Price>)
        ensures
            as_int(value) == self@.latest,
    {
        self.slots[self.head % 3]
    }

    /// The average before the newest.
    pub fn penultimate(&self) -> (value: Option<Price>)
        ensures
            as_int(value) == self@.penultimate,
    {
        self.slots[(self.head % 3 + 2) % 3]
    }

    /// The average two before the newest.
    pub fn penultimate_penultimate(&self) -> (value: Option<Price>)
        ensures
            as_int(value) == self@.penultimate_penultimate,
    {
        self.slots[(self.head % 3 + 1) % 3]
    }

    /// Records `value` as the newest average, in the slot of the oldest.
    pub fn record(&mut self, value: Price)
        ensures
            final(self)@ == old(self)@.record(value as int),
    {
        let oldest: usize = (self.head % 3 + 1) % 3;
        self.slots[oldest] = Some(value);
        self.head = oldest;
    }
}

} // verus!
