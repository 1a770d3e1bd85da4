//! The bounded window of recent prices.
//!
//! The window is a ring over a vector of slots. While it fills, prices are
//! appended; once it holds `capacity` prices, each new price overwrites the
//! slot of the oldest one. Its view is the sequence of the prices it holds,
//! newest first.
use crate::fixed::Price;
use vstd::prelude::*;

verus! {

/// The sum of a sequence of prices.
pub open spec fn sum(prices: Seq<int>) -> int
    decreases prices.len(),
{
    if prices.len() == 0 {
        0
    } else {
        sum(prices.drop_last()) + prices.last()
    }
}

/// What a window that holds at most `capacity` prices holds after it has
/// inserted `price`: the new price in front, and behind it the prices it
/// held, without the oldest one where the window was full.
pub open spec fn inserted(prices: Seq<int>, capacity: nat, price: int) -> Seq<int> {
    if prices.len() >= capacity {
        seq![price] + prices.take(capacity - 1)
    } else {
        seq![price] + prices
    }
}

/// Every price of the sequence lies between `lo` and `hi`.
pub open spec fn all_within(prices: Seq<int>, lo: int, hi: int) -> bool {
    forall|i: int| 0 <= i < prices.len() ==> lo <= #[trigger] prices[i] <= hi
}

/// The sum of `n` prices between `lo` and `hi` lies between `n * lo` and
/// `n * hi`.
pub proof fn lemma_sum_bounds(prices: Seq<int>, lo: int, hi: int)
    requires
        all_within(prices, lo, hi),
    ensures
        prices.len() * lo <= sum(prices) <= prices.len() * hi,
    decreases prices.len(),
{
    if prices.len() == 0 {
        assert(0 * lo == 0 && 0 * hi == 0);
    } else {
        let rest = prices.drop_last();
        assert(all_within(rest, lo, hi)) by {
            assert forall|i: int| 0 <= i < rest.len() implies lo <= #[trigger] rest[i] <= hi by {
                assert(rest[i] == prices[i]);
            }
        }
        lemma_sum_bounds(rest, lo, hi);
        assert(lo <= prices[prices.len() - 1] <= hi);
        assert(prices.len() * lo == rest.len() * lo + lo && prices.len() * hi == rest.len() * hi
            + hi) by (nonlinear_arith)
            requires
                prices.len() == rest.len() + 1,
        ;
    }
}

/// A window stays within bounds that held of its prices and hold of the
/// price it takes in.
pub proof fn lemma_inserted_within(prices: Seq<int>, capacity: nat, price: int, lo: int, hi: int)
    requires
        capacity >= 1,
        all_within(prices, lo, hi),
        lo <= price <= hi,
    ensures
        all_within(inserted(prices, capacity, price), lo, hi),
{
    let after = inserted(prices, capacity, price);
    assert forall|i: int| 0 <= i < after.len() implies lo <= #[trigger] after[i] <= hi by {
        if i > 0 {
            assert(after[i] == prices[i - 1]);
        }
    }
}

/// A ring of at most `capacity` prices.
#[derive(Debug)]
pub struct PriceWindow {
    /// The prices held, in slot order.
    slots: Vec<Price>,
    /// The slot that the next price goes to: the end of `slots` while the
    /// window fills, the slot of the oldest price once it is full.
    next: usize,
    /// The number of prices the window holds when full.
    capacity: usize,
}

impl PriceWindow {
    /// The slot that holds the `i`-th newest price.
    pub closed spec fn slot_of(&self, i: int) -> int {
        if i < self.next {
            self.next - 1 - i
        } else {
            self.capacity + self.next - 1 - i
        }
    }

    /// The prices held, newest first.
    pub closed spec fn view(&self) -> Seq<int> {
        Seq::new(self.slots@.len(), |i: int| self.slots@[self.slot_of(i)] as int)
    }

    /// The number of prices the window holds when full.
    pub closed spec fn limit(&self) -> nat {
        self.capacity as nat
    }

    /// The ring is consistent: it is not over-full, and `next` points where
    /// the next price belongs.
    pub closed spec fn wf(&self) -> bool {
        &&& self.capacity >= 1
        &&& self.slots@.len() <= self.capacity
        &&& self.slots@.len() < self.capacity ==> self.next == self.slots@.len()
        &&& self.slots@.len() == self.capacity ==> self.next < self.capacity
    }

    /// A well-formed window holds at most `limit()` prices, each a 64-bit
    /// number.
    pub proof fn lemma_wf_view(&self)
        requires
            self.wf(),
        ensures
            self.limit() >= 1,
            self@.len() <= self.limit(),
            all_within(self@, i64::MIN as int, i64::MAX as int),
    {
    }

    /// An empty window for `capacity` prices.
    pub fn new(capacity: usize) -> (w: Self)
        requires
            capacity >= 1,
        ensures
            w.wf(),
            w.limit() == capacity,
            w@ == Seq::<int>::empty(),
    {
        let w = PriceWindow { slots: Vec::new(), next: 0, capacity };
        assert(w@ =~= Seq::<int>::empty());
        w
    }

    /// The number of prices held.
    pub fn len(&self) -> (n: usize)
        ensures
            n == self@.len(),
    {
        self.slots.len()
    }

    /// The `i`-th newest price, counting from zero.
    pub fn get(&self, i: usize) -> (price: Price)
        requires
            self.wf(),
            i < self@.len(),
        ensures
            price == self@[i as int],
    {
        if i < self.next {
            self.slots[self.next - 1 - i]
        } else {
            self.slots[self.capacity - 1 - i + self.next]
        }
    }

    /// Takes `price` in as the newest one; a full window gives up its oldest
    /// price for it.
    pub fn insert(&mut self, price: Price)
        requires
            old(self).wf(),
        ensures
            final(self).wf(),
            final(self).limit() == old(self).limit(),
            final(self)@ == inserted(old(self)@, old(self).limit(), price as int),
    {
        let ghost before = *self;
        if self.slots.len() < self.capacity {
            self.slots.push(price);
        } else {
            self.slots.set(self.next, price);
        }
        self.next = if self.next + 1 == self.capacity {
            0
        } else {
            self.next + 1
        };
        proof {
            let after = inserted(before@, before.limit(), price as int);
            assert(self@.len() == after.len());
            assert forall|i: int| 0 <= i < after.len() implies self@[i] == after[i] by {
                if i > 0 {
                    assert(self.slot_of(i) == before.slot_of(i - 1));
                    assert(before.slot_of(i - 1) != before.next);
                }
            }
            assert(self@ =~= after);
        }
    }

    /// The sum of the prices held.
    pub fn total(&self) -> (t: i128)
        requires
            self.wf(),
        ensures
            t == sum(self@),
    {
        let n: usize = self.slots.len();
        let mut t: i128 = 0;
        let mut i: usize = 0;
        while i < n
            invariant
                self.wf(),
                n == self@.len(),
                i <= n,
                t == sum(self@.take(i as int)),
                i * (i64::MIN as int) <= t <= i * (i64::MAX as int),
            decreases n - i,
        {
            let price: Price = self.get(i);
            proof {
                let head = self@.take(i + 1);
                assert(head.drop_last() =~= self@.take(i as int));
                assert(head.last() == price);
                assert((i + 1) * (i64::MIN as int) == i * (i64::MIN as int) + i64::MIN && (i + 1)
                    * (i64::MAX as int) == i * (i64::MAX as int) + i64::MAX) by (nonlinear_arith);
                assert(i * (i64::MAX as int) <= usize::MAX * (i64::MAX as int) && i * (
                i64::MIN as int) >= usize::MAX * (i64::MIN as int)) by (nonlinear_arith)
                    requires
                        0 <= i <= usize::MAX,
                ;
            }
            t = t + price as i128;
            i = i + 1;
        }
        proof {
            assert(self@.take(n as int) =~= self@);
        }
        t
    }

    /// The prices held, newest first.
    pub fn to_vec(&self) -> (prices: Vec<Price>)
        requires
            self.wf(),
        ensures
            prices@.len() == self@.len(),
            forall|i: int| 0 <= i < prices@.len() ==> prices@[i] as int == self@[i],
    {
        let n: usize = self.slots.len();
        let mut prices: Vec<Price> = Vec::new();
        let mut i: usize = 0;
        while i < n
            invariant
                self.wf(),
                n == self@.len(),
                i <= n,
                prices@.len() == i,
                forall|j: int| 0 <= j < i ==> prices@[j] as int == self@[j],
            decreases n - i,
        {
            prices.push(self.get(i));
            i = i + 1;
        }
        prices
    }
}

} // verus!
