//! The mathematical model of a moving-average accumulator, and what holds
//! of every stream of prices fed to it.
use crate::history::Recent;
use crate::window::{all_within, inserted, lemma_inserted_within, lemma_sum_bounds, sum};
use vstd::arithmetic::div_mod::lemma_div_is_ordered;
use vstd::arithmetic::div_mod::lemma_div_multiples_vanish;
use vstd::prelude::*;

verus! {

/// The arithmetic mean of `prices`, rounded down to a whole unit.
pub open spec fn mean(prices: Seq<int>) -> int {
    sum(prices) / (prices.len() as int)
}

/// The exponential average that follows `previous` when `price` arrives,
/// for a window of `n` prices. With the weight `a = 2 / (n + 1)` it is
/// `price * a + previous * (1 - a)`, which is
/// `(2 * price + (n - 1) * previous) / (n + 1)`, rounded down to a whole
/// unit.
pub open spec fn ema_next(price: int, previous: int, n: int) -> int {
    (2 * price + (n - 1) * previous) / (n + 1)
}

/// The mean of prices between `lo` and `hi` lies between `lo` and `hi`.
pub proof fn lemma_mean_within(prices: Seq<int>, lo: int, hi: int)
    requires
        prices.len() >= 1,
        all_within(prices, lo, hi),
    ensures
        lo <= mean(prices) <= hi,
{
    let n = prices.len() as int;
    lemma_sum_bounds(prices, lo, hi);
    lemma_div_is_ordered(n * lo, sum(prices), n);
    lemma_div_is_ordered(sum(prices), n * hi, n);
    lemma_div_multiples_vanish(lo, n);
    lemma_div_multiples_vanish(hi, n);
}

/// An exponential average lies between the price and the previous average.
pub proof fn lemma_ema_next_within(price: int, previous: int, n: int, lo: int, hi: int)
    requires
        n >= 1,
        lo <= price <= hi,
        lo <= previous <= hi,
    ensures
        lo <= ema_next(price, previous, n) <= hi,
{
    let weighted = 2 * price + (n - 1) * previous;
    assert((n + 1) * lo <= weighted <= (n + 1) * hi) by (nonlinear_arith)
        requires
            n >= 1,
            lo <= price <= hi,
            lo <= previous <= hi,
            weighted == 2 * price + (n - 1) * previous,
    ;
    lemma_div_is_ordered((n + 1) * lo, weighted, n + 1);
    lemma_div_is_ordered(weighted, (n + 1) * hi, n + 1);
    lemma_div_multiples_vanish(lo, n + 1);
    lemma_div_multiples_vanish(hi, n + 1);
}

/// The exponential average of a price with itself is that price.
pub proof fn lemma_ema_next_fixed_point(price: int, n: int)
    requires
        n >= 1,
    ensures
        ema_next(price, price, n) == price,
{
    lemma_ema_next_within(price, price, n, price, price);
}

/// The state of a moving-average accumulator.
pub struct Averager {
    /// The number of prices that an average is taken over.
    pub window_size: nat,
    /// The most recent prices, newest first; never more than `window_size`.
    pub prices: Seq<int>,
    /// The last three averages.
    pub recent: Recent,
}

impl Averager {
    /// The accumulator before any price.
    pub open spec fn empty(window_size: nat) -> Averager {
        Averager { window_size, prices: Seq::empty(), recent: Recent::empty() }
    }

    /// What the accumulator always satisfies: the window is not over-full,
    /// and an average exists exactly from the moment the window is full.
    pub open spec fn inv(self) -> bool {
        &&& self.window_size >= 1
        &&& self.prices.len() <= self.window_size
        &&& self.recent.latest is Some <==> self.prices.len() == self.window_size
        &&& self.recent.gapless()
    }

    /// The average that a full window `prices` yields, `price` being its
    /// newest entry: in simple mode the mean of the window; in exponential
    /// mode the successor of the latest average, or of the mean of the
    /// window where there is no average yet.
    pub open spec fn average(self, prices: Seq<int>, price: int, ema: bool) -> int {
        if ema {
            let previous = match self.recent.latest {
                Some(previous) => previous,
                None => mean(prices),
            };
            ema_next(price, previous, self.window_size as int)
        } else {
            mean(prices)
        }
    }

    /// The accumulator after one more price.
    pub open spec fn step(self, price: int, ema: bool) -> Averager {
        let prices = inserted(self.prices, self.window_size, price);
        if prices.len() == self.window_size {
            Averager {
                window_size: self.window_size,
                prices,
                recent: self.recent.record(self.average(prices, price, ema)),
            }
        } else {
            Averager { window_size: self.window_size, prices, recent: self.recent }
        }
    }

    /// The accumulator after the prices of `stream`, oldest first.
    pub open spec fn feed(self, stream: Seq<int>, ema: bool) -> Averager
        decreases stream.len(),
    {
        if stream.len() == 0 {
            self
        } else {
            self.feed(stream.drop_last(), ema).step(stream.last(), ema)
        }
    }

    /// Every price held and every average lies between `lo` and `hi`.
    pub open spec fn within(self, lo: int, hi: int) -> bool {
        all_within(self.prices, lo, hi) && self.recent.within(lo, hi)
    }

    /// One price keeps the invariant, and the window size.
    pub proof fn lemma_step_inv(self, price: int, ema: bool)
        requires
            self.inv(),
        ensures
            self.step(price, ema).inv(),
            self.step(price, ema).window_size == self.window_size,
            self.step(price, ema).prices.len() == if self.prices.len() < self.window_size {
                self.prices.len() + 1
            } else {
                self.window_size
            },
    {
    }

    /// A stream keeps the invariant, and fills the window price by price.
    pub proof fn lemma_feed_inv(self, stream: Seq<int>, ema: bool)
        requires
            self.inv(),
        ensures
            self.feed(stream, ema).inv(),
            self.feed(stream, ema).window_size == self.window_size,
            self.feed(stream, ema).prices.len() == if self.prices.len() + stream.len()
                < self.window_size {
                self.prices.len() + stream.len()
            } else {
                self.window_size
            },
        decreases stream.len(),
    {
        if stream.len() > 0 {
            self.lemma_feed_inv(stream.drop_last(), ema);
            self.feed(stream.drop_last(), ema).lemma_step_inv(stream.last(), ema);
        }
    }

    /// One price between `lo` and `hi` keeps prices and averages between
    /// `lo` and `hi`.
    pub proof fn lemma_step_within(self, price: int, ema: bool, lo: int, hi: int)
        requires
            self.inv(),
            self.within(lo, hi),
            lo <= price <= hi,
        ensures
            self.step(price, ema).within(lo, hi),
    {
        let prices = inserted(self.prices, self.window_size, price);
        lemma_inserted_within(self.prices, self.window_size, price, lo, hi);
        if prices.len() == self.window_size {
            lemma_mean_within(prices, lo, hi);
            if ema {
                let previous = match self.recent.latest {
                    Some(previous) => previous,
                    None => mean(prices),
                };
                lemma_ema_next_within(price, previous, self.window_size as int, lo, hi);
            }
        }
    }
}

/// While fewer prices have been fed than the window holds, there is no
/// average: neither a latest one nor an earlier one.
pub proof fn lemma_no_average_before_window_fills(window_size: nat, stream: Seq<int>, ema: bool)
    requires
        window_size >= 1,
        stream.len() < window_size,
    ensures
        Averager::empty(window_size).feed(stream, ema).recent == Recent::empty(),
    decreases stream.len(),
{
    if stream.len() > 0 {
        let start = Averager::empty(window_size);
        lemma_no_average_before_window_fills(window_size, stream.drop_last(), ema);
        start.lemma_feed_inv(stream.drop_last(), ema);
    }
}

/// Once as many prices have been fed as the window holds, there is an
/// average after every price.
pub proof fn lemma_average_once_window_full(window_size: nat, stream: Seq<int>, ema: bool)
    requires
        window_size >= 1,
        stream.len() >= window_size,
    ensures
        Averager::empty(window_size).feed(stream, ema).recent.latest is Some,
{
    Averager::empty(window_size).lemma_feed_inv(stream, ema);
}

/// The window holds the newest prices of the stream, newest first: the
/// whole stream while it is shorter than the window, its last
/// `window_size` prices after that.
pub proof fn lemma_window_holds_newest(window_size: nat, stream: Seq<int>, ema: bool)
    requires
        window_size >= 1,
    ensures
        Averager::empty(window_size).feed(stream, ema).prices == newest(stream, window_size),
    decreases stream.len(),
{
    let start = Averager::empty(window_size);
    if stream.len() == 0 {
        assert(start.feed(stream, ema).prices =~= newest(stream, window_size));
    } else {
        let earlier = stream.drop_last();
        lemma_window_holds_newest(window_size, earlier, ema);
        start.lemma_feed_inv(earlier, ema);
        let before = start.feed(earlier, ema);
        let after = before.step(stream.last(), ema);
        assert(before.prices == newest(earlier, window_size));
        assert(after.prices =~= newest(stream, window_size)) by {
            let want = newest(stream, window_size);
            assert(after.prices.len() == want.len());
            assert forall|i: int| 0 <= i < want.len() implies after.prices[i] == want[i] by {
                if i > 0 {
                    assert(after.prices[i] == before.prices[i - 1]);
                    assert(before.prices[i - 1] == earlier[earlier.len() - 1 - (i - 1)]);
                }
            }
        }
    }
}

/// The last `limit` prices of `stream`, or all of them where it has fewer,
/// newest first.
pub open spec fn newest(stream: Seq<int>, limit: nat) -> Seq<int> {
    Seq::new(
        if stream.len() < limit {
            stream.len()
        } else {
            limit
        },
        |i: int| stream[stream.len() - 1 - i],
    )
}

/// In simple mode the latest average is the mean of the window: of the
/// last `window_size` prices of the stream.
pub proof fn lemma_simple_average_is_window_mean(window_size: nat, stream: Seq<int>)
    requires
        window_size >= 1,
        stream.len() >= window_size,
    ensures
        Averager::empty(window_size).feed(stream, false).recent.latest == Some(
            mean(newest(stream, window_size)),
        ),
{
    let start = Averager::empty(window_size);
    let earlier = stream.drop_last();
    start.lemma_feed_inv(earlier, false);
    lemma_window_holds_newest(window_size, stream, false);
}

/// The sum of a sequence does not depend on the direction in which it is
/// read.
pub proof fn lemma_sum_reverse(prices: Seq<int>)
    ensures
        sum(prices.reverse()) == sum(prices),
    decreases prices.len(),
{
    if prices.len() > 0 {
        let rev = prices.reverse();
        // `rev` is the last price of `prices` followed by the reverse of the rest.
        assert(rev.drop_first() =~= prices.drop_last().reverse());
        lemma_sum_reverse(prices.drop_last());
        lemma_sum_first(rev);
    }
}

/// The sum of a sequence is its first price plus the sum of the others.
pub proof fn lemma_sum_first(prices: Seq<int>)
    requires
        prices.len() > 0,
    ensures
        sum(prices) == prices.first() + sum(prices.drop_first()),
    decreases prices.len(),
{
    if prices.len() == 1 {
        assert(prices.drop_last() =~= Seq::<int>::empty());
        assert(prices.drop_first() =~= Seq::<int>::empty());
        assert(sum(prices.drop_last()) == 0);
        assert(sum(prices.drop_first()) == 0);
    } else {
        let front = prices.drop_last();
        lemma_sum_first(front);
        assert(front.drop_first() =~= prices.drop_first().drop_last());
        assert(prices.drop_first().last() == prices.last());
    }
}

/// After exactly as many prices as the window holds, the simple average is
/// the arithmetic mean of all of them.
pub proof fn lemma_first_simple_average_is_mean_of_stream(stream: Seq<int>)
    requires
        stream.len() >= 1,
    ensures
        Averager::empty(stream.len()).feed(stream, false).recent.latest == Some(mean(stream)),
{
    lemma_simple_average_is_window_mean(stream.len(), stream);
    assert(newest(stream, stream.len()) =~= stream.reverse());
    lemma_sum_reverse(stream);
}

/// A stream of one and the same price.
pub open spec fn constant_stream(price: int, len: nat) -> Seq<int> {
    Seq::new(len, |i: int| price)
}

/// For a constant stream the average, simple or exponential, is that
/// constant, from the price that fills the window on.
pub proof fn lemma_constant_stream_average(window_size: nat, price: int, len: nat, ema: bool)
    requires
        window_size >= 1,
        len >= window_size,
    ensures
        Averager::empty(window_size).feed(constant_stream(price, len), ema).recent.latest == Some(
            price,
        ),
{
    let start = Averager::empty(window_size);
    let stream = constant_stream(price, len);
    lemma_feed_constant_within(window_size, price, len, ema);
    lemma_average_once_window_full(window_size, stream, ema);
}

/// For a constant stream every price held and every average is that
/// constant.
proof fn lemma_feed_constant_within(window_size: nat, price: int, len: nat, ema: bool)
    requires
        window_size >= 1,
    ensures
        Averager::empty(window_size).feed(constant_stream(price, len), ema).within(price, price),
    decreases len,
{
    let start = Averager::empty(window_size);
    let stream = constant_stream(price, len);
    if len > 0 {
        assert(stream.drop_last() =~= constant_stream(price, (len - 1) as nat));
        lemma_feed_constant_within(window_size, price, (len - 1) as nat, ema);
        start.lemma_feed_inv(stream.drop_last(), ema);
        start.feed(stream.drop_last(), ema).lemma_step_within(price, ema, price, price);
    }
}

} // verus!
