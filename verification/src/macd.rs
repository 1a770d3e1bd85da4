//! The MACD indicator: the differential of a fast and a slow exponential
//! average, and a signal line that is an exponential average of that
//! differential.
use crate::average::MAData;
use crate::fixed::{Price, PRICE_LIMIT};
use crate::history::as_int;
use crate::model::Averager;
use vstd::prelude::*;

verus! {

/// The window of the fast average.
pub const FAST_WINDOW: u16 = 12;

/// The window of the slow average.
pub const SLOW_WINDOW: u16 = 26;

/// The window of the signal line.
pub const SIGNAL_WINDOW: u16 = 9;

/// The state of a MACD indicator.
pub struct MacdState {
    /// The fast exponential average of the price.
    pub ema12: Averager,
    /// The slow exponential average of the price.
    pub ema26: Averager,
    /// The exponential average of the differential.
    pub signal: Averager,
    /// The latest differential, fast minus slow.
    pub macd_latest: Option<int>,
    /// The differential before the latest.
    pub macd_previous: Option<int>,
}

impl MacdState {
    /// The indicator before any price.
    pub open spec fn initial() -> MacdState {
        MacdState {
            ema12: Averager::empty(FAST_WINDOW as nat),
            ema26: Averager::empty(SLOW_WINDOW as nat),
            signal: Averager::empty(SIGNAL_WINDOW as nat),
            macd_latest: None,
            macd_previous: None,
        }
    }

    /// The indicator after one more price. Both averages take the price.
    /// Once the slow one has a value, the differential of the two becomes
    /// the latest one, the one it replaces becomes the previous one, and the
    /// signal line takes the new differential.
    pub open spec fn step(self, price: int) -> MacdState {
        let ema12 = self.ema12.step(price, true);
        let ema26 = self.ema26.step(price, true);
        match (ema12.recent.latest, ema26.recent.latest) {
            (Some(fast), Some(slow)) => MacdState {
                ema12,
                ema26,
                signal: self.signal.step(fast - slow, true),
                macd_latest: Some(fast - slow),
                macd_previous: if self.macd_latest is Some {
                    self.macd_latest
                } else {
                    self.macd_previous
                },
            },
            _ => MacdState {
                ema12,
                ema26,
                signal: self.signal,
                macd_latest: self.macd_latest,
                macd_previous: self.macd_previous,
            },
        }
    }

    /// The indicator after the prices of `stream`, oldest first.
    pub open spec fn feed(self, stream: Seq<int>) -> MacdState
        decreases stream.len(),
    {
        if stream.len() == 0 {
            self
        } else {
            self.feed(stream.drop_last()).step(stream.last())
        }
    }

    /// What the indicator always satisfies. The three averages are
    /// consistent and have their windows. The fast average is ahead of the
    /// slow one. The differential exists exactly when the slow average
    /// does, and is then fast minus slow. The signal line has seen as many
    /// differentials as there were, up to its window.
    pub open spec fn inv(self) -> bool {
        &&& self.ema12.inv() && self.ema12.window_size == FAST_WINDOW
        &&& self.ema26.inv() && self.ema26.window_size == SLOW_WINDOW
        &&& self.signal.inv() && self.signal.window_size == SIGNAL_WINDOW
        &&& self.ema12.prices.len() == if self.ema26.prices.len() < FAST_WINDOW {
            self.ema26.prices.len()
        } else {
            FAST_WINDOW as nat
        }
        &&& self.macd_latest is Some <==> self.ema26.recent.latest is Some
        &&& self.macd_latest matches Some(macd) ==> macd == self.ema12.recent.latest.unwrap()
            - self.ema26.recent.latest.unwrap()
        &&& self.macd_previous is Some ==> self.macd_latest is Some
        &&& self.signal.prices.len() == 0 <==> self.macd_latest is None
        &&& self.signal.prices.len() <= 1 <==> self.macd_previous is None
    }

    /// Both price averages, and the prices they hold, are of a magnitude of
    /// at most `PRICE_LIMIT`.
    pub open spec fn bounded(self) -> bool {
        &&& self.ema12.within(-PRICE_LIMIT, PRICE_LIMIT as int)
        &&& self.ema26.within(-PRICE_LIMIT, PRICE_LIMIT as int)
    }

    /// One price keeps the invariant.
    pub proof fn lemma_step_inv(self, price: int)
        requires
            self.inv(),
        ensures
            self.step(price).inv(),
    {
        self.ema12.lemma_step_inv(price, true);
        self.ema26.lemma_step_inv(price, true);
        let ema12 = self.ema12.step(price, true);
        let ema26 = self.ema26.step(price, true);
        if ema26.recent.latest is Some {
            let macd = ema12.recent.latest.unwrap() - ema26.recent.latest.unwrap();
            self.signal.lemma_step_inv(macd, true);
        }
    }

    /// One price within the limit keeps the averages within the limit.
    pub proof fn lemma_step_bounded(self, price: int)
        requires
            self.inv(),
            self.bounded(),
            -PRICE_LIMIT <= price <= PRICE_LIMIT,
        ensures
            self.step(price).bounded(),
    {
        self.ema12.lemma_step_within(price, true, -PRICE_LIMIT, PRICE_LIMIT as int);
        self.ema26.lemma_step_within(price, true, -PRICE_LIMIT, PRICE_LIMIT as int);
    }

    /// A stream keeps the invariant, and counts as follows. The slow window
    /// holds the prices fed, up to its size. The signal window holds one
    /// differential for each price from the one that filled the slow
    /// window, up to its size.
    pub proof fn lemma_feed_inv(stream: Seq<int>)
        ensures
            Self::initial().feed(stream).inv(),
            Self::initial().feed(stream).ema26.prices.len() == if stream.len() < SLOW_WINDOW {
                stream.len()
            } else {
                SLOW_WINDOW as nat
            },
            Self::initial().feed(stream).signal.prices.len() == if stream.len() < SLOW_WINDOW {
                0
            } else if stream.len() - SLOW_WINDOW + 1 < SIGNAL_WINDOW {
                (stream.len() - SLOW_WINDOW + 1) as nat
            } else {
                SIGNAL_WINDOW as nat
            },
        decreases stream.len(),
    {
        if stream.len() > 0 {
            Self::lemma_feed_inv(stream.drop_last());
            let before = Self::initial().feed(stream.drop_last());
            before.lemma_step_inv(stream.last());
            before.ema12.lemma_step_inv(stream.last(), true);
            before.ema26.lemma_step_inv(stream.last(), true);
            let after = before.step(stream.last());
            if after.ema26.recent.latest is Some {
                before.signal.lemma_step_inv(after.macd_latest.unwrap(), true);
            }
        }
    }
}

/// The differential is defined from the price that fills the slow window
/// on, and not before.
pub proof fn lemma_macd_defined_with_slow_average(stream: Seq<int>)
    ensures
        MacdState::initial().feed(stream).macd_latest is Some <==> stream.len() >= SLOW_WINDOW,
        MacdState::initial().feed(stream).macd_latest is Some <==> MacdState::initial().feed(
            stream,
        ).ema26.recent.latest is Some,
{
    MacdState::lemma_feed_inv(stream);
}

/// The previous differential is defined one price after the latest one is.
pub proof fn lemma_macd_previous_defined(stream: Seq<int>)
    ensures
        MacdState::initial().feed(stream).macd_previous is Some <==> stream.len() >= SLOW_WINDOW
            + 1,
{
    MacdState::lemma_feed_inv(stream);
}

/// The signal line needs its own window of differentials on top of the
/// slow window of prices: it is defined from the price that brings the
/// `SIGNAL_WINDOW`-th differential on, and not before.
pub proof fn lemma_signal_defined_after_own_warm_up(stream: Seq<int>)
    ensures
        MacdState::initial().feed(stream).signal.recent.latest is Some <==> stream.len()
            >= SLOW_WINDOW + SIGNAL_WINDOW - 1,
{
    MacdState::lemma_feed_inv(stream);
}

/// A MACD indicator with a fast window of 12, a slow window of 26 and a
/// signal window of 9 prices.
#[derive(Debug)]
pub struct MACD {
    /// The fast exponential average of the price.
    ema12: MAData,
    /// The slow exponential average of the price.
    ema26: MAData,
    /// The exponential average of the differential.
    signal: MAData,
    /// The latest differential.
    macd_latest: Option<Price>,
    /// The differential before the latest.
    macd_previous: Option<Price>,
}

impl View for MACD {
    type V = MacdState;

    closed spec fn view(&self) -> MacdState {
        MacdState {
            ema12: self.ema12@,
            ema26: self.ema26@,
            signal: self.signal@,
            macd_latest: as_int(self.macd_latest),
            macd_previous: as_int(self.macd_previous),
        }
    }
}

impl MACD {
    /// The indicator is consistent, and its price averages are within the
    /// limit.
    pub closed spec fn wf(&self) -> bool {
        &&& self.ema12.wf()
        &&& self.ema26.wf()
        &&& self.signal.wf()
        &&& self@.inv()
        &&& self@.bounded()
    }

    /// The view of a well-formed indicator satisfies the model's invariant.
    pub proof fn lemma_wf_view(&self)
        requires
            self.wf(),
        ensures
            self@.inv(),
            self@.bounded(),
    {
    }

    /// An indicator that has seen no price.
    pub fn new() -> (macd: Self)
        ensures
            macd.wf(),
            macd@ == MacdState::initial(),
    {
        MACD {
            ema12: MAData::new(FAST_WINDOW).unwrap(),
            ema26: MAData::new(SLOW_WINDOW).unwrap(),
            signal: MAData::new(SIGNAL_WINDOW).unwrap(),
            macd_latest: None,
            macd_previous: None,
        }
    }

    /// The latest differential of the fast and the slow average.
    pub fn macd_latest(&self) -> (value: Option<Price>)
        ensures
            as_int(value) == self@.macd_latest,
    {
        self.macd_latest
    }

    /// The differential before the latest.
    pub fn macd_previous(&self) -> (value: Option<Price>)
        ensures
            as_int(value) == self@.macd_previous,
    {
        self.macd_previous
    }

    /// The latest value of the signal line.
    pub fn signal_latest(&self) -> (value: Option<Price>)
        ensures
            as_int(value) == self@.signal.recent.latest,
    {
        self.signal.latest()
    }

    /// Takes in one price, of a magnitude of at most `PRICE_LIMIT`.
    pub fn compute(&mut self, close_price: Price)
        requires
            old(self).wf(),
            -PRICE_LIMIT <= close_price <= PRICE_LIMIT,
        ensures
            final(self).wf(),
            final(self)@ == old(self)@.step(close_price as int),
    {
        proof {
            self@.lemma_step_inv(close_price as int);
            self@.lemma_step_bounded(close_price as int);
        }
        self.ema12.compute(close_price, true);
        self.ema26.compute(close_price, true);

        match (self.ema12.latest(), self.ema26.latest()) {
            (Some(fast), Some(slow)) => {
                if self.macd_latest.is_some() {
                    self.macd_previous = self.macd_latest;
                }
                let macd: Price = fast - slow;
                self.macd_latest = Some(macd);
                self.signal.compute(macd, true);
            },
            _ => {},
        }
    }
}

} // verus!
