//! The moving-average accumulator.
use crate::fixed::{floor_div, Price};
use crate::history::{as_int, AverageHistory};
use crate::model::{lemma_ema_next_within, lemma_mean_within, mean, Averager};
use crate::window::PriceWindow;
use vstd::prelude::*;

verus! {

/// Why an accumulator could not be made.
#[derive(Debug, Clone, Copy, PartialEq, Eq, Structural)]
pub enum MAError {
    /// The window was to hold no price at all.
    ZeroWindow,
}

/// A moving average over the last `num_candles` prices, simple or
/// exponential, with the last three averages it computed.
#[derive(Debug)]
pub struct MAData {
    /// The last three averages.
    history: AverageHistory,
    /// The prices that the next average is taken over.
    acc: PriceWindow,
    /// The number of prices needed for an average.
    num_candles: u16,
}

impl View for MAData {
    type V = Averager;

    closed spec fn view(&self) -> Averager {
        Averager { window_size: self.num_candles as nat, prices: self.acc@, recent: self.history@ }
    }
}

impl MAData {
    /// The accumulator is consistent, and so is its view.
    pub closed spec fn wf(&self) -> bool {
        &&& self.acc.wf()
        &&& self.acc.limit() == self.num_candles
        &&& self@.inv()
    }

    /// The view of a well-formed accumulator satisfies the model's
    /// invariant, and its window size is a 16-bit number.
    pub proof fn lemma_wf_view(&self)
        requires
            self.wf(),
        ensures
            self@.inv(),
            self@.window_size <= u16::MAX,
            self@.within(i64::MIN as int, i64::MAX as int),
    {
        self.acc.lemma_wf_view();
        self.history.lemma_view_within();
    }

    /// An accumulator for averages over `num_candles` prices. A window of
    /// no prices is refused.
    pub fn new(num_candles: u16) -> (made: Result<Self, MAError>)
        ensures
            num_candles == 0 <==> made is Err,
            made matches Ok(ma) ==> ma.wf() && ma@ == Averager::empty(num_candles as nat),
            made matches Err(e) ==> e == MAError::ZeroWindow,
    {
        if num_candles == 0 {
            Err(MAError::ZeroWindow)
        } else {
            Ok(
                MAData {
                    history: AverageHistory::new(),
                    acc: PriceWindow::new(num_candles as usize),
                    num_candles,
                },
            )
        }
    }

    /// The number of prices that an average is taken over.
    pub fn num_candles(&self) -> (n: u16)
        ensures
            n == self@.window_size,
    {
        self.num_candles
    }

    /// The latest average.
    pub fn latest(&self) -> (value: Option<Price>)
        ensures
            as_int(value) == self@.recent.latest,
    {
        self.history.latest()
    }

    /// The average before the latest.
    pub fn penultimate(&self) -> (value: Option<Price>)
        ensures
            as_int(value) == self@.recent.penultimate,
    {
        self.history.penultimate()
    }

    /// The average two before the latest.
    pub fn penultimate_penultimate(&self) -> (value: Option<Price>)
        ensures
            as_int(value) == self@.recent.penultimate_penultimate,
    {
        self.history.penultimate_penultimate()
    }

    /// The prices in the window, newest first.
    pub fn prices(&self) -> (prices: Vec<Price>)
        requires
            self.wf(),
        ensures
            prices@.len() == self@.prices.len(),
            forall|i: int| 0 <= i < prices@.len() ==> prices@[i] as int == self@.prices[i],
    {
        self.acc.to_vec()
    }

    /// Makes `new_ma` the latest average; the earlier ones move back by one.
    fn update(&mut self, new_ma: Price)
        ensures
            final(self).acc == old(self).acc,
            final(self).num_candles == old(self).num_candles,
            final(self).history@ == old(self).history@.record(new_ma as int),
    {
        self.history.record(new_ma);
    }

    /// The mean of a full window, rounded down.
    fn window_mean(&self) -> (m: Price)
        requires
            self.acc.wf(),
            self.acc.limit() == self.num_candles,
            self.acc@.len() == self.num_candles,
            self.num_candles >= 1,
        ensures
            m == mean(self.acc@),
    {
        let total: i128 = self.acc.total();
        let m: i128 = floor_div(total, self.num_candles as i128);
        proof {
            self.acc.lemma_wf_view();
            lemma_mean_within(self.acc@, i64::MIN as int, i64::MAX as int);
        }
        m as Price
    }

    /// Takes in one price. Once the window is full this computes a new
    /// average, simple or exponential as `ema` says, and records it.
    pub fn compute(&mut self, close_price: Price, ema: bool)
        requires
            old(self).wf(),
        ensures
            final(self).wf(),
            final(self)@ == old(self)@.step(close_price as int, ema),
    {
        proof {
            self.lemma_wf_view();
            self@.lemma_step_inv(close_price as int, ema);
        }
        self.acc.insert(close_price);
        if self.acc.len() == self.num_candles as usize {
            let new_ma: Price = self.window_mean();
            if ema {
                // Where there is no average yet, the mean of the window
                // stands for the previous one.
                let prev_ema: Price = match self.latest() {
                    Some(prev_ema) => prev_ema,
                    None => new_ma,
                };
                let n: i128 = self.num_candles as i128;
                proof {
                    lemma_ema_next_within(
                        close_price as int,
                        prev_ema as int,
                        n as int,
                        i64::MIN as int,
                        i64::MAX as int,
                    );
                    assert(i64::MIN * 65535 <= (n - 1) * prev_ema <= 65535 * i64::MAX)
                        by (nonlinear_arith)
                        requires
                            1 <= n <= 65535,
                            i64::MIN <= prev_ema <= i64::MAX,
                    ;
                }
                let weighted: i128 = 2 * (close_price as i128) + (n - 1) * (prev_ema as i128);
                let value: i128 = floor_div(weighted, n + 1);
                self.update(value as Price);
            } else {
                self.update(new_ma);
            }
        }
    }
}

} // verus!
