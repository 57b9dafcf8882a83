//! Oscillators: how far a price has gone up or down lately. All numbers have
//! eight decimal places, and each step is cut off behind them.

use vstd::prelude::*;
use crate::base::amount::{Amount, UNITS_PER_ONE};
use crate::base::numbers::{
    divide_truncated, divide_wide, quotient, saturate, saturated, share, share_of, truncated_div,
};
use crate::indicators::windows::{highest, lowest, mean, RollingWindow};

verus! {

/// One hundred.
pub const HUNDRED: i64 = 10_000_000_000;

/// Fifty.
pub const FIFTY: i64 = 5_000_000_000;

/// How much a price rose.
pub open spec fn gain(price: Amount, prev_price: Amount) -> int {
    if price.units > prev_price.units {
        saturated(price.units - prev_price.units)
    } else {
        0
    }
}

/// How much a price fell.
pub open spec fn loss(price: Amount, prev_price: Amount) -> int {
    gain(prev_price, price)
}

fn rise(from: Amount, to: Amount) -> (r: i64)
    ensures
        r == gain(to, from),
        r >= 0,
{
    if to.units > from.units {
        saturate(to.units as i128 - from.units as i128)
    } else {
        0
    }
}

/// Wilder's average: the newest value counts one fourteenth.
pub open spec fn wilder(average: Amount, value: int) -> int {
    truncated_div(average.units * 13 + value, 14)
}

fn smooth(average: Amount, value: i64) -> (r: Amount)
    requires
        average.units >= 0,
        value >= 0,
    ensures
        r.units == wilder(average, value as int),
        r.units >= 0,
{
    Amount { units: divide_truncated(average.units as i128 * 13 + value as i128, 14) as i64 }
}

/// The index for an average gain and an average loss.
pub open spec fn strength_index(avg_gain: int, avg_loss: int) -> int {
    let relative = if avg_loss == 0 {
        HUNDRED as int
    } else {
        share(avg_gain, avg_loss)
    };
    HUNDRED - share(HUNDRED as int, UNITS_PER_ONE + relative)
}

/// Relative strength index over fourteen prices.
pub struct RSI {
    pub gains: RollingWindow<14>,
    pub losses: RollingWindow<14>,
    pub avg_gain: Amount,
    pub avg_loss: Amount,
    pub rsi_value: Amount,
}

impl RSI {
    /// The windows are sound, and the averages are not negative.
    pub open spec fn wf(&self) -> bool {
        &&& self.gains.wf()
        &&& self.losses.wf()
        &&& self.avg_gain.units >= 0
        &&& self.avg_loss.units >= 0
    }

    /// An index of fifty.
    pub fn new() -> (r: Self)
        ensures
            r.wf(),
            r.gains.is_blank(),
            r.losses.is_blank(),
            r.avg_gain.units == 0,
            r.avg_loss.units == 0,
            r.rsi_value.units == FIFTY,
    {
        RSI {
            gains: RollingWindow::new(),
            losses: RollingWindow::new(),
            avg_gain: Amount::zero(),
            avg_loss: Amount::zero(),
            rsi_value: Amount { units: FIFTY },
        }
    }

    /// Whether this is the index after a price came, and `r` what it shows.
    pub open spec fn follows(
        &self,
        before: Self,
        price: Amount,
        prev_price: Amount,
        r: Amount,
    ) -> bool {
        &&& self.gains.data@ == before.gains.data@.skip(1).push(
            Amount { units: gain(price, prev_price) as i64 },
        )
        &&& self.losses.data@ == before.losses.data@.skip(1).push(
            Amount { units: loss(price, prev_price) as i64 },
        )
        &&& self.avg_gain.units == wilder(before.avg_gain, gain(price, prev_price))
        &&& self.avg_loss.units == wilder(before.avg_loss, loss(price, prev_price))
        &&& r.units == strength_index(self.avg_gain.units as int, self.avg_loss.units as int)
        &&& self.rsi_value == r
    }

    /// Takes in a price and the one before it, and gives the index.
    pub fn update(&mut self, price: Amount, prev_price: Amount) -> (r: Amount)
        requires
            old(self).wf(),
        ensures
            final(self).wf(),
            final(self).follows(*old(self), price, prev_price, r),
    {
        let gain: i64 = rise(prev_price, price);
        let loss: i64 = rise(price, prev_price);
        self.gains.push(Amount { units: gain });
        self.losses.push(Amount { units: loss });
        self.avg_gain = smooth(self.avg_gain, gain);
        self.avg_loss = smooth(self.avg_loss, loss);
        let relative: i64 = if self.avg_loss.units == 0 {
            HUNDRED
        } else {
            share_of(self.avg_gain.units as i128, self.avg_loss.units as u128)
        };
        proof {
            law_index_bounded(self.avg_gain.units as int, self.avg_loss.units as int);
            if self.avg_loss.units != 0 {
                lemma_share_not_negative(self.avg_gain.units as int, self.avg_loss.units as int);
            }
        }
        let part: i64 = share_of(HUNDRED as i128, (UNITS_PER_ONE as i128 + relative as i128) as u128);
        self.rsi_value = Amount { units: (HUNDRED as i128 - part as i128) as i64 };
        self.rsi_value
    }

    /// The index.
    pub fn value(&self) -> (r: Amount)
        ensures
            r == self.rsi_value,
    {
        self.rsi_value
    }
}

proof fn lemma_share_not_negative(a: int, b: int)
    requires
        a >= 0,
        b > 0,
    ensures
        share(a, b) >= 0,
{
    assert((a * 100_000_000) / b >= 0) by (nonlinear_arith)
        requires
            a >= 0,
            b > 0,
    ;
}

/// The index lies between zero and one hundred.
pub proof fn law_index_bounded(avg_gain: int, avg_loss: int)
    requires
        avg_gain >= 0,
        avg_loss >= 0,
    ensures
        0 <= strength_index(avg_gain, avg_loss) <= HUNDRED,
{
    if avg_loss != 0 {
        lemma_share_not_negative(avg_gain, avg_loss);
    }
    let relative = if avg_loss == 0 {
        HUNDRED as int
    } else {
        share(avg_gain, avg_loss)
    };
    let b = UNITS_PER_ONE + relative;
    assert(0 <= (10_000_000_000int * 100_000_000) / b <= 10_000_000_000) by (nonlinear_arith)
        requires
            b >= 100_000_000,
    ;
}

/// An average moved towards a value; the longer the period, the less.
pub open spec fn moved(average: int, value: int, period: usize) -> int {
    saturated(average + truncated_div(2 * (value - average), period + 1))
}

/// An average moved towards a value.
pub fn move_towards(average: Amount, value: Amount, period: usize) -> (r: Amount)
    ensures
        r.units == moved(average.units as int, value.units as int, period),
{
    let gap: i128 = 2 * (value.units as i128 - average.units as i128);
    let step: i128 = divide_wide(gap, period as u128 + 1);
    Amount { units: saturate(average.units as i128 + step) }
}

/// Over a period of at least one, an average that is moved towards a value does
/// not leave the range between the two.
pub proof fn law_average_stays_between(average: int, value: int, period: usize)
    requires
        i64::MIN <= average <= i64::MAX,
        i64::MIN <= value <= i64::MAX,
        period >= 1,
    ensures
        average <= value ==> average <= moved(average, value, period) <= value,
        value <= average ==> value <= moved(average, value, period) <= average,
{
    let n = period + 1;
    let g = if value >= average {
        value - average
    } else {
        average - value
    };
    assert(0 <= (2 * g) / n <= g) by (nonlinear_arith)
        requires
            g >= 0,
            n >= 2,
    ;
}

/// Moving average convergence and divergence.
#[derive(Debug, Clone, Copy, PartialEq, Eq, Structural)]
pub struct MACD {
    pub ema_fast: Amount,
    pub ema_slow: Amount,
    pub signal_ema: Amount,
    pub macd_line: Amount,
    pub histogram: Amount,
    pub fast_period: usize,
    pub slow_period: usize,
    pub signal_period: usize,
    pub initialized: bool,
}

impl MACD {
    /// The state after a price.
    pub open spec fn after(self, price: Amount) -> MACD {
        let fast = if self.initialized {
            moved(self.ema_fast.units as int, price.units as int, self.fast_period)
        } else {
            price.units as int
        };
        let slow = if self.initialized {
            moved(self.ema_slow.units as int, price.units as int, self.slow_period)
        } else {
            price.units as int
        };
        let line = saturated(fast - slow);
        let signal = if self.initialized {
            moved(self.signal_ema.units as int, line, self.signal_period)
        } else {
            line
        };
        MACD {
            ema_fast: Amount { units: fast as i64 },
            ema_slow: Amount { units: slow as i64 },
            signal_ema: Amount { units: signal as i64 },
            macd_line: Amount { units: line as i64 },
            histogram: Amount { units: saturated(line - signal) as i64 },
            initialized: self.initialized || slow != 0,
            ..self
        }
    }

    /// No price yet.
    pub fn new(fast: usize, slow: usize, signal: usize) -> (m: Self)
        ensures
            m == (MACD {
                ema_fast: Amount { units: 0 },
                ema_slow: Amount { units: 0 },
                signal_ema: Amount { units: 0 },
                macd_line: Amount { units: 0 },
                histogram: Amount { units: 0 },
                fast_period: fast,
                slow_period: slow,
                signal_period: signal,
                initialized: false,
            }),
    {
        MACD {
            ema_fast: Amount::zero(),
            ema_slow: Amount::zero(),
            signal_ema: Amount::zero(),
            macd_line: Amount::zero(),
            histogram: Amount::zero(),
            fast_period: fast,
            slow_period: slow,
            signal_period: signal,
            initialized: false,
        }
    }

    /// Takes in a price, and gives the line, its signal and the histogram. The
    /// averages start anew until a price other than zero came.
    pub fn update(&mut self, price: Amount) -> (r: (Amount, Amount, Amount))
        ensures
            *final(self) == old(self).after(price),
            r == (final(self).macd_line, final(self).signal_ema, final(self).histogram),
    {
        let fast = if self.initialized {
            move_towards(self.ema_fast, price, self.fast_period)
        } else {
            price
        };
        let slow = if self.initialized {
            move_towards(self.ema_slow, price, self.slow_period)
        } else {
            price
        };
        self.ema_fast = fast;
        self.ema_slow = slow;
        let line = Amount { units: saturate(fast.units as i128 - slow.units as i128) };
        self.macd_line = line;
        let signal = if self.initialized {
            move_towards(self.signal_ema, line, self.signal_period)
        } else {
            line
        };
        self.signal_ema = signal;
        self.histogram = Amount { units: saturate(line.units as i128 - signal.units as i128) };
        if !self.initialized && slow.units != 0 {
            self.initialized = true;
        }
        (self.macd_line, self.signal_ema, self.histogram)
    }

    /// The line, its signal and the histogram.
    pub fn lines(&self) -> (r: (Amount, Amount, Amount))
        ensures
            r == (self.macd_line, self.signal_ema, self.histogram),
    {
        (self.macd_line, self.signal_ema, self.histogram)
    }
}

/// Where a close stands between the highest low and the lowest high, in
/// percent; fifty where the two are equal.
pub open spec fn percent_k(close: int, highest_low: int, lowest_high: int) -> int {
    if lowest_high == highest_low {
        FIFTY as int
    } else {
        saturated(quotient((close - highest_low) * HUNDRED, lowest_high - highest_low))
    }
}

/// Stochastic oscillator over fourteen bars.
pub struct Stochastic {
    pub highs: RollingWindow<14>,
    pub lows: RollingWindow<14>,
    pub k_values: RollingWindow<3>,
    pub k_value: Amount,
    pub d_value: Amount,
}

impl Stochastic {
    /// The windows are sound.
    pub open spec fn wf(&self) -> bool {
        &&& self.highs.wf()
        &&& self.lows.wf()
        &&& self.k_values.wf()
    }

    /// Both values are fifty.
    pub fn new() -> (s: Self)
        ensures
            s.wf(),
            s.highs.is_blank(),
            s.lows.is_blank(),
            s.k_values.is_blank(),
            s.k_value.units == FIFTY,
            s.d_value.units == FIFTY,
    {
        Stochastic {
            highs: RollingWindow::new(),
            lows: RollingWindow::new(),
            k_values: RollingWindow::new(),
            k_value: Amount { units: FIFTY },
            d_value: Amount { units: FIFTY },
        }
    }

    /// Whether this is the oscillator after a bar came, and `r` what it shows.
    pub open spec fn follows(
        &self,
        before: Self,
        high: Amount,
        low: Amount,
        close: Amount,
        r: (Amount, Amount),
    ) -> bool {
        &&& self.highs.data@ == before.highs.data@.skip(1).push(high)
        &&& self.lows.data@ == before.lows.data@.skip(1).push(low)
        &&& r.0.units == percent_k(
            close.units as int,
            highest(self.lows.data@),
            lowest(self.highs.data@),
        )
        &&& self.k_values.data@ == before.k_values.data@.skip(1).push(r.0)
        &&& r.1.units == mean(self.k_values.data@)
        &&& self.k_value == r.0
        &&& self.d_value == r.1
    }

    /// Takes in a bar, and gives where its close stands and the average of the
    /// last three of these.
    pub fn update(&mut self, high: Amount, low: Amount, close: Amount) -> (r: (Amount, Amount))
        requires
            old(self).wf(),
        ensures
            final(self).wf(),
            final(self).follows(*old(self), high, low, close, r),
    {
        self.highs.push(high);
        self.lows.push(low);
        let lowest_high: i128 = self.highs.min().units as i128;
        let highest_low: i128 = self.lows.max().units as i128;
        let range: i128 = lowest_high - highest_low;
        let k: i64 = if range == 0 {
            FIFTY
        } else {
            let part: i128 = (close.units as i128 - highest_low) * 10_000_000_000;
            if range < 0 {
                saturate(divide_wide(-part, (-range) as u128))
            } else {
                saturate(divide_wide(part, range as u128))
            }
        };
        let k_value = Amount { units: k };
        self.k_values.push(k_value);
        self.k_value = k_value;
        self.d_value = self.k_values.avg();
        (self.k_value, self.d_value)
    }

    /// Where the last close stands, and the average of the last three of these.
    pub fn values(&self) -> (r: (Amount, Amount))
        ensures
            r == (self.k_value, self.d_value),
    {
        (self.k_value, self.d_value)
    }
}

} // verus!
