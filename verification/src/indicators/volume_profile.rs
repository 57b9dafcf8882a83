//! Where the volume was traded, and on which side. Prices and volumes are
//! decimal numbers with eight places.

use vstd::prelude::*;
use crate::base::amount::{Amount, UNITS_PER_ONE};
use crate::base::numbers::{divide_wide, fits, saturate, saturated, truncated_div};
use crate::base::sequences::newest;

verus! {

/// The average price, weighted by volume.
#[derive(Debug, Clone, Copy, PartialEq, Eq, Structural)]
pub struct VWAP {
    /// The sum of price times volume, in squares of amount units.
    pub cumulative_tp_volume: i128,
    /// In amount units.
    pub cumulative_volume: i128,
    pub vwap_value: Amount,
    pub session_reset: bool,
}

/// The average of high, low and close.
pub open spec fn typical_price(high: Amount, low: Amount, close: Amount) -> int {
    truncated_div(high.units + low.units + close.units, 3)
}

impl VWAP {
    /// The sums once a bar was added; those of an ended session are dropped.
    pub open spec fn sums_after(self, typical: int, volume: Amount) -> (int, int) {
        if self.session_reset {
            (typical * volume.units, volume.units as int)
        } else {
            (
                self.cumulative_tp_volume + typical * volume.units,
                self.cumulative_volume + volume.units,
            )
        }
    }

    /// The average after a bar.
    pub open spec fn value_after(self, typical: int, volume: Amount) -> int {
        let s = self.sums_after(typical, volume);
        if s.1 > 0 {
            saturated(truncated_div(s.0, s.1))
        } else {
            typical
        }
    }

    /// The sums and the average once a bar was added.
    pub open spec fn after(self, typical: int, volume: Amount) -> Self {
        VWAP {
            cumulative_tp_volume: self.sums_after(typical, volume).0 as i128,
            cumulative_volume: self.sums_after(typical, volume).1 as i128,
            vwap_value: Amount { units: self.value_after(typical, volume) as i64 },
            session_reset: false,
        }
    }

    /// Nothing traded yet.
    pub fn new() -> (v: Self)
        ensures
            v == (VWAP {
                cumulative_tp_volume: 0,
                cumulative_volume: 0,
                vwap_value: Amount { units: 0 },
                session_reset: false,
            }),
    {
        VWAP {
            cumulative_tp_volume: 0,
            cumulative_volume: 0,
            vwap_value: Amount::zero(),
            session_reset: false,
        }
    }

    /// Adds a bar, and gives the average.
    pub fn update(&mut self, high: Amount, low: Amount, close: Amount, volume: Amount) -> (r:
        Amount)
        requires
            i128::MIN < old(self).sums_after(typical_price(high, low, close), volume).0
                <= i128::MAX,
            i128::MIN < old(self).sums_after(typical_price(high, low, close), volume).1
                <= i128::MAX,
        ensures
            *final(self) == old(self).after(typical_price(high, low, close), volume),
            r == final(self).vwap_value,
    {
        let sum: i128 = high.units as i128 + low.units as i128 + close.units as i128;
        let typical: i128 = divide_wide(sum, 3);
        let v: i128 = volume.units as i128;
        if self.session_reset {
            self.cumulative_tp_volume = 0;
            self.cumulative_volume = 0;
            self.session_reset = false;
        }
        assert(-0x8000_0000_0000_0000 * 0x8000_0000_0000_0000 <= typical * v
            <= 0x8000_0000_0000_0000 * 0x8000_0000_0000_0000) by (nonlinear_arith)
            requires
                -0x8000_0000_0000_0000 <= typical <= 0x8000_0000_0000_0000,
                -0x8000_0000_0000_0000 <= v <= 0x8000_0000_0000_0000,
        ;
        self.cumulative_tp_volume = self.cumulative_tp_volume + typical * v;
        self.cumulative_volume = self.cumulative_volume + v;
        let value: i64 = if self.cumulative_volume > 0 {
            saturate(divide_wide(self.cumulative_tp_volume, self.cumulative_volume as u128))
        } else {
            typical as i64
        };
        self.vwap_value = Amount { units: value };
        self.vwap_value
    }

    /// The average.
    pub fn value(&self) -> (r: Amount)
        ensures
            r == self.vwap_value,
    {
        self.vwap_value
    }

    /// Ends the session: the next bar starts anew.
    pub fn reset_session(&mut self)
        ensures
            *final(self) == (VWAP { session_reset: true, ..*old(self) }),
    {
        self.session_reset = true;
    }
}

/// After the end of a session the average is that of the next bar alone.
pub proof fn law_session_starts_anew(v: VWAP, typical: int, volume: Amount)
    requires
        v.session_reset,
        fits(typical),
        volume.units > 0,
    ensures
        v.value_after(typical, volume) == typical,
{
    let n = volume.units as int;
    let m = if typical < 0 {
        -typical
    } else {
        typical
    };
    assert((m * n) / n == m) by (nonlinear_arith)
        requires
            n > 0,
            m >= 0,
    ;
    assert((-m) * n == -(m * n)) by (nonlinear_arith);
    assert(m * n >= 0) by (nonlinear_arith)
        requires
            n > 0,
            m >= 0,
    ;
    assert(m > 0 ==> m * n > 0) by (nonlinear_arith)
        requires
            n > 0,
    ;
}

/// Trades in a range of prices.
#[derive(Debug, Clone, Copy, PartialEq, Eq, Structural)]
pub struct VolumeBucket {
    pub price_low: Amount,
    pub price_high: Amount,
    pub buy_volume: Amount,
    pub sell_volume: Amount,
    pub total_volume: Amount,
    pub trade_count: u32,
}

impl VolumeBucket {
    /// The bucket once a trade was added.
    pub open spec fn with_trade(self, volume: Amount, is_buy: bool) -> Self {
        VolumeBucket {
            buy_volume: if is_buy {
                Amount { units: saturated(self.buy_volume.units + volume.units) as i64 }
            } else {
                self.buy_volume
            },
            sell_volume: if is_buy {
                self.sell_volume
            } else {
                Amount { units: saturated(self.sell_volume.units + volume.units) as i64 }
            },
            total_volume: Amount {
                units: saturated(self.total_volume.units + volume.units) as i64,
            },
            trade_count: (self.trade_count + 1) as u32,
            ..self
        }
    }

    fn add_trade(&mut self, volume: Amount, is_buy: bool)
        requires
            old(self).trade_count < u32::MAX,
        ensures
            *final(self) == old(self).with_trade(volume, is_buy),
    {
        if is_buy {
            self.buy_volume = together(self.buy_volume, volume);
        } else {
            self.sell_volume = together(self.sell_volume, volume);
        }
        self.total_volume = together(self.total_volume, volume);
        self.trade_count = self.trade_count + 1;
    }
}

fn together(a: Amount, b: Amount) -> (r: Amount)
    ensures
        r.units == saturated(a.units + b.units),
{
    Amount { units: saturate(a.units as i128 + b.units as i128) }
}

/// The bucket with the largest volume among the first `n`, and of equals the
/// first; the first of all where no volume is positive.
pub open spec fn control_bucket(s: Seq<VolumeBucket>, n: int) -> int
    decreases n,
{
    if n <= 1 {
        0
    } else {
        let best = control_bucket(s, n - 1);
        if s[n - 1].total_volume.units > largest(s, n - 1) {
            n - 1
        } else {
            best
        }
    }
}

/// The largest volume among the first `n` buckets, zero at least.
pub open spec fn largest(s: Seq<VolumeBucket>, n: int) -> int
    decreases n,
{
    if n <= 0 {
        0
    } else if s[n - 1].total_volume.units > largest(s, n - 1) {
        s[n - 1].total_volume.units as int
    } else {
        largest(s, n - 1)
    }
}

/// The value area grown from buckets `left` to `right`, which hold `volume`:
/// bucket by bucket to the side with more volume, until it holds `target`.
pub open spec fn value_area(
    s: Seq<VolumeBucket>,
    left: int,
    right: int,
    volume: int,
    target: int,
) -> (int, int)
    decreases left + s.len() - right,
    when 0 <= left && right < s.len()
{
    let left_vol = if left > 0 {
        s[left - 1].total_volume.units as int
    } else {
        0
    };
    let right_vol = if right < s.len() - 1 {
        s[right + 1].total_volume.units as int
    } else {
        0
    };
    if volume * UNITS_PER_ONE >= target {
        (left, right)
    } else if left > 0 && left_vol >= right_vol {
        value_area(s, left - 1, right, volume + left_vol, target)
    } else if right < s.len() - 1 {
        value_area(s, left, right + 1, volume + right_vol, target)
    } else {
        (left, right)
    }
}

/// The value area contains what it grows from.
pub proof fn law_value_area_contains_control(
    s: Seq<VolumeBucket>,
    left: int,
    right: int,
    volume: int,
    target: int,
)
    requires
        0 <= left <= right < s.len(),
    ensures
        0 <= value_area(s, left, right, volume, target).0 <= left,
        right <= value_area(s, left, right, volume, target).1 < s.len(),
    decreases left + s.len() - right,
{
    let left_vol = if left > 0 {
        s[left - 1].total_volume.units as int
    } else {
        0
    };
    let right_vol = if right < s.len() - 1 {
        s[right + 1].total_volume.units as int
    } else {
        0
    };
    if volume * UNITS_PER_ONE >= target {
    } else if left > 0 && left_vol >= right_vol {
        law_value_area_contains_control(s, left - 1, right, volume + left_vol, target);
    } else if right < s.len() - 1 {
        law_value_area_contains_control(s, left, right + 1, volume + right_vol, target);
    }
}

/// Volume by price, with the price of the most volume and the range around it
/// that holds a given part of all.
#[derive(Debug, Clone)]
pub struct VolumeProfile {
    pub buckets: Vec<VolumeBucket>,
    pub bucket_size: Amount,
    pub min_price: Amount,
    pub max_price: Amount,
    pub poc_price: Amount,
    pub vah_price: Amount,
    pub val_price: Amount,
    pub total_volume: Amount,
    pub value_area_percent: Amount,
}

impl VolumeProfile {
    /// The buckets cover the prices, and their ends are in range.
    pub open spec fn wf(&self) -> bool {
        &&& self.bucket_size.units > 0
        &&& self.buckets@.len() > 0 ==> self.min_price.units <= self.max_price.units
        &&& self.buckets@.len() > 0 ==> self.buckets@.len() * self.bucket_size.units < (
        self.max_price.units - self.min_price.units) + self.bucket_size.units
        &&& fits(self.max_price.units + self.bucket_size.units)
        &&& self.buckets@.len() < 0x7fff_ffff
    }

    /// The bucket of a price, where there is one.
    pub open spec fn bucket_of(&self, price: Amount) -> Option<int> {
        if price.units < self.min_price.units || price.units > self.max_price.units {
            None
        } else {
            let i = (price.units - self.min_price.units) / self.bucket_size.units as int;
            if i < self.buckets@.len() {
                Some(i)
            } else {
                None
            }
        }
    }

    /// The number of buckets that cover a range of prices.
    pub open spec fn buckets_needed(low: Amount, high: Amount, size: Amount) -> int {
        if high.units <= low.units {
            0
        } else {
            (high.units - low.units + size.units - 1) / size.units as int
        }
    }

    /// Whether nothing was traded in the buckets that cover a range of prices.
    pub open spec fn is_empty(
        &self,
        min_price: Amount,
        max_price: Amount,
        bucket_size: Amount,
        value_area_percent: Amount,
    ) -> bool {
        &&& self.buckets@.len() == Self::buckets_needed(min_price, max_price, bucket_size)
        &&& forall|i: int|
            0 <= i < self.buckets@.len() ==> #[trigger] self.buckets@[i] == (VolumeBucket {
                price_low: Amount { units: (min_price.units + i * bucket_size.units) as i64 },
                price_high: Amount {
                    units: (min_price.units + i * bucket_size.units + bucket_size.units) as i64,
                },
                buy_volume: Amount { units: 0 },
                sell_volume: Amount { units: 0 },
                total_volume: Amount { units: 0 },
                trade_count: 0,
            })
        &&& self.bucket_size == bucket_size
        &&& self.min_price == min_price
        &&& self.max_price == max_price
        &&& self.poc_price == min_price
        &&& self.vah_price == min_price
        &&& self.val_price == min_price
        &&& self.total_volume.units == 0
        &&& self.value_area_percent == value_area_percent
    }

    /// Whether a profile is what another becomes with a trade; one outside the
    /// prices covered is left out.
    pub open spec fn follows(
        &self,
        before: Self,
        price: Amount,
        volume: Amount,
        is_buy: bool,
    ) -> bool {
        match before.bucket_of(price) {
            None => *self == before,
            Some(i) => {
                &&& self.buckets@ == before.buckets@.update(
                    i,
                    before.buckets@[i].with_trade(volume, is_buy),
                )
                &&& self.total_volume.units == saturated(before.total_volume.units + volume.units)
                &&& self.levels_current()
                &&& self.bucket_size == before.bucket_size
                &&& self.min_price == before.min_price
                &&& self.max_price == before.max_price
                &&& self.value_area_percent == before.value_area_percent
            },
        }
    }

    /// A profile without trades.
    pub fn new(
        min_price: Amount,
        max_price: Amount,
        bucket_size: Amount,
        value_area_percent: Amount,
    ) -> (p: Self)
        requires
            bucket_size.units > 0,
            fits(max_price.units + bucket_size.units),
            Self::buckets_needed(min_price, max_price, bucket_size) < 0x7fff_ffff,
        ensures
            p.is_empty(min_price, max_price, bucket_size, value_area_percent),
            p.wf(),
    {
        let size: i128 = bucket_size.units as i128;
        let range: i128 = max_price.units as i128 - min_price.units as i128;
        let count: u128 = if range <= 0 {
            0
        } else {
            (range + size - 1) as u128 / size as u128
        };
        let mut buckets: Vec<VolumeBucket> = Vec::new();
        let mut i: u128 = 0;
        proof {
            let n = count as int;
            let r = range as int;
            let z = size as int;
            assert(range > 0 ==> n * z < r + z) by (nonlinear_arith)
                requires
                    z > 0,
                    range > 0 ==> n == (r + z - 1) / z,
            ;
            assert(range <= 0 ==> n * z == 0) by (nonlinear_arith)
                requires
                    range <= 0 ==> n == 0,
            ;
        }
        while i < count
            invariant
                i <= count,
                count < 0x7fff_ffff,
                buckets@.len() == i,
                size == bucket_size.units,
                size > 0,
                range == max_price.units - min_price.units,
                count > 0 ==> count * size < range + size,
                fits(max_price.units + bucket_size.units),
                forall|k: int|
                    0 <= k < i ==> #[trigger] buckets@[k] == (VolumeBucket {
                        price_low: Amount {
                            units: (min_price.units + k * bucket_size.units) as i64,
                        },
                        price_high: Amount {
                            units: (min_price.units + k * bucket_size.units
                                + bucket_size.units) as i64,
                        },
                        buy_volume: Amount { units: 0 },
                        sell_volume: Amount { units: 0 },
                        total_volume: Amount { units: 0 },
                        trade_count: 0,
                    }),
            decreases count - i,
        {
            assert(0 <= i * size && i * size + size <= count * size) by (nonlinear_arith)
                requires
                    0 <= i < count,
                    size > 0,
            ;
            let low: i128 = min_price.units as i128 + i as i128 * size;
            buckets.push(
                VolumeBucket {
                    price_low: Amount { units: low as i64 },
                    price_high: Amount { units: (low + size) as i64 },
                    buy_volume: Amount::zero(),
                    sell_volume: Amount::zero(),
                    total_volume: Amount::zero(),
                    trade_count: 0,
                },
            );
            i += 1;
        }
        VolumeProfile {
            buckets,
            bucket_size,
            min_price,
            max_price,
            poc_price: min_price,
            vah_price: min_price,
            val_price: min_price,
            total_volume: Amount::zero(),
            value_area_percent,
        }
    }

    fn find_bucket(&self, price: Amount) -> (r: Option<usize>)
        requires
            self.wf(),
        ensures
            r is Some <==> self.bucket_of(price) is Some,
            r is Some ==> r->0 == self.bucket_of(price)->0 && r->0 < self.buckets@.len(),
    {
        if price.units < self.min_price.units || price.units > self.max_price.units {
            return None;
        }
        let above: u128 = (price.units as i128 - self.min_price.units as i128) as u128;
        let i: u128 = above / self.bucket_size.units as u128;
        if i < self.buckets.len() as u128 {
            Some(i as usize)
        } else {
            None
        }
    }

    /// The bucket with the most volume.
    pub open spec fn control(&self) -> int {
        control_bucket(self.buckets@, self.buckets@.len() as int)
    }

    /// The first and the last bucket of the value area.
    pub open spec fn area(&self) -> (int, int) {
        value_area(
            self.buckets@,
            self.control(),
            self.control(),
            largest(self.buckets@, self.buckets@.len() as int),
            self.total_volume.units * self.value_area_percent.units,
        )
    }

    /// Whether the prices tell where the volume lies: the middle of the bucket
    /// with the most, and the ends of the value area.
    pub open spec fn levels_current(&self) -> bool {
        &&& self.poc_price.units == self.min_price.units + self.control() * self.bucket_size.units
            + self.bucket_size.units as int / 2
        &&& self.val_price.units == self.min_price.units + self.area().0 * self.bucket_size.units
        &&& self.vah_price.units == self.min_price.units + (self.area().1 + 1)
            * self.bucket_size.units
    }

    /// Adds a trade; one outside the prices covered is left out.
    pub fn update(&mut self, price: Amount, volume: Amount, is_buy: bool)
        requires
            old(self).wf(),
            old(self).bucket_of(price) is Some ==> old(
                self,
            ).buckets@[old(self).bucket_of(price)->0].trade_count < u32::MAX,
        ensures
            final(self).wf(),
            final(self).follows(*old(self), price, volume, is_buy),
    {
        match self.find_bucket(price) {
            Some(i) => {
                let mut bucket: VolumeBucket = self.buckets[i];
                bucket.add_trade(volume, is_buy);
                self.buckets.set(i, bucket);
                self.total_volume = together(self.total_volume, volume);
                self.recalculate_levels();
            },
            None => {},
        }
    }

    fn find_control(&self) -> (r: (usize, i64))
        requires
            self.buckets@.len() > 0,
        ensures
            r.0 == self.control(),
            r.0 < self.buckets@.len(),
            r.1 == largest(self.buckets@, self.buckets@.len() as int),
    {
        let mut best: usize = 0;
        let mut volume: i64 = 0;
        let mut i: usize = 0;
        while i < self.buckets.len()
            invariant
                i <= self.buckets@.len(),
                best < self.buckets@.len(),
                best == control_bucket(self.buckets@, i as int),
                volume == largest(self.buckets@, i as int),
            decreases self.buckets@.len() - i,
        {
            if self.buckets[i].total_volume.units > volume {
                volume = self.buckets[i].total_volume.units;
                best = i;
            }
            i += 1;
        }
        (best, volume)
    }

    fn recalculate_levels(&mut self)
        requires
            old(self).wf(),
            old(self).buckets@.len() > 0,
        ensures
            final(self).wf(),
            final(self).levels_current(),
            *final(self) == (VolumeProfile {
                poc_price: final(self).poc_price,
                val_price: final(self).val_price,
                vah_price: final(self).vah_price,
                ..*old(self)
            }),
    {
        let (control, most) = self.find_control();
        let n: usize = self.buckets.len();
        let total: i128 = self.total_volume.units as i128;
        let percent: i128 = self.value_area_percent.units as i128;
        assert(-0x8000_0000_0000_0000 * 0x8000_0000_0000_0000 <= total * percent
            <= 0x8000_0000_0000_0000 * 0x8000_0000_0000_0000) by (nonlinear_arith)
            requires
                -0x8000_0000_0000_0000 <= total <= 0x8000_0000_0000_0000,
                -0x8000_0000_0000_0000 <= percent <= 0x8000_0000_0000_0000,
        ;
        let target: i128 = total * percent;
        let mut left: usize = control;
        let mut right: usize = control;
        let mut volume: i128 = most as i128;
        let ghost area = self.area();
        let mut growing: bool = true;
        while growing && volume * (UNITS_PER_ONE as i128) < target
            invariant
                *self == *old(self),
                self.buckets@.len() == n,
                n < 0x7fff_ffff,
                left <= right < n,
                -(0x8000_0000_0000_0000 * (1 + right - left)) <= volume <= 0x8000_0000_0000_0000
                    * (1 + right - left),
                area == self.area(),
                growing ==> area == value_area(
                    self.buckets@,
                    left as int,
                    right as int,
                    volume as int,
                    target as int,
                ),
                !growing ==> area == (left as int, right as int),
            decreases
                n - (right - left),
                (if growing {
                    1int
                } else {
                    0
                }),
        {
            let left_vol: i64 = if left > 0 {
                self.buckets[left - 1].total_volume.units
            } else {
                0
            };
            let right_vol: i64 = if right < n - 1 {
                self.buckets[right + 1].total_volume.units
            } else {
                0
            };
            if left > 0 && left_vol >= right_vol {
                left = left - 1;
                volume = volume + left_vol as i128;
            } else if right < n - 1 {
                right = right + 1;
                volume = volume + right_vol as i128;
            } else {
                growing = false;
            }
        }
        assert(area == (left as int, right as int));
        let size: i64 = self.bucket_size.units;
        proof {
            let c = control as int;
            let l = left as int;
            let r = right as int;
            let z = size as int;
            let m = n as int;
            assert(0 <= c * z && c * z + z <= m * z) by (nonlinear_arith)
                requires
                    0 <= c < m,
                    z > 0,
            ;
            assert(0 <= l * z && l * z + z <= m * z) by (nonlinear_arith)
                requires
                    0 <= l < m,
                    z > 0,
            ;
            assert(0 <= (r + 1) * z <= m * z) by (nonlinear_arith)
                requires
                    0 <= r < m,
                    z > 0,
            ;
        }
        let base: i128 = self.min_price.units as i128;
        let s: i128 = size as i128;
        let poc: i128 = base + control as i128 * s + (size as u64 / 2) as i128;
        self.poc_price = Amount { units: poc as i64 };
        self.val_price = Amount { units: (base + left as i128 * s) as i64 };
        self.vah_price = Amount { units: (base + (right as i128 + 1) * s) as i64 };
    }

    /// The price with the most volume.
    pub fn poc(&self) -> (r: Amount)
        ensures
            r == self.poc_price,
    {
        self.poc_price
    }

    /// The upper end of the value area.
    pub fn vah(&self) -> (r: Amount)
        ensures
            r == self.vah_price,
    {
        self.vah_price
    }

    /// The lower end of the value area.
    pub fn val(&self) -> (r: Amount)
        ensures
            r == self.val_price,
    {
        self.val_price
    }

    /// All volume.
    pub fn total_volume(&self) -> (r: Amount)
        ensures
            r == self.total_volume,
    {
        self.total_volume
    }

    /// The volume at a price.
    pub fn volume_at_price(&self, price: Amount) -> (r: Amount)
        requires
            self.wf(),
        ensures
            r == (match self.bucket_of(price) {
                Some(i) => self.buckets@[i].total_volume,
                None => Amount { units: 0 },
            }),
    {
        match self.find_bucket(price) {
            Some(i) => self.buckets[i].total_volume,
            None => Amount::zero(),
        }
    }
}

/// The sum of amounts.
pub open spec fn amount_sum(s: Seq<Amount>) -> int
    decreases s.len(),
{
    if s.len() == 0 {
        0
    } else {
        amount_sum(s.drop_last()) + s.last().units
    }
}

/// Buying volume less selling volume, with the latest trades.
#[derive(Debug, Clone)]
pub struct CVD {
    pub cumulative_delta: Amount,
    pub buy_volume: Amount,
    pub sell_volume: Amount,
    pub delta_history: Vec<Amount>,
    pub history_size: usize,
}

impl CVD {
    /// The history is bounded.
    pub open spec fn wf(&self) -> bool {
        self.delta_history@.len() <= self.history_size
    }

    /// What a trade adds.
    pub open spec fn delta(volume: Amount, is_buy: bool) -> int {
        if is_buy {
            volume.units as int
        } else {
            saturated(-volume.units)
        }
    }

    /// Whether nothing was traded.
    pub open spec fn is_empty(&self, history_size: usize) -> bool {
        &&& self.cumulative_delta.units == 0
        &&& self.buy_volume.units == 0
        &&& self.sell_volume.units == 0
        &&& self.delta_history@.len() == 0
        &&& self.history_size == history_size
    }

    /// Whether these are the sums that others become with a trade.
    pub open spec fn follows(&self, before: Self, volume: Amount, is_buy: bool) -> bool {
        &&& self.cumulative_delta.units == saturated(
            before.cumulative_delta.units + Self::delta(volume, is_buy),
        )
        &&& self.buy_volume.units == (if is_buy {
            saturated(before.buy_volume.units + volume.units)
        } else {
            before.buy_volume.units as int
        })
        &&& self.sell_volume.units == (if is_buy {
            before.sell_volume.units as int
        } else {
            saturated(before.sell_volume.units + volume.units)
        })
        &&& self.delta_history@ == newest(
            before.delta_history@.push(Amount { units: Self::delta(volume, is_buy) as i64 }),
            before.history_size as nat,
        )
        &&& self.history_size == before.history_size
    }

    /// Nothing traded yet.
    pub fn new(history_size: usize) -> (c: Self)
        ensures
            c.wf(),
            c.is_empty(history_size),
    {
        CVD {
            cumulative_delta: Amount::zero(),
            buy_volume: Amount::zero(),
            sell_volume: Amount::zero(),
            delta_history: Vec::new(),
            history_size,
        }
    }

    /// Adds a trade, and gives the sum.
    pub fn update(&mut self, volume: Amount, is_buy: bool) -> (r: Amount)
        requires
            old(self).wf(),
            old(self).history_size > 0,
        ensures
            final(self).wf(),
            r == final(self).cumulative_delta,
            final(self).follows(*old(self), volume, is_buy),
    {
        let delta: i64 = if is_buy { volume.units } else { saturate(-(volume.units as i128)) };
        self.cumulative_delta = together(self.cumulative_delta, Amount { units: delta });
        if is_buy {
            self.buy_volume = together(self.buy_volume, volume);
        } else {
            self.sell_volume = together(self.sell_volume, volume);
        }
        let ghost grown = self.delta_history@.push(Amount { units: delta });
        if self.delta_history.len() == self.history_size {
            self.delta_history.remove(0);
        }
        self.delta_history.push(Amount { units: delta });
        assert(self.delta_history@ =~= newest(grown, self.history_size as nat));
        self.cumulative_delta
    }

    /// Buying less selling volume.
    pub fn value(&self) -> (r: Amount)
        ensures
            r == self.cumulative_delta,
    {
        self.cumulative_delta
    }

    /// Buying volume.
    pub fn buy_volume(&self) -> (r: Amount)
        ensures
            r == self.buy_volume,
    {
        self.buy_volume
    }

    /// Selling volume.
    pub fn sell_volume(&self) -> (r: Amount)
        ensures
            r == self.sell_volume,
    {
        self.sell_volume
    }

    /// Buying less selling volume, from the two volumes.
    pub fn net_delta(&self) -> (r: Amount)
        ensures
            r.units == saturated(self.buy_volume.units - self.sell_volume.units),
    {
        Amount { units: saturate(self.buy_volume.units as i128 - self.sell_volume.units as i128) }
    }

    /// The sum over the last `periods` trades, or all that are remembered.
    pub fn delta_sum(&self, periods: usize) -> (r: Amount)
        requires
            self.wf(),
        ensures
            r.units == saturated(amount_sum(newest(self.delta_history@, periods as nat))),
    {
        let len: usize = self.delta_history.len();
        let take: usize = if periods < len { periods } else { len };
        let from: usize = len - take;
        let ghost s = newest(self.delta_history@, periods as nat);
        assert(s =~= self.delta_history@.skip(from as int));
        let mut sum: i128 = 0;
        let mut i: usize = from;
        assert(s.take(0) =~= Seq::empty());
        while i < len
            invariant
                from <= i <= len,
                len == self.delta_history@.len(),
                s == self.delta_history@.skip(from as int),
                sum == amount_sum(s.take(i - from)),
                -(0x8000_0000_0000_0000 * (i - from)) <= sum <= 0x8000_0000_0000_0000 * (i - from),
            decreases len - i,
        {
            assert(s.take(i - from + 1).drop_last() =~= s.take(i - from));
            sum = sum + self.delta_history[i].units as i128;
            i += 1;
        }
        assert(s.take(s.len() as int) =~= s);
        Amount { units: saturate(sum) }
    }
}

/// All three views of the volume.
#[derive(Debug, Clone)]
pub struct VolumeMetrics {
    pub vwap: VWAP,
    pub cvd: CVD,
    pub volume_profile: Option<VolumeProfile>,
}

impl VolumeMetrics {
    /// Its parts hold what they promise.
    pub open spec fn wf(&self) -> bool {
        self.cvd.wf() && (self.volume_profile is Some ==> self.volume_profile->0.wf())
    }

    /// Nothing traded yet; the value area holds seven tenths.
    pub fn new(vp_min: Amount, vp_max: Amount, vp_bucket: Amount) -> (m: Self)
        requires
            vp_bucket.units > 0,
            fits(vp_max.units + vp_bucket.units),
            VolumeProfile::buckets_needed(vp_min, vp_max, vp_bucket) < 0x7fff_ffff,
        ensures
            m.wf(),
            m.vwap == (VWAP {
                cumulative_tp_volume: 0,
                cumulative_volume: 0,
                vwap_value: Amount { units: 0 },
                session_reset: false,
            }),
            m.cvd.is_empty(1000),
            m.volume_profile is Some,
            m.volume_profile->0.is_empty(vp_min, vp_max, vp_bucket, Amount { units: 70_000_000 }),
    {
        VolumeMetrics {
            vwap: VWAP::new(),
            cvd: CVD::new(1000),
            volume_profile: Some(
                VolumeProfile::new(vp_min, vp_max, vp_bucket, Amount { units: 70_000_000 }),
            ),
        }
    }

    /// Whether a bar leaves all counts and the sums of the average in range.
    pub open spec fn bar_in_range(
        &self,
        high: Amount,
        low: Amount,
        close: Amount,
        volume: Amount,
    ) -> bool {
        let sums = self.vwap.sums_after(typical_price(high, low, close), volume);
        &&& i128::MIN < sums.0 <= i128::MAX
        &&& i128::MIN < sums.1 <= i128::MAX
        &&& self.cvd.history_size > 0
        &&& self.volume_profile is Some ==> {
            let p = self.volume_profile->0;
            p.bucket_of(close) is Some ==> p.buckets@[p.bucket_of(close)->0].trade_count < u32::MAX
        }
    }

    /// Adds a bar to all three; its volume is counted at the close.
    pub fn update(
        &mut self,
        high: Amount,
        low: Amount,
        close: Amount,
        volume: Amount,
        is_buy: bool,
    )
        requires
            old(self).wf(),
            old(self).bar_in_range(high, low, close, volume),
        ensures
            final(self).wf(),
            final(self).vwap == old(self).vwap.after(typical_price(high, low, close), volume),
            final(self).cvd.follows(old(self).cvd, volume, is_buy),
            match old(self).volume_profile {
                Some(before) => final(self).volume_profile is Some
                    && final(self).volume_profile->0.follows(before, close, volume, is_buy),
                None => final(self).volume_profile is None,
            },
    {
        let _ = self.vwap.update(high, low, close, volume);
        let _ = self.cvd.update(volume, is_buy);
        match &mut self.volume_profile {
            Some(profile) => {
                profile.update(close, volume, is_buy);
            },
            None => {},
        }
    }

    /// The weighted average price.
    pub fn vwap(&self) -> (r: Amount)
        ensures
            r == self.vwap.vwap_value,
    {
        self.vwap.value()
    }

    /// Buying less selling volume.
    pub fn cvd(&self) -> (r: Amount)
        ensures
            r == self.cvd.cumulative_delta,
    {
        self.cvd.value()
    }

    /// The price with the most volume.
    pub fn poc(&self) -> (r: Amount)
        ensures
            r == (match self.volume_profile {
                Some(p) => p.poc_price,
                None => Amount { units: 0 },
            }),
    {
        match &self.volume_profile {
            Some(p) => p.poc(),
            None => Amount::zero(),
        }
    }

    /// The upper end of the value area.
    pub fn vah(&self) -> (r: Amount)
        ensures
            r == (match self.volume_profile {
                Some(p) => p.vah_price,
                None => Amount { units: 0 },
            }),
    {
        match &self.volume_profile {
            Some(p) => p.vah(),
            None => Amount::zero(),
        }
    }

    /// The lower end of the value area.
    pub fn val(&self) -> (r: Amount)
        ensures
            r == (match self.volume_profile {
                Some(p) => p.val_price,
                None => Amount { units: 0 },
            }),
    {
        match &self.volume_profile {
            Some(p) => p.val(),
            None => Amount::zero(),
        }
    }
}

} // verus!
