//! Token buckets that keep requests and orders below the exchange's limits.

use vstd::prelude::*;
use crate::base::clock::now_ns;

verus! {

/// Limits of the exchange.
#[derive(Debug, Clone, Copy, PartialEq, Eq, Structural)]
pub struct BinanceRateLimits {
    /// Request weight per minute.
    pub request_weight_per_min: u64,
    /// Orders per second.
    pub orders_per_second: u64,
    /// Raw requests per second.
    pub raw_requests_per_sec: u64,
}

impl Default for BinanceRateLimits {
    fn default() -> (l: Self)
        ensures
            l.request_weight_per_min == 1200,
            l.orders_per_second == 10,
            l.raw_requests_per_sec == 50,
    {
        BinanceRateLimits {
            request_weight_per_min: 1200,
            orders_per_second: 10,
            raw_requests_per_sec: 50,
        }
    }
}

/// The answer to a request for tokens.
#[derive(Debug, Clone, Copy, PartialEq, Eq, Structural)]
pub struct RateLimitResult {
    pub allowed: bool,
    pub wait_time_ms: u64,
    pub tokens_remaining: u64,
    pub retry_after_ms: Option<u64>,
}

/// The answer to an order that needs both request weight and an order token.
#[derive(Debug, Clone, Copy, PartialEq, Eq, Structural)]
pub struct PreOrderCheckResult {
    pub allowed: bool,
    pub request_wait_ms: u64,
    pub order_wait_ms: u64,
    pub max_wait_ms: u64,
}

/// The state of a rate limiter.
#[derive(Debug, Clone, Copy, PartialEq, Eq, Structural)]
pub struct RateLimitStatus {
    pub request_tokens: u64,
    pub request_capacity: u64,
    pub order_tokens: u64,
    pub order_capacity: u64,
    pub raw_tokens: u64,
    pub raw_capacity: u64,
    pub total_requests_today: u64,
    pub total_orders_today: u64,
    pub rate_limit_events: u64,
}

/// A bucket that fills at a steady rate and is emptied by requests.
#[derive(Debug, Clone, Copy, PartialEq, Eq, Structural)]
pub struct TokenBucket {
    pub capacity: u64,
    pub tokens: u64,
    /// Tokens per second.
    pub refill_rate: u64,
    /// When tokens were last added, in nanoseconds.
    pub last_refill_ns: u64,
}

/// Nanoseconds in a millisecond: less time than that adds no tokens.
pub const MIN_REFILL_NS: u64 = 1_000_000;

/// The smaller of two numbers.
pub open spec fn least(a: int, b: int) -> int {
    if a <= b {
        a
    } else {
        b
    }
}

/// The tokens that flow in between `last` and `now`; none where less than a
/// millisecond has passed.
pub open spec fn inflow(rate: u64, last: u64, now: u64) -> nat {
    if now - last < MIN_REFILL_NS {
        0
    } else {
        ((now - last) * rate) as nat / 1_000_000_000
    }
}

/// The milliseconds, rounded up, in which `needed` tokens flow in. Where none
/// ever does, or the time is out of range, it is the largest `u64`.
pub open spec fn wait_for(needed: nat, rate: u64) -> int {
    if rate == 0 {
        u64::MAX as int
    } else {
        least(((needed * 1000 + rate - 1) / (rate as int)) as int, u64::MAX as int)
    }
}

impl TokenBucket {
    /// A bucket never holds more than its capacity.
    pub open spec fn wf(&self) -> bool {
        self.tokens <= self.capacity
    }

    /// The bucket once the tokens that have flown in until `now` are added.
    pub open spec fn refilled(self, now: u64) -> Self {
        let added = inflow(self.refill_rate, self.last_refill_ns, now);
        if added == 0 {
            self
        } else {
            TokenBucket {
                tokens: least(self.tokens + added, self.capacity as int) as u64,
                last_refill_ns: now,
                ..self
            }
        }
    }

    /// The bucket after a request for `tokens` at `now`.
    pub open spec fn after_request(self, tokens: u64, now: u64) -> Self {
        let full = self.refilled(now);
        if full.tokens >= tokens {
            TokenBucket { tokens: (full.tokens - tokens) as u64, ..full }
        } else {
            full
        }
    }

    /// The answer to a request for `tokens` at `now`.
    pub open spec fn answer(self, tokens: u64, now: u64) -> RateLimitResult {
        let available = self.refilled(now).tokens;
        if available >= tokens {
            RateLimitResult {
                allowed: true,
                wait_time_ms: 0,
                tokens_remaining: (available - tokens) as u64,
                retry_after_ms: None,
            }
        } else {
            let wait = wait_for((tokens - available) as nat, self.refill_rate) as u64;
            RateLimitResult {
                allowed: false,
                wait_time_ms: wait,
                tokens_remaining: available,
                retry_after_ms: Some(wait),
            }
        }
    }

    /// A full bucket that starts to fill at `now`.
    pub fn new_at(capacity: u64, refill_rate: u64, now: u64) -> (b: Self)
        ensures
            b == (TokenBucket { capacity, tokens: capacity, refill_rate, last_refill_ns: now }),
            b.wf(),
    {
        TokenBucket { capacity, tokens: capacity, refill_rate, last_refill_ns: now }
    }

    /// A full bucket.
    pub fn new(capacity: u64, refill_rate: u64) -> (b: Self)
        ensures
            b.capacity == capacity,
            b.tokens == capacity,
            b.refill_rate == refill_rate,
            b.wf(),
    {
        TokenBucket::new_at(capacity, refill_rate, now_ns())
    }

    /// Adds the tokens that have flown in until `now`. A clock that runs
    /// backwards adds none.
    pub fn refill_at(&mut self, now: u64)
        requires
            old(self).wf(),
        ensures
            *final(self) == old(self).refilled(now),
            final(self).wf(),
    {
        if now < self.last_refill_ns || now - self.last_refill_ns < MIN_REFILL_NS {
            return;
        }
        let elapsed: u128 = (now - self.last_refill_ns) as u128;
        let rate: u128 = self.refill_rate as u128;
        assert(elapsed * rate <= 0xffff_ffff_ffff_ffff * 0xffff_ffff_ffff_ffff)
            by (nonlinear_arith)
            requires
                elapsed <= 0xffff_ffff_ffff_ffff,
                rate <= 0xffff_ffff_ffff_ffff,
        ;
        let added: u128 = elapsed * rate / 1_000_000_000;
        if added == 0 {
            return;
        }
        assert(added <= 0xffff_ffff_ffff_ffff * 0xffff_ffff_ffff_ffff);
        let sum: u128 = self.tokens as u128 + added;
        self.tokens = if sum <= self.capacity as u128 {
            sum as u64
        } else {
            self.capacity
        };
        self.last_refill_ns = now;
    }

    /// Takes `tokens` at `now`, if there are as many.
    pub fn try_consume_at(&mut self, tokens: u64, now: u64) -> (r: bool)
        requires
            old(self).wf(),
        ensures
            *final(self) == old(self).after_request(tokens, now),
            r == old(self).answer(tokens, now).allowed,
            final(self).wf(),
    {
        self.refill_at(now);
        if self.tokens < tokens {
            return false;
        }
        self.tokens = self.tokens - tokens;
        true
    }

    /// Takes `tokens`, if there are as many.
    pub fn try_consume(&mut self, tokens: u64) -> (r: bool)
        requires
            old(self).wf(),
        ensures
            exists|now: u64| #[trigger]
                old(self).after_request(tokens, now) == *final(self) && r == old(self).answer(
                    tokens,
                    now,
                ).allowed,
            final(self).wf(),
    {
        let now: u64 = now_ns();
        self.try_consume_at(tokens, now)
    }

    /// Takes `tokens` at `now` if there are as many, and tells how long to
    /// wait if not.
    pub fn consume_with_wait_at(&mut self, tokens: u64, now: u64) -> (r: RateLimitResult)
        requires
            old(self).wf(),
        ensures
            *final(self) == old(self).after_request(tokens, now),
            r == old(self).answer(tokens, now),
            final(self).wf(),
    {
        self.refill_at(now);
        let current: u64 = self.tokens;
        if current >= tokens {
            self.tokens = current - tokens;
            return RateLimitResult {
                allowed: true,
                wait_time_ms: 0,
                tokens_remaining: current - tokens,
                retry_after_ms: None,
            };
        }
        let needed: u64 = tokens - current;
        let wait_ms: u64 = if self.refill_rate == 0 {
            u64::MAX
        } else {
            let rate: u128 = self.refill_rate as u128;
            let ms: u128 = (needed as u128 * 1000 + rate - 1) / rate;
            if ms <= u64::MAX as u128 {
                ms as u64
            } else {
                u64::MAX
            }
        };
        RateLimitResult {
            allowed: false,
            wait_time_ms: wait_ms,
            tokens_remaining: current,
            retry_after_ms: Some(wait_ms),
        }
    }

    /// Takes `tokens` if there are as many, and tells how long to wait if not.
    pub fn consume_with_wait(&mut self, tokens: u64) -> (r: RateLimitResult)
        requires
            old(self).wf(),
        ensures
            exists|now: u64| #[trigger]
                old(self).after_request(tokens, now) == *final(self) && r == old(self).answer(
                    tokens,
                    now,
                ),
            final(self).wf(),
    {
        let now: u64 = now_ns();
        self.consume_with_wait_at(tokens, now)
    }

    /// How many tokens there are.
    pub fn get_tokens(&mut self) -> (n: u64)
        requires
            old(self).wf(),
        ensures
            exists|now: u64| #[trigger] old(self).refilled(now) == *final(self),
            n == final(self).tokens,
            final(self).wf(),
    {
        let now: u64 = now_ns();
        self.refill_at(now);
        self.tokens
    }

    /// Fills the bucket.
    pub fn reset(&mut self)
        ensures
            final(self).capacity == old(self).capacity,
            final(self).refill_rate == old(self).refill_rate,
            final(self).tokens == old(self).capacity,
            final(self).wf(),
    {
        self.tokens = self.capacity;
        self.last_refill_ns = now_ns();
    }
}

/// A request never leaves a bucket with more than its capacity, and takes
/// exactly what it was allowed.
pub proof fn law_bucket_never_overdrawn(b: TokenBucket, tokens: u64, now: u64)
    requires
        b.wf(),
    ensures
        b.after_request(tokens, now).wf(),
        b.answer(tokens, now).allowed ==> b.after_request(tokens, now).tokens + tokens
            == b.refilled(now).tokens,
        !b.answer(tokens, now).allowed ==> b.after_request(tokens, now) == b.refilled(now)
            && b.refilled(now).tokens < tokens,
{
}

/// A bucket after requests, each for a number of tokens at a time.
pub open spec fn after_requests(b: TokenBucket, requests: Seq<(u64, u64)>) -> TokenBucket
    decreases requests.len(),
{
    if requests.len() == 0 {
        b
    } else {
        after_requests(b, requests.drop_last()).after_request(requests.last().0, requests.last().1)
    }
}

/// How many tokens the allowed ones of the requests took together.
pub open spec fn tokens_taken(b: TokenBucket, requests: Seq<(u64, u64)>) -> nat
    decreases requests.len(),
{
    if requests.len() == 0 {
        0
    } else {
        let before = after_requests(b, requests.drop_last());
        let taken = tokens_taken(b, requests.drop_last());
        if before.answer(requests.last().0, requests.last().1).allowed {
            taken + requests.last().0 as nat
        } else {
            taken
        }
    }
}

/// Whatever the requests, a bucket gives no more tokens than it had and than
/// flowed in at its rate up to the latest of them.
pub proof fn law_rate_never_exceeded(b: TokenBucket, requests: Seq<(u64, u64)>, until: u64)
    requires
        b.wf(),
        b.last_refill_ns <= until,
        forall|i: int| 0 <= i < requests.len() ==> (#[trigger] requests[i]).1 <= until,
    ensures
        tokens_taken(b, requests) * 1_000_000_000 <= b.tokens * 1_000_000_000 + (until
            - b.last_refill_ns) * b.refill_rate,
{
    lemma_tokens_accounted(b, requests, until);
    let rate = b.refill_rate as int;
    let last = after_requests(b, requests).last_refill_ns as int;
    assert((last - b.last_refill_ns) * rate <= (until - b.last_refill_ns) * rate)
        by (nonlinear_arith)
        requires
            last <= until,
            rate >= 0,
    ;
}

proof fn lemma_tokens_accounted(b: TokenBucket, requests: Seq<(u64, u64)>, until: u64)
    requires
        b.wf(),
        b.last_refill_ns <= until,
        forall|i: int| 0 <= i < requests.len() ==> (#[trigger] requests[i]).1 <= until,
    ensures
        ({
            let after = after_requests(b, requests);
            &&& after.wf()
            &&& after.refill_rate == b.refill_rate
            &&& b.last_refill_ns <= after.last_refill_ns <= until
            &&& (tokens_taken(b, requests) + after.tokens) * 1_000_000_000 <= b.tokens
                * 1_000_000_000 + (after.last_refill_ns - b.last_refill_ns) * b.refill_rate
        }),
    decreases requests.len(),
{
    let rate = b.refill_rate as int;
    if requests.len() == 0 {
        assert(0 * rate == 0) by (nonlinear_arith);
    } else {
        assert forall|i: int| 0 <= i < requests.drop_last().len() implies (
        #[trigger] requests.drop_last()[i]).1 <= until by {
            assert(requests.drop_last()[i] == requests[i]);
        }
        lemma_tokens_accounted(b, requests.drop_last(), until);
        let before = after_requests(b, requests.drop_last());
        let now = requests.last().1;
        assert(requests.last() == requests[requests.len() - 1]);
        let added = inflow(before.refill_rate, before.last_refill_ns, now);
        if added > 0 {
            let a = before.last_refill_ns - b.last_refill_ns;
            let e = now - before.last_refill_ns;
            assert((a + e) * rate == a * rate + e * rate) by (nonlinear_arith);
            assert(e * rate >= 0) by (nonlinear_arith)
                requires
                    e >= 0,
                    rate >= 0,
            ;
            assert(added * 1_000_000_000 <= e * rate);
        }
    }
}

/// After the wait that a refusal names, the same request is allowed, as long
/// as it fits the bucket at all and the time is in range.
pub proof fn law_wait_suffices(b: TokenBucket, tokens: u64, now: u64, later: u64)
    requires
        b.wf(),
        tokens <= b.capacity,
        b.refill_rate > 0,
        b.refilled(now).last_refill_ns <= now,
        !b.answer(tokens, now).allowed,
        b.answer(tokens, now).wait_time_ms < u64::MAX,
        later >= now + b.answer(tokens, now).wait_time_ms * 1_000_000,
    ensures
        b.refilled(now).answer(tokens, later).allowed,
{
    let full = b.refilled(now);
    let needed = tokens - full.tokens;
    let rate = b.refill_rate as int;
    let wait = b.answer(tokens, now).wait_time_ms as int;
    let q = (needed * 1000 + rate - 1) / rate;
    assert(wait == q);
    assert(q * rate >= needed * 1000 && q >= 1) by (nonlinear_arith)
        requires
            rate > 0,
            needed >= 1,
            q == (needed * 1000 + rate - 1) / rate,
    ;
    let elapsed = later - full.last_refill_ns;
    assert(elapsed >= wait * 1_000_000);
    assert(elapsed * rate >= needed * 1_000_000_000) by (nonlinear_arith)
        requires
            elapsed >= q * 1_000_000,
            q * rate >= needed * 1000,
            rate > 0,
    ;
    assert(inflow(b.refill_rate, full.last_refill_ns, later) >= needed) by {
        assert((elapsed * rate) / 1_000_000_000 >= needed);
    }
}

/// Keeps requests, orders and raw requests below their limits.
pub struct BinanceRateLimiter {
    pub request_bucket: TokenBucket,
    pub order_bucket: TokenBucket,
    pub raw_request_bucket: TokenBucket,
    pub limits: BinanceRateLimits,
    pub strict_mode: bool,
    pub total_requests_today: u64,
    pub total_orders_today: u64,
    pub rate_limit_exceeded_count: u64,
}

impl BinanceRateLimiter {
    /// No bucket holds more than its capacity.
    pub open spec fn wf(&self) -> bool {
        &&& self.request_bucket.wf()
        &&& self.order_bucket.wf()
        &&& self.raw_request_bucket.wf()
    }

    /// The limiter after a request of `weight` at `now`.
    pub open spec fn after_check_request(self, weight: u64, now: u64) -> Self {
        let allowed = self.request_bucket.answer(weight, now).allowed;
        BinanceRateLimiter {
            request_bucket: self.request_bucket.after_request(weight, now),
            total_requests_today: if allowed {
                self.total_requests_today.wrapping_add(1)
            } else {
                self.total_requests_today
            },
            rate_limit_exceeded_count: if allowed {
                self.rate_limit_exceeded_count
            } else {
                self.rate_limit_exceeded_count.wrapping_add(1)
            },
            ..self
        }
    }

    /// The limiter after an order at `now`.
    pub open spec fn after_check_order(self, now: u64) -> Self {
        let allowed = self.order_bucket.answer(1, now).allowed;
        BinanceRateLimiter {
            order_bucket: self.order_bucket.after_request(1, now),
            total_orders_today: if allowed {
                self.total_orders_today.wrapping_add(1)
            } else {
                self.total_orders_today
            },
            rate_limit_exceeded_count: if allowed {
                self.rate_limit_exceeded_count
            } else {
                self.rate_limit_exceeded_count.wrapping_add(1)
            },
            ..self
        }
    }

    /// The limiter after a raw request at `now`. A refused one counts nowhere.
    pub open spec fn after_check_raw(self, now: u64) -> Self {
        BinanceRateLimiter {
            raw_request_bucket: self.raw_request_bucket.after_request(1, now),
            total_requests_today: if self.raw_request_bucket.answer(1, now).allowed {
                self.total_requests_today.wrapping_add(1)
            } else {
                self.total_requests_today
            },
            ..self
        }
    }

    /// The buckets that belong to `limits` are full, and nothing is counted.
    pub open spec fn fresh_buckets(&self, limits: BinanceRateLimits) -> bool {
        &&& self.limits == limits
        &&& self.request_bucket.capacity == limits.request_weight_per_min
        &&& self.request_bucket.tokens == limits.request_weight_per_min
        &&& self.request_bucket.refill_rate == limits.request_weight_per_min / 60
        &&& self.order_bucket.capacity == limits.orders_per_second
        &&& self.order_bucket.tokens == limits.orders_per_second
        &&& self.order_bucket.refill_rate == limits.orders_per_second
        &&& self.raw_request_bucket.capacity == limits.raw_requests_per_sec
        &&& self.raw_request_bucket.tokens == limits.raw_requests_per_sec
        &&& self.raw_request_bucket.refill_rate == limits.raw_requests_per_sec
    }

    /// A limiter with full buckets.
    pub fn new(limits: BinanceRateLimits) -> (l: Self)
        ensures
            l.wf(),
            l.fresh_buckets(limits),
            l.strict_mode,
            l.total_requests_today == 0,
            l.total_orders_today == 0,
            l.rate_limit_exceeded_count == 0,
    {
        BinanceRateLimiter {
            request_bucket: TokenBucket::new(
                limits.request_weight_per_min,
                limits.request_weight_per_min / 60,
            ),
            order_bucket: TokenBucket::new(limits.orders_per_second, limits.orders_per_second),
            raw_request_bucket: TokenBucket::new(
                limits.raw_requests_per_sec,
                limits.raw_requests_per_sec,
            ),
            limits,
            strict_mode: true,
            total_requests_today: 0,
            total_orders_today: 0,
            rate_limit_exceeded_count: 0,
        }
    }

    /// Asks for a request of `weight` at `now`.
    pub fn check_request_at(&mut self, weight: u64, now: u64) -> (r: RateLimitResult)
        requires
            old(self).wf(),
        ensures
            *final(self) == old(self).after_check_request(weight, now),
            r == old(self).request_bucket.answer(weight, now),
            final(self).wf(),
    {
        let r = self.request_bucket.consume_with_wait_at(weight, now);
        if r.allowed {
            self.total_requests_today = self.total_requests_today.wrapping_add(1);
        } else {
            self.rate_limit_exceeded_count = self.rate_limit_exceeded_count.wrapping_add(1);
        }
        r
    }

    /// Asks for a request of `weight`.
    pub fn check_request(&mut self, weight: u64) -> (r: RateLimitResult)
        requires
            old(self).wf(),
        ensures
            exists|now: u64| #[trigger]
                old(self).after_check_request(weight, now) == *final(self) && r == old(
                    self,
                ).request_bucket.answer(weight, now),
            final(self).wf(),
    {
        let now: u64 = now_ns();
        self.check_request_at(weight, now)
    }

    /// Asks for an order at `now`.
    pub fn check_order_placement_at(&mut self, now: u64) -> (r: RateLimitResult)
        requires
            old(self).wf(),
        ensures
            *final(self) == old(self).after_check_order(now),
            r == old(self).order_bucket.answer(1, now),
            final(self).wf(),
    {
        let r = self.order_bucket.consume_with_wait_at(1, now);
        if r.allowed {
            self.total_orders_today = self.total_orders_today.wrapping_add(1);
        } else {
            self.rate_limit_exceeded_count = self.rate_limit_exceeded_count.wrapping_add(1);
        }
        r
    }

    /// Asks for an order.
    pub fn check_order_placement(&mut self) -> (r: RateLimitResult)
        requires
            old(self).wf(),
        ensures
            exists|now: u64| #[trigger]
                old(self).after_check_order(now) == *final(self) && r == old(
                    self,
                ).order_bucket.answer(1, now),
            final(self).wf(),
    {
        let now: u64 = now_ns();
        self.check_order_placement_at(now)
    }

    /// Asks for a raw request at `now`.
    pub fn check_raw_request_at(&mut self, now: u64) -> (r: RateLimitResult)
        requires
            old(self).wf(),
        ensures
            *final(self) == old(self).after_check_raw(now),
            r == old(self).raw_request_bucket.answer(1, now),
            final(self).wf(),
    {
        let r = self.raw_request_bucket.consume_with_wait_at(1, now);
        if r.allowed {
            self.total_requests_today = self.total_requests_today.wrapping_add(1);
        }
        r
    }

    /// Asks for a raw request.
    pub fn check_raw_request(&mut self) -> (r: RateLimitResult)
        requires
            old(self).wf(),
        ensures
            exists|now: u64| #[trigger]
                old(self).after_check_raw(now) == *final(self) && r == old(
                    self,
                ).raw_request_bucket.answer(1, now),
            final(self).wf(),
    {
        let now: u64 = now_ns();
        self.check_raw_request_at(now)
    }

    /// The answer to an order, from the answers of both buckets.
    pub open spec fn pre_order_answer(
        request: RateLimitResult,
        order: RateLimitResult,
    ) -> PreOrderCheckResult {
        PreOrderCheckResult {
            allowed: request.allowed && order.allowed,
            request_wait_ms: if request.allowed { 0 } else { request.wait_time_ms },
            order_wait_ms: if order.allowed { 0 } else { order.wait_time_ms },
            max_wait_ms: if request.wait_time_ms >= order.wait_time_ms {
                request.wait_time_ms
            } else {
                order.wait_time_ms
            },
        }
    }

    /// Asks at `now` for everything that an order needs. What one bucket
    /// grants is spent even where the other refuses.
    pub fn pre_order_check_at(&mut self, request_weight: u64, now: u64) -> (r: PreOrderCheckResult)
        requires
            old(self).wf(),
        ensures
            *final(self) == old(self).after_check_request(request_weight, now).after_check_order(
                now,
            ),
            r == Self::pre_order_answer(
                old(self).request_bucket.answer(request_weight, now),
                old(self).order_bucket.answer(1, now),
            ),
            final(self).wf(),
    {
        let request = self.check_request_at(request_weight, now);
        let order = self.check_order_placement_at(now);
        PreOrderCheckResult {
            allowed: request.allowed && order.allowed,
            request_wait_ms: if request.allowed { 0 } else { request.wait_time_ms },
            order_wait_ms: if order.allowed { 0 } else { order.wait_time_ms },
            max_wait_ms: if request.wait_time_ms >= order.wait_time_ms {
                request.wait_time_ms
            } else {
                order.wait_time_ms
            },
        }
    }

    /// Asks for everything that an order needs.
    pub fn pre_order_check(&mut self, request_weight: u64) -> (r: PreOrderCheckResult)
        requires
            old(self).wf(),
        ensures
            exists|now: u64|
                *final(self) == (#[trigger] old(self).after_check_request(
                    request_weight,
                    now,
                )).after_check_order(now) && r == Self::pre_order_answer(
                    old(self).request_bucket.answer(request_weight, now),
                    old(self).order_bucket.answer(1, now),
                ),
            final(self).wf(),
    {
        let now: u64 = now_ns();
        self.pre_order_check_at(request_weight, now)
    }

    /// Takes request weight, without counting the request.
    pub fn try_request(&mut self, weight: u64) -> (r: bool)
        requires
            old(self).wf(),
        ensures
            exists|now: u64|
                *final(self) == (BinanceRateLimiter {
                    request_bucket: #[trigger] old(self).request_bucket.after_request(weight, now),
                    ..*old(self)
                }) && r == old(self).request_bucket.answer(weight, now).allowed,
            final(self).wf(),
    {
        self.request_bucket.try_consume(weight)
    }

    /// Takes an order token, without counting the order.
    pub fn try_order(&mut self) -> (r: bool)
        requires
            old(self).wf(),
        ensures
            exists|now: u64|
                *final(self) == (BinanceRateLimiter {
                    order_bucket: #[trigger] old(self).order_bucket.after_request(1, now),
                    ..*old(self)
                }) && r == old(self).order_bucket.answer(1, now).allowed,
            final(self).wf(),
    {
        self.order_bucket.try_consume(1)
    }

    /// The limiter's state.
    pub fn get_status(&mut self) -> (r: RateLimitStatus)
        requires
            old(self).wf(),
        ensures
            r.request_tokens == final(self).request_bucket.tokens,
            r.request_capacity == old(self).limits.request_weight_per_min,
            r.order_tokens == final(self).order_bucket.tokens,
            r.order_capacity == old(self).limits.orders_per_second,
            r.raw_tokens == final(self).raw_request_bucket.tokens,
            r.raw_capacity == old(self).limits.raw_requests_per_sec,
            r.total_requests_today == old(self).total_requests_today,
            r.total_orders_today == old(self).total_orders_today,
            r.rate_limit_events == old(self).rate_limit_exceeded_count,
            exists|now: u64|
                final(self).request_bucket == #[trigger] old(self).request_bucket.refilled(now),
            exists|now: u64|
                final(self).order_bucket == #[trigger] old(self).order_bucket.refilled(now),
            exists|now: u64|
                final(self).raw_request_bucket == #[trigger] old(
                    self,
                ).raw_request_bucket.refilled(now),
            *final(self) == (BinanceRateLimiter {
                request_bucket: final(self).request_bucket,
                order_bucket: final(self).order_bucket,
                raw_request_bucket: final(self).raw_request_bucket,
                ..*old(self)
            }),
            final(self).wf(),
    {
        let request_tokens: u64 = self.request_bucket.get_tokens();
        let order_tokens: u64 = self.order_bucket.get_tokens();
        let raw_tokens: u64 = self.raw_request_bucket.get_tokens();
        RateLimitStatus {
            request_tokens,
            request_capacity: self.limits.request_weight_per_min,
            order_tokens,
            order_capacity: self.limits.orders_per_second,
            raw_tokens,
            raw_capacity: self.limits.raw_requests_per_sec,
            total_requests_today: self.total_requests_today,
            total_orders_today: self.total_orders_today,
            rate_limit_events: self.rate_limit_exceeded_count,
        }
    }

    /// Sets the strict mode.
    pub fn set_strict_mode(&mut self, strict: bool)
        ensures
            *final(self) == (BinanceRateLimiter { strict_mode: strict, ..*old(self) }),
    {
        self.strict_mode = strict;
    }

    /// Sets the day's counters to zero.
    pub fn reset_daily_counters(&mut self)
        ensures
            *final(self) == (BinanceRateLimiter {
                total_requests_today: 0,
                total_orders_today: 0,
                rate_limit_exceeded_count: 0,
                ..*old(self)
            }),
    {
        self.total_requests_today = 0;
        self.total_orders_today = 0;
        self.rate_limit_exceeded_count = 0;
    }

    /// Takes new limits, with full buckets.
    pub fn update_limits(&mut self, new_limits: BinanceRateLimits)
        ensures
            final(self).wf(),
            final(self).fresh_buckets(new_limits),
            final(self).strict_mode == old(self).strict_mode,
            final(self).total_requests_today == old(self).total_requests_today,
            final(self).total_orders_today == old(self).total_orders_today,
            final(self).rate_limit_exceeded_count == old(self).rate_limit_exceeded_count,
    {
        self.limits = new_limits;
        self.request_bucket =
        TokenBucket::new(new_limits.request_weight_per_min, new_limits.request_weight_per_min / 60);
        self.order_bucket =
        TokenBucket::new(new_limits.orders_per_second, new_limits.orders_per_second);
        self.raw_request_bucket =
        TokenBucket::new(new_limits.raw_requests_per_sec, new_limits.raw_requests_per_sec);
    }
}

impl Default for BinanceRateLimiter {
    fn default() -> (l: Self)
        ensures
            l.wf(),
            l.request_bucket.tokens == 1200,
            l.order_bucket.tokens == 10,
            l.raw_request_bucket.tokens == 50,
            l.limits.request_weight_per_min == 1200,
            l.limits.orders_per_second == 10,
            l.limits.raw_requests_per_sec == 50,
            l.fresh_buckets(l.limits),
            l.strict_mode,
            l.total_requests_today == 0,
            l.total_orders_today == 0,
            l.rate_limit_exceeded_count == 0,
    {
        BinanceRateLimiter::new(BinanceRateLimits::default())
    }
}

} // verus!
