//! Endpoints behind a rate limit.

use vstd::prelude::*;
use crate::base::clock::now_ns;
use crate::base::table::Table;
use crate::base::text::views;

verus! {

/// How many requests are let through.
#[derive(Debug, Clone, Copy, PartialEq, Eq, Structural)]
pub struct RateLimitConfig {
    pub requests_per_second: u64,
    pub burst_size: u64,
}

impl Default for RateLimitConfig {
    fn default() -> (c: Self)
        ensures
            c == (RateLimitConfig { requests_per_second: 100, burst_size: 200 }),
    {
        RateLimitConfig { requests_per_second: 100, burst_size: 200 }
    }
}

/// Tokens that requests consume, refilled as time passes.
#[derive(Debug, Clone, Copy, PartialEq, Eq, Structural)]
pub struct TokenBucket {
    pub tokens: u64,
    /// In nanoseconds.
    pub last_refill: u64,
    pub config: RateLimitConfig,
}

impl TokenBucket {
    /// There are never more tokens than a burst.
    pub open spec fn wf(&self) -> bool {
        self.tokens <= self.config.burst_size
    }

    /// The whole tokens that have come in since the last refill.
    pub open spec fn earned(self, now: u64) -> int {
        if now >= self.last_refill {
            (now - self.last_refill) * self.config.requests_per_second / 1_000_000_000
        } else {
            0
        }
    }

    /// The bucket refilled at `now`; where no whole token has come in, the time
    /// goes on counting.
    pub open spec fn refilled(self, now: u64) -> Self {
        if self.earned(now) > 0 {
            TokenBucket {
                tokens: if self.tokens + self.earned(now) < self.config.burst_size {
                    (self.tokens + self.earned(now)) as u64
                } else {
                    self.config.burst_size
                },
                last_refill: now,
                ..self
            }
        } else {
            self
        }
    }

    /// Whether a token can be consumed at `now`.
    pub open spec fn admits(self, now: u64) -> bool {
        self.refilled(now).tokens > 0
    }

    /// The bucket once a request came at `now`.
    pub open spec fn after_request(self, now: u64) -> Self {
        if self.admits(now) {
            TokenBucket { tokens: (self.refilled(now).tokens - 1) as u64, ..self.refilled(now) }
        } else {
            self.refilled(now)
        }
    }

    /// A full bucket, made at `now`.
    pub fn new_at(config: RateLimitConfig, now: u64) -> (b: Self)
        ensures
            b.wf(),
            b == (TokenBucket { tokens: config.burst_size, last_refill: now, config }),
    {
        TokenBucket { tokens: config.burst_size, last_refill: now, config }
    }

    /// A full bucket.
    pub fn new(config: RateLimitConfig) -> (b: Self)
        ensures
            b.wf(),
            b == (TokenBucket {
                tokens: config.burst_size,
                last_refill: b.last_refill,
                config,
            }),
    {
        let now: u64 = now_ns();
        Self::new_at(config, now)
    }

    /// Consumes a token at `now`, where there is one.
    pub fn try_consume_at(&mut self, now: u64) -> (r: bool)
        requires
            old(self).wf(),
        ensures
            final(self).wf(),
            r == old(self).admits(now),
            *final(self) == old(self).after_request(now),
    {
        let elapsed: u128 = now.saturating_sub(self.last_refill) as u128;
        let rate: u128 = self.config.requests_per_second as u128;
        assert(0 <= elapsed * rate <= 0xffff_ffff_ffff_ffff * 0xffff_ffff_ffff_ffff)
            by (nonlinear_arith)
            requires
                elapsed <= 0xffff_ffff_ffff_ffff,
                rate <= 0xffff_ffff_ffff_ffff,
        ;
        assert(0 * rate == 0) by (nonlinear_arith);
        let earned: u128 = elapsed * rate / 1_000_000_000;
        if earned > 0 {
            let sum: u128 = self.tokens as u128 + earned;
            self.tokens =
            if sum < self.config.burst_size as u128 {
                sum as u64
            } else {
                self.config.burst_size
            };
            self.last_refill = now;
        }
        if self.tokens > 0 {
            self.tokens = self.tokens - 1;
            true
        } else {
            false
        }
    }

    /// Consumes a token, where there is one.
    pub fn try_consume(&mut self) -> (r: bool)
        requires
            old(self).wf(),
        ensures
            final(self).wf(),
            exists|now: u64| #[trigger]
                old(self).admits(now) == r && *final(self) == old(self).after_request(now),
    {
        let now: u64 = now_ns();
        self.try_consume_at(now)
    }
}

/// While no time passes, a bucket lets a request through for each token.
pub proof fn law_burst(b: TokenBucket)
    requires
        b.wf(),
    ensures
        b.admits(b.last_refill) <==> b.tokens > 0,
        b.tokens > 0 ==> b.after_request(b.last_refill).tokens == b.tokens - 1,
{
    assert(0 * b.config.requests_per_second == 0) by (nonlinear_arith);
}

/// A bucket once requests came at some times.
pub open spec fn after_requests(b: TokenBucket, times: Seq<u64>) -> TokenBucket
    decreases times.len(),
{
    if times.len() == 0 {
        b
    } else {
        after_requests(b, times.drop_last()).after_request(times.last())
    }
}

/// How many requests that came at some times were let through.
pub open spec fn admitted(b: TokenBucket, times: Seq<u64>) -> nat
    decreases times.len(),
{
    if times.len() == 0 {
        0
    } else if after_requests(b, times.drop_last()).admits(times.last()) {
        admitted(b, times.drop_last()) + 1
    } else {
        admitted(b, times.drop_last())
    }
}

/// Whatever the requests, a bucket lets no more of them through than it had
/// tokens and than came in at its rate up to the latest of them.
pub proof fn law_rate_never_exceeded(b: TokenBucket, times: Seq<u64>, until: u64)
    requires
        b.wf(),
        b.last_refill <= until,
        forall|i: int| 0 <= i < times.len() ==> #[trigger] times[i] <= until,
    ensures
        admitted(b, times) * 1_000_000_000 <= b.tokens * 1_000_000_000 + (until - b.last_refill)
            * b.config.requests_per_second,
{
    lemma_tokens_accounted(b, times, until);
    let rate = b.config.requests_per_second as int;
    let last = after_requests(b, times).last_refill as int;
    assert((last - b.last_refill) * rate <= (until - b.last_refill) * rate) by (nonlinear_arith)
        requires
            last <= until,
            rate >= 0,
    ;
}

proof fn lemma_tokens_accounted(b: TokenBucket, times: Seq<u64>, until: u64)
    requires
        b.wf(),
        b.last_refill <= until,
        forall|i: int| 0 <= i < times.len() ==> #[trigger] times[i] <= until,
    ensures
        ({
            let after = after_requests(b, times);
            &&& after.wf()
            &&& after.config == b.config
            &&& b.last_refill <= after.last_refill <= until
            &&& (admitted(b, times) + after.tokens) * 1_000_000_000 <= b.tokens * 1_000_000_000 + (
            after.last_refill - b.last_refill) * b.config.requests_per_second
        }),
    decreases times.len(),
{
    let rate = b.config.requests_per_second as int;
    if times.len() == 0 {
        assert(0 * rate == 0) by (nonlinear_arith);
    } else {
        assert forall|i: int| 0 <= i < times.drop_last().len() implies #[trigger] times.drop_last()[i]
            <= until by {
            assert(times.drop_last()[i] == times[i]);
        }
        lemma_tokens_accounted(b, times.drop_last(), until);
        let before = after_requests(b, times.drop_last());
        let now = times.last();
        assert(times.last() == times[times.len() - 1]);
        if before.earned(now) > 0 {
            let a = before.last_refill - b.last_refill;
            let e = now - before.last_refill;
            assert((a + e) * rate == a * rate + e * rate) by (nonlinear_arith);
            assert(before.earned(now) * 1_000_000_000 <= e * rate);
        }
    }
}

/// HTTP methods.
#[derive(Debug, Clone, Copy, PartialEq, Eq, Structural)]
pub enum HttpMethod {
    GET,
    POST,
    PUT,
    DELETE,
}

/// The name of a method.
pub open spec fn method_name(method: HttpMethod) -> Seq<char> {
    match method {
        HttpMethod::GET => "GET"@,
        HttpMethod::POST => "POST"@,
        HttpMethod::PUT => "PUT"@,
        HttpMethod::DELETE => "DELETE"@,
    }
}

fn method_as_str(method: HttpMethod) -> (s: &'static str)
    ensures
        s@ == method_name(method),
{
    match method {
        HttpMethod::GET => "GET",
        HttpMethod::POST => "POST",
        HttpMethod::PUT => "PUT",
        HttpMethod::DELETE => "DELETE",
    }
}

/// The key of an endpoint.
pub open spec fn endpoint_key(method: HttpMethod, path: Seq<char>) -> Seq<char> {
    method_name(method) + ":"@ + path
}

fn key_of(method: HttpMethod, path: &str) -> (s: String)
    ensures
        s@ == endpoint_key(method, path@),
{
    let mut s: String = method_as_str(method).to_string();
    s.push_str(":");
    s.push_str(path);
    s
}

/// Endpoints of different methods or paths have different keys.
pub proof fn law_keys_distinct(a: HttpMethod, p: Seq<char>, b: HttpMethod, q: Seq<char>)
    requires
        endpoint_key(a, p) == endpoint_key(b, q),
    ensures
        a == b,
        p == q,
{
    reveal_strlit("GET");
    reveal_strlit("POST");
    reveal_strlit("PUT");
    reveal_strlit("DELETE");
    reveal_strlit(":");
    let x = endpoint_key(a, p);
    let y = endpoint_key(b, q);
    assert(x[0] == y[0] && x[1] == y[1]);
    assert(x[0] == method_name(a)[0] && x[1] == method_name(a)[1]);
    assert(y[0] == method_name(b)[0] && y[1] == method_name(b)[1]);
    assert(a == b);
    let n = method_name(a).len() + 1;
    assert(p =~= x.skip(n as int));
    assert(q =~= y.skip(n as int));
}

/// An endpoint. Its handler makes the answer out of a request's body.
#[derive(Debug, Clone)]
pub struct ApiEndpoint<H> {
    pub path: String,
    pub method: HttpMethod,
    pub handler: H,
    pub requires_auth: bool,
}

/// A response.
#[derive(Debug, Clone)]
pub struct ApiResponse {
    pub status_code: u16,
    pub body: String,
    pub content_type: String,
}

impl ApiResponse {
    /// Whether this is the error response with a status and a message.
    pub open spec fn is_error(self, status: u16, message: Seq<char>) -> bool {
        &&& self.status_code == status
        &&& self.body@ == "{\"error\":\""@ + message + "\"}"@
        &&& self.content_type@ == "application/json"@
    }

    /// A success.
    pub fn ok(body: String) -> (r: Self)
        ensures
            r.status_code == 200,
            r.body == body,
            r.content_type@ == "application/json"@,
    {
        ApiResponse { status_code: 200, body, content_type: "application/json".to_string() }
    }

    /// An error, with its message as given.
    pub fn error(status: u16, message: String) -> (r: Self)
        ensures
            r.is_error(status, message@),
    {
        let mut body: String = "{\"error\":\"".to_string();
        body.push_str(message.as_str());
        body.push_str("\"}");
        ApiResponse { status_code: status, body, content_type: "application/json".to_string() }
    }
}

/// Where and how a server listens.
#[derive(Debug, Clone)]
pub struct RestServerConfig {
    pub host: String,
    pub port: u16,
    pub cors_allowed_origins: Vec<String>,
    pub rate_limit: RateLimitConfig,
    pub enable_tls: bool,
}

impl Default for RestServerConfig {
    fn default() -> (c: Self)
        ensures
            c.host@ == "127.0.0.1"@,
            c.port == 8080,
            views(c.cors_allowed_origins@) == seq!["http://localhost:3000"@],
            c.rate_limit == (RateLimitConfig { requests_per_second: 100, burst_size: 200 }),
            !c.enable_tls,
    {
        let mut cors_allowed_origins: Vec<String> = Vec::new();
        cors_allowed_origins.push("http://localhost:3000".to_string());
        assert(views(cors_allowed_origins@) =~= seq!["http://localhost:3000"@]);
        RestServerConfig {
            host: "127.0.0.1".to_string(),
            port: 8080,
            cors_allowed_origins,
            rate_limit: RateLimitConfig::default(),
            enable_tls: false,
        }
    }
}

/// Counters of a server.
#[derive(Debug, Clone, Copy, PartialEq, Eq, Structural)]
pub struct RestServerStats {
    pub is_running: bool,
    pub request_count: u64,
    pub rejected_count: u64,
    pub endpoint_count: usize,
}

/// Routes requests to endpoints.
pub struct RestApiServer<H> {
    pub config: RestServerConfig,
    pub endpoints: Table<ApiEndpoint<H>>,
    pub rate_limiter: TokenBucket,
    pub running: bool,
    pub request_count: u64,
    pub rejected_count: u64,
}

impl<H> RestApiServer<H> {
    /// The rate limit and the table of endpoints hold what they promise.
    pub open spec fn wf(&self) -> bool {
        self.rate_limiter.wf() && self.endpoints.wf()
    }

    /// A stopped server without endpoints, made at `now`.
    pub fn new_at(config: RestServerConfig, now: u64) -> (s: Self)
        ensures
            s.wf(),
            s.config == config,
            s.endpoints@ == Map::<Seq<char>, ApiEndpoint<H>>::empty(),
            s.endpoints.entries@.len() == 0,
            s.rate_limiter == (TokenBucket {
                tokens: config.rate_limit.burst_size,
                last_refill: now,
                config: config.rate_limit,
            }),
            !s.running,
            s.request_count == 0,
            s.rejected_count == 0,
    {
        let rate_limiter = TokenBucket::new_at(config.rate_limit, now);
        RestApiServer {
            config,
            endpoints: Table::new(),
            rate_limiter,
            running: false,
            request_count: 0,
            rejected_count: 0,
        }
    }

    /// A stopped server without endpoints.
    pub fn new(config: RestServerConfig) -> (s: Self)
        ensures
            s.wf(),
            s.config == config,
            s.endpoints@ == Map::<Seq<char>, ApiEndpoint<H>>::empty(),
            s.endpoints.entries@.len() == 0,
            s.rate_limiter == (TokenBucket {
                tokens: config.rate_limit.burst_size,
                last_refill: s.rate_limiter.last_refill,
                config: config.rate_limit,
            }),
            !s.running,
            s.request_count == 0,
            s.rejected_count == 0,
    {
        let now: u64 = now_ns();
        Self::new_at(config, now)
    }

    /// Adds an endpoint, in place of one with the same method and path.
    pub fn register_endpoint(
        &mut self,
        path: &str,
        method: HttpMethod,
        handler: H,
        requires_auth: bool,
    )
        requires
            old(self).wf(),
        ensures
            final(self).wf(),
            exists|e: ApiEndpoint<H>|
                #![trigger old(self).endpoints@.insert(endpoint_key(method, path@), e)]
                e.path@ == path@ && e.method == method && e.handler == handler && e.requires_auth
                    == requires_auth && final(self).endpoints@ == old(self).endpoints@.insert(
                    endpoint_key(method, path@),
                    e,
                ),
            final(self).endpoints.entries@.len() == old(self).endpoints.entries@.len() + (if old(
                self,
            ).endpoints@.contains_key(endpoint_key(method, path@)) {
                0int
            } else {
                1
            }),
            final(self).config == old(self).config,
            final(self).rate_limiter == old(self).rate_limiter,
            final(self).running == old(self).running,
            final(self).request_count == old(self).request_count,
            final(self).rejected_count == old(self).rejected_count,
    {
        let key: String = key_of(method, path);
        let endpoint = ApiEndpoint { path: path.to_string(), method, handler, requires_auth };
        let ghost e = endpoint;
        let _ = self.endpoints.insert(key, endpoint);
        assert(self.endpoints@ == old(self).endpoints@.insert(endpoint_key(method, path@), e));
    }

    /// Starts the server.
    pub fn start(&mut self)
        ensures
            *final(self) == (RestApiServer { running: true, ..*old(self) }),
    {
        self.running = true;
    }

    /// Stops the server.
    pub fn stop(&mut self)
        ensures
            *final(self) == (RestApiServer { running: false, ..*old(self) }),
    {
        self.running = false;
    }

    /// The counters.
    pub fn get_stats(&self) -> (r: RestServerStats)
        ensures
            r == (RestServerStats {
                is_running: self.running,
                request_count: self.request_count,
                rejected_count: self.rejected_count,
                endpoint_count: self.endpoints.entries@.len() as usize,
            }),
    {
        RestServerStats {
            is_running: self.running,
            request_count: self.request_count,
            rejected_count: self.rejected_count,
            endpoint_count: self.endpoints.len(),
        }
    }
}

impl<H> RestApiServer<H> {
    /// Whether the endpoint for a request, where there is one, takes a body.
    pub open spec fn takes(&self, method: HttpMethod, path: Seq<char>, body: &str) -> bool where
        H: Fn(&str) -> ApiResponse,
     {
        self.endpoints@.contains_key(endpoint_key(method, path)) ==> call_requires(
            self.endpoints@[endpoint_key(method, path)].handler,
            (body,),
        )
    }

    /// Whether `r` answers a request made at `now`: it is refused where the rate
    /// limit is exceeded or there is no such endpoint, and otherwise the
    /// endpoint's handler answers it.
    pub open spec fn answered(
        &self,
        method: HttpMethod,
        path: Seq<char>,
        body: &str,
        now: u64,
        r: ApiResponse,
    ) -> bool where H: Fn(&str) -> ApiResponse {
        if !self.rate_limiter.admits(now) {
            r.is_error(429, "Rate limit exceeded"@)
        } else if !self.endpoints@.contains_key(endpoint_key(method, path)) {
            r.is_error(404, "Endpoint not found: "@ + path)
        } else {
            call_ensures(self.endpoints@[endpoint_key(method, path)].handler, (body,), r)
        }
    }

    /// Whether `after` is the server once a request was made at `now`.
    pub open spec fn counted(&self, after: &Self, now: u64) -> bool {
        &&& after.wf()
        &&& after.rate_limiter == self.rate_limiter.after_request(now)
        &&& after.request_count == self.request_count.wrapping_add(1)
        &&& after.rejected_count == (if self.rate_limiter.admits(now) {
            self.rejected_count
        } else {
            self.rejected_count.wrapping_add(1)
        })
        &&& after.config == self.config
        &&& after.endpoints == self.endpoints
        &&& after.running == self.running
    }

    /// Answers a request made at `now`.
    pub fn handle_request_at(&mut self, method: HttpMethod, path: &str, body: &str, now: u64) -> (r:
        ApiResponse) where H: Fn(&str) -> ApiResponse
        requires
            old(self).wf(),
            old(self).takes(method, path@, body),
        ensures
            old(self).counted(final(self), now),
            old(self).answered(method, path@, body, now, r),
    {
        self.request_count = self.request_count.wrapping_add(1);
        if !self.rate_limiter.try_consume_at(now) {
            self.rejected_count = self.rejected_count.wrapping_add(1);
            return ApiResponse::error(429, "Rate limit exceeded".to_string());
        }
        let key: String = key_of(method, path);
        match self.endpoints.get(key.as_str()) {
            Some(endpoint) => (endpoint.handler)(body),
            None => {
                let mut message: String = "Endpoint not found: ".to_string();
                message.push_str(path);
                ApiResponse::error(404, message)
            },
        }
    }

    /// Answers a request.
    pub fn handle_request(&mut self, method: HttpMethod, path: &str, body: &str) -> (r:
        ApiResponse) where H: Fn(&str) -> ApiResponse
        requires
            old(self).wf(),
            old(self).takes(method, path@, body),
        ensures
            exists|now: u64|
                old(self).counted(final(self), now) && #[trigger] old(self).answered(
                    method,
                    path@,
                    body,
                    now,
                    r,
                ),
    {
        let now: u64 = now_ns();
        self.handle_request_at(method, path, body, now)
    }
}

impl<H> Default for RestApiServer<H> {
    fn default() -> (s: Self)
        ensures
            s.wf(),
            s.endpoints@ == Map::<Seq<char>, ApiEndpoint<H>>::empty(),
            s.endpoints.entries@.len() == 0,
            s.config.host@ == "127.0.0.1"@,
            s.config.port == 8080,
            views(s.config.cors_allowed_origins@) == seq!["http://localhost:3000"@],
            s.config.rate_limit == (RateLimitConfig { requests_per_second: 100, burst_size: 200 }),
            !s.config.enable_tls,
            s.rate_limiter.config == s.config.rate_limit,
            s.rate_limiter.tokens == 200,
            !s.running,
            s.request_count == 0,
            s.rejected_count == 0,
    {
        RestApiServer::new(RestServerConfig::default())
    }
}

} // verus!
