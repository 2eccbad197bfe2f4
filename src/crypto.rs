use vstd::prelude::*;
use crate::bar::{FetchError, MarketData};
use crate::decimal::{format_int, int_text};
use crate::ratelimit::{issue_time, max_int, RateLimiter, MIN_REQUEST_INTERVAL_MS, PENALTY_MS};
use crate::synth::{synthesize_bars, synthesized_series, MAX_SYNTH_PRICE};
use crate::text::{joined, same_text, to_upper, upper_of};

verus! {

/// The aggregator's coin id for an upper-case ticker, for the tickers it serves.
pub open spec fn coin_of(upper: Seq<char>) -> Option<Seq<char>> {
    if upper == "BTC"@ {
        Some("bitcoin"@)
    } else if upper == "ETH"@ {
        Some("ethereum"@)
    } else if upper == "BNB"@ {
        Some("binancecoin"@)
    } else if upper == "SOL"@ {
        Some("solana"@)
    } else if upper == "ADA"@ {
        Some("cardano"@)
    } else if upper == "DOT"@ {
        Some("polkadot"@)
    } else if upper == "DOGE"@ {
        Some("dogecoin"@)
    } else if upper == "XRP"@ {
        Some("ripple"@)
    } else {
        None
    }
}

/// The market-chart address for `days` of daily prices of a coin.
pub open spec fn chart_url(id: Seq<char>, days: int) -> Seq<char> {
    "https://api.coingecko.com/api/v3/coins/"@ + id + "/market_chart?vs_currency=usd&days="@
        + int_text(days) + "&interval=daily"@
}

pub open spec fn is_success(status: u16) -> bool {
    200 <= status <= 299
}

/// A failed answer that reports the request quota used up: status 429, or an
/// error code 429 in its body.
pub open spec fn is_quota_exceeded(status: u16, error_code: Option<u32>) -> bool {
    !is_success(status) && (status == 429 || error_code == Some(429u32))
}

/// Whether every price of a series can be synthesized into a bar.
pub open spec fn prices_in_range(points: Seq<(i64, u64)>) -> bool {
    forall|i: int| 0 <= i < points.len() ==> (#[trigger] points[i]).1 <= MAX_SYNTH_PRICE
}

/// One request that the provider has cleared: where to send it, and how long
/// to wait first.
#[derive(Debug)]
pub struct FetchPlan {
    pub url: String,
    pub wait_ms: u64,
}

/// The aggregator's coin id for an upper-case ticker (`"BTC"` is `"bitcoin"`).
pub fn coin_id(upper: &str) -> (r: Option<&'static str>)
    ensures
        match r {
            Some(id) => coin_of(upper@) == Some(id@),
            None => coin_of(upper@) is None,
        },
{
    if same_text(upper, "BTC") {
        Some("bitcoin")
    } else if same_text(upper, "ETH") {
        Some("ethereum")
    } else if same_text(upper, "BNB") {
        Some("binancecoin")
    } else if same_text(upper, "SOL") {
        Some("solana")
    } else if same_text(upper, "ADA") {
        Some("cardano")
    } else if same_text(upper, "DOT") {
        Some("polkadot")
    } else if same_text(upper, "DOGE") {
        Some("dogecoin")
    } else if same_text(upper, "XRP") {
        Some("ripple")
    } else {
        None
    }
}

/// The market-chart address for `days` of daily prices of coin `id`.
pub fn market_chart_url(id: &str, days: i64) -> (r: String)
    ensures
        r@ == chart_url(id@, days as int),
{
    let mut s = joined("https://api.coingecko.com/api/v3/coins/", id);
    s.append("/market_chart?vs_currency=usd&days=");
    let d = format_int(days);
    s.append(d.as_str());
    s.append("&interval=daily");
    s
}

/// The last bar of a series, the latest one.
pub fn latest_of(bars: Vec<MarketData>) -> (r: Result<MarketData, FetchError>)
    ensures
        bars@.len() == 0 ==> r matches Err(FetchError::UpstreamError(_)),
        bars@.len() > 0 ==> r == Ok::<MarketData, FetchError>(bars@.last()),
{
    let mut bars = bars;
    match bars.pop() {
        Some(b) => Ok(b),
        None => Err(FetchError::UpstreamError(String::from_str("no data available"))),
    }
}

/// Whether every price of a series can be synthesized into a bar.
fn prices_fit(ps: &Vec<(i64, u64)>) -> (r: bool)
    ensures
        r == prices_in_range(ps@),
{
    let mut i: usize = 0;
    while i < ps.len()
        invariant
            i <= ps@.len(),
            forall|k: int| 0 <= k < i ==> (#[trigger] ps@[k]).1 <= MAX_SYNTH_PRICE,
        decreases ps@.len() - i,
    {
        if ps[i].1 > MAX_SYNTH_PRICE {
            assert(ps@[i as int].1 > MAX_SYNTH_PRICE);
            return false;
        }
        i = i + 1;
    }
    true
}

/// The provider over the aggregator's REST interface, whose public tier allows
/// ten requests a minute. It owns the rate limiter that all its requests share.
pub struct CryptoDataProvider {
    pub limiter: RateLimiter,
}

impl CryptoDataProvider {
    /// A provider whose request clock starts at `now_ms`.
    pub fn new(now_ms: u64) -> (r: CryptoDataProvider)
        ensures
            r.limiter == (RateLimiter {
                last_request_ms: now_ms,
                min_interval_ms: MIN_REQUEST_INTERVAL_MS,
                resume_at_ms: 0,
            }),
    {
        CryptoDataProvider { limiter: RateLimiter::new(now_ms, MIN_REQUEST_INTERVAL_MS) }
    }

    /// Clears a request for `days` of prices of `symbol`, asked for at `now_ms`.
    /// A ticker the aggregator does not serve fails with `NotFound` at once:
    /// no slot is taken and nothing is to be sent. Otherwise the request takes
    /// the next slot of the limiter and the plan says how long to wait.
    pub fn begin_fetch(&mut self, symbol: &str, days: i64, now_ms: u64) -> (r: Result<FetchPlan, FetchError>)
        requires
            old(self).limiter.last_request_ms + old(self).limiter.min_interval_ms <= u64::MAX,
        ensures
            coin_of(upper_of(symbol@)) is None ==> {
                &&& r matches Err(FetchError::NotFound(_))
                &&& final(self).limiter == old(self).limiter
            },
            coin_of(upper_of(symbol@)) matches Some(id) ==> {
                &&& r matches Ok(plan)
                &&& plan.url@ == chart_url(id, days as int)
                &&& final(self).limiter.last_request_ms == issue_time(
                    old(self).limiter.last_request_ms as int,
                    old(self).limiter.min_interval_ms as int,
                    old(self).limiter.resume_at_ms as int,
                    now_ms as int,
                )
                &&& final(self).limiter.min_interval_ms == old(self).limiter.min_interval_ms
                &&& final(self).limiter.resume_at_ms == old(self).limiter.resume_at_ms
                &&& plan.wait_ms == final(self).limiter.last_request_ms - now_ms
            },
    {
        let upper = to_upper(symbol);
        match coin_id(upper.as_str()) {
            None => {
                let msg = joined("unsupported cryptocurrency: ", symbol);
                Err(FetchError::NotFound(msg))
            },
            Some(id) => {
                let wait_ms = self.limiter.acquire(now_ms);
                let url = market_chart_url(id, days);
                Ok(FetchPlan { url, wait_ms })
            },
        }
    }

    /// Turns the answer to a cleared request into bars, at `now_ms`.
    ///
    /// `status` is the HTTP status, `error_code` the code of an error body
    /// where one could be read, and `points` the `(epoch ms, price)` series of
    /// a success body where one could be read. Returns how long the caller
    /// waits before it surfaces the result, and the result. A quota violation
    /// holds the whole provider back for the penalty and fails with
    /// `RateLimited`, never with bars.
    pub fn finish_fetch(
        &mut self,
        symbol: &str,
        status: u16,
        error_code: Option<u32>,
        points: Option<Vec<(i64, u64)>>,
        now_ms: u64,
    ) -> (r: (u64, Result<Vec<MarketData>, FetchError>))
        requires
            now_ms + PENALTY_MS <= u64::MAX,
        ensures
            is_quota_exceeded(status, error_code) ==> {
                &&& r.1 == Err::<Vec<MarketData>, FetchError>(FetchError::RateLimited)
                &&& r.0 >= PENALTY_MS
                &&& final(self).limiter.resume_at_ms == max_int(
                    old(self).limiter.resume_at_ms as int,
                    now_ms + PENALTY_MS,
                )
                &&& r.0 == final(self).limiter.resume_at_ms - now_ms
                &&& final(self).limiter.last_request_ms == old(self).limiter.last_request_ms
                &&& final(self).limiter.min_interval_ms == old(self).limiter.min_interval_ms
            },
            !is_quota_exceeded(status, error_code) ==> r.0 == 0 && final(self).limiter == old(self).limiter,
            !is_success(status) && !is_quota_exceeded(status, error_code) ==> r.1 matches Err(
                FetchError::UpstreamError(_),
            ),
            is_success(status) ==> match points {
                None => r.1 matches Err(FetchError::UpstreamError(_)),
                Some(ps) => if prices_in_range(ps@) {
                    r.1 matches Ok(bars) && synthesized_series(bars@, symbol@, ps@)
                } else {
                    r.1 matches Err(FetchError::UpstreamError(_))
                },
            },
    {
        if !(200 <= status && status <= 299) {
            let quota = status == 429 || match error_code {
                Some(c) => c == 429,
                None => false,
            };
            if quota {
                let wait = self.limiter.penalize(now_ms);
                return (wait, Err(FetchError::RateLimited));
            }
            let mut msg = String::from_str("request failed with status ");
            let code = format_int(status as i64);
            msg.append(code.as_str());
            return (0, Err(FetchError::UpstreamError(msg)));
        }
        match points {
            None => (0, Err(FetchError::UpstreamError(String::from_str("unreadable price series")))),
            Some(ps) => {
                if !prices_fit(&ps) {
                    return (0, Err(FetchError::UpstreamError(String::from_str("price out of range"))));
                }
                let bars = synthesize_bars(symbol, &ps);
                (0, Ok(bars))
            },
        }
    }
}

} // verus!
