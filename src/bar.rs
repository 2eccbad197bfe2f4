use vstd::prelude::*;

verus! {

/// Where a bar came from.
#[derive(Debug, Clone, Copy, PartialEq, Eq, Structural, Hash)]
pub enum DataSource {
    Local,
    Yahoo,
    YahooFinance,
    Crypto,
    Binance,
}

/// One OHLCV sample of a symbol. The timestamp is in seconds since the Unix
/// epoch (UTC); prices and volume are amounts in units of 10^-8.
#[derive(Debug, Clone, PartialEq, Eq)]
pub struct MarketData {
    pub symbol: String,
    pub timestamp: i64,
    pub open: u64,
    pub high: u64,
    pub low: u64,
    pub close: u64,
    pub volume: u64,
    pub source: DataSource,
}

/// Bar spacing that a request may ask for.
#[derive(Debug, Clone, Copy, PartialEq, Eq, Structural)]
pub enum DataInterval {
    OneMinute,
    FiveMinutes,
    FifteenMinutes,
    ThirtyMinutes,
    OneHour,
    FourHours,
    OneDay,
    OneWeek,
    OneMonth,
}

/// What a data request asks for; times are epoch seconds.
#[derive(Debug, Clone)]
pub struct DataRequest {
    pub symbol: String,
    pub interval: DataInterval,
    pub start_time: Option<i64>,
    pub end_time: Option<i64>,
    pub source: DataSource,
}

/// How data is fetched by default; the cache lifetime is in seconds.
#[derive(Debug, Clone)]
pub struct DataConfig {
    pub default_source: DataSource,
    pub cache_enabled: bool,
    pub cache_ttl_secs: i64,
    pub api_key: Option<String>,
    pub api_secret: Option<String>,
}

/// The failures of a fetch.
#[derive(Debug, Clone, PartialEq, Eq)]
pub enum FetchError {
    /// The backend does not know the symbol.
    NotFound(String),
    /// A non-success answer, a body that could not be read, or a failed transport.
    UpstreamError(String),
    /// The backend reported that its request quota is used up.
    RateLimited,
    /// The local store could not be read.
    LocalStorageError(String),
}

/// A bar is fit for display when its close is positive (a volume is never negative).
pub open spec fn valid_bar(d: MarketData) -> bool {
    d.close > 0
}

/// Whether a bar is fit for display.
pub fn is_valid_data(data: &MarketData) -> (r: bool)
    ensures
        r == valid_bar(*data),
{
    data.close > 0
}

/// `a / b` rounded to the nearest integer, halves rounded up.
pub open spec fn rounded_div(a: int, b: int) -> int {
    (2 * a + b) / (2 * b)
}

/// The change from the first close to the last, in hundredths of a percent,
/// rounded to the nearest with halves away from zero.
pub open spec fn price_change(first: int, last: int) -> int {
    if last >= first {
        rounded_div((last - first) * 10000, first)
    } else {
        -rounded_div((first - last) * 10000, first)
    }
}

/// The change of close from the first bar to the last in hundredths of a
/// percent (`Some(500)` for +5%); `None` for fewer than two bars or a first
/// close of zero.
pub fn calculate_price_change(data: &Vec<MarketData>) -> (r: Option<i128>)
    ensures
        data@.len() < 2 || data@[0].close == 0 ==> r is None,
        data@.len() >= 2 && data@[0].close > 0 ==> r == Some(
            price_change(data@[0].close as int, data@.last().close as int) as i128,
        ),
{
    if data.len() < 2 {
        return None;
    }
    let first = data[0].close as u128;
    let last = data[data.len() - 1].close as u128;
    if first == 0 {
        return None;
    }
    if last >= first {
        let n = 2 * ((last - first) * 10000) + first;
        let q = n / (2 * first);
        proof {
            vstd::arithmetic::div_mod::lemma_div_is_ordered_by_denominator(n as int, 1, 2 * first as int);
        }
        Some(q as i128)
    } else {
        let n = 2 * ((first - last) * 10000) + first;
        let q = n / (2 * first);
        proof {
            vstd::arithmetic::div_mod::lemma_div_is_ordered_by_denominator(n as int, 1, 2 * first as int);
        }
        Some(0 - (q as i128))
    }
}

/// Seconds in a day.
pub const SECS_PER_DAY: i64 = 86_400;

/// `a / b` rounded toward zero.
pub open spec fn trunc_div(a: int, b: int) -> int {
    if a >= 0 {
        a / b
    } else {
        -((-a) / b)
    }
}

/// The whole days of a request window: it ends at `end`, or now, and starts
/// at `start`, or thirty days before its end. Times are epoch seconds.
pub open spec fn window_days(start: Option<i64>, end: Option<i64>, now: i64) -> int {
    let e = match end {
        Some(e) => e as int,
        None => now as int,
    };
    let s = match start {
        Some(s) => s as int,
        None => e - 30 * SECS_PER_DAY,
    };
    trunc_div(e - s, SECS_PER_DAY as int)
}

/// The whole days of a request window (see `window_days`).
pub fn requested_days(start: Option<i64>, end: Option<i64>, now: i64) -> (r: i64)
    ensures
        r == window_days(start, end, now),
{
    let e: i128 = match end {
        Some(e) => e as i128,
        None => now as i128,
    };
    let s: i128 = match start {
        Some(s) => s as i128,
        None => e - 30 * (SECS_PER_DAY as i128),
    };
    let span = e - s;
    let d: i128 = if span >= 0 {
        span / (SECS_PER_DAY as i128)
    } else {
        0 - ((0 - span) / (SECS_PER_DAY as i128))
    };
    d as i64
}

} // verus!
