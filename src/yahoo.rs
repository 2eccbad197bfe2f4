use vstd::prelude::*;
use crate::bar::{DataSource, MarketData};
use crate::decimal::SCALE;

verus! {

/// The listed-equities feed's name for a ticker: the ticker and `.US`.
pub fn yahoo_symbol(symbol: &str) -> (r: String)
    ensures
        r@ == symbol@ + ".US"@,
{
    let mut s = String::from_str(symbol);
    s.append(".US");
    s
}

/// Thirty days in seconds.
pub const DEFAULT_SPAN_SECS: i64 = 2_592_000;

/// The window of a quote-history request in epoch seconds: it ends at `end`,
/// or now, and starts at `start`, or thirty days before now.
pub fn history_window(start: Option<i64>, end: Option<i64>, now: i64) -> (r: (i64, i64))
    requires
        start is None ==> now >= i64::MIN + DEFAULT_SPAN_SECS,
    ensures
        r.0 == (match start {
            Some(s) => s as int,
            None => now - DEFAULT_SPAN_SECS,
        }),
        r.1 == (match end {
            Some(e) => e,
            None => now,
        }),
{
    let s = match start {
        Some(s) => s,
        None => now - DEFAULT_SPAN_SECS,
    };
    let e = match end {
        Some(e) => e,
        None => now,
    };
    (s, e)
}

/// A share count as an amount in units of 10^-8, capped at `u64::MAX`.
pub open spec fn shares_amount(shares: nat) -> nat {
    if shares * SCALE <= u64::MAX {
        shares * SCALE as nat
    } else {
        u64::MAX as nat
    }
}

/// The bar of one quote of the feed, under the feed's name for the ticker.
/// Prices come as amounts; the volume is a share count.
pub fn convert_quote(
    symbol: &str,
    timestamp: u64,
    open: u64,
    high: u64,
    low: u64,
    close: u64,
    volume: u64,
) -> (r: MarketData)
    requires
        timestamp <= i64::MAX,
    ensures
        r.symbol@ == symbol@,
        r.timestamp == timestamp,
        r.open == open && r.high == high && r.low == low && r.close == close,
        r.volume == shares_amount(volume as nat),
        r.source == DataSource::Yahoo,
{
    assert((volume as u128) * (SCALE as u128) <= (u64::MAX as u128) * (SCALE as u128)) by (nonlinear_arith)
        requires volume <= u64::MAX;
    let v = (volume as u128) * (SCALE as u128);
    let volume_amount = if v <= u64::MAX as u128 {
        v as u64
    } else {
        u64::MAX
    };
    MarketData {
        symbol: String::from_str(symbol),
        timestamp: timestamp as i64,
        open,
        high,
        low,
        close,
        volume: volume_amount,
        source: DataSource::Yahoo,
    }
}

} // verus!
