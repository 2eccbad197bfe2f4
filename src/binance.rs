use vstd::prelude::*;
use crate::bar::{DataSource, MarketData};
use crate::number::{lenient_amount, read_amount};
use crate::text::{to_upper, upper_of};

verus! {

/// The candle spacing asked for a span of `days`: finer for shorter spans.
pub open spec fn interval_for(days: int) -> Seq<char> {
    if days <= 1 {
        "1m"@
    } else if days <= 7 {
        "15m"@
    } else if days <= 30 {
        "1h"@
    } else {
        "1d"@
    }
}

/// The provider over the hosted exchange's candle interface.
pub struct BinanceDataProvider {}

impl BinanceDataProvider {
    pub fn new() -> (r: BinanceDataProvider) {
        BinanceDataProvider {  }
    }

    /// The exchange's pair for a ticker: upper case, quoted in USDT.
    pub fn convert_symbol(symbol: &str) -> (r: String)
        ensures
            r@ == upper_of(symbol@) + "USDT"@,
    {
        let mut s = to_upper(symbol);
        s.append("USDT");
        s
    }

    /// The candle spacing for a span of `days`.
    pub fn convert_interval(days: i64) -> (r: &'static str)
        ensures
            r@ == interval_for(days as int),
    {
        if days <= 1 {
            "1m"
        } else if days <= 7 {
            "15m"
        } else if days <= 30 {
            "1h"
        } else {
            "1d"
        }
    }

    /// The bar of one candle: its open time in epoch milliseconds and its
    /// decimal fields. A field reads to the nearest 10^-8 whatever its number
    /// of decimals; only a field that is no number counts as zero (and a
    /// negative one, since amounts are not negative).
    pub fn convert_kline(
        symbol: &str,
        open_time_ms: u64,
        open: &str,
        high: &str,
        low: &str,
        close: &str,
        volume: &str,
    ) -> (r: MarketData)
        ensures
            r.symbol@ == symbol@,
            r.timestamp == open_time_ms / 1000,
            r.open == lenient_amount(open@),
            r.high == lenient_amount(high@),
            r.low == lenient_amount(low@),
            r.close == lenient_amount(close@),
            r.volume == lenient_amount(volume@),
            r.source == DataSource::Binance,
    {
        MarketData {
            symbol: String::from_str(symbol),
            timestamp: (open_time_ms / 1000) as i64,
            open: read_amount(open),
            high: read_amount(high),
            low: read_amount(low),
            close: read_amount(close),
            volume: read_amount(volume),
            source: DataSource::Binance,
        }
    }
}

} // verus!
