use vstd::prelude::*;
use rand::Rng;
use crate::bar::{DataSource, MarketData};
use crate::decimal::SCALE;

verus! {

/// A uniform draw is an integer in `0..=DRAW_RANGE`, standing for
/// `draw / DRAW_RANGE` in `[0, 1]`.
pub const DRAW_RANGE: u64 = 1_000_000;

/// The daily volatility, 2%, as `1 / VOLATILITY_DIVISOR` of `DRAW_RANGE`
/// steps: a full draw moves a price by `price / 50`.
pub const VOLATILITY_DIVISOR: u64 = 50_000_000;

/// The volume baseline, one million whole units.
pub const BASE_VOLUME: u64 = 1_000_000;

/// The largest price that the synthesizer can widen by 2% in a `u64`.
pub const MAX_SYNTH_PRICE: u64 = 18_000_000_000_000_000_000;

/// `price * (1 + (u - 0.5) * 2%)`.
pub open spec fn synth_open(price: int, u: int) -> int {
    price * (VOLATILITY_DIVISOR - DRAW_RANGE / 2 + u) / VOLATILITY_DIVISOR as int
}

/// `price * (1 + u * 2%)`.
pub open spec fn synth_high(price: int, u: int) -> int {
    price * (VOLATILITY_DIVISOR + u) / VOLATILITY_DIVISOR as int
}

/// `price * (1 - u * 2%)`.
pub open spec fn synth_low(price: int, u: int) -> int {
    price * (VOLATILITY_DIVISOR - u) / VOLATILITY_DIVISOR as int
}

/// `1,000,000 * (1 + (u - 0.5) * 0.5)` whole units, in units of 10^-8.
pub open spec fn synth_volume(u: int) -> int {
    BASE_VOLUME * SCALE / (2 * DRAW_RANGE) as int * (DRAW_RANGE + DRAW_RANGE / 2 + u)
}

/// Seconds of an epoch time in milliseconds, rounded toward zero.
pub open spec fn millis_to_secs(ms: int) -> int {
    if ms >= 0 {
        ms / 1000
    } else {
        -((-ms) / 1000)
    }
}

/// What holds of every synthesized bar: its close is the price, open, high
/// and low stay within 2% of it, high and low on their side of it, and the
/// volume within half of the baseline either way.
pub open spec fn synth_bounds(d: MarketData, price: int) -> bool {
    &&& d.close == price
    &&& price * 49 / 50 <= d.open <= price * 51 / 50
    &&& price <= d.high <= price * 51 / 50
    &&& price * 49 / 50 <= d.low <= price
    &&& 500_000 * SCALE <= d.volume <= 1_500_000 * SCALE
}

proof fn lemma_cancel_million(a: int)
    requires
        a >= 0,
    ensures
        (1_000_000 * a) / 50_000_000 == a / 50,
{
    vstd::arithmetic::div_mod::lemma_div_multiples_vanish_quotient(1_000_000, a, 50);
}

/// `d` is the bar that `synthesize_bar` makes of a point with these draws.
pub open spec fn bar_from_draws(
    d: MarketData,
    symbol: Seq<char>,
    ms: i64,
    price: u64,
    u_open: int,
    u_high: int,
    u_low: int,
    u_volume: int,
) -> bool {
    &&& 0 <= u_open <= DRAW_RANGE && 0 <= u_high <= DRAW_RANGE
    &&& 0 <= u_low <= DRAW_RANGE && 0 <= u_volume <= DRAW_RANGE
    &&& d.symbol@ == symbol
    &&& d.timestamp == millis_to_secs(ms as int)
    &&& d.close == price
    &&& d.open == synth_open(price as int, u_open)
    &&& d.high == synth_high(price as int, u_high)
    &&& d.low == synth_low(price as int, u_low)
    &&& d.volume == synth_volume(u_volume)
    &&& d.source == DataSource::Crypto
}

/// `d` is the bar of a point for some draws in range.
pub open spec fn synthesized_from(d: MarketData, symbol: Seq<char>, ms: i64, price: u64) -> bool {
    exists|uo: int, uh: int, ul: int, uv: int| #[trigger] bar_from_draws(d, symbol, ms, price, uo, uh, ul, uv)
}

/// `bars` were synthesized from `points`, one for one and in order.
pub open spec fn synthesized_series(bars: Seq<MarketData>, symbol: Seq<char>, points: Seq<(i64, u64)>) -> bool {
    &&& bars.len() == points.len()
    &&& forall|i: int|
        0 <= i < bars.len() ==> {
            &&& (#[trigger] bars[i]).symbol@ == symbol
            &&& bars[i].timestamp == millis_to_secs(points[i].0 as int)
            &&& bars[i].source == DataSource::Crypto
            &&& synth_bounds(bars[i], points[i].1 as int)
            &&& synthesized_from(bars[i], symbol, points[i].0, points[i].1)
        }
}

/// Relies on `rand::Rng::gen_range` over `rand::thread_rng`: a uniform draw
/// from `0..=max`, which is never empty.
#[verifier::external_body]
fn draw_up_to(max: u64) -> (r: u64)
    ensures
        r <= max,
{
    rand::thread_rng().gen_range(0..=max)
}

/// The bar for one `(time, price)` point, with the four uniform draws given:
/// close is the price, open, high, low and volume are the price and the
/// baseline perturbed by the draws.
pub fn synthesize_bar(
    symbol: &str,
    timestamp_ms: i64,
    price: u64,
    u_open: u64,
    u_high: u64,
    u_low: u64,
    u_volume: u64,
) -> (r: MarketData)
    requires
        price <= MAX_SYNTH_PRICE,
        u_open <= DRAW_RANGE,
        u_high <= DRAW_RANGE,
        u_low <= DRAW_RANGE,
        u_volume <= DRAW_RANGE,
    ensures
        r.symbol@ == symbol@,
        r.timestamp == millis_to_secs(timestamp_ms as int),
        r.close == price,
        r.open == synth_open(price as int, u_open as int),
        r.high == synth_high(price as int, u_high as int),
        r.low == synth_low(price as int, u_low as int),
        r.volume == synth_volume(u_volume as int),
        r.source == DataSource::Crypto,
        synth_bounds(r, price as int),
{
    let p = price as u128;
    let d = VOLATILITY_DIVISOR as u128;
    proof {
        assert(p * 51_000_000 <= 18_000_000_000_000_000_000u128 * 51_000_000) by (nonlinear_arith)
            requires p <= 18_000_000_000_000_000_000u128;
        let pi = price as int;
        lemma_cancel_million(pi * 49);
        lemma_cancel_million(pi * 51);
        assert(1_000_000 * (pi * 49) == pi * 49_000_000) by (nonlinear_arith);
        assert(1_000_000 * (pi * 51) == pi * 51_000_000) by (nonlinear_arith);
        let lo = 49_500_000 + u_open as int;
        let hi = 50_000_000 + u_high as int;
        let lw = 50_000_000 - u_low as int;
        assert(pi * 49_000_000 <= pi * lo <= pi * 51_000_000) by (nonlinear_arith)
            requires pi >= 0, 49_000_000 <= lo <= 51_000_000;
        assert(pi * 50_000_000 <= pi * hi <= pi * 51_000_000) by (nonlinear_arith)
            requires pi >= 0, 50_000_000 <= hi <= 51_000_000;
        assert(pi * 49_000_000 <= pi * lw <= pi * 50_000_000) by (nonlinear_arith)
            requires pi >= 0, 49_000_000 <= lw <= 50_000_000;
        vstd::arithmetic::div_mod::lemma_div_is_ordered(pi * 49_000_000, pi * lo, 50_000_000);
        vstd::arithmetic::div_mod::lemma_div_is_ordered(pi * lo, pi * 51_000_000, 50_000_000);
        vstd::arithmetic::div_mod::lemma_div_is_ordered(pi * 50_000_000, pi * hi, 50_000_000);
        vstd::arithmetic::div_mod::lemma_div_is_ordered(pi * hi, pi * 51_000_000, 50_000_000);
        vstd::arithmetic::div_mod::lemma_div_is_ordered(pi * 49_000_000, pi * lw, 50_000_000);
        vstd::arithmetic::div_mod::lemma_div_is_ordered(pi * lw, pi * 50_000_000, 50_000_000);
        vstd::arithmetic::div_mod::lemma_div_by_multiple(pi, 50_000_000);
    }
    let open = p * (d - (DRAW_RANGE / 2) as u128 + u_open as u128) / d;
    let high = p * (d + u_high as u128) / d;
    let low = p * (d - u_low as u128) / d;
    let volume = (BASE_VOLUME * SCALE / (2 * DRAW_RANGE)) * (DRAW_RANGE + DRAW_RANGE / 2 + u_volume);
    let timestamp = if timestamp_ms >= 0 {
        timestamp_ms / 1000
    } else {
        (0 - ((0 - (timestamp_ms as i128)) / 1000)) as i64
    };
    MarketData {
        symbol: String::from_str(symbol),
        timestamp,
        open: open as u64,
        high: high as u64,
        low: low as u64,
        close: price,
        volume,
        source: DataSource::Crypto,
    }
}

/// Bars for a bare `(epoch milliseconds, price)` series, oldest first, each
/// from four fresh uniform draws.
pub fn synthesize_bars(symbol: &str, points: &Vec<(i64, u64)>) -> (r: Vec<MarketData>)
    requires
        forall|i: int| 0 <= i < points@.len() ==> (#[trigger] points@[i]).1 <= MAX_SYNTH_PRICE,
    ensures
        synthesized_series(r@, symbol@, points@),
{
    let mut bars: Vec<MarketData> = Vec::new();
    let mut i: usize = 0;
    while i < points.len()
        invariant
            i <= points@.len(),
            bars@.len() == i,
            forall|k: int| 0 <= k < points@.len() ==> (#[trigger] points@[k]).1 <= MAX_SYNTH_PRICE,
            forall|k: int|
                0 <= k < i ==> {
                    &&& (#[trigger] bars@[k]).symbol@ == symbol@
                    &&& bars@[k].timestamp == millis_to_secs(points@[k].0 as int)
                    &&& bars@[k].source == DataSource::Crypto
                    &&& synth_bounds(bars@[k], points@[k].1 as int)
                    &&& synthesized_from(bars@[k], symbol@, points@[k].0, points@[k].1)
                },
        decreases points@.len() - i,
    {
        let (ms, price) = points[i];
        let u_open = draw_up_to(DRAW_RANGE);
        let u_high = draw_up_to(DRAW_RANGE);
        let u_low = draw_up_to(DRAW_RANGE);
        let u_volume = draw_up_to(DRAW_RANGE);
        let bar = synthesize_bar(symbol, ms, price, u_open, u_high, u_low, u_volume);
        assert(bar_from_draws(bar, symbol@, ms, price, u_open as int, u_high as int, u_low as int, u_volume as int));
        bars.push(bar);
        i = i + 1;
    }
    bars
}

} // verus!
