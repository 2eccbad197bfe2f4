use vstd::prelude::*;
use crate::bar::MarketData;
use crate::text::{lower_of, same_text, to_lower};

verus! {

/// A colour by its red, green and blue parts.
#[derive(Debug, Clone, Copy, PartialEq, Eq, Structural)]
pub struct Rgb {
    pub r: u8,
    pub g: u8,
    pub b: u8,
}

/// How a chart looks: its size in pixels and its colours.
#[derive(Debug)]
pub struct ChartStyle {
    pub width: u32,
    pub height: u32,
    pub background_color: Rgb,
    pub text_color: Rgb,
    pub grid_color: Rgb,
    /// Candles that close at or above their open.
    pub bull_color: Rgb,
    /// Candles that close below their open.
    pub bear_color: Rgb,
    /// One colour per moving average, reused in turn.
    pub ma_colors: Vec<Rgb>,
    /// Buy and sell markers.
    pub signal_colors: (Rgb, Rgb),
}

impl ChartStyle {
    /// A 1200 by 800 chart on light grey, green and red candles, blue, purple
    /// and orange averages.
    pub fn default_style() -> (r: ChartStyle)
        ensures
            r.width == 1200 && r.height == 800,
            r.background_color == (Rgb { r: 240, g: 240, b: 240 }),
            r.text_color == (Rgb { r: 0, g: 0, b: 0 }),
            r.grid_color == (Rgb { r: 200, g: 200, b: 200 }),
            r.bull_color == (Rgb { r: 0, g: 150, b: 0 }),
            r.bear_color == (Rgb { r: 150, g: 0, b: 0 }),
            r.ma_colors@ == seq![Rgb { r: 0, g: 0, b: 255 }, Rgb { r: 255, g: 0, b: 255 }, Rgb { r: 255, g: 165, b: 0 }],
            r.signal_colors == (Rgb { r: 0, g: 100, b: 0 }, Rgb { r: 100, g: 0, b: 0 }),
    {
        let mut ma_colors: Vec<Rgb> = Vec::new();
        ma_colors.push(Rgb { r: 0, g: 0, b: 255 });
        ma_colors.push(Rgb { r: 255, g: 0, b: 255 });
        ma_colors.push(Rgb { r: 255, g: 165, b: 0 });
        ChartStyle {
            width: 1200,
            height: 800,
            background_color: Rgb { r: 240, g: 240, b: 240 },
            text_color: Rgb { r: 0, g: 0, b: 0 },
            grid_color: Rgb { r: 200, g: 200, b: 200 },
            bull_color: Rgb { r: 0, g: 150, b: 0 },
            bear_color: Rgb { r: 150, g: 0, b: 0 },
            ma_colors,
            signal_colors: (Rgb { r: 0, g: 100, b: 0 }, Rgb { r: 100, g: 0, b: 0 }),
        }
    }
}

impl Default for ChartStyle {
    fn default() -> (r: ChartStyle)
        ensures
            r.width == 1200 && r.height == 800,
            r.bull_color == (Rgb { r: 0, g: 150, b: 0 }),
            r.bear_color == (Rgb { r: 150, g: 0, b: 0 }),
            r.ma_colors@.len() == 3,
    {
        ChartStyle::default_style()
    }
}

/// The file a symbol's chart is saved to: the symbol in lower case and `_chart.png`.
pub fn chart_file_name(symbol: &str) -> (r: String)
    ensures
        r@ == lower_of(symbol@) + "_chart.png"@,
{
    let mut s = to_lower(symbol);
    s.append("_chart.png");
    s
}

/// The sum of the closes of `data[lo..hi]`.
pub open spec fn close_sum(data: Seq<MarketData>, lo: int, hi: int) -> int
    decreases hi - lo,
{
    if hi <= lo {
        0
    } else {
        close_sum(data, lo, hi - 1) + data[hi - 1].close
    }
}

/// The moving average of `period` closes that ends at bar `i`, rounded down.
pub open spec fn moving_average_at(data: Seq<MarketData>, i: int, period: int) -> int {
    close_sum(data, i + 1 - period, i + 1) / period
}

/// How many x-axis labels a chart of `n` bars gets.
pub open spec fn label_count(n: int) -> int {
    if n <= 10 {
        n
    } else if n <= 20 {
        n / 2
    } else if n <= 50 {
        n / 5
    } else {
        n / 10
    }
}

/// How many x-axis labels a chart of `n` bars gets: all of up to ten, then
/// one in two, one in five, one in ten.
pub fn x_label_count(n: usize) -> (r: usize)
    ensures
        r == label_count(n as int),
{
    if n <= 10 {
        n
    } else if n <= 20 {
        n / 2
    } else if n <= 50 {
        n / 5
    } else {
        n / 10
    }
}

/// Whether a bar draws as a rising candle.
pub fn is_bull(d: &MarketData) -> (r: bool)
    ensures
        r == (d.close >= d.open),
{
    d.close >= d.open
}

/// Whether a signal marker is a buy: its kind reads `BUY`.
pub fn is_buy_signal(kind: &str) -> (r: bool)
    ensures
        r == (kind@ == "BUY"@),
{
    same_text(kind, "BUY")
}

/// The sums of closes stay within `u128` for any `Vec`.
proof fn lemma_sum_bound(data: Seq<MarketData>, lo: int, hi: int)
    requires
        0 <= lo <= hi <= data.len(),
    ensures
        0 <= close_sum(data, lo, hi) <= (hi - lo) * (u64::MAX as int),
    decreases hi - lo,
{
    if hi > lo {
        lemma_sum_bound(data, lo, hi - 1);
        assert((hi - lo - 1) * (u64::MAX as int) + u64::MAX as int == (hi - lo) * (u64::MAX as int)) by (nonlinear_arith);
    }
}

/// A chart of bars with moving averages and buy and sell markers.
pub struct ChartPlotter {
    pub style: ChartStyle,
    pub data: Vec<MarketData>,
    /// The periods of the moving averages drawn.
    pub ma_periods: Vec<usize>,
    /// Markers: epoch seconds, price and kind (`BUY` or another).
    pub signals: Vec<(i64, u64, String)>,
}

impl ChartPlotter {
    /// A chart of `data` in the default style, with averages over 5, 10 and 20
    /// bars and no markers.
    pub fn new(data: Vec<MarketData>) -> (r: ChartPlotter)
        ensures
            r.data@ == data@,
            r.ma_periods@ == seq![5usize, 10, 20],
            r.signals@.len() == 0,
            r.style.width == 1200 && r.style.height == 800,
    {
        let mut ma_periods: Vec<usize> = Vec::new();
        ma_periods.push(5);
        ma_periods.push(10);
        ma_periods.push(20);
        ChartPlotter { style: ChartStyle::default_style(), data, ma_periods, signals: Vec::new() }
    }

    pub fn with_style(self, style: ChartStyle) -> (r: ChartPlotter)
        ensures
            r.data == self.data,
            r.ma_periods == self.ma_periods,
            r.signals == self.signals,
            r.style == style,
    {
        ChartPlotter { style, data: self.data, ma_periods: self.ma_periods, signals: self.signals }
    }

    pub fn with_ma_periods(self, periods: Vec<usize>) -> (r: ChartPlotter)
        ensures
            r.data == self.data,
            r.ma_periods == periods,
            r.signals == self.signals,
            r.style == self.style,
    {
        ChartPlotter { style: self.style, data: self.data, ma_periods: periods, signals: self.signals }
    }

    /// Adds a marker at `time` (epoch seconds) and `price`.
    pub fn add_signal(&mut self, time: i64, price: u64, signal_type: &str)
        ensures
            final(self).data@ == old(self).data@,
            final(self).ma_periods@ == old(self).ma_periods@,
            final(self).signals@.len() == old(self).signals@.len() + 1,
            forall|i: int| 0 <= i < old(self).signals@.len() ==> #[trigger] final(self).signals@[i] == old(self).signals@[i],
            final(self).signals@.last().0 == time,
            final(self).signals@.last().1 == price,
            final(self).signals@.last().2@ == signal_type@,
    {
        self.signals.push((time, price, String::from_str(signal_type)));
    }

    /// The moving average of `period` closes at each bar from the
    /// `period`-th on, with that bar's time; none when there are fewer bars.
    pub fn calculate_ma(&self, period: usize) -> (r: Vec<(i64, u64)>)
        requires
            period > 0,
        ensures
            self.data@.len() < period ==> r@.len() == 0,
            self.data@.len() >= period ==> r@.len() == self.data@.len() - period + 1,
            forall|k: int|
                0 <= k < r@.len() ==> (#[trigger] r@[k]).0 == self.data@[k + period - 1].timestamp && r@[k].1
                    == moving_average_at(self.data@, k + period - 1, period as int),
    {
        let n = self.data.len();
        let mut out: Vec<(i64, u64)> = Vec::new();
        if n < period {
            return out;
        }
        let mut i: usize = period - 1;
        while i < n
            invariant
                period > 0,
                period - 1 <= i <= n,
                n == self.data@.len(),
                out@.len() == i - (period - 1),
                forall|k: int|
                    0 <= k < out@.len() ==> (#[trigger] out@[k]).0 == self.data@[k + period - 1].timestamp
                        && out@[k].1 == moving_average_at(self.data@, k + period - 1, period as int),
            decreases n - i,
        {
            let lo = i + 1 - period;
            let mut sum: u128 = 0;
            let mut j: usize = lo;
            while j <= i
                invariant
                    lo <= j <= i + 1,
                    i < n == self.data@.len(),
                    sum == close_sum(self.data@, lo as int, j as int),
                decreases i + 1 - j,
            {
                proof {
                    lemma_sum_bound(self.data@, lo as int, j as int + 1);
                    assert((j + 1 - lo) * (u64::MAX as int) <= (usize::MAX as int) * (u64::MAX as int)) by (nonlinear_arith)
                        requires j + 1 - lo <= usize::MAX;
                }
                sum = sum + self.data[j].close as u128;
                j = j + 1;
            }
            proof {
                let s = close_sum(self.data@, lo as int, i + 1);
                let p = period as int;
                let m = u64::MAX as int;
                lemma_sum_bound(self.data@, lo as int, i + 1);
                assert(i + 1 - lo == p);
                assert(s <= p * m);
                vstd::arithmetic::div_mod::lemma_div_is_ordered(s, p * m, p);
                vstd::arithmetic::div_mod::lemma_div_multiples_vanish(m, p);
                assert(p * m == m * p) by (nonlinear_arith);
                assert(s / p <= m);
            }
            let avg = (sum / (period as u128)) as u64;
            out.push((self.data[i].timestamp, avg));
            i = i + 1;
        }
        out
    }

    /// All bars of the chart.
    pub fn get_data(&self) -> (r: &[MarketData])
        ensures
            r@ == self.data@,
    {
        self.data.as_slice()
    }

    /// The first bar, if any.
    pub fn first_data(&self) -> (r: Option<&MarketData>)
        ensures
            self.data@.len() == 0 ==> r is None,
            self.data@.len() > 0 ==> r == Some(&self.data@[0]),
    {
        if self.data.len() == 0 {
            None
        } else {
            Some(&self.data[0])
        }
    }

    /// The last bar, if any.
    pub fn last_data(&self) -> (r: Option<&MarketData>)
        ensures
            self.data@.len() == 0 ==> r is None,
            self.data@.len() > 0 ==> r == Some(&self.data@.last()),
    {
        let n = self.data.len();
        if n == 0 {
            None
        } else {
            Some(&self.data[n - 1])
        }
    }

    /// The lowest low and the highest high of the bars, if there are any.
    pub fn price_extent(&self) -> (r: Option<(u64, u64)>)
        ensures
            self.data@.len() == 0 ==> r is None,
            self.data@.len() > 0 ==> (r matches Some((lo, hi)) && (exists|i: int|
                0 <= i < self.data@.len() && #[trigger] self.data@[i].low == lo) && (exists|i: int|
                0 <= i < self.data@.len() && #[trigger] self.data@[i].high == hi) && (forall|i: int|
                0 <= i < self.data@.len() ==> lo <= #[trigger] self.data@[i].low && self.data@[i].high <= hi)),
    {
        let n = self.data.len();
        if n == 0 {
            return None;
        }
        let mut lo = self.data[0].low;
        let mut hi = self.data[0].high;
        let mut i: usize = 1;
        while i < n
            invariant
                1 <= i <= n == self.data@.len(),
                exists|k: int| 0 <= k < i && #[trigger] self.data@[k].low == lo,
                exists|k: int| 0 <= k < i && #[trigger] self.data@[k].high == hi,
                forall|k: int| 0 <= k < i ==> lo <= #[trigger] self.data@[k].low && self.data@[k].high <= hi,
            decreases n - i,
        {
            if self.data[i].low < lo {
                lo = self.data[i].low;
            }
            if self.data[i].high > hi {
                hi = self.data[i].high;
            }
            i = i + 1;
        }
        Some((lo, hi))
    }
}

} // verus!
