use vstd::prelude::*;
use crate::bar::{FetchError, MarketData};
use crate::display::{change_text, countdown_text, format_change, format_countdown, format_price, format_volume, is_rise, price_text, volume_text};

verus! {

/// The bars that came back from one polling round, in the order asked, with
/// the failed symbols left out.
pub open spec fn fetched_bars(results: Seq<Result<MarketData, FetchError>>) -> Seq<MarketData>
    decreases results.len(),
{
    if results.len() == 0 {
        Seq::empty()
    } else {
        let before = fetched_bars(results.drop_last());
        match results.last() {
            Ok(b) => before.push(b),
            Err(_) => before,
        }
    }
}

/// `s` padded with spaces on the right to at least `width` characters.
pub open spec fn padded(s: Seq<char>, width: nat) -> Seq<char> {
    if s.len() >= width {
        s
    } else {
        s + Seq::new((width - s.len()) as nat, |i: int| ' ')
    }
}

/// How one bar shows in the table: symbol, close, change, open, high, low and
/// volume, in columns of eight and twelve characters.
pub open spec fn row_text(d: MarketData) -> Seq<char> {
    let change = (if is_rise(d.open as nat, d.close as nat) {
        "\x1b[32m"@
    } else {
        "\x1b[31m"@
    }) + change_text(d.open as nat, d.close as nat) + "\x1b[0m"@;
    padded(d.symbol@, 8) + seq![' '] + padded(price_text(d.close as nat), 12) + seq![' ']
        + padded(change, 12) + seq![' '] + padded(price_text(d.open as nat), 12) + seq![' ']
        + padded(price_text(d.high as nat), 12) + seq![' '] + padded(price_text(d.low as nat), 12)
        + seq![' '] + padded(volume_text(d.volume as nat), 12)
}

/// `s` padded with spaces on the right to at least `width` characters.
pub fn pad_right(s: String, width: usize) -> (r: String)
    ensures
        r@ == padded(s@, width as nat),
{
    let mut s = s;
    let ghost orig = s@;
    let mut n = s.as_str().unicode_len();
    while n < width
        invariant
            n == s@.len(),
            orig.len() <= n,
            n <= width ==> s@ == orig + Seq::new((n - orig.len()) as nat, |i: int| ' '),
            n > width ==> orig.len() >= width && s@ == orig,
        decreases width - n,
    {
        s.append(" ");
        proof {
            reveal_strlit(" ");
            assert(orig + Seq::new((n + 1 - orig.len()) as nat, |i: int| ' ') =~= (orig + Seq::new(
                (n - orig.len()) as nat,
                |i: int| ' ',
            )).push(' '));
        }
        n = n + 1;
    }
    proof {
        if orig.len() < width {
            assert(n == width);
        } else {
            assert(n == orig.len());
            assert(s@ =~= orig);
        }
    }
    s
}

/// The table row of one bar.
pub fn format_row(d: &MarketData) -> (r: String)
    ensures
        r@ == row_text(*d),
{
    let mut s = pad_right(String::from_str(d.symbol.as_str()), 8);
    let c0 = pad_right(format_price(d.close), 12);
    let c1 = pad_right(format_change(d.open, d.close), 12);
    let c2 = pad_right(format_price(d.open), 12);
    let c3 = pad_right(format_price(d.high), 12);
    let c4 = pad_right(format_price(d.low), 12);
    let c5 = pad_right(format_volume(d.volume), 12);
    s.append(" ");
    s.append(c0.as_str());
    s.append(" ");
    s.append(c1.as_str());
    s.append(" ");
    s.append(c2.as_str());
    s.append(" ");
    s.append(c3.as_str());
    s.append(" ");
    s.append(c4.as_str());
    s.append(" ");
    s.append(c5.as_str());
    proof {
        reveal_strlit(" ");
    }
    s
}

/// The live display's state: the symbols it follows, in the caller's order,
/// how often it polls, when the last successful round ended, and the bars of
/// that round. Times are milliseconds on a monotonic clock.
pub struct MarketMonitor {
    pub symbols: Vec<String>,
    pub update_interval_ms: u64,
    pub last_update_ms: u64,
    pub market_data: Vec<MarketData>,
    /// Set until the first polling round has been taken in: a new monitor
    /// fetches at once rather than after the first interval.
    pub first_round_due: bool,
}

impl MarketMonitor {
    /// A monitor with no bars yet, its clock started at `now_ms`.
    pub fn new(symbols: Vec<String>, update_interval_ms: u64, now_ms: u64) -> (r: MarketMonitor)
        ensures
            r.symbols@ == symbols@,
            r.update_interval_ms == update_interval_ms,
            r.last_update_ms == now_ms,
            r.market_data@.len() == 0,
            r.first_round_due,
    {
        MarketMonitor {
            symbols,
            update_interval_ms,
            last_update_ms: now_ms,
            market_data: Vec::new(),
            first_round_due: true,
        }
    }

    /// Takes in one polling round, whose results came back at `now_ms` in
    /// the order of the symbols. Where at least one symbol succeeded, its bars
    /// replace the whole bar set and the round counts as the last update;
    /// where none did, the bars and the time of the last update stay.
    pub fn update_market_data(&mut self, results: Vec<Result<MarketData, FetchError>>, now_ms: u64)
        ensures
            final(self).symbols@ == old(self).symbols@,
            final(self).update_interval_ms == old(self).update_interval_ms,
            !final(self).first_round_due,
            fetched_bars(results@).len() > 0 ==> {
                &&& final(self).market_data@ == fetched_bars(results@)
                &&& final(self).last_update_ms == now_ms
            },
            fetched_bars(results@).len() == 0 ==> {
                &&& final(self).market_data@ == old(self).market_data@
                &&& final(self).last_update_ms == old(self).last_update_ms
            },
    {
        let ghost all = results@;
        let mut rest = results;
        let mut fresh: Vec<MarketData> = Vec::new();
        let n = rest.len();
        let mut k: usize = 0;
        while rest.len() > 0
            invariant
                all.len() == n,
                k + rest@.len() == all.len(),
                rest@ == all.skip(k as int),
                fresh@ == fetched_bars(all.take(k as int)),
            decreases rest@.len(),
        {
            let r = rest.remove(0);
            proof {
                assert(all.take(k + 1).drop_last() =~= all.take(k as int));
                assert(all.take(k + 1).last() == all[k as int]);
                assert(rest@ =~= all.skip(k + 1));
            }
            match r {
                Ok(b) => fresh.push(b),
                Err(_) => {},
            }
            k = k + 1;
        }
        assert(all.take(k as int) =~= all);
        if fresh.len() > 0 {
            self.market_data = fresh;
            self.last_update_ms = now_ms;
        }
        self.first_round_due = false;
    }

    /// Milliseconds since the last update, zero if the clock reads earlier.
    pub fn elapsed_ms(&self, now_ms: u64) -> (r: u64)
        ensures
            r == if now_ms >= self.last_update_ms {
                now_ms - self.last_update_ms
            } else {
                0
            },
    {
        if now_ms >= self.last_update_ms {
            now_ms - self.last_update_ms
        } else {
            0
        }
    }

    /// Whether a polling round is due: the first one at once, the others
    /// once the update interval has passed since the last update.
    pub fn needs_update(&self, now_ms: u64) -> (r: bool)
        ensures
            r == (self.first_round_due || (now_ms >= self.last_update_ms && now_ms - self.last_update_ms
                >= self.update_interval_ms)),
    {
        self.first_round_due || (self.elapsed_ms(now_ms) >= self.update_interval_ms && now_ms >= self.last_update_ms)
    }

    /// The countdown line: `updating...` once the interval has passed, else
    /// the whole seconds to the next update.
    pub fn format_countdown(&self, now_ms: u64) -> (r: String)
        ensures
            r@ == countdown_text(
                (if now_ms >= self.last_update_ms {
                    now_ms - self.last_update_ms
                } else {
                    0
                }) as nat,
                self.update_interval_ms as nat,
            ),
    {
        format_countdown(self.elapsed_ms(now_ms), self.update_interval_ms)
    }

    /// The table rows of the current bars, in their order.
    pub fn display_rows(&self) -> (r: Vec<String>)
        ensures
            r@.len() == self.market_data@.len(),
            forall|i: int| 0 <= i < r@.len() ==> (#[trigger] r@[i])@ == row_text(self.market_data@[i]),
    {
        let mut rows: Vec<String> = Vec::new();
        let mut i: usize = 0;
        while i < self.market_data.len()
            invariant
                i <= self.market_data@.len(),
                rows@.len() == i,
                forall|j: int| 0 <= j < i ==> (#[trigger] rows@[j])@ == row_text(self.market_data@[j]),
            decreases self.market_data@.len() - i,
        {
            rows.push(format_row(&self.market_data[i]));
            i = i + 1;
        }
        rows
    }
}

} // verus!
