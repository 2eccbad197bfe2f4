use vstd::prelude::*;
use crate::bar::rounded_div;
use crate::decimal::{decimal_digits, decimal_text, padded_digits, padded_text};

verus! {

/// A count of hundredths written with two decimals (`150` is `1.50`).
pub open spec fn hundredths_text(h: nat) -> Seq<char> {
    decimal_digits(h / 100) + seq!['.'] + padded_digits(h % 100, 2)
}

/// An amount in units of 10^-8 rounded to hundredths, halves up.
pub open spec fn to_hundredths(a: nat, unit: nat) -> nat {
    rounded_div(a as int, unit as int) as nat
}

pub open spec fn price_text(p: nat) -> Seq<char> {
    seq!['$'] + hundredths_text(to_hundredths(p, 1_000_000))
}

/// Whether the change from `open` to `close` counts as a rise: as with
/// `(close - open) / open >= 0`, where a zero open over a positive close is
/// an infinite rise and over a zero close no number at all.
pub open spec fn is_rise(open: nat, close: nat) -> bool {
    if open == 0 {
        close > 0
    } else {
        close >= open
    }
}

/// `(close - open) / open * 100` with a sign and two decimals.
pub open spec fn change_text(open: nat, close: nat) -> Seq<char> {
    if open == 0 {
        if close > 0 {
            "+inf%"@
        } else {
            "NaN%"@
        }
    } else if close >= open {
        seq!['+'] + hundredths_text(rounded_div((close - open) * 10000, open as int) as nat) + seq!['%']
    } else {
        seq!['-'] + hundredths_text(rounded_div((open - close) * 10000, open as int) as nat) + seq!['%']
    }
}

/// A volume abbreviated with `B`, `M` or `K` at 10^9, 10^6 and 10^3.
pub open spec fn volume_text(v: nat) -> Seq<char> {
    if v >= 100_000_000_000_000_000 {
        hundredths_text(to_hundredths(v, 1_000_000_000_000_000)) + seq!['B']
    } else if v >= 100_000_000_000_000 {
        hundredths_text(to_hundredths(v, 1_000_000_000_000)) + seq!['M']
    } else if v >= 100_000_000_000 {
        hundredths_text(to_hundredths(v, 1_000_000_000)) + seq!['K']
    } else {
        hundredths_text(to_hundredths(v, 1_000_000))
    }
}

pub open spec fn countdown_text(elapsed_ms: nat, interval_ms: nat) -> Seq<char> {
    if elapsed_ms >= interval_ms {
        "updating..."@
    } else {
        decimal_digits(((interval_ms - elapsed_ms) / 1000) as nat) + "s until next update (API limit: 10 requests per minute)"@
    }
}

/// `h` hundredths with two decimals.
pub fn hundredths(h: u128) -> (r: String)
    ensures
        r@ == hundredths_text(h as nat),
{
    let mut s = decimal_text(h / 100);
    s.append(".");
    let f = padded_text((h % 100) as u64, 2);
    s.append(f.as_str());
    proof {
        reveal_strlit(".");
    }
    s
}

fn round_to_hundredths(a: u64, unit: u64) -> (r: u128)
    requires
        unit > 0,
    ensures
        r as nat == to_hundredths(a as nat, unit as nat),
{
    let q = (2 * (a as u128) + unit as u128) / (2 * (unit as u128));
    q
}

/// A price as currency with two decimals (`$67234.12`).
pub fn format_price(price: u64) -> (r: String)
    ensures
        r@ == price_text(price as nat),
{
    let mut s = String::from_str("$");
    let h = hundredths(round_to_hundredths(price, 1_000_000));
    s.append(h.as_str());
    proof {
        reveal_strlit("$");
    }
    s
}

/// The percentage change from `open` to `close` (`"+5.00%"`, `"-5.00%"`).
pub fn format_percent_change(open: u64, close: u64) -> (r: String)
    ensures
        r@ == change_text(open as nat, close as nat),
{
    if open == 0 {
        if close > 0 {
            return String::from_str("+inf%");
        } else {
            return String::from_str("NaN%");
        }
    }
    let o = open as u128;
    let c = close as u128;
    let (sign, diff) = if close >= open {
        ("+", c - o)
    } else {
        ("-", o - c)
    };
    let q = (2 * (diff * 10000) + o) / (2 * o);
    let mut s = String::from_str(sign);
    let h = hundredths(q);
    s.append(h.as_str());
    s.append("%");
    proof {
        reveal_strlit("+");
        reveal_strlit("-");
        reveal_strlit("%");
    }
    s
}

/// The percentage change tagged with a terminal colour: green for a rise,
/// red otherwise, then a reset.
pub fn format_change(open: u64, close: u64) -> (r: String)
    ensures
        r@ == (if is_rise(open as nat, close as nat) {
            "\x1b[32m"@
        } else {
            "\x1b[31m"@
        }) + change_text(open as nat, close as nat) + "\x1b[0m"@,
{
    let rise = if open == 0 {
        close > 0
    } else {
        close >= open
    };
    let mut s = if rise {
        String::from_str("\x1b[32m")
    } else {
        String::from_str("\x1b[31m")
    };
    let t = format_percent_change(open, close);
    s.append(t.as_str());
    s.append("\x1b[0m");
    s
}

/// A volume with two decimals and a `B`, `M` or `K` suffix
/// (`1.50B`, `2.50M`, `500.00`).
pub fn format_volume(volume: u64) -> (r: String)
    ensures
        r@ == volume_text(volume as nat),
{
    let (unit, suffix): (u64, &str) = if volume >= 100_000_000_000_000_000 {
        (1_000_000_000_000_000, "B")
    } else if volume >= 100_000_000_000_000 {
        (1_000_000_000_000, "M")
    } else if volume >= 100_000_000_000 {
        (1_000_000_000, "K")
    } else {
        (1_000_000, "")
    };
    let mut s = hundredths(round_to_hundredths(volume, unit));
    s.append(suffix);
    proof {
        reveal_strlit("B");
        reveal_strlit("M");
        reveal_strlit("K");
        reveal_strlit("");
    }
    s
}

/// What the display shows of the time to the next update: `updating...`
/// once the interval has passed, else the whole seconds that remain.
pub fn format_countdown(elapsed_ms: u64, interval_ms: u64) -> (r: String)
    ensures
        r@ == countdown_text(elapsed_ms as nat, interval_ms as nat),
{
    if elapsed_ms >= interval_ms {
        String::from_str("updating...")
    } else {
        let mut s = decimal_text(((interval_ms - elapsed_ms) / 1000) as u128);
        s.append("s until next update (API limit: 10 requests per minute)");
        s
    }
}

} // verus!
