use vstd::prelude::*;
use crate::decimal::{
    digit_value,
    amount_text, decimal_digits, lemma_decimal_digits, lemma_padded_digits, padded_digits, SCALE,
    all_digits, digit_run, digits_value, is_digit, lemma_digits_value_bound, lemma_digits_value_prefix,
    lemma_digits_value_push, lemma_pow10_split, min_int, pow10,
};
use crate::text::joined;

verus! {

/// How far a read exponent is taken: beyond it, a text's digits could not
/// make up the difference, so the result no longer changes.
pub const EXPONENT_CAP: u128 = 1_267_650_600_228_229_401_496_703_205_376;

/// A number text without its sign.
pub open spec fn number_body(s: Seq<char>) -> Seq<char> {
    if s.len() > 0 && (s[0] == '+' || s[0] == '-') {
        s.skip(1)
    } else {
        s
    }
}

/// `m` is digits, a point at `k` and digits, with a digit on at least one side.
pub open spec fn number_point_at(m: Seq<char>, k: int) -> bool {
    &&& 0 <= k < m.len()
    &&& m[k] == '.'
    &&& m.len() > 1
    &&& all_digits(m.take(k))
    &&& all_digits(m.skip(k + 1))
}

/// A mantissa: digits, with at most one point, and at least one digit.
pub open spec fn is_mantissa(m: Seq<char>) -> bool {
    (m.len() > 0 && all_digits(m)) || exists|k: int| number_point_at(m, k)
}

/// The digits of a mantissa without its point.
pub open spec fn mantissa_digits(m: Seq<char>) -> Seq<char> {
    if all_digits(m) {
        m
    } else {
        let k = choose|k: int| number_point_at(m, k);
        m.take(k) + m.skip(k + 1)
    }
}

/// How many of a mantissa's digits stand after its point.
pub open spec fn mantissa_decimals(m: Seq<char>) -> int {
    if all_digits(m) {
        0
    } else {
        let k = choose|k: int| number_point_at(m, k);
        m.len() - k - 1
    }
}

/// An exponent: an optional sign, then digits.
pub open spec fn exponent_value(t: Seq<char>) -> Option<int> {
    if t.len() > 0 && all_digits(t) {
        Some(digits_value(t))
    } else if t.len() > 1 && (t[0] == '+' || t[0] == '-') && all_digits(t.skip(1)) {
        Some(
            if t[0] == '-' {
                -digits_value(t.skip(1))
            } else {
                digits_value(t.skip(1))
            },
        )
    } else {
        None
    }
}

pub open spec fn is_exponent_mark(c: char) -> bool {
    c == 'e' || c == 'E'
}

/// `b` is a mantissa, an exponent mark at `x`, and an exponent.
pub open spec fn exponent_at(b: Seq<char>, x: int) -> bool {
    &&& 0 <= x < b.len()
    &&& is_exponent_mark(b[x])
    &&& is_mantissa(b.take(x))
    &&& exponent_value(b.skip(x + 1)) is Some
}

/// The digit run `d` times `10^q`, in whole units, rounded half up where
/// `q` drops digits.
pub open spec fn scaled_units(d: Seq<char>, q: int) -> int {
    if q >= 0 {
        digits_value(d) * pow10(q as nat)
    } else if -q > d.len() {
        0
    } else {
        let t = d.len() + q;
        digits_value(d.take(t)) + if d[t] >= '5' {
            1int
        } else {
            0int
        }
    }
}

/// What a number text is worth in units of 10^-8, without its sign, rounded
/// half up: an optional sign, a mantissa, and an optional exponent after `e`
/// or `E`. `None` for any other text.
pub open spec fn number_value(s: Seq<char>) -> Option<int> {
    let b = number_body(s);
    if is_mantissa(b) {
        Some(scaled_units(mantissa_digits(b), 8 - mantissa_decimals(b)))
    } else if exists|x: int| exponent_at(b, x) {
        let x = choose|x: int| exponent_at(b, x);
        let m = b.take(x);
        Some(
            scaled_units(
                mantissa_digits(m),
                exponent_value(b.skip(x + 1))->0 - mantissa_decimals(m) + 8,
            ),
        )
    } else {
        None
    }
}

/// The amount that a number text stands for: zero for a text that is no
/// number, zero for a negative number (amounts are not negative), and at most
/// `u64::MAX`.
pub open spec fn lenient_amount(s: Seq<char>) -> u64 {
    match number_value(s) {
        None => 0,
        Some(v) => if s[0] == '-' {
            0
        } else {
            min_int(v, u64::MAX as int) as u64
        },
    }
}

pub open spec fn clamp_exponent(e: int) -> int {
    if e > EXPONENT_CAP {
        EXPONENT_CAP as int
    } else if e < -(EXPONENT_CAP as int) {
        -(EXPONENT_CAP as int)
    } else {
        e
    }
}

pub proof fn lemma_pow10_mono(a: nat, b: nat)
    requires
        a <= b,
    ensures
        pow10(a) <= pow10(b),
    decreases b,
{
    if b > a {
        lemma_pow10_mono(a, (b - 1) as nat);
    }
}

/// Every character of a mantissa is a digit or a point.
pub proof fn lemma_mantissa_chars(m: Seq<char>, i: int)
    requires
        is_mantissa(m),
        0 <= i < m.len(),
    ensures
        is_digit(m[i]) || m[i] == '.',
{
    if !all_digits(m) {
        let k = choose|k: int| number_point_at(m, k);
        if i < k {
            assert(m.take(k)[i] == m[i]);
        } else if i > k {
            assert(m.skip(k + 1)[i - k - 1] == m[i]);
        }
    }
}

/// Shifts far enough up, or far enough down, give the same capped result.
pub proof fn lemma_far_shift(d: Seq<char>, q1: int, q2: int)
    requires
        all_digits(d),
        (q1 >= 20 && q2 >= 20) || (q1 < -d.len() && q2 < -d.len()),
    ensures
        min_int(scaled_units(d, q1), u64::MAX as int) == min_int(scaled_units(d, q2), u64::MAX as int),
{
    if q1 >= 20 {
        lemma_digits_value_bound(d);
        lemma_pow10_mono(20, q1 as nat);
        lemma_pow10_mono(20, q2 as nat);
        reveal_with_fuel(pow10, 21);
        let v = digits_value(d);
        if v > 0 {
            assert(v * pow10(q1 as nat) >= pow10(q1 as nat)) by (nonlinear_arith)
                requires v >= 1, pow10(q1 as nat) >= 0;
            assert(v * pow10(q2 as nat) >= pow10(q2 as nat)) by (nonlinear_arith)
                requires v >= 1, pow10(q2 as nat) >= 0;
        } else {
            assert(v == 0);
            assert(v * pow10(q1 as nat) == 0);
            assert(v * pow10(q2 as nat) == 0);
        }
    }
}

/// `10^q` for a small `q`.
fn pow10_small(q: u32) -> (r: u64)
    requires
        q <= 19,
    ensures
        r == pow10(q as nat),
{
    let mut r: u64 = 1;
    let mut i: u32 = 0;
    while i < q
        invariant
            i <= q <= 19,
            r == pow10(i as nat),
        decreases q - i,
    {
        proof {
            lemma_pow10_mono((i + 1) as nat, 19);
            reveal_with_fuel(pow10, 20);
        }
        r = r * 10;
        i = i + 1;
    }
    r
}

/// The value of the digit run `s[from..to]`, capped at `EXPONENT_CAP`, when
/// it holds only digits.
fn digit_run_wide(s: &str, from: usize, to: usize) -> (r: Option<u128>)
    requires
        from <= to <= s@.len(),
    ensures
        r is Some <==> all_digits(s@.subrange(from as int, to as int)),
        r matches Some(v) ==> v == min_int(digits_value(s@.subrange(from as int, to as int)), EXPONENT_CAP as int),
{
    let ghost full = s@.subrange(from as int, to as int);
    let mut acc: u128 = 0;
    let mut i: usize = from;
    let mut over = false;
    while i < to
        invariant
            from <= i <= to <= s@.len(),
            full == s@.subrange(from as int, to as int),
            all_digits(s@.subrange(from as int, i as int)),
            !over ==> acc == digits_value(s@.subrange(from as int, i as int)) && acc <= EXPONENT_CAP,
            over ==> digits_value(s@.subrange(from as int, i as int)) > EXPONENT_CAP,
        decreases to - i,
    {
        let c = s.get_char(i);
        if !('0' <= c && c <= '9') {
            assert(full[i - from] == c);
            return None;
        }
        let d = (c as u32 - '0' as u32) as u128;
        proof {
            assert(s@.subrange(from as int, i + 1) =~= s@.subrange(from as int, i as int).push(c));
            lemma_digits_value_push(s@.subrange(from as int, i as int), c);
            lemma_digits_value_prefix(s@.subrange(from as int, i as int), 0);
        }
        if !over {
            if acc > (EXPONENT_CAP - d) / 10 {
                over = true;
            } else {
                acc = acc * 10 + d;
            }
        }
        i = i + 1;
    }
    if over {
        Some(EXPONENT_CAP)
    } else {
        Some(acc)
    }
}

/// The first exponent mark (with `exponent`) or point (without) at or after
/// `start` and before `end`, or `end`.
fn find_char(s: &str, start: usize, end: usize, exponent: bool) -> (k: usize)
    requires
        start <= end <= s@.len(),
    ensures
        start <= k <= end,
        k < end ==> (if exponent {
            is_exponent_mark(s@[k as int])
        } else {
            s@[k as int] == '.'
        }),
        forall|j: int|
            start <= j < k ==> !(if exponent {
                is_exponent_mark(#[trigger] s@[j])
            } else {
                s@[j] == '.'
            }),
{
    let mut k: usize = start;
    while k < end
        invariant
            start <= k <= end <= s@.len(),
            forall|j: int|
                start <= j < k ==> !(if exponent {
                    is_exponent_mark(#[trigger] s@[j])
                } else {
                    s@[j] == '.'
                }),
        decreases end - k,
    {
        let c = s.get_char(k);
        let hit = if exponent {
            c == 'e' || c == 'E'
        } else {
            c == '.'
        };
        if hit {
            return k;
        }
        k = k + 1;
    }
    k
}

/// The digits and the number of decimals of the mantissa `s[from..to]`, if
/// it is one.
fn mantissa_in(s: &str, from: usize, to: usize) -> (r: Option<(String, usize)>)
    requires
        from <= to <= s@.len(),
    ensures
        r is Some <==> is_mantissa(s@.subrange(from as int, to as int)),
        r matches Some((d, n)) ==> d@ == mantissa_digits(s@.subrange(from as int, to as int)) && n
            == mantissa_decimals(s@.subrange(from as int, to as int)),
{
    let ghost m = s@.subrange(from as int, to as int);
    let k = find_char(s, from, to, false);
    let ghost kb = k - from;
    if k == to {
        proof {
            assert forall|j: int| !number_point_at(m, j) by {
                if 0 <= j < m.len() {
                    assert(m[j] == s@[from + j]);
                }
            }
        }
        if to == from {
            return None;
        }
        return match digit_run(s, from, to) {
            None => None,
            Some(_) => Some((String::from_str(s.substring_char(from, to)), 0)),
        };
    }
    proof {
        assert(m[kb] == '.');
        assert(!all_digits(m)) by {
            assert(!is_digit(m[kb]));
        }
        assert forall|j: int| number_point_at(m, j) implies j == kb by {
            if j < kb {
                assert(m[j] == s@[from + j]);
            } else if j > kb {
                assert(m.take(j)[kb] == m[kb]);
            }
        }
    }
    if to - from < 2 {
        return None;
    }
    let w = digit_run(s, from, k);
    let f = digit_run(s, k + 1, to);
    assert(s@.subrange(from as int, k as int) =~= m.take(kb));
    assert(s@.subrange(k + 1, to as int) =~= m.skip(kb + 1));
    match (w, f) {
        (Some(_), Some(_)) => {
            assert(number_point_at(m, kb));
            let d = joined(s.substring_char(from, k), s.substring_char(k + 1, to));
            Some((d, to - k - 1))
        },
        _ => None,
    }
}

/// The signed exponent `s[from..to]`, clamped to `EXPONENT_CAP` either way,
/// if it is one.
fn exponent_in(s: &str, from: usize, to: usize) -> (r: Option<i128>)
    requires
        from <= to <= s@.len(),
    ensures
        r is Some <==> exponent_value(s@.subrange(from as int, to as int)) is Some,
        r matches Some(e) ==> e == clamp_exponent(exponent_value(s@.subrange(from as int, to as int))->0),
{
    let ghost t = s@.subrange(from as int, to as int);
    if from == to {
        return None;
    }
    let c = s.get_char(from);
    if c == '+' || c == '-' {
        proof {
            assert(!is_digit(t[0]));
        }
        if to - from < 2 {
            return None;
        }
        assert(s@.subrange(from + 1, to as int) =~= t.skip(1));
        match digit_run_wide(s, from + 1, to) {
            None => None,
            Some(v) => {
                if c == '-' {
                    Some(0 - (v as i128))
                } else {
                    Some(v as i128)
                }
            },
        }
    } else {
        match digit_run_wide(s, from, to) {
            None => None,
            Some(v) => Some(v as i128),
        }
    }
}

/// `d` times `10^q` in units, capped at `u64::MAX`.
fn units_of(d: &str, q: i128) -> (r: u64)
    requires
        all_digits(d@),
        q > i128::MIN,
    ensures
        r == min_int(scaled_units(d@, q as int), u64::MAX as int),
{
    let n = d.unicode_len();
    let v = match digit_run(d, 0, n) {
        Some(v) => v,
        None => 0,
    };
    assert(d@.subrange(0, n as int) =~= d@);
    if q >= 0 {
        if v == 0 {
            assert(digits_value(d@) == 0);
            let ghost p = pow10(q as nat);
            assert(digits_value(d@) * p == 0) by (nonlinear_arith)
                requires digits_value(d@) == 0;
            return 0;
        }
        if q >= 20 {
            proof {
                lemma_far_shift(d@, q as int, 20);
                reveal_with_fuel(pow10, 21);
                assert(digits_value(d@) * pow10(20) >= pow10(20)) by (nonlinear_arith)
                    requires digits_value(d@) >= 1;
            }
            return u64::MAX;
        }
        let p = pow10_small(q as u32);
        proof {
            lemma_pow10_split(q as nat, 0);
            assert(p >= 1);
            lemma_digits_value_bound(d@);
            let dv = digits_value(d@);
            assert((v as int) * (p as int) <= (u64::MAX as int) * (u64::MAX as int)) by (nonlinear_arith)
                requires v <= u64::MAX, p <= u64::MAX;
            if dv > u64::MAX {
                assert(dv * p >= dv) by (nonlinear_arith)
                    requires p >= 1, dv >= 0;
                assert((u64::MAX as int) * p >= u64::MAX) by (nonlinear_arith)
                    requires p >= 1;
            }
        }
        let prod = (v as u128) * (p as u128);
        if prod > u64::MAX as u128 {
            u64::MAX
        } else {
            prod as u64
        }
    } else {
        let j = 0 - q;
        if j > n as i128 {
            return 0;
        }
        let t = (n as i128 - j) as usize;
        let head = match digit_run(d, 0, t) {
            Some(x) => x,
            None => 0,
        };
        proof {
            assert(d@.subrange(0, t as int) =~= d@.take(t as int));
            lemma_digits_value_prefix(d@, t as int);
        }
        let rd = d.get_char(t);
        let up: u64 = if rd >= '5' {
            1
        } else {
            0
        };
        if head == u64::MAX {
            u64::MAX
        } else {
            head + up
        }
    }
}

/// A scaled digit run is never negative.
pub proof fn lemma_scaled_nonneg(d: Seq<char>, q: int)
    requires
        all_digits(d),
    ensures
        scaled_units(d, q) >= 0,
{
    lemma_digits_value_bound(d);
    if q >= 0 {
        let p = pow10(q as nat);
        assert(digits_value(d) * p >= 0) by (nonlinear_arith)
            requires digits_value(d) >= 0, p >= 0;
    } else if -q <= d.len() {
        lemma_digits_value_bound(d.take(d.len() + q));
    }
}

/// A mantissa's digits are digits.
pub proof fn lemma_mantissa_digits(m: Seq<char>)
    requires
        is_mantissa(m),
    ensures
        all_digits(mantissa_digits(m)),
{
    if !all_digits(m) {
        let k = choose|k: int| number_point_at(m, k);
        let d = m.take(k) + m.skip(k + 1);
        assert forall|i: int| 0 <= i < d.len() implies is_digit(#[trigger] d[i]) by {
            if i < k {
                assert(d[i] == m.take(k)[i]);
            } else {
                assert(d[i] == m.skip(k + 1)[i - k]);
            }
        }
    }
}

/// What a number text is worth, capped at `u64::MAX`, if it is a number.
fn number_units(s: &str) -> (r: Option<u64>)
    ensures
        r is Some <==> number_value(s@) is Some,
        r matches Some(v) ==> v == min_int(number_value(s@)->0, u64::MAX as int),
        r matches Some(v) ==> number_value(s@)->0 >= 0,
{
    let n = s.unicode_len();
    if n == 0 {
        assert(number_body(s@) =~= s@);
        return None;
    }
    let c0 = s.get_char(0);
    let start: usize = if c0 == '+' || c0 == '-' {
        1
    } else {
        0
    };
    let ghost b = number_body(s@);
    assert(b =~= s@.subrange(start as int, n as int));
    let x = find_char(s, start, n, true);
    let ghost xb = x - start;
    if x == n {
        proof {
            assert forall|y: int| !exponent_at(b, y) by {
                if 0 <= y < b.len() {
                    assert(b[y] == s@[start + y]);
                }
            }
        }
        match mantissa_in(s, start, n) {
            None => None,
            Some((d, dec)) => {
                proof {
                    lemma_mantissa_digits(b);
                    lemma_scaled_nonneg(d@, 8 - dec);
                }
                Some(units_of(d.as_str(), 8 - (dec as i128)))
            },
        }
    } else {
        proof {
            assert(b[xb] == s@[x as int]);
            assert(!is_mantissa(b)) by {
                if is_mantissa(b) {
                    lemma_mantissa_chars(b, xb);
                }
            }
            assert forall|y: int| exponent_at(b, y) implies y == xb by {
                if y < xb {
                    assert(b[y] == s@[start + y]);
                } else if y > xb {
                    lemma_mantissa_chars(b.take(y), xb);
                }
            }
        }
        let m = mantissa_in(s, start, x);
        let e = exponent_in(s, x + 1, n);
        assert(s@.subrange(start as int, x as int) =~= b.take(xb));
        assert(s@.subrange(x + 1, n as int) =~= b.skip(xb + 1));
        match (m, e) {
            (Some((d, dec)), Some(ev)) => {
                assert(exponent_at(b, xb));
                let q = ev - (dec as i128) + 8;
                proof {
                    lemma_mantissa_digits(b.take(xb));
                    let true_shift = exponent_value(b.skip(xb + 1))->0 - dec + 8;
                    lemma_scaled_nonneg(d@, true_shift);
                    if true_shift != q {
                        lemma_far_shift(d@, true_shift, q as int);
                    }
                }
                Some(units_of(d.as_str(), q))
            },
            _ => None,
        }
    }
}

/// Reads a number text into an amount: any number of decimals and an
/// optional exponent, rounded half up at the eighth decimal; see
/// `lenient_amount`.
pub fn read_amount(s: &str) -> (r: u64)
    ensures
        r == lenient_amount(s@),
{
    match number_units(s) {
        None => 0,
        Some(v) => {
            if s.get_char(0) == '-' {
                0
            } else {
                v
            }
        },
    }
}

/// The amount that a stored field holds: a number that is not below zero,
/// rounded to 10^-8 and capped at `u64::MAX`. `None` for any other text.
pub open spec fn stored_amount(s: Seq<char>) -> Option<u64> {
    match number_value(s) {
        None => None,
        Some(v) => if s[0] == '-' && v != 0 {
            None
        } else {
            Some(min_int(v, u64::MAX as int) as u64)
        },
    }
}

/// The digits of two runs one after the other are worth the first shifted
/// past the second, plus the second.
pub proof fn lemma_digits_value_concat(x: Seq<char>, y: Seq<char>)
    ensures
        digits_value(x + y) == digits_value(x) * pow10(y.len()) + digits_value(y),
    decreases y.len(),
{
    if y.len() == 0 {
        assert(x + y =~= x);
        assert(pow10(0) == 1);
        assert(digits_value(y) == 0);
        assert(digits_value(x) * 1 == digits_value(x));
    } else {
        let y1 = y.drop_last();
        lemma_digits_value_concat(x, y1);
        assert((x + y).drop_last() =~= x + y1);
        assert((x + y).last() == y.last());
        let a = digits_value(x);
        let p = pow10(y1.len());
        let b = digits_value(y1);
        assert(pow10(y.len()) == 10 * p);
        assert((a * p + b) * 10 == a * (10 * p) + b * 10) by (nonlinear_arith);
        assert(digits_value(x + y) == digits_value(x + y1) * 10 + digit_value(y.last()));
        assert(digits_value(y) == b * 10 + digit_value(y.last()));
    }
}

/// A stored amount's own text reads back as the amount.
pub proof fn lemma_stored_amount_text(a: u64)
    ensures
        stored_amount(amount_text(a as nat)) == Some(a),
{
    let w = decimal_digits(a as nat / SCALE as nat);
    let f = padded_digits(a as nat % SCALE as nat, 8);
    let s = amount_text(a as nat);
    lemma_decimal_digits(a as nat / SCALE as nat);
    reveal_with_fuel(pow10, 9);
    lemma_padded_digits(a as nat % SCALE as nat, 8);
    let k = w.len() as int;
    assert(s.take(k) =~= w);
    assert(s.skip(k + 1) =~= f);
    assert(s[0] == w[0]);
    assert(is_digit(w[0]));
    assert(number_body(s) == s);
    assert(s[k] == '.');
    assert(number_point_at(s, k));
    assert(!all_digits(s)) by {
        assert(!is_digit(s[k]));
    }
    assert forall|j: int| number_point_at(s, j) implies j == k by {
        if j < k {
            assert(s.take(k)[j] == s[j]);
        } else if j > k {
            assert(s.take(j)[k] == s[k]);
        }
    }
    let kk = choose|j: int| number_point_at(s, j);
    assert(kk == k);
    assert(mantissa_digits(s) == w + f);
    assert(mantissa_decimals(s) == 8);
    lemma_digits_value_concat(w, f);
    let q = a as nat / SCALE as nat;
    let m = a as nat % SCALE as nat;
    assert(q * SCALE + m == a) by {
        vstd::arithmetic::div_mod::lemma_fundamental_div_mod(a as int, SCALE as int);
    }
    assert(scaled_units(w + f, 0) == digits_value(w + f) * pow10(0));
    assert(digits_value(w + f) * 1 == digits_value(w + f));
}

/// Reads a stored amount field; see `stored_amount`.
pub fn read_stored_amount(s: &str) -> (r: Option<u64>)
    ensures
        r == stored_amount(s@),
{
    match number_units(s) {
        None => None,
        Some(v) => {
            if s.get_char(0) == '-' && v != 0 {
                None
            } else {
                Some(v)
            }
        },
    }
}

} // verus!
