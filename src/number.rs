//! Numbers of a document: integers, and decimals written as mantissa · 10^exponent.
use vstd::prelude::*;
use vstd::string::*;
use crate::text;

verus! {

/// A decimal number `mantissa · 10^exponent`. Two decimals are alike when they are written
/// alike; `Number::le` orders the numbers they denote.
#[derive(Clone, Copy, Debug, PartialEq, Eq, Structural)]
pub struct Decimal {
    pub mantissa: i64,
    pub exponent: i32,
}

/// A number of a document: a signed or an unsigned integer, or a decimal.
#[derive(Clone, Copy, Debug, PartialEq, Eq, Structural)]
pub enum Number {
    Int(i64),
    UInt(u64),
    Float(Decimal),
}

pub open spec fn pow10(n: nat) -> int
    decreases n,
{
    if n == 0 {
        1
    } else {
        10 * pow10((n - 1) as nat)
    }
}

/// The integer part of a number's written form (the mantissa of a decimal).
pub open spec fn mantissa_of(n: Number) -> int {
    match n {
        Number::Int(i) => i as int,
        Number::UInt(u) => u as int,
        Number::Float(d) => d.mantissa as int,
    }
}

/// The power of ten that multiplies the mantissa (zero for integers).
pub open spec fn exponent_of(n: Number) -> int {
    match n {
        Number::Float(d) => d.exponent as int,
        _ => 0,
    }
}

/// `x · 10^ex <= y · 10^ey`, compared after scaling both sides to the smaller exponent.
pub open spec fn scaled_le(x: int, ex: int, y: int, ey: int) -> bool {
    let e = if ex <= ey { ex } else { ey };
    x * pow10((ex - e) as nat) <= y * pow10((ey - e) as nat)
}

/// The numeric order of two numbers, whatever their kinds.
pub open spec fn num_le(a: Number, b: Number) -> bool {
    scaled_le(mantissa_of(a), exponent_of(a), mantissa_of(b), exponent_of(b))
}

pub proof fn lemma_pow10_positive(n: nat)
    ensures
        pow10(n) >= 1,
    decreases n,
{
    if n > 0 {
        lemma_pow10_positive((n - 1) as nat);
    }
}

pub proof fn lemma_pow10_mono(k: nat, d: nat)
    requires
        k <= d,
    ensures
        pow10(k) <= pow10(d),
    decreases d,
{
    if k < d {
        lemma_pow10_mono(k, (d - 1) as nat);
        lemma_pow10_positive((d - 1) as nat);
    }
}

/// Whether `x · 10^d <= y`, for `x`, `y` unsigned and `d` not negative.
fn shifted_le(x: u64, d: u64, y: u64) -> (r: bool)
    ensures
        r == (x * pow10(d as nat) <= y),
{
    if x == 0 {
        proof {
            lemma_pow10_positive(d as nat);
            assert(0 * pow10(d as nat) == 0);
        }
        return true;
    }
    let mut cur: u128 = x as u128;
    let mut k: u64 = 0;
    while k < d && cur <= y as u128
        invariant
            k <= d,
            x >= 1,
            cur == x * pow10(k as nat),
        decreases d - k,
    {
        proof {
            assert(pow10((k + 1) as nat) == 10 * pow10(k as nat));
            assert(x * (10 * pow10(k as nat)) == 10 * (x * pow10(k as nat))) by (nonlinear_arith);
        }
        cur = cur * 10;
        k = k + 1;
    }
    proof {
        lemma_pow10_mono(k as nat, d as nat);
        assert(x * pow10(k as nat) <= x * pow10(d as nat)) by (nonlinear_arith)
            requires
                x >= 1,
                pow10(k as nat) <= pow10(d as nat),
        ;
    }
    cur <= y as u128
}

/// Whether `x <= y · 10^d`, for `x`, `y` unsigned and `d` not negative.
fn le_shifted(x: u64, y: u64, d: u64) -> (r: bool)
    ensures
        r == (x <= y * pow10(d as nat)),
{
    if y == 0 {
        proof {
            assert(0 * pow10(d as nat) == 0);
        }
        return x == 0;
    }
    let mut cur: u128 = y as u128;
    let mut k: u64 = 0;
    while k < d && cur < x as u128
        invariant
            k <= d,
            y >= 1,
            cur == y * pow10(k as nat),
        decreases d - k,
    {
        proof {
            assert(pow10((k + 1) as nat) == 10 * pow10(k as nat));
            assert(y * (10 * pow10(k as nat)) == 10 * (y * pow10(k as nat))) by (nonlinear_arith);
        }
        cur = cur * 10;
        k = k + 1;
    }
    proof {
        lemma_pow10_mono(k as nat, d as nat);
        assert(y * pow10(k as nat) <= y * pow10(d as nat)) by (nonlinear_arith)
            requires
                y >= 1,
                pow10(k as nat) <= pow10(d as nat),
        ;
    }
    x as u128 <= cur
}

/// Whether `x · 10^ex <= y · 10^ey` for unsigned mantissas.
fn magnitude_le(x: u64, ex: i64, y: u64, ey: i64) -> (r: bool)
    requires
        i32::MIN <= ex <= i32::MAX,
        i32::MIN <= ey <= i32::MAX,
    ensures
        r == scaled_le(x as int, ex as int, y as int, ey as int),
{
    if ex >= ey {
        proof {
            assert(pow10(0) == 1);
            assert(y as int * pow10(0) == y as int);
        }
        shifted_le(x, (ex - ey) as u64, y)
    } else {
        proof {
            assert(pow10(0) == 1);
            assert(x as int * pow10(0) == x as int);
        }
        le_shifted(x, y, (ey - ex) as u64)
    }
}

/// The magnitude of a mantissa.
fn magnitude(m: i128) -> (r: u64)
    requires
        -0x1_0000_0000_0000_0000 < m < 0x1_0000_0000_0000_0000,
    ensures
        r == (if m < 0 { -m } else { m as int }),
{
    if m < 0 {
        (-m) as u64
    } else {
        m as u64
    }
}

fn mantissa(n: Number) -> (r: i128)
    ensures
        r == mantissa_of(n),
{
    match n {
        Number::Int(i) => i as i128,
        Number::UInt(u) => u as i128,
        Number::Float(d) => d.mantissa as i128,
    }
}

fn exponent(n: Number) -> (r: i64)
    ensures
        r == exponent_of(n),
        i32::MIN <= r <= i32::MAX,
{
    match n {
        Number::Float(d) => d.exponent as i64,
        _ => 0,
    }
}

proof fn lemma_neg_scaled(x: int, p: int, y: int, q: int)
    requires
        p >= 1,
        q >= 1,
    ensures
        (x * p <= y * q) == ((-y) * q <= (-x) * p),
{
    assert((-y) * q == -(y * q)) by (nonlinear_arith);
    assert((-x) * p == -(x * p)) by (nonlinear_arith);
}

proof fn lemma_sign_scaled(x: int, p: int, y: int, q: int)
    requires
        p >= 1,
        q >= 1,
    ensures
        x < 0 && y >= 0 ==> x * p <= y * q,
        x >= 0 && y < 0 ==> !(x * p <= y * q),
{
    if x < 0 && y >= 0 {
        assert(x * p < 0) by (nonlinear_arith)
            requires
                x < 0,
                p >= 1,
        ;
        assert(y * q >= 0) by (nonlinear_arith)
            requires
                y >= 0,
                q >= 1,
        ;
    }
    if x >= 0 && y < 0 {
        assert(x * p >= 0) by (nonlinear_arith)
            requires
                x >= 0,
                p >= 1,
        ;
        assert(y * q < 0) by (nonlinear_arith)
            requires
                y < 0,
                q >= 1,
        ;
    }
}

/// `pow10(a + b) == pow10(a) · pow10(b)`.
pub proof fn lemma_pow10_add(a: nat, b: nat)
    ensures
        pow10(a + b) == pow10(a) * pow10(b),
    decreases a,
{
    if a > 0 {
        lemma_pow10_add((a - 1) as nat, b);
        assert(pow10(a + b) == 10 * pow10((a - 1 + b) as nat));
        assert(10 * (pow10((a - 1) as nat) * pow10(b)) == (10 * pow10((a - 1) as nat)) * pow10(b))
            by (nonlinear_arith);
    }
}

/// `s` without a leading minus sign.
pub open spec fn without_minus(s: Seq<char>) -> Seq<char> {
    if s.len() > 0 && s[0] == '-' {
        s.subrange(1, s.len() as int)
    } else {
        s
    }
}

/// The decimal written `s` in scientific form: an optional `-`, digits, optionally a point
/// and more digits, `e`, an optional `-`, and digits; with at most 18 digits before the `e`
/// and at most 4 after it.
pub open spec fn scientific(s: Seq<char>) -> Option<Decimal> {
    let neg = s.len() > 0 && s[0] == '-';
    let body = without_minus(s);
    let e = text::index_of(body, 'e');
    let mant = body.subrange(0, e);
    let ex = body.subrange(e + 1, body.len() as int);
    let d = text::index_of(mant, '.');
    let whole = if d < 0 {
        mant
    } else {
        mant.subrange(0, d)
    };
    let frac = if d < 0 {
        Seq::empty()
    } else {
        mant.subrange(d + 1, mant.len() as int)
    };
    let eneg = ex.len() > 0 && ex[0] == '-';
    let edigits = without_minus(ex);
    if e >= 0 && whole.len() >= 1 && text::all_digits(whole) && (d < 0 || (frac.len() >= 1
        && text::all_digits(frac))) && whole.len() + frac.len() <= 18 && 1 <= edigits.len() <= 4
        && text::all_digits(edigits) {
        let m = text::digits_value(whole) * pow10(frac.len()) + text::digits_value(frac);
        let x = text::digits_value(edigits);
        Some(
            Decimal {
                mantissa: (if neg {
                    -m
                } else {
                    m
                }) as i64,
                exponent: ((if eneg {
                    -x
                } else {
                    x as int
                }) - frac.len()) as i32,
            },
        )
    } else {
        None
    }
}

proof fn lemma_pow10_18()
    ensures
        pow10(4) == 10_000,
        pow10(18) == 1_000_000_000_000_000_000,
{
    reveal_with_fuel(pow10, 19);
}

/// `w · 10^fl + f`, the number written by `wl` digits worth `w` followed by `fl` digits
/// worth `f`.
fn join_digits(w: u64, wl: usize, f: u64, fl: usize) -> (m: u64)
    requires
        w < pow10(wl as nat),
        f < pow10(fl as nat),
        wl + fl <= 18,
    ensures
        m == w * pow10(fl as nat) + f,
        m < pow10((wl + fl) as nat),
{
    let p = pow10_u64(fl);
    proof {
        lemma_pow10_add(wl as nat, fl as nat);
        lemma_pow10_mono((wl + fl) as nat, 18);
        lemma_pow10_18();
        assert(w * p + f < pow10((wl + fl) as nat)) by (nonlinear_arith)
            requires
                w < pow10(wl as nat),
                f < p,
                pow10((wl + fl) as nat) == pow10(wl as nat) * p,
        ;
    }
    w * p + f
}

/// The value of a run of at most 18 ASCII digits.
fn digits_u64(t: &str) -> (r: u64)
    requires
        t@.len() <= 18,
        text::all_digits(t@),
    ensures
        r == text::digits_value(t@),
        r < pow10(t@.len()),
{
    let n = t.unicode_len();
    let mut v: u64 = 0;
    let mut i: usize = 0;
    while i < n
        invariant
            n == t@.len(),
            n <= 18,
            i <= n,
            text::all_digits(t@),
            v == text::digits_value(t@.subrange(0, i as int)),
            v < pow10(i as nat),
        decreases n - i,
    {
        let ch = t.get_char(i);
        assert(text::is_digit(t@[i as int]));
        assert(t@.subrange(0, i + 1).drop_last() =~= t@.subrange(0, i as int));
        proof {
            assert(pow10((i + 1) as nat) == 10 * pow10(i as nat));
            lemma_pow10_mono((i + 1) as nat, 18);
            lemma_pow10_18();
        }
        v = v * 10 + ((ch as u32) - ('0' as u32)) as u64;
        i += 1;
    }
    assert(t@.subrange(0, n as int) =~= t@);
    v
}

/// `10^k` for `k <= 18`.
fn pow10_u64(k: usize) -> (r: u64)
    requires
        k <= 18,
    ensures
        r == pow10(k as nat),
{
    let mut r: u64 = 1;
    let mut i: usize = 0;
    while i < k
        invariant
            i <= k,
            k <= 18,
            r == pow10(i as nat),
        decreases k - i,
    {
        proof {
            lemma_pow10_mono((i + 1) as nat, 18);
            lemma_pow10_18();
        }
        r = r * 10;
        i += 1;
    }
    r
}

impl Decimal {
    /// Reads a decimal written in scientific form (see `scientific`), as `{:e}` writes
    /// floating-point numbers.
    pub fn from_scientific(s: &str) -> (r: Option<Decimal>)
        ensures
            r == scientific(s@),
    {
        let n = s.unicode_len();
        let neg = n > 0 && s.get_char(0) == '-';
        let body = if neg {
            s.substring_char(1, n)
        } else {
            s
        };
        let bn = body.unicode_len();
        let e = match text::find(body, 'e') {
            Some(e) => e,
            None => {
                return None;
            },
        };
        let mant = body.substring_char(0, e);
        let ex = body.substring_char(e + 1, bn);
        let mn = mant.unicode_len();
        let (whole, frac, has_point) = match text::find(mant, '.') {
            Some(d) => (mant.substring_char(0, d), mant.substring_char(d + 1, mn), true),
            None => (mant, mant.substring_char(mn, mn), false),
        };
        let en = ex.unicode_len();
        let eneg = en > 0 && ex.get_char(0) == '-';
        let edigits = if eneg {
            ex.substring_char(1, en)
        } else {
            ex
        };
        let wl = whole.unicode_len();
        let fl = frac.unicode_len();
        let el = edigits.unicode_len();
        if !(wl >= 1 && text::is_digit_run(whole)) {
            return None;
        }
        if has_point && !(fl >= 1 && text::is_digit_run(frac)) {
            return None;
        }
        if wl + fl > 18 || el < 1 || el > 4 || !text::is_digit_run(edigits) {
            return None;
        }
        assert(frac@.len() == 0 ==> text::all_digits(frac@));
        let w = digits_u64(whole);
        let f = digits_u64(frac);
        let x = digits_u64(edigits);
        let m = join_digits(w, wl, f, fl);
        proof {
            lemma_pow10_mono((wl + fl) as nat, 18);
            lemma_pow10_mono(el as nat, 4);
            lemma_pow10_18();
        }
        let mantissa: i64 = if neg {
            -(m as i64)
        } else {
            m as i64
        };
        let xe: i32 = if eneg {
            -(x as i32)
        } else {
            x as i32
        };
        let exponent: i32 = xe - fl as i32;
        proof {
            if !has_point {
                assert(frac@ =~= Seq::<char>::empty());
            }
        }
        Some(Decimal { mantissa, exponent })
    }
}

impl Number {
    /// Whether `self <= other` as numbers.
    pub fn le(&self, other: &Number) -> (r: bool)
        ensures
            r == num_le(*self, *other),
    {
        let ma = mantissa(*self);
        let mb = mantissa(*other);
        let ea = exponent(*self);
        let eb = exponent(*other);
        let ghost e: int = if ea <= eb { ea as int } else { eb as int };
        let ghost p = pow10((ea - e) as nat);
        let ghost q = pow10((eb - e) as nat);
        proof {
            lemma_pow10_positive((ea - e) as nat);
            lemma_pow10_positive((eb - e) as nat);
            lemma_sign_scaled(ma as int, p, mb as int, q);
        }
        if ma < 0 && mb >= 0 {
            true
        } else if ma >= 0 && mb < 0 {
            false
        } else if ma >= 0 {
            magnitude_le(magnitude(ma), ea, magnitude(mb), eb)
        } else {
            proof {
                lemma_neg_scaled(ma as int, p, mb as int, q);
            }
            magnitude_le(magnitude(mb), eb, magnitude(ma), ea)
        }
    }

    /// Whether the number is an integer that fits in `i64`.
    pub fn is_i64(&self) -> (r: bool)
        ensures
            r == (!(*self is Float) && i64::MIN <= mantissa_of(*self) <= i64::MAX),
    {
        match self {
            Number::Int(_) => true,
            Number::UInt(u) => *u <= i64::MAX as u64,
            Number::Float(_) => false,
        }
    }

    /// Whether the number is written as a decimal.
    pub fn is_f64(&self) -> (r: bool)
        ensures
            r == (*self is Float),
    {
        matches!(self, Number::Float(_))
    }
}

} // verus!
