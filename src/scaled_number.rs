//! Exact decimal numbers and their SI-prefixed engineering notation.
use vstd::prelude::*;
use crate::text::{
    all_digits, digits_of, digits_value, digits_within, find2, find2_in, is_digit,
    lemma_digits_times_pow10, lemma_value_from_concat, push_digits, push_range, push_zeros,
    trim_end, trim_end_in, value_from, value_of, zeros, chars_of, string_from_chars,
    lemma_find2, lemma_digits_of, lemma_value_of_zeros_prefix, trim_end_len,
};

verus! {

/// `10` raised to `n`.
pub open spec fn pow10(n: nat) -> nat
    decreases n,
{
    if n == 0 {
        1
    } else {
        10 * pow10((n - 1) as nat)
    }
}

pub proof fn lemma_pow10_positive(n: nat)
    ensures
        pow10(n) >= 1,
    decreases n,
{
    if n > 0 {
        lemma_pow10_positive((n - 1) as nat);
    }
}

pub proof fn lemma_pow10_add(a: nat, b: nat)
    ensures
        pow10(a + b) == pow10(a) * pow10(b),
    decreases a,
{
    if a == 0 {
        assert(pow10(a) == 1);
        assert(a + b == b);
    } else {
        let a1 = (a - 1) as nat;
        lemma_pow10_add(a1, b);
        assert((a + b) as nat == (a1 + b + 1) as nat);
        assert(pow10(a1 + b + 1) == 10 * pow10(a1 + b));
        assert(pow10(a) == 10 * pow10(a1));
        let x = pow10(a1);
        let y = pow10(b);
        assert(10 * (x * y) == (10 * x) * y) by (nonlinear_arith);
    }
}

pub proof fn lemma_pow10_monotone(a: nat, b: nat)
    requires
        a <= b,
    ensures
        pow10(a) <= pow10(b),
    decreases b,
{
    if a < b {
        lemma_pow10_monotone(a, (b - 1) as nat);
        lemma_pow10_positive((b - 1) as nat);
    }
}

pub proof fn lemma_pow10_values()
    ensures
        pow10(1) == 10,
        pow10(2) == 100,
        pow10(3) == 1000,
        pow10(18) == 1000000000000000000,
        pow10(19) == 10000000000000000000,
        pow10(20) == 100000000000000000000,
{
    reveal_with_fuel(pow10, 21);
}

/// Number of decimal digits of `n` (one for zero).
pub open spec fn num_digits(n: nat) -> nat
    decreases n,
{
    if n < 10 {
        1
    } else {
        1 + num_digits(n / 10)
    }
}

pub proof fn lemma_num_digits_bounds(n: nat)
    ensures
        n < pow10(num_digits(n)),
        n >= 1 ==> pow10((num_digits(n) - 1) as nat) <= n,
        num_digits(n) >= 1,
    decreases n,
{
    if n < 10 {
        assert(pow10(1) == 10 * pow10(0));
    } else {
        let q = n / 10;
        lemma_num_digits_bounds(q);
        let d = num_digits(q);
        assert(num_digits(n) == d + 1);
        assert(pow10(d + 1) == 10 * pow10(d));
        assert(n < 10 * pow10(d)) by (nonlinear_arith)
            requires
                q == n / 10,
                q < pow10(d),
        ;
        if d >= 1 {
            assert(pow10(d) == 10 * pow10((d - 1) as nat));
        }
        assert(pow10(d) <= n) by (nonlinear_arith)
            requires
                q == n / 10,
                q >= 1 ==> pow10((d - 1) as nat) <= q,
                pow10(d) == 10 * pow10((d - 1) as nat),
                q >= 1,
        ;
    }
}

/// Largest mantissa magnitude a [`Decimal`] may carry.
pub const MAX_MANTISSA: i64 = 999_999_999_999_999_999;

/// Largest exponent magnitude a [`Decimal`] may carry.
pub const MAX_EXPONENT: i32 = 1000;

/// An exact decimal number: `mantissa * 10^exponent`.
#[derive(Debug, Clone, Copy, PartialEq, Eq, Structural)]
pub struct Decimal {
    pub mantissa: i64,
    pub exponent: i32,
}

pub open spec fn abs_int(x: int) -> nat {
    if x < 0 {
        (-x) as nat
    } else {
        x as nat
    }
}

impl Decimal {
    /// Mantissa and exponent lie within the supported bounds.
    pub open spec fn wf(self) -> bool {
        -MAX_MANTISSA <= self.mantissa <= MAX_MANTISSA && -MAX_EXPONENT <= self.exponent
            <= MAX_EXPONENT
    }

    /// The value is `num() / den()`.
    pub open spec fn num(self) -> int {
        if self.exponent >= 0 {
            self.mantissa * pow10(self.exponent as nat)
        } else {
            self.mantissa as int
        }
    }

    pub open spec fn den(self) -> int {
        if self.exponent >= 0 {
            1
        } else {
            pow10((-self.exponent) as nat) as int
        }
    }

    /// Position of the leading digit: `floor(log10(|self|))` for a non-zero value.
    pub open spec fn magnitude(self) -> int {
        num_digits(abs_int(self.mantissa as int)) - 1 + self.exponent
    }

    pub fn zero() -> (r: Decimal)
        ensures
            r.mantissa == 0 && r.exponent == 0,
    {
        Decimal { mantissa: 0, exponent: 0 }
    }

    /// Whether [`Decimal::wf`] holds.
    pub fn is_wf(&self) -> (r: bool)
        ensures
            r == self.wf(),
    {
        -MAX_MANTISSA <= self.mantissa && self.mantissa <= MAX_MANTISSA && -MAX_EXPONENT
            <= self.exponent && self.exponent <= MAX_EXPONENT
    }

    pub fn new(mantissa: i64, exponent: i32) -> (r: Decimal)
        ensures
            r.mantissa == mantissa && r.exponent == exponent,
    {
        Decimal { mantissa, exponent }
    }
}

/// Two decimals that denote the same number.
pub open spec fn same_value(a: Decimal, b: Decimal) -> bool {
    a.num() * b.den() == b.num() * a.den()
}

/// `1 <= |d| < 1000`.
pub open spec fn in_unit_range(d: Decimal) -> bool {
    d.den() <= abs_int(d.num()) < 1000 * d.den()
}


/// SI magnitude prefixes, from pico to giga.
#[derive(Debug, Clone, Copy, PartialEq, Eq, PartialOrd, Ord, Hash, Structural)]
pub enum SiScale {
    Pico,
    Nano,
    Micro,
    Milli,
    Unity,
    Kilo,
    Mega,
    Giga,
}

/// The scale whose power of ten is `e`, if there is one.
pub open spec fn scale_of_exponent(e: int) -> Option<SiScale> {
    if e == -12 {
        Some(SiScale::Pico)
    } else if e == -9 {
        Some(SiScale::Nano)
    } else if e == -6 {
        Some(SiScale::Micro)
    } else if e == -3 {
        Some(SiScale::Milli)
    } else if e == 0 {
        Some(SiScale::Unity)
    } else if e == 3 {
        Some(SiScale::Kilo)
    } else if e == 6 {
        Some(SiScale::Mega)
    } else if e == 9 {
        Some(SiScale::Giga)
    } else {
        None
    }
}

/// The scale that a suffix character names.
pub open spec fn scale_of_char(c: char) -> Option<SiScale> {
    if c == 'p' {
        Some(SiScale::Pico)
    } else if c == 'n' {
        Some(SiScale::Nano)
    } else if c == 'u' {
        Some(SiScale::Micro)
    } else if c == 'm' {
        Some(SiScale::Milli)
    } else if c == 'k' || c == 'K' {
        Some(SiScale::Kilo)
    } else if c == 'M' {
        Some(SiScale::Mega)
    } else if c == 'G' {
        Some(SiScale::Giga)
    } else {
        None
    }
}

impl SiScale {
    pub open spec fn spec_exponent(self) -> int {
        match self {
            SiScale::Pico => -12,
            SiScale::Nano => -9,
            SiScale::Micro => -6,
            SiScale::Milli => -3,
            SiScale::Unity => 0,
            SiScale::Kilo => 3,
            SiScale::Mega => 6,
            SiScale::Giga => 9,
        }
    }

    /// The power of ten this prefix stands for.
    pub fn exponent(self) -> (r: i8)
        ensures
            r == self.spec_exponent(),
    {
        match self {
            SiScale::Pico => -12,
            SiScale::Nano => -9,
            SiScale::Micro => -6,
            SiScale::Milli => -3,
            SiScale::Unity => 0,
            SiScale::Kilo => 3,
            SiScale::Mega => 6,
            SiScale::Giga => 9,
        }
    }

    pub fn from_exponent(e: i8) -> (r: Option<SiScale>)
        ensures
            r == scale_of_exponent(e as int),
    {
        if e == -12 {
            Some(SiScale::Pico)
        } else if e == -9 {
            Some(SiScale::Nano)
        } else if e == -6 {
            Some(SiScale::Micro)
        } else if e == -3 {
            Some(SiScale::Milli)
        } else if e == 0 {
            Some(SiScale::Unity)
        } else if e == 3 {
            Some(SiScale::Kilo)
        } else if e == 6 {
            Some(SiScale::Mega)
        } else if e == 9 {
            Some(SiScale::Giga)
        } else {
            None
        }
    }

    /// The next smaller prefix, if any.
    pub fn prev(self) -> (r: Option<SiScale>)
        ensures
            r == scale_of_exponent(self.spec_exponent() - 3),
    {
        SiScale::from_exponent(self.exponent() - 3)
    }

    /// The next larger prefix, if any.
    pub fn next(self) -> (r: Option<SiScale>)
        ensures
            r == scale_of_exponent(self.spec_exponent() + 3),
    {
        SiScale::from_exponent(self.exponent() + 3)
    }

    /// The scale named by a suffix character (`k` and `K` both mean kilo).
    pub fn from_char(c: char) -> (r: Option<SiScale>)
        ensures
            r == scale_of_char(c),
    {
        if c == 'p' {
            Some(SiScale::Pico)
        } else if c == 'n' {
            Some(SiScale::Nano)
        } else if c == 'u' {
            Some(SiScale::Micro)
        } else if c == 'm' {
            Some(SiScale::Milli)
        } else if c == 'k' || c == 'K' {
            Some(SiScale::Kilo)
        } else if c == 'M' {
            Some(SiScale::Mega)
        } else if c == 'G' {
            Some(SiScale::Giga)
        } else {
            None
        }
    }

    pub open spec fn spec_suffix(self, alternate: bool) -> Seq<char> {
        match self {
            SiScale::Pico => seq!['p'],
            SiScale::Nano => seq!['n'],
            SiScale::Micro => if alternate {
                seq!['u']
            } else {
                seq!['\u{b5}']
            },
            SiScale::Milli => seq!['m'],
            SiScale::Unity => Seq::empty(),
            SiScale::Kilo => seq!['k'],
            SiScale::Mega => seq!['M'],
            SiScale::Giga => seq!['G'],
        }
    }

    /// The written prefix; micro is `u` in the alternate form and `µ` otherwise.
    pub fn suffix(self, alternate: bool) -> (r: Option<char>)
        ensures
            r matches Some(c) ==> self.spec_suffix(alternate) == seq![c],
            r is None ==> self.spec_suffix(alternate) == Seq::<char>::empty(),
    {
        match self {
            SiScale::Pico => Some('p'),
            SiScale::Nano => Some('n'),
            SiScale::Micro => if alternate {
                Some('u')
            } else {
                Some('\u{b5}')
            },
            SiScale::Milli => Some('m'),
            SiScale::Unity => None,
            SiScale::Kilo => Some('k'),
            SiScale::Mega => Some('M'),
            SiScale::Giga => Some('G'),
        }
    }

    /// `unscaled * 10^exponent`: the same mantissa with the exponent moved.
    pub fn apply_to(self, unscaled: Decimal) -> (r: Decimal)
        requires
            -MAX_EXPONENT <= unscaled.exponent + self.spec_exponent() <= MAX_EXPONENT,
        ensures
            r.mantissa == unscaled.mantissa,
            r.exponent == unscaled.exponent + self.spec_exponent(),
    {
        Decimal { mantissa: unscaled.mantissa, exponent: unscaled.exponent + self.exponent() as i32 }
    }
}

impl Default for SiScale {
    fn default() -> (r: SiScale)
        ensures
            r == SiScale::Unity,
    {
        SiScale::Unity
    }
}

/// The multiple of three used to scale a number whose leading digit sits at
/// position `k`, held to the prefixes that exist.
pub open spec fn si_exponent_for(k: int) -> int {
    if k < -12 {
        -12
    } else if k >= 12 {
        9
    } else {
        3 * ((k + 12) / 3) - 12
    }
}

/// `d` split into a mantissa and the prefix it is written with.
pub open spec fn spec_unscale(d: Decimal) -> (Decimal, SiScale) {
    if d.mantissa == 0 {
        (Decimal { mantissa: 0, exponent: 0 }, SiScale::Unity)
    } else {
        let e = si_exponent_for(d.magnitude());
        (
            Decimal { mantissa: d.mantissa, exponent: (d.exponent - e) as i32 },
            scale_of_exponent(e).unwrap(),
        )
    }
}

/// Number of decimal digits of `n`.
pub fn digit_count(n: u64) -> (r: u32)
    ensures
        r == num_digits(n as nat),
        1 <= r <= 20,
    decreases n,
{
    if n < 10 {
        1
    } else {
        let r = digit_count(n / 10);
        proof {
            lemma_num_digits_bounds((n / 10) as nat);
            if r >= 20 {
                lemma_pow10_monotone(19, (r - 1) as nat);
                lemma_pow10_values();
            }
        }
        r + 1
    }
}

pub fn abs_u64(x: i64) -> (r: u64)
    ensures
        r == abs_int(x as int),
{
    if x < 0 {
        (-(x as i128)) as u64
    } else {
        x as u64
    }
}

/// Splits a number into a mantissa and an SI prefix, so that a non-zero number
/// within the prefixes' reach (`1e-12 <= |d| < 1e12`) is written with a
/// mantissa in `[1, 1000)`. Beyond that reach the nearest prefix is used on
/// purpose, pico below and giga above, so that any number can be written; its
/// mantissa then lies outside `[1, 1000)`.
pub fn unscale(d: Decimal) -> (r: (Decimal, SiScale))
    requires
        d.wf(),
    ensures
        r == spec_unscale(d),
        r.0.wf(),
        d.mantissa != 0 && d.magnitude() < -12 ==> r.1 == SiScale::Pico,
        d.mantissa != 0 && d.magnitude() >= 12 ==> r.1 == SiScale::Giga,
        d.mantissa != 0 ==> r.0.mantissa == d.mantissa && r.0.exponent + r.1.spec_exponent()
            == d.exponent,
{
    if d.mantissa == 0 {
        return (Decimal::zero(), SiScale::Unity);
    }
    let digits = digit_count(abs_u64(d.mantissa));
    let k: i32 = digits as i32 - 1 + d.exponent;
    let e: i32 = if k < -12 {
        -12
    } else if k >= 12 {
        9
    } else {
        3 * ((k + 12) / 3) - 12
    };
    proof {
        lemma_unscale_exponent(d);
    }
    let scale = SiScale::from_exponent(e as i8);
    (Decimal { mantissa: d.mantissa, exponent: d.exponent - e }, scale.unwrap())
}

/// The exponent `unscale` picks names a prefix and keeps the mantissa's
/// exponent within bounds.
pub proof fn lemma_unscale_exponent_bounds(d: Decimal)
    requires
        d.wf(),
        d.mantissa != 0,
    ensures
        scale_of_exponent(si_exponent_for(d.magnitude())) is Some,
        -MAX_EXPONENT <= d.exponent - si_exponent_for(d.magnitude()) <= MAX_EXPONENT,
{
    lemma_unscale_exponent(d);
}

proof fn lemma_unscale_exponent(d: Decimal)
    requires
        d.wf(),
        d.mantissa != 0,
    ensures
        scale_of_exponent(si_exponent_for(d.magnitude())) is Some,
        -MAX_EXPONENT <= d.exponent - si_exponent_for(d.magnitude()) <= MAX_EXPONENT,
{
    let n = abs_int(d.mantissa as int);
    lemma_num_digits_bounds(n);
    if num_digits(n) >= 20 {
        lemma_pow10_monotone(19, (num_digits(n) - 1) as nat);
        lemma_pow10_values();
    }
}

/// A non-zero number from `1e-12` up to (not including) `1e12` is written
/// with a mantissa in `[1, 1000)`; zero is written as `0` with no prefix. The
/// mantissa and prefix always denote the number itself.
pub proof fn lemma_unscale_mantissa_range(d: Decimal)
    requires
        d.wf(),
    ensures
        d.mantissa == 0 ==> spec_unscale(d).0.num() == 0 && spec_unscale(d).1 == SiScale::Unity,
        d.mantissa != 0 ==> spec_unscale(d).0.mantissa == d.mantissa
            && spec_unscale(d).0.exponent + spec_unscale(d).1.spec_exponent() == d.exponent,
        d.mantissa != 0 && -12 <= d.magnitude() < 12 ==> in_unit_range(spec_unscale(d).0),
{
    if d.mantissa != 0 {
        lemma_unscale_exponent(d);
        let k = d.magnitude();
        if -12 <= k < 12 {
            let n = abs_int(d.mantissa as int);
            let digits = num_digits(n);
            lemma_num_digits_bounds(n);
            let e = si_exponent_for(k);
            let u = spec_unscale(d).0;
            assert(0 <= k - e <= 2);
            let s = u.exponent as int;
            assert(s == d.exponent - e);
            assert(abs_int(u.num()) == abs_int(u.mantissa as int) * (if s >= 0 { pow10(s as nat) } else { 1 })) by (nonlinear_arith)
                requires
                    u.num() == (if s >= 0 { u.mantissa * pow10(s as nat) } else { u.mantissa as int }),
                    s >= 0 ==> pow10(s as nat) >= 1,
            {
            }
            lemma_pow10_positive(if s >= 0 { s as nat } else { 0 });
            if s >= 0 {
                // |u| = n * 10^s with n < 10^digits and digits + s = k - e + 1 <= 3
                lemma_pow10_add(digits, s as nat);
                lemma_pow10_monotone(digits + s as nat, 3);
                lemma_pow10_values();
                assert(n * pow10(s as nat) < pow10(digits) * pow10(s as nat)) by (nonlinear_arith)
                    requires
                        n < pow10(digits),
                        pow10(s as nat) >= 1,
                ;
                assert(1 <= n * pow10(s as nat)) by (nonlinear_arith)
                    requires
                        n >= 1,
                        pow10(s as nat) >= 1,
                ;
            } else {
                // |u| = n / 10^-s with 10^(digits - 1) <= n and -s <= digits - 1
                let t = (-s) as nat;
                assert(u.den() == pow10(t));
                lemma_pow10_monotone(t, (digits - 1) as nat);
                assert(digits <= t + 3);
                lemma_pow10_monotone(digits, t + 3);
                lemma_pow10_add(t, 3);
                lemma_pow10_values();
            }
        }
    }
}


/// `|d| * 10^prec`, rounded to the nearest integer, halves away from zero.
pub open spec fn rounded_abs(d: Decimal, prec: nat) -> nat {
    let a = abs_int(d.mantissa as int);
    let s = d.exponent + prec;
    if s >= 0 {
        a * pow10(s as nat)
    } else {
        (a + pow10((-s) as nat) / 2) / pow10((-s) as nat)
    }
}

/// `ds` preceded by zeros up to `w` characters.
pub open spec fn pad_left(ds: Seq<char>, w: nat) -> Seq<char> {
    if ds.len() < w {
        zeros((w - ds.len()) as nat) + ds
    } else {
        ds
    }
}

/// `n / 10^prec` written with `prec` decimals.
pub open spec fn fixed_body(n: nat, prec: nat) -> Seq<char> {
    let ds = pad_left(digits_of(n), prec + 1);
    if prec == 0 {
        ds
    } else {
        ds.take(ds.len() - prec) + seq!['.'] + ds.skip(ds.len() - prec)
    }
}

pub open spec fn sign_text(d: Decimal, sign_plus: bool) -> Seq<char> {
    if d.mantissa < 0 {
        seq!['-']
    } else if sign_plus {
        seq!['+']
    } else {
        Seq::empty()
    }
}

/// `d` written with exactly `prec` decimals; `sign_plus` writes `+` before a
/// number that is not negative.
pub open spec fn fixed_text(d: Decimal, prec: nat, sign_plus: bool) -> Seq<char> {
    sign_text(d, sign_plus) + fixed_body(rounded_abs(d, prec), prec)
}

/// `10^t`.
pub fn pow10_u64(t: u32) -> (r: u64)
    requires
        t <= 19,
    ensures
        r == pow10(t as nat),
{
    let mut r: u64 = 1;
    let mut i: u32 = 0;
    while i < t
        invariant
            i <= t <= 19,
            r == pow10(i as nat),
        decreases t - i,
    {
        proof {
            lemma_pow10_monotone(i as nat + 1, 19);
            lemma_pow10_values();
        }
        r = r * 10;
        i = i + 1;
    }
    r
}

/// The digits of [`rounded_abs`].
fn rounded_digits(d: Decimal, prec: u32) -> (ds: Vec<char>)
    requires
        d.wf(),
        prec <= 1000,
    ensures
        ds@ == digits_of(rounded_abs(d, prec as nat)),
{
    let a = abs_u64(d.mantissa);
    let s: i64 = d.exponent as i64 + prec as i64;
    let mut ds: Vec<char> = Vec::new();
    if s >= 0 {
        if a == 0 {
            push_digits(0, &mut ds);
            assert(a * pow10(s as nat) == 0);
        } else {
            push_digits(a, &mut ds);
            push_zeros(s as usize, &mut ds);
            proof {
                lemma_digits_times_pow10(a as nat, s as nat);
            }
        }
    } else {
        let t: i64 = -s;
        let n: u64 = if t > 19 {
            proof {
                lemma_pow10_monotone(20, t as nat);
                lemma_pow10_values();
                let p = pow10(t as nat);
                let an = a as nat;
                assert((an + p / 2) / p == 0) by (nonlinear_arith)
                    requires
                        an < 1000000000000000000,
                        p >= 100000000000000000000,
                ;
            }
            0
        } else {
            let p = pow10_u64(t as u32);
            proof {
                lemma_pow10_positive(t as nat);
                lemma_pow10_monotone(t as nat, 19);
                lemma_pow10_values();
            }
            (a + p / 2) / p
        };
        push_digits(n, &mut ds);
    }
    ds
}

/// The digits of [`rounded_abs`] padded with zeros to `prec + 1` characters.
fn padded_digits(d: Decimal, prec: u32) -> (pd: Vec<char>)
    requires
        d.wf(),
        prec <= 1000,
    ensures
        pd@ == pad_left(digits_of(rounded_abs(d, prec as nat)), prec as nat + 1),
{
    let ds = rounded_digits(d, prec);
    let len = ds.len();
    let w: usize = prec as usize + 1;
    let mut pd: Vec<char> = Vec::new();
    if len < w {
        push_zeros(w - len, &mut pd);
    }
    push_range(&ds, 0, len, &mut pd);
    assert(ds@.subrange(0, len as int) == ds@);
    pd
}

/// Appends `pd` with a point before its last `prec` characters.
fn push_with_point(pd: &Vec<char>, prec: u32, out: &mut Vec<char>)
    requires
        pd@.len() >= prec + 1,
    ensures
        final(out)@ == old(out)@ + (if prec == 0 {
            pd@
        } else {
            pd@.take(pd@.len() - prec) + seq!['.'] + pd@.skip(pd@.len() - prec)
        }),
{
    let pl = pd.len();
    if prec == 0 {
        push_range(pd, 0, pl, out);
        assert(pd@.subrange(0, pl as int) == pd@);
    } else {
        let cut = pl - prec as usize;
        push_range(pd, 0, cut, out);
        out.push('.');
        push_range(pd, cut, pl, out);
        assert(pd@.subrange(0, cut as int) == pd@.take(cut as int));
        assert(pd@.subrange(cut as int, pl as int) == pd@.skip(cut as int));
    }
}

/// Appends [`fixed_text`] of `d`.
pub fn write_fixed(d: Decimal, prec: u32, sign_plus: bool, out: &mut Vec<char>)
    requires
        d.wf(),
        prec <= 1000,
    ensures
        final(out)@ == old(out)@ + fixed_text(d, prec as nat, sign_plus),
{
    let ghost start = out@;
    let pd = padded_digits(d, prec);
    if d.mantissa < 0 {
        out.push('-');
    } else if sign_plus {
        out.push('+');
    }
    assert(out@ == start + sign_text(d, sign_plus));
    push_with_point(&pd, prec, out);
    assert(out@ =~= start + fixed_text(d, prec as nat, sign_plus));
}

/// Largest exponent digits that a decimal text may carry.
pub const MAX_EXPONENT_TEXT: u64 = 1_000_000_000;

/// The digits before the decimal point of a decimal text without its sign.
pub open spec fn int_part(body: Seq<char>) -> Seq<char> {
    let mant = body.take(find2(body, 'e', 'E') as int);
    mant.take(find2(mant, '.', '.') as int)
}

/// The digits after the decimal point.
pub open spec fn frac_part(body: Seq<char>) -> Seq<char> {
    let mant = body.take(find2(body, 'e', 'E') as int);
    let dp = find2(mant, '.', '.');
    if dp < mant.len() {
        mant.skip(dp + 1 as int)
    } else {
        Seq::empty()
    }
}

/// What follows the exponent marker, if there is one.
pub open spec fn exp_part(body: Seq<char>) -> Option<Seq<char>> {
    let ep = find2(body, 'e', 'E');
    if ep < body.len() {
        Some(body.skip(ep + 1 as int))
    } else {
        None
    }
}

pub open spec fn unsigned(s: Seq<char>) -> Seq<char> {
    if s.len() > 0 && (s[0] == '+' || s[0] == '-') {
        s.skip(1)
    } else {
        s
    }
}

pub open spec fn negative(s: Seq<char>) -> bool {
    s.len() > 0 && s[0] == '-'
}

/// The exponent a decimal text states, when it is well formed.
pub open spec fn exp_value(body: Seq<char>) -> Option<int> {
    match exp_part(body) {
        None => Some(0),
        Some(ex) => {
            let ed = unsigned(ex);
            if ed.len() == 0 || !all_digits(ed) || value_of(ed) > MAX_EXPONENT_TEXT {
                None
            } else if negative(ex) {
                Some(-value_of(ed))
            } else {
                Some(value_of(ed) as int)
            }
        },
    }
}

/// The decimal that a sign, integer digits, fraction digits and exponent
/// denote, when they are well formed and within bounds.
pub open spec fn assemble_decimal(neg: bool, ip: Seq<char>, fp: Seq<char>, ev: Option<int>) -> Option<
    Decimal,
> {
    if ip.len() + fp.len() == 0 || !all_digits(ip) || !all_digits(fp) || ev is None || value_of(
        ip + fp,
    ) > MAX_MANTISSA {
        None
    } else {
        let e = ev.unwrap() - fp.len();
        let m = value_of(ip + fp) as int;
        if e < -MAX_EXPONENT || e > MAX_EXPONENT {
            None
        } else {
            Some(Decimal { mantissa: (if neg { -m } else { m }) as i64, exponent: e as i32 })
        }
    }
}

/// A decimal text: an optional sign, digits with at most one decimal point
/// (at least one digit), and an optional exponent `e`/`E` with optional sign.
/// Texts whose digits exceed [`MAX_MANTISSA`] or whose exponent falls outside
/// [`MAX_EXPONENT`] are refused.
pub open spec fn spec_parse_decimal(s: Seq<char>) -> Option<Decimal> {
    let body = unsigned(s);
    assemble_decimal(negative(s), int_part(body), frac_part(body), exp_value(body))
}

/// A number with an optional SI suffix: when the last character is not a
/// digit it must name a prefix, and the rest (white space cut from its end)
/// is the mantissa.
pub open spec fn spec_parse_scaled(s: Seq<char>) -> Option<Decimal> {
    if s.len() == 0 {
        None
    } else if is_digit(s.last()) {
        spec_parse_decimal(s)
    } else {
        match scale_of_char(s.last()) {
            None => None,
            Some(sc) => match spec_parse_decimal(trim_end(s.drop_last(), false)) {
                None => None,
                Some(d) => if -MAX_EXPONENT <= d.exponent + sc.spec_exponent() <= MAX_EXPONENT {
                    Some(Decimal { mantissa: d.mantissa, exponent: (d.exponent + sc.spec_exponent()) as i32 })
                } else {
                    None
                },
            },
        }
    }
}

/// Reads the exponent that follows the marker in `v[lo..hi]`.
fn parse_exponent(v: &Vec<char>, lo: usize, hi: usize) -> (r: Option<i64>)
    requires
        lo <= hi <= v@.len(),
    ensures
        ({
            let ex = v@.subrange(lo as int, hi as int);
            let ed = unsigned(ex);
            r == (if ed.len() == 0 || !all_digits(ed) || value_of(ed) > MAX_EXPONENT_TEXT {
                None::<i64>
            } else if negative(ex) {
                Some((-value_of(ed)) as i64)
            } else {
                Some(value_of(ed) as i64)
            })
        }),
{
    let ghost ex = v@.subrange(lo as int, hi as int);
    let mut i = lo;
    let mut neg = false;
    if i < hi && (v[i] == '+' || v[i] == '-') {
        neg = v[i] == '-';
        i = i + 1;
    }
    assert(v@.subrange(i as int, hi as int) == unsigned(ex));
    if i == hi {
        return None;
    }
    match digits_value(v, i, hi, 0, MAX_EXPONENT_TEXT) {
        None => None,
        Some(x) => {
            if neg {
                Some(-(x as i64))
            } else {
                Some(x as i64)
            }
        },
    }
}

proof fn lemma_all_digits_concat(a: Seq<char>, b: Seq<char>)
    ensures
        all_digits(a + b) == (all_digits(a) && all_digits(b)),
{
    if all_digits(a + b) {
        assert forall|k: int| 0 <= k < a.len() implies is_digit(#[trigger] a[k]) by {
            assert((a + b)[k] == a[k]);
        }
        assert forall|k: int| 0 <= k < b.len() implies is_digit(#[trigger] b[k]) by {
            assert((a + b)[k + a.len()] == b[k]);
        }
    }
}

/// Reads the digits `v[i..dp]` followed by `v[fs..ep]` as one number.
fn mantissa_digits(v: &Vec<char>, i: usize, dp: usize, fs: usize, ep: usize) -> (r: Option<u64>)
    requires
        i <= dp <= fs <= ep <= v@.len(),
    ensures
        ({
            let ip = v@.subrange(i as int, dp as int);
            let fp = v@.subrange(fs as int, ep as int);
            r == (if all_digits(ip) && all_digits(fp) && value_of(ip + fp) <= MAX_MANTISSA {
                Some(value_of(ip + fp) as u64)
            } else {
                None::<u64>
            })
        }),
{
    let ghost ip = v@.subrange(i as int, dp as int);
    let ghost fp = v@.subrange(fs as int, ep as int);
    proof {
        lemma_value_from_concat(0, ip, fp);
        lemma_all_digits_concat(ip, fp);
    }
    match digits_value(v, i, dp, 0, MAX_MANTISSA as u64) {
        None => {
            proof {
                if all_digits(ip) && all_digits(fp) {
                    crate::text::lemma_value_from_grows(value_of(ip), fp);
                }
            }
            None
        },
        Some(m1) => digits_value(v, fs, ep, m1, MAX_MANTISSA as u64),
    }
}

fn assemble_exec(neg: bool, m: Option<u64>, nd: usize, fl: usize, ev: Option<i64>) -> (r: Option<
    Decimal,
>)
    requires
        m matches Some(x) ==> x <= MAX_MANTISSA,
    ensures
        r == (if nd == 0 || m is None || ev is None {
            None
        } else {
            let e = ev.unwrap() - fl;
            let mm = m.unwrap() as int;
            if e < -MAX_EXPONENT || e > MAX_EXPONENT {
                None
            } else {
                Some(Decimal { mantissa: (if neg { -mm } else { mm }) as i64, exponent: e as i32 })
            }
        }),
{
    if nd == 0 {
        return None;
    }
    let m = match m {
        None => {
            return None;
        },
        Some(x) => x,
    };
    let ev = match ev {
        None => {
            return None;
        },
        Some(x) => x,
    };
    let e: i128 = ev as i128 - fl as i128;
    if e < -(MAX_EXPONENT as i128) || e > MAX_EXPONENT as i128 {
        return None;
    }
    let mi: i64 = if neg {
        -(m as i64)
    } else {
        m as i64
    };
    Some(Decimal { mantissa: mi, exponent: e as i32 })
}

proof fn lemma_decimal_parts(v: Seq<char>, lo: int, i: int, ep: int, dp: int, fs: int, hi: int)
    requires
        0 <= lo <= i <= dp <= ep <= hi <= v.len(),
        i == lo || i == lo + 1,
        i == lo + 1 <==> (lo < hi && (v[lo] == '+' || v[lo] == '-')),
        ep - i == find2(v.subrange(i, hi), 'e', 'E'),
        dp - i == find2(v.subrange(i, ep), '.', '.'),
        fs == (if dp < ep { dp + 1 } else { ep }),
    ensures
        ({
            let s = v.subrange(lo, hi);
            let body = unsigned(s);
            &&& body == v.subrange(i, hi)
            &&& int_part(body) == v.subrange(i, dp)
            &&& frac_part(body) == v.subrange(fs, ep)
            &&& exp_part(body) == (if ep < hi {
                Some(v.subrange(ep + 1, hi))
            } else {
                None
            })
        }),
{
    let s = v.subrange(lo, hi);
    let body = unsigned(s);
    assert(body == v.subrange(i, hi));
    assert(body.take(ep - i) == v.subrange(i, ep));
}

/// Reads the decimal text `v[lo..hi]`.
#[verifier::rlimit(80)]
pub fn parse_decimal_in(v: &Vec<char>, lo: usize, hi: usize) -> (r: Option<Decimal>)
    requires
        lo <= hi <= v@.len(),
    ensures
        r == spec_parse_decimal(v@.subrange(lo as int, hi as int)),
{
    let ghost s = v@.subrange(lo as int, hi as int);
    let mut i = lo;
    let mut neg = false;
    if i < hi && (v[i] == '+' || v[i] == '-') {
        neg = v[i] == '-';
        i = i + 1;
    }
    let ep = find2_in(v, i, hi, 'e', 'E');
    let dp = find2_in(v, i, ep, '.', '.');
    let fs: usize = if dp < ep {
        dp + 1
    } else {
        ep
    };
    proof {
        lemma_decimal_parts(v@, lo as int, i as int, ep as int, dp as int, fs as int, hi as int);
    }
    let ghost body = unsigned(s);
    let ev: Option<i64> = if ep < hi {
        parse_exponent(v, ep + 1, hi)
    } else {
        Some(0)
    };
    assert(ev matches Some(x) ==> exp_value(body) == Some(x as int));
    assert(ev is None ==> exp_value(body) is None);
    let m = mantissa_digits(v, i, dp, fs, ep);
    assemble_exec(neg, m, (dp - i) + (ep - fs), ep - fs, ev)
}

/// Reads a number with an optional SI suffix from `v[lo..hi]`.
pub fn parse_scaled_in(v: &Vec<char>, lo: usize, hi: usize) -> (r: Option<Decimal>)
    requires
        lo <= hi <= v@.len(),
    ensures
        r == spec_parse_scaled(v@.subrange(lo as int, hi as int)),
        r matches Some(d) ==> d.wf(),
{
    let ghost s = v@.subrange(lo as int, hi as int);
    if lo == hi {
        return None;
    }
    let last = v[hi - 1];
    assert(s.last() == last);
    if '0' <= last && last <= '9' {
        return parse_decimal_in(v, lo, hi);
    }
    match SiScale::from_char(last) {
        None => None,
        Some(sc) => {
            let e = trim_end_in(v, lo, hi - 1, false);
            assert(s.drop_last() == v@.subrange(lo as int, hi - 1));
            assert(v@.subrange(lo as int, e as int) == trim_end(s.drop_last(), false));
            match parse_decimal_in(v, lo, e) {
                None => None,
                Some(d) => {
                    let x: i32 = d.exponent + sc.exponent() as i32;
                    if x < -MAX_EXPONENT || x > MAX_EXPONENT {
                        None
                    } else {
                        Some(sc.apply_to(d))
                    }
                },
            }
        },
    }
}

/// Reads a number with an optional SI suffix (`p n u m k K M G`).
pub fn parse_scaled(s: &str) -> (r: Option<Decimal>)
    ensures
        r == spec_parse_scaled(s@),
        r matches Some(d) ==> d.wf(),
{
    let v = crate::text::chars_of(s);
    assert(v@.subrange(0, v@.len() as int) == v@);
    parse_scaled_in(&v, 0, v.len())
}

/// Decimals kept when about `p` significant digits are wanted: `p` less the
/// digits before the point beyond the first, never below zero.
pub open spec fn dynamic_precision(x: Decimal, p: nat) -> nat {
    if x.mantissa == 0 {
        p
    } else {
        let drop: int = if x.magnitude() < 0 {
            0
        } else {
            x.magnitude()
        };
        if drop >= p {
            0
        } else {
            (p - drop) as nat
        }
    }
}

/// `x` written with [`dynamic_precision`] decimals.
pub open spec fn dynamic_text(x: Decimal, p: nat, sign_plus: bool) -> Seq<char> {
    fixed_text(x, dynamic_precision(x, p), sign_plus)
}

/// `x` written as a mantissa with [`dynamic_precision`] decimals followed by its
/// SI prefix.
pub open spec fn scaled_text(x: Decimal, p: nat, alternate: bool, sign_plus: bool) -> Seq<char> {
    let (u, sc) = spec_unscale(x);
    dynamic_text(u, p, sign_plus) + sc.spec_suffix(alternate)
}

fn dynamic_precision_exec(x: Decimal, p: u32) -> (r: u32)
    requires
        x.wf(),
    ensures
        r == dynamic_precision(x, p as nat),
{
    if x.mantissa == 0 {
        return p;
    }
    let digits = digit_count(abs_u64(x.mantissa));
    let k: i64 = digits as i64 - 1 + x.exponent as i64;
    let drop: i64 = if k < 0 {
        0
    } else {
        k
    };
    if drop >= p as i64 {
        0
    } else {
        (p as i64 - drop) as u32
    }
}

/// Appends [`dynamic_text`] of `x`.
pub fn write_dynamic(x: Decimal, p: u32, sign_plus: bool, out: &mut Vec<char>)
    requires
        x.wf(),
        p <= 1000,
    ensures
        final(out)@ == old(out)@ + dynamic_text(x, p as nat, sign_plus),
{
    let prec = dynamic_precision_exec(x, p);
    write_fixed(x, prec, sign_plus, out);
}

/// Appends [`scaled_text`] of `x`.
pub fn write_scaled(x: Decimal, p: u32, alternate: bool, sign_plus: bool, out: &mut Vec<char>)
    requires
        x.wf(),
        p <= 1000,
    ensures
        final(out)@ == old(out)@ + scaled_text(x, p as nat, alternate, sign_plus),
{
    let (u, sc) = unscale(x);
    write_dynamic(u, p, sign_plus, out);
    match sc.suffix(alternate) {
        Some(c) => out.push(c),
        None => {},
    }
    assert(out@ == old(out)@ + scaled_text(x, p as nat, alternate, sign_plus));
}

/// A number with a chosen count of significant decimals.
#[derive(Debug, Clone, Copy)]
pub struct DynamicDecimals(pub Decimal, pub usize);

impl DynamicDecimals {
    /// The number written with about `self.1` significant digits.
    pub fn to_text(&self, sign_plus: bool) -> (r: String)
        requires
            self.0.wf(),
            self.1 <= 1000,
        ensures
            r@ == dynamic_text(self.0, self.1 as nat, sign_plus),
    {
        let mut out: Vec<char> = Vec::new();
        write_dynamic(self.0, self.1 as u32, sign_plus, &mut out);
        assert(out@ == Seq::<char>::empty() + dynamic_text(self.0, self.1 as nat, sign_plus));
        string_from_chars(&out)
    }
}

/// A number written in engineering notation with an SI prefix.
#[derive(Debug, Clone, Copy, PartialEq, Eq, Structural)]
pub struct ScaledNumber(pub Decimal);

impl ScaledNumber {
    /// The number with about `precision` significant digits and its prefix;
    /// `alternate` writes micro as `u`, `sign_plus` writes a `+` before a
    /// number that is not negative.
    pub fn format(&self, precision: usize, alternate: bool, sign_plus: bool) -> (r: String)
        requires
            self.0.wf(),
            precision <= 1000,
        ensures
            r@ == scaled_text(self.0, precision as nat, alternate, sign_plus),
    {
        let mut out: Vec<char> = Vec::new();
        write_scaled(self.0, precision as u32, alternate, sign_plus, &mut out);
        assert(out@ == Seq::<char>::empty() + scaled_text(
            self.0,
            precision as nat,
            alternate,
            sign_plus,
        ));
        string_from_chars(&out)
    }

    /// The number with three significant decimals and its prefix.
    pub fn to_text(&self) -> (r: String)
        requires
            self.0.wf(),
        ensures
            r@ == scaled_text(self.0, 3, false, false),
    {
        self.format(3, false, false)
    }

    /// Reads a number with an optional SI suffix.
    pub fn parse(s: &str) -> (r: Option<ScaledNumber>)
        ensures
            r == (match spec_parse_scaled(s@) {
                Some(d) => Some(ScaledNumber(d)),
                None => None,
            }),
    {
        match parse_scaled(s) {
            Some(d) => Some(ScaledNumber(d)),
            None => None,
        }
    }
}

impl core::str::FromStr for ScaledNumber {
    type Err = &'static str;

    fn from_str(s: &str) -> Result<ScaledNumber, &'static str> {
        match ScaledNumber::parse(s) {
            Some(n) => Ok(n),
            None => Err("invalid scaled number"),
        }
    }
}

/// `unscaled * 10^scale`.
pub fn from_scale(unscaled: Decimal, scale: SiScale) -> (r: Decimal)
    requires
        -MAX_EXPONENT <= unscaled.exponent + scale.spec_exponent() <= MAX_EXPONENT,
    ensures
        r.mantissa == unscaled.mantissa,
        r.exponent == unscaled.exponent + scale.spec_exponent(),
{
    scale.apply_to(unscaled)
}


/// `rounded_abs(u, q)` lies within half a unit of `|u| * 10^q`.
pub proof fn lemma_rounding_error(u: Decimal, q: nat)
    requires
        u.wf(),
    ensures
        -u.den() <= 2 * rounded_abs(u, q) * u.den() - 2 * abs_int(u.num()) * pow10(q) <= u.den(),
{
    let a = abs_int(u.mantissa as int);
    let e = u.exponent as int;
    let s = e + q;
    let n = rounded_abs(u, q);
    let d = u.den();
    let an = abs_int(u.num());
    let w = pow10(q);
    lemma_pow10_positive(q);
    if e >= 0 {
        let pe = pow10(e as nat);
        lemma_pow10_add(e as nat, q);
        lemma_pow10_positive(e as nat);
        assert(an == a * pe) by (nonlinear_arith)
            requires
                u.num() == u.mantissa * pe,
                a == abs_int(u.mantissa as int),
                an == abs_int(u.num()),
                pe >= 1,
        ;
        assert(d == 1);
        assert(2 * n * d - 2 * an * w == 0) by (nonlinear_arith)
            requires
                n == a * pow10(s as nat),
                pow10(s as nat) == pe * w,
                an == a * pe,
                d == 1,
        ;
    } else if s >= 0 {
        lemma_pow10_add(s as nat, (-e) as nat);
        assert(an == a);
        assert(2 * n * d - 2 * an * w == 0) by (nonlinear_arith)
            requires
                n == a * pow10(s as nat),
                d == pow10((-e) as nat),
                w == pow10(s as nat) * pow10((-e) as nat),
                an == a,
        ;
    } else {
        let t = (-s) as nat;
        let p = pow10(t);
        lemma_pow10_add(q, t);
        assert(p == 10 * pow10((t - 1) as nat));
        lemma_pow10_positive((t - 1) as nat);
        let h = p / 2;
        assert(p == 2 * h);
        assert(n == (a + h) / p);
        assert(-p <= 2 * n * p - 2 * a <= p) by (nonlinear_arith)
            requires
                n == (a + h) / p,
                p == 2 * h,
                h >= 1,
        ;
        assert(an == a);
        assert(d == w * p);
        assert(-d <= 2 * n * d - 2 * an * w <= d) by (nonlinear_arith)
            requires
                -p <= 2 * n * p - 2 * a <= p,
                w >= 1,
                d == w * p,
                an == a,
        {
            assert(w * (2 * n * p - 2 * a) == 2 * n * (w * p) - 2 * a * w);
            assert(w * p <= w * p);
        }
    }
}

pub proof fn lemma_padded(n: nat, w: nat)
    ensures
        all_digits(pad_left(digits_of(n), w)),
        pad_left(digits_of(n), w).len() >= w,
        pad_left(digits_of(n), w).len() >= 1,
        value_of(pad_left(digits_of(n), w)) == n,
{
    lemma_digits_of(n);
    let ds = digits_of(n);
    if ds.len() < w {
        let z = zeros((w - ds.len()) as nat);
        lemma_value_of_zeros_prefix((w - ds.len()) as nat, ds);
        assert forall|i: int| 0 <= i < (z + ds).len() implies crate::text::is_digit(
            #[trigger] (z + ds)[i],
        ) by {
            if i >= z.len() {
                assert((z + ds)[i] == ds[i - z.len()]);
            }
        }
    }
}

/// Reading back [`fixed_body`], with or without a minus sign, gives the
/// number it was written from.
#[verifier::rlimit(80)]
proof fn lemma_parse_fixed(n: nat, q: nat, neg: bool)
    requires
        n <= MAX_MANTISSA,
        q <= 1000,
    ensures
        spec_parse_decimal(
            (if neg {
                seq!['-']
            } else {
                Seq::<char>::empty()
            }) + fixed_body(n, q),
        ) == Some(Decimal { mantissa: (if neg { -n } else { n as int }) as i64, exponent: -q as i32 }),
{
    let pd = pad_left(digits_of(n), q + 1);
    lemma_padded(n, q + 1);
    let fb = fixed_body(n, q);
    let sg = if neg {
        seq!['-']
    } else {
        Seq::<char>::empty()
    };
    let s = sg + fb;
    let l = pd.len();
    assert(fb[0] == pd[0]);
    assert(is_digit(fb[0]));
    if neg {
        assert(s.skip(1) == fb);
    } else {
        assert(s == fb);
    }
    assert(unsigned(s) == fb);
    assert(negative(s) == neg);
    assert forall|j: int| 0 <= j < fb.len() implies (is_digit(#[trigger] fb[j]) || fb[j] == '.') by {
        if q > 0 {
            if j < l - q {
                assert(fb[j] == pd[j]);
            } else if j > l - q {
                assert(fb[j] == pd[j - 1]);
            }
        } else {
            assert(fb[j] == pd[j]);
        }
    }
    lemma_find2(fb, 'e', 'E', fb.len() as int);
    assert(fb.take(fb.len() as int) == fb);
    assert(exp_part(fb) is None);
    if q == 0 {
        lemma_find2(fb, '.', '.', fb.len() as int);
        assert(int_part(fb) == pd);
        assert(frac_part(fb) == Seq::<char>::empty());
        assert(pd + Seq::<char>::empty() == pd);
    } else {
        assert(fb[l - q] == '.');
        assert forall|j: int| 0 <= j < l - q implies fb[j] != '.' && fb[j] != '.' by {
            assert(fb[j] == pd[j]);
        }
        lemma_find2(fb, '.', '.', l - q);
        assert(int_part(fb) == pd.take(l - q));
        assert(frac_part(fb) == pd.skip(l - q));
        assert(pd.take(l - q) + pd.skip(l - q) == pd);
    }
}

/// The text of a prefixed number reads back as the written digits with the
/// prefix applied.
/// Reading back a sign, the digits of `n` with `q` decimals and a prefix in
/// the alternate form gives `±n * 10^(E - q)`.
#[verifier::rlimit(60)]
pub proof fn lemma_parse_body_suffix(neg: bool, n: nat, q: nat, sc: SiScale)
    requires
        n <= MAX_MANTISSA,
        q <= 3,
    ensures
        spec_parse_scaled(
            (if neg {
                seq!['-']
            } else {
                Seq::<char>::empty()
            }) + fixed_body(n, q) + sc.spec_suffix(true),
        ) == Some(
            Decimal {
                mantissa: (if neg {
                    -n
                } else {
                    n as int
                }) as i64,
                exponent: (sc.spec_exponent() - q) as i32,
            },
        ),
{
    let fb = fixed_body(n, q);
    let sg = if neg {
        seq!['-']
    } else {
        Seq::<char>::empty()
    };
    lemma_parse_fixed(n, q, neg);
    let pd = pad_left(digits_of(n), q + 1);
    lemma_padded(n, q + 1);
    assert(fb.last() == pd.last());
    assert(is_digit(fb.last()));
    let t = sg + fb + sc.spec_suffix(true);
    if sc == SiScale::Unity {
        assert(t == sg + fb);
        assert(t.last() == fb.last());
    } else {
        let c = sc.spec_suffix(true)[0];
        assert(t == (sg + fb).push(c));
        assert(t.drop_last() == sg + fb);
        assert(scale_of_char(c) == Some(sc));
        assert((sg + fb).last() == fb.last());
        assert(trim_end_len(sg + fb, false) == (sg + fb).len());
        assert((sg + fb).take((sg + fb).len() as int) == sg + fb);
    }
}

proof fn lemma_parse_written(u: Decimal, sc: SiScale, q: nat, n: nat)
    requires
        n <= MAX_MANTISSA,
        1 <= q <= 3,
        n == rounded_abs(u, q),
    ensures
        spec_parse_scaled(fixed_text(u, q, false) + sc.spec_suffix(true)) == Some(
            Decimal {
                mantissa: (if u.mantissa < 0 {
                    -n
                } else {
                    n as int
                }) as i64,
                exponent: (sc.spec_exponent() - q) as i32,
            },
        ),
{
    lemma_parse_body_suffix(u.mantissa < 0, n, q, sc);
}

/// Writing a number from `1e-12` up to (not including) `1e12` in the
/// alternate form (micro as `u`) and reading the text back gives the number
/// to within half a unit of the last written decimal: the result is
/// `±n * 10^(E - q)` where `u * 10^E` is the number, `q` the count of written
/// decimals and `n` is `|u| * 10^q` rounded.
pub proof fn lemma_scaled_text_round_trip(x: Decimal)
    requires
        x.wf(),
        x.mantissa != 0,
        -12 <= x.magnitude() < 12,
    ensures
        ({
            let (u, sc) = spec_unscale(x);
            let q = dynamic_precision(u, 3);
            let n = rounded_abs(u, q);
            &&& u.mantissa == x.mantissa
            &&& u.exponent + sc.spec_exponent() == x.exponent
            &&& spec_parse_scaled(scaled_text(x, 3, true, false)) == Some(
                Decimal {
                    mantissa: (if x.mantissa < 0 {
                        -n
                    } else {
                        n as int
                    }) as i64,
                    exponent: (sc.spec_exponent() - q) as i32,
                },
            )
            &&& -u.den() <= 2 * n * u.den() - 2 * abs_int(u.num()) * pow10(q) <= u.den()
        }),
{
    lemma_unscale_mantissa_range(x);
    let (u, sc) = spec_unscale(x);
    let q = dynamic_precision(u, 3);
    let n = rounded_abs(u, q);
    let k = x.magnitude();
    let big_e = si_exponent_for(k);
    assert(u.magnitude() == k - big_e);
    assert(1 <= q <= 3);
    lemma_unscale_exponent(x);
    assert(u.wf());
    lemma_rounding_error(u, q);
    lemma_pow10_positive(q);
    lemma_pow10_monotone(q, 3);
    lemma_pow10_values();
    let d = u.den();
    let an = abs_int(u.num());
    assert(n <= 1000001) by (nonlinear_arith)
        requires
            2 * n * d - 2 * an * pow10(q) <= d,
            an < 1000 * d,
            pow10(q) <= 1000,
            d >= 1,
    ;
    lemma_parse_written(u, sc, q, n);
}


/// An integer text: an optional sign and at least one digit, of magnitude at
/// most `cap`.
pub open spec fn spec_parse_int(s: Seq<char>, cap: nat) -> Option<int> {
    let body = unsigned(s);
    if body.len() == 0 || !all_digits(body) || value_of(body) > cap {
        None
    } else if negative(s) {
        Some(-value_of(body))
    } else {
        Some(value_of(body) as int)
    }
}

/// Reads an integer of magnitude at most `cap`.
pub fn parse_int(s: &str, cap: u64) -> (r: Option<i64>)
    requires
        cap <= 1000000000000000000,
    ensures
        r matches Some(x) ==> spec_parse_int(s@, cap as nat) == Some(x as int),
        r is None ==> spec_parse_int(s@, cap as nat) is None,
{
    let v = chars_of(s);
    let n = v.len();
    let mut i: usize = 0;
    let mut neg = false;
    if n > 0 && (v[0] == '+' || v[0] == '-') {
        neg = v[0] == '-';
        i = 1;
    }
    assert(v@.subrange(i as int, n as int) == unsigned(s@));
    if i == n {
        return None;
    }
    match digits_value(&v, i, n, 0, cap) {
        None => None,
        Some(x) => if neg {
            Some(-(x as i64))
        } else {
            Some(x as i64)
        },
    }
}

/// Reads a decimal text (no SI suffix).
pub fn parse_decimal(s: &str) -> (r: Option<Decimal>)
    ensures
        r == spec_parse_decimal(s@),
{
    let v = chars_of(s);
    assert(v@.subrange(0, v@.len() as int) == v@);
    parse_decimal_in(&v, 0, v.len())
}


/// The sum of two decimals at the finer of their exponents, when the result
/// mantissa stays within [`MAX_MANTISSA`].
pub open spec fn spec_add(x: Decimal, y: Decimal) -> Option<Decimal> {
    let e = if x.exponent <= y.exponent {
        x.exponent
    } else {
        y.exponent
    };
    let a = x.mantissa * pow10((x.exponent - e) as nat);
    let b = y.mantissa * pow10((y.exponent - e) as nat);
    if -MAX_MANTISSA <= a + b <= MAX_MANTISSA {
        Some(Decimal { mantissa: (a + b) as i64, exponent: e })
    } else {
        None
    }
}

/// `m * 10^k` when it stays within [`MAX_MANTISSA`]; `None` when it does not.
fn shift_mantissa(m: i64, k: u32) -> (r: Option<i128>)
    requires
        -MAX_MANTISSA <= m <= MAX_MANTISSA,
    ensures
        r matches Some(v) ==> v == m * pow10(k as nat) && -MAX_MANTISSA * 1000000000000000000 <= v
            <= MAX_MANTISSA * 1000000000000000000,
        r is None ==> abs_int(m * pow10(k as nat)) > 10 * MAX_MANTISSA,
{
    if m == 0 {
        assert(m * pow10(k as nat) == 0);
        return Some(0i128);
    }
    if k > 18 {
        proof {
            lemma_pow10_monotone(19, k as nat);
            lemma_pow10_values();
            let p = pow10(k as nat);
            assert(abs_int(m * p) >= p) by (nonlinear_arith)
                requires
                    m != 0,
                    p >= 1,
            ;
        }
        return None;
    }
    let p = pow10_u64(k);
    proof {
        lemma_pow10_monotone(k as nat, 18);
        lemma_pow10_values();
        assert(-MAX_MANTISSA * 1000000000000000000 <= m * p <= MAX_MANTISSA * 1000000000000000000)
            by (nonlinear_arith)
            requires
                -MAX_MANTISSA <= m <= MAX_MANTISSA,
                0 <= p <= 1000000000000000000,
        ;
    }
    Some(m as i128 * p as i128)
}

/// `x + y`, when it fits.
pub fn checked_add(x: Decimal, y: Decimal) -> (r: Option<Decimal>)
    requires
        x.wf(),
        y.wf(),
    ensures
        r == spec_add(x, y),
        r matches Some(d) ==> d.wf(),
{
    let e = if x.exponent <= y.exponent {
        x.exponent
    } else {
        y.exponent
    };
    let a = shift_mantissa(x.mantissa, (x.exponent - e) as u32);
    let b = shift_mantissa(y.mantissa, (y.exponent - e) as u32);
    let ghost sa = x.mantissa * pow10((x.exponent - e) as nat);
    let ghost sb = y.mantissa * pow10((y.exponent - e) as nat);
    proof {
        lemma_pow10_values();
        if x.exponent == e {
            assert(pow10(0) == 1);
            assert(sa == x.mantissa);
        }
        if y.exponent == e {
            assert(pow10(0) == 1);
            assert(sb == y.mantissa);
        }
    }
    match (a, b) {
        (Some(a), Some(b)) => {
            let s = a + b;
            if s < -(MAX_MANTISSA as i128) || s > MAX_MANTISSA as i128 {
                None
            } else {
                Some(Decimal { mantissa: s as i64, exponent: e })
            }
        },
        _ => None,
    }
}

/// `-x`.
pub fn negate(x: Decimal) -> (r: Decimal)
    requires
        x.wf(),
    ensures
        r.mantissa == -x.mantissa,
        r.exponent == x.exponent,
        r.wf(),
{
    Decimal { mantissa: -x.mantissa, exponent: x.exponent }
}

/// `1 / x` to seventeen significant digits, cut toward zero: with `K` the
/// count of digits of `x`'s mantissa plus sixteen, the mantissa is
/// `10^K / |m|` carrying `m`'s sign, and the exponent `-e - K`. `None` for
/// zero or when the exponent leaves its bounds.
pub open spec fn spec_reciprocal(x: Decimal) -> Option<Decimal> {
    let a = abs_int(x.mantissa as int);
    let k = num_digits(a) + 16;
    let q = pow10(k) / a;
    let e = -x.exponent - k;
    if a == 0 || e < -MAX_EXPONENT || e > MAX_EXPONENT {
        None
    } else {
        Some(Decimal { mantissa: (if x.mantissa < 0 { -q } else { q as int }) as i64, exponent: e as i32 })
    }
}

fn pow10_u128(t: u32) -> (r: u128)
    requires
        t <= 38,
    ensures
        r == pow10(t as nat),
{
    let mut r: u128 = 1;
    let mut i: u32 = 0;
    while i < t
        invariant
            i <= t <= 38,
            r == pow10(i as nat),
            r <= 100000000000000000000000000000000000000,
        decreases t - i,
    {
        proof {
            if i + 1 < 39 {
                lemma_pow10_monotone(i as nat + 1, 38);
            }
            lemma_pow10_big();
        }
        r = r * 10;
        i = i + 1;
    }
    r
}

proof fn lemma_pow10_big()
    ensures
        pow10(38) == 100000000000000000000000000000000000000,
{
    reveal_with_fuel(pow10, 39);
}

/// The reciprocal of `x`, when `x` is not zero and the result fits.
pub fn reciprocal(x: Decimal) -> (r: Option<Decimal>)
    requires
        x.wf(),
    ensures
        r == spec_reciprocal(x),
        r matches Some(d) ==> d.wf(),
{
    let a = abs_u64(x.mantissa);
    if a == 0 {
        return None;
    }
    let digits = digit_count(a);
    let k: u32 = digits + 16;
    let e: i64 = -(x.exponent as i64) - k as i64;
    if e < -(MAX_EXPONENT as i64) || e > MAX_EXPONENT as i64 {
        return None;
    }
    let p = pow10_u128(k);
    let q = p / a as u128;
    proof {
        let an = a as nat;
        lemma_num_digits_bounds(an);
        lemma_pow10_add(digits as nat, 16);
        lemma_pow10_add((digits - 1) as nat, 17);
        lemma_pow10_values();
        assert(pow10(17) == 100000000000000000) by {
            reveal_with_fuel(pow10, 18);
        }
        let pd = pow10(digits as nat);
        let pd1 = pow10((digits - 1) as nat);
        assert(pow10(k as nat) == pd * 10000000000000000);
        assert(pd == pd1 * 10) by {
            lemma_pow10_add((digits - 1) as nat, 1);
        }
        assert(q <= 100000000000000000) by (nonlinear_arith)
            requires
                q == (pd * 10000000000000000) / an,
                pd1 <= an,
                pd == pd1 * 10,
                an >= 1,
        ;
    }
    let qi: i64 = q as i64;
    Some(Decimal { mantissa: if x.mantissa < 0 { -qi } else { qi }, exponent: e as i32 })
}

/// Decimals needed to write `d` exactly, trailing zeros dropped.
pub open spec fn minimal_decimals(d: Decimal) -> nat
    decreases (if d.exponent < 0 { -d.exponent } else { 0 }),
{
    if d.exponent >= 0 {
        0
    } else if d.mantissa % 10 != 0 {
        (-d.exponent) as nat
    } else {
        minimal_decimals(Decimal { mantissa: (d.mantissa / 10) as i64, exponent: (d.exponent + 1) as i32 })
    }
}

fn minimal_decimals_exec(d: Decimal) -> (r: u32)
    requires
        d.wf(),
    ensures
        r == minimal_decimals(d),
        r <= 1000,
    decreases (if d.exponent < 0 { -d.exponent } else { 0 }),
{
    if d.exponent >= 0 {
        0
    } else if d.mantissa % 10 != 0 {
        (-d.exponent) as u32
    } else {
        minimal_decimals_exec(Decimal { mantissa: d.mantissa / 10, exponent: d.exponent + 1 })
    }
}

/// `d` written in full with no exponent and no trailing zeros after the point.
pub open spec fn plain_text(d: Decimal) -> Seq<char> {
    fixed_text(d, minimal_decimals(d), false)
}

/// Appends [`plain_text`] of `d`.
pub fn write_plain(d: Decimal, out: &mut Vec<char>)
    requires
        d.wf(),
    ensures
        final(out)@ == old(out)@ + plain_text(d),
{
    let p = minimal_decimals_exec(d);
    write_fixed(d, p, false, out);
}


/// `ma * 10^u == mb * 10^w` does not change when `u` and `w` move together.
proof fn lemma_shift_equal(ma: int, mb: int, u: nat, w: nat, k: nat)
    ensures
        (ma * pow10(u) == mb * pow10(w)) == (ma * pow10(u + k) == mb * pow10(w + k)),
{
    lemma_pow10_add(u, k);
    lemma_pow10_add(w, k);
    lemma_pow10_positive(k);
    let c = pow10(k);
    let x = ma * pow10(u);
    let y = mb * pow10(w);
    assert(ma * pow10(u + k) == x * c) by (nonlinear_arith)
        requires
            pow10(u + k) == pow10(u) * c,
            x == ma * pow10(u),
    ;
    assert(mb * pow10(w + k) == y * c) by (nonlinear_arith)
        requires
            pow10(w + k) == pow10(w) * c,
            y == mb * pow10(w),
    ;
    assert((x == y) == (x * c == y * c)) by (nonlinear_arith)
        requires
            c >= 1,
    ;
}

proof fn lemma_shift_equal_any(ma: int, mb: int, u: nat, w: nat, u2: nat, w2: nat)
    requires
        u - w == u2 - w2,
    ensures
        (ma * pow10(u) == mb * pow10(w)) == (ma * pow10(u2) == mb * pow10(w2)),
{
    if u <= u2 {
        lemma_shift_equal(ma, mb, u, w, (u2 - u) as nat);
        assert(w + (u2 - u) == w2);
    } else {
        lemma_shift_equal(ma, mb, u2, w2, (u - u2) as nat);
        assert(w2 + (u - u2) == w);
    }
}

/// Two decimals are equal in value exactly when their mantissas agree at the
/// finer of their exponents.
pub proof fn lemma_same_value_aligned(a: Decimal, b: Decimal)
    ensures
        ({
            let e = if a.exponent <= b.exponent { a.exponent } else { b.exponent };
            same_value(a, b) == (a.mantissa * pow10((a.exponent - e) as nat) == b.mantissa * pow10(
                (b.exponent - e) as nat,
            ))
        }),
{
    let ea = a.exponent as int;
    let eb = b.exponent as int;
    let e = if ea <= eb { ea } else { eb };
    let ap: nat = if ea >= 0 { ea as nat } else { 0 };
    let am: nat = if ea < 0 { (-ea) as nat } else { 0 };
    let bp: nat = if eb >= 0 { eb as nat } else { 0 };
    let bm: nat = if eb < 0 { (-eb) as nat } else { 0 };
    lemma_pow10_add(ap, bm);
    lemma_pow10_add(bp, am);
    lemma_pow10_values();
    assert(pow10(0) == 1);
    let ma = a.mantissa as int;
    let mb = b.mantissa as int;
    assert(a.num() == ma * pow10(ap)) by (nonlinear_arith)
        requires
            a.num() == (if ea >= 0 { ma * pow10(ea as nat) } else { ma }),
            ap == (if ea >= 0 { ea as nat } else { 0 }),
            pow10(0) == 1,
    ;
    assert(b.num() == mb * pow10(bp)) by (nonlinear_arith)
        requires
            b.num() == (if eb >= 0 { mb * pow10(eb as nat) } else { mb }),
            bp == (if eb >= 0 { eb as nat } else { 0 }),
            pow10(0) == 1,
    ;
    assert(a.den() == pow10(am));
    assert(b.den() == pow10(bm));
    assert(a.num() * b.den() == ma * pow10(ap + bm)) by (nonlinear_arith)
        requires
            a.num() == ma * pow10(ap),
            b.den() == pow10(bm),
            pow10(ap + bm) == pow10(ap) * pow10(bm),
    ;
    assert(b.num() * a.den() == mb * pow10(bp + am)) by (nonlinear_arith)
        requires
            b.num() == mb * pow10(bp),
            a.den() == pow10(am),
            pow10(bp + am) == pow10(bp) * pow10(am),
    ;
    lemma_shift_equal_any(ma, mb, ap + bm, bp + am, (ea - e) as nat, (eb - e) as nat);
}

/// Whether two decimals denote the same number.
pub fn value_eq(a: Decimal, b: Decimal) -> (r: bool)
    requires
        a.wf(),
        b.wf(),
    ensures
        r == same_value(a, b),
{
    let nb = negate(b);
    proof {
        lemma_same_value_aligned(a, b);
        let e = if a.exponent <= b.exponent { a.exponent } else { b.exponent };
        let pb = pow10((b.exponent - e) as nat);
        let mb = b.mantissa as int;
        assert((-mb) * pb == -(mb * pb)) by (nonlinear_arith);
    }
    match checked_add(a, nb) {
        Some(d) => d.mantissa == 0,
        None => false,
    }
}

} // verus!
