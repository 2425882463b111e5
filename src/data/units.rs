//! Physical quantities with their unit suffixes.
use vstd::prelude::*;
use crate::scaled_number::{
    abs_int, lemma_num_digits_bounds, lemma_parse_body_suffix,
    lemma_pow10_add, lemma_pow10_monotone, lemma_pow10_positive, lemma_pow10_values,
    lemma_same_value_aligned, lemma_unscale_exponent_bounds, lemma_unscale_mantissa_range,
    num_digits, pad_left, fixed_body, pow10, rounded_abs, same_value,
    parse_scaled_in, scaled_text, spec_parse_scaled, spec_unscale, fixed_text, unscale,
    write_fixed, write_scaled, Decimal, SiScale, abs_u64, digit_count,
};
use crate::text::{
    lemma_digits_of, lemma_digits_times_pow10, zeros,
    all_digits, chars_of, strip_suffix, digits_of, digits_value, push_digits, string_from_chars, trim, trim_in,
    value_of,
};

verus! {

/// Why a quantity could not be read.
#[derive(Debug, Clone, Copy, PartialEq, Eq, Structural)]
pub enum UnitParseError {
    /// The text does not end in the unit.
    MissingUnit,
    /// The number before the unit is not valid.
    InvalidNumber,
}

/// A quantity: `suffix` stripped, then a scaled number.
pub open spec fn spec_parse_unit(s: Seq<char>, suffix: Seq<char>) -> Result<Decimal, UnitParseError> {
    match strip_suffix(s, suffix) {
        None => Err(UnitParseError::MissingUnit),
        Some(t) => match spec_parse_scaled(t) {
            None => Err(UnitParseError::InvalidNumber),
            Some(d) => Ok(d),
        },
    }
}

/// Whether `v` ends with `suffix`.
fn ends_with(v: &Vec<char>, suffix: &str) -> (r: bool)
    ensures
        r == (strip_suffix(v@, suffix@) is Some),
{
    let sv = chars_of(suffix);
    if v.len() < sv.len() {
        return false;
    }
    let off = v.len() - sv.len();
    let mut i: usize = 0;
    while i < sv.len()
        invariant
            off + sv@.len() == v@.len(),
            off + sv.len() == v.len(),
            i <= sv@.len(),
            sv@ == suffix@,
            forall|j: int| 0 <= j < i ==> v@[off + j] == sv@[j],
        decreases sv.len() - i,
    {
        if v[off + i] != sv[i] {
            assert(v@.skip(off as int)[i as int] != sv@[i as int]);
            return false;
        }
        i = i + 1;
    }
    assert(v@.skip(off as int) =~= sv@);
    true
}

/// Reads a quantity written with the unit `suffix`.
pub fn parse_unit(s: &str, suffix: &str) -> (r: Result<Decimal, UnitParseError>)
    ensures
        r == spec_parse_unit(s@, suffix@),
        r matches Ok(d) ==> d.wf(),
{
    let v = chars_of(s);
    if !ends_with(&v, suffix) {
        return Err(UnitParseError::MissingUnit);
    }
    let n = v.len() - suffix.unicode_len();
    match parse_scaled_in(&v, 0, n) {
        None => Err(UnitParseError::InvalidNumber),
        Some(d) => Ok(d),
    }
}

/// Appends the characters of `s`.
fn push_text(s: &str, out: &mut Vec<char>)
    ensures
        final(out)@ == old(out)@ + s@,
{
    crate::text::push_str(s, out);
}

/// The number with its prefix, then the unit.
pub open spec fn unit_text(x: Decimal, precision: nat, alternate: bool, unit: Seq<char>) -> Seq<char> {
    scaled_text(x, precision, alternate, false) + unit
}

fn format_unit(x: Decimal, precision: usize, alternate: bool, unit: &str) -> (r: String)
    requires
        x.wf(),
        precision <= 1000,
    ensures
        r@ == unit_text(x, precision as nat, alternate, unit@),
{
    let mut out: Vec<char> = Vec::new();
    write_scaled(x, precision as u32, alternate, false, &mut out);
    push_text(unit, &mut out);
    assert(out@ =~= unit_text(x, precision as nat, alternate, unit@));
    string_from_chars(&out)
}

/// A frequency in hertz.
#[derive(Debug, Clone, Copy, PartialEq, Eq, Structural)]
pub struct Frequency(pub Decimal);

impl Frequency {
    /// Reads `<number>[prefix]Hz`.
    pub fn parse(s: &str) -> (r: Result<Frequency, UnitParseError>)
        ensures
            r == (match spec_parse_unit(s@, seq!['H', 'z']) {
                Ok(d) => Ok(Frequency(d)),
                Err(e) => Err(e),
            }),
    {
        proof {
            reveal_strlit("Hz");
            assert("Hz"@ =~= seq!['H', 'z']);
        }
        match parse_unit(s, "Hz") {
            Ok(d) => Ok(Frequency(d)),
            Err(e) => Err(e),
        }
    }

    /// The value with `precision` significant decimals, its prefix and `Hz`.
    pub fn format(&self, precision: usize, alternate: bool) -> (r: String)
        requires
            self.0.wf(),
            precision <= 1000,
        ensures
            r@ == unit_text(self.0, precision as nat, alternate, seq!['H', 'z']),
    {
        proof {
            reveal_strlit("Hz");
            assert("Hz"@ =~= seq!['H', 'z']);
        }
        format_unit(self.0, precision, alternate, "Hz")
    }
}

/// A sampling rate in samples per second.
#[derive(Debug, Clone, Copy, PartialEq, Eq, Structural)]
pub struct SamplingRate(pub Decimal);

impl SamplingRate {
    /// Reads `<number>[prefix]Sa/s`.
    pub fn parse(s: &str) -> (r: Result<SamplingRate, UnitParseError>)
        ensures
            r == (match spec_parse_unit(s@, seq!['S', 'a', '/', 's']) {
                Ok(d) => Ok(SamplingRate(d)),
                Err(e) => Err(e),
            }),
    {
        proof {
            reveal_strlit("Sa/s");
            assert("Sa/s"@ =~= seq!['S', 'a', '/', 's']);
        }
        match parse_unit(s, "Sa/s") {
            Ok(d) => Ok(SamplingRate(d)),
            Err(e) => Err(e),
        }
    }

    /// The value with `precision` significant decimals, its prefix and `Sa/s`.
    pub fn format(&self, precision: usize, alternate: bool) -> (r: String)
        requires
            self.0.wf(),
            precision <= 1000,
        ensures
            r@ == unit_text(self.0, precision as nat, alternate, seq!['S', 'a', '/', 's']),
    {
        proof {
            reveal_strlit("Sa/s");
            assert("Sa/s"@ =~= seq!['S', 'a', '/', 's']);
        }
        format_unit(self.0, precision, alternate, "Sa/s")
    }
}

/// A voltage in volts.
#[derive(Debug, Clone, Copy, PartialEq, Eq, Structural)]
pub struct Voltage(pub Decimal);

/// A voltage: `v` or `V` stripped, then ASCII white space cut from both ends
/// (some firmware puts a space before the unit), then a scaled number.
pub open spec fn spec_parse_voltage(s: Seq<char>) -> Result<Decimal, UnitParseError> {
    if s.len() == 0 || (s.last() != 'v' && s.last() != 'V') {
        Err(UnitParseError::MissingUnit)
    } else {
        match spec_parse_scaled(trim(s.drop_last(), true)) {
            None => Err(UnitParseError::InvalidNumber),
            Some(d) => Ok(d),
        }
    }
}

impl Voltage {
    /// Reads `<number>[prefix][white space](v|V)`.
    pub fn parse(s: &str) -> (r: Result<Voltage, UnitParseError>)
        ensures
            r == (match spec_parse_voltage(s@) {
                Ok(d) => Ok(Voltage(d)),
                Err(e) => Err(e),
            }),
            r matches Ok(v) ==> v.0.wf(),
    {
        let v = chars_of(s);
        let n = v.len();
        if n == 0 || (v[n - 1] != 'v' && v[n - 1] != 'V') {
            return Err(UnitParseError::MissingUnit);
        }
        let (b, e) = trim_in(&v, 0, n - 1, true);
        assert(v@.subrange(0, n - 1) == s@.drop_last());
        match parse_scaled_in(&v, b, e) {
            None => Err(UnitParseError::InvalidNumber),
            Some(d) => Ok(Voltage(d)),
        }
    }

    /// The value with `precision` significant decimals, its prefix and `V`.
    pub fn format(&self, precision: usize, alternate: bool) -> (r: String)
        requires
            self.0.wf(),
            precision <= 1000,
        ensures
            r@ == unit_text(self.0, precision as nat, alternate, seq!['V']),
    {
        proof {
            reveal_strlit("V");
            assert("V"@ =~= seq!['V']);
        }
        format_unit(self.0, precision, alternate, "V")
    }

    /// The value with three significant decimals, its prefix and `V`.
    pub fn to_text(&self) -> (r: String)
        requires
            self.0.wf(),
        ensures
            r@ == unit_text(self.0, 3, false, seq!['V']),
    {
        self.format(3, false)
    }
}

/// A time in seconds.
#[derive(Debug, Clone, Copy, PartialEq, Eq, Structural)]
pub struct Time(pub Decimal);

/// A time: values of at least one second are written in whole seconds,
/// smaller ones with an SI prefix and no decimals; a mantissa below ten gets
/// `.0` after it.
pub open spec fn time_text(x: Decimal, alternate: bool) -> Seq<char> {
    let whole = x.mantissa != 0 && x.magnitude() >= 0;
    let val = if whole {
        x
    } else {
        spec_unscale(x).0
    };
    let sc = if whole {
        SiScale::Unity
    } else {
        spec_unscale(x).1
    };
    let below_ten = val.mantissa == 0 || val.magnitude() < 1;
    fixed_text(val, 0, false) + (if below_ten {
        seq!['.', '0']
    } else {
        Seq::empty()
    }) + sc.spec_suffix(alternate) + seq!['s']
}

/// Position of the leading digit of a non-zero `x`.
pub fn magnitude_of(x: Decimal) -> (r: i64)
    requires
        x.wf(),
    ensures
        r == x.magnitude(),
{
    let d: i64 = digit_count(abs_u64(x.mantissa)) as i64;
    d - 1 + x.exponent as i64
}

/// The mantissa a time is written with: itself from one second up, else its
/// mantissa at its SI prefix.
pub open spec fn time_written(x: Decimal) -> Decimal {
    if x.mantissa != 0 && x.magnitude() >= 0 {
        x
    } else {
        spec_unscale(x).0
    }
}

/// The prefix a time is written with.
pub open spec fn time_scale(x: Decimal) -> SiScale {
    if x.mantissa != 0 && x.magnitude() >= 0 {
        SiScale::Unity
    } else {
        spec_unscale(x).1
    }
}

/// Whether a `.0` follows a time's written mantissa.
pub open spec fn time_below_ten(x: Decimal) -> bool {
    time_written(x).mantissa == 0 || time_written(x).magnitude() < 1
}

/// The digits a time's text shows (the `.0` included) and the decimals
/// among them.
pub open spec fn time_shown(x: Decimal) -> (nat, nat) {
    let n = rounded_abs(time_written(x), 0);
    if time_below_ten(x) {
        (10 * n, 1)
    } else {
        (n, 0)
    }
}

proof fn lemma_time_digits(x: Decimal)
    requires
        x.wf(),
        x.mantissa != 0,
        -12 <= x.magnitude() < 12,
        time_written(x).exponent >= 0,
    ensures
        time_written(x).mantissa == x.mantissa,
        time_written(x).exponent + time_scale(x).spec_exponent() == x.exponent,
        rounded_abs(time_written(x), 0) == abs_int(x.mantissa as int) * pow10(
            time_written(x).exponent as nat,
        ),
        1 <= rounded_abs(time_written(x), 0) < 1000000000000,
{
    lemma_unscale_mantissa_range(x);
    lemma_unscale_exponent_bounds(x);
    let val = time_written(x);
    let a = abs_int(x.mantissa as int);
    let e = val.exponent as nat;
    let n = rounded_abs(val, 0);
    assert(n == a * pow10(e));
    let d = num_digits(a);
    lemma_num_digits_bounds(a);
    lemma_pow10_add(d, e);
    lemma_pow10_monotone(d + e, 12);
    lemma_pow10_positive(e);
    assert(pow10(12) == 1000000000000) by {
        reveal_with_fuel(pow10, 13);
    }
    assert(n < pow10(d + e)) by (nonlinear_arith)
        requires
            n == a * pow10(e),
            a < pow10(d),
            pow10(d + e) == pow10(d) * pow10(e),
            pow10(e) >= 1,
    ;
    assert(n >= 1) by (nonlinear_arith)
        requires
            n == a * pow10(e),
            a >= 1,
            pow10(e) >= 1,
    ;
}

proof fn lemma_time_text_shape(x: Decimal)
    requires
        x.wf(),
        x.mantissa != 0,
        -12 <= x.magnitude() < 12,
        time_written(x).exponent >= 0,
    ensures
        time_text(x, true) == (if x.mantissa < 0 {
            seq!['-']
        } else {
            Seq::<char>::empty()
        }) + fixed_body(time_shown(x).0, time_shown(x).1) + time_scale(x).spec_suffix(true) + seq![
            's',
        ],
{
    lemma_time_digits(x);
    let val = time_written(x);
    let n = rounded_abs(val, 0);
    let sg = if x.mantissa < 0 {
        seq!['-']
    } else {
        Seq::<char>::empty()
    };
    lemma_digits_of(n);
    assert(pad_left(digits_of(n), 1) == digits_of(n));
    assert(fixed_text(val, 0, false) == sg + fixed_body(n, 0));
    if time_below_ten(x) {
        lemma_digits_times_pow10(n, 1);
        lemma_pow10_values();
        assert(n * pow10(1) == 10 * n);
        let ds = digits_of(10 * n);
        assert(ds == digits_of(n) + zeros(1));
        assert(pad_left(ds, 2) == ds);
        assert(ds.take(ds.len() - 1) == digits_of(n));
        assert(ds.skip(ds.len() - 1) =~= seq!['0']);
        assert(fixed_body(10 * n, 1) =~= digits_of(n) + seq!['.', '0']);
    }
    assert(time_text(x, true) =~= sg + fixed_body(time_shown(x).0, time_shown(x).1)
        + time_scale(x).spec_suffix(true) + seq!['s']);
}

/// A time from `1e-12` up to (not including) `1e12` whose written mantissa
/// is whole reads back from its alternate text, the form commands use, as
/// the same number.
pub proof fn lemma_time_text_round_trip(x: Decimal)
    requires
        x.wf(),
        x.mantissa != 0,
        -12 <= x.magnitude() < 12,
        time_written(x).exponent >= 0,
    ensures
        spec_parse_unit(time_text(x, true), seq!['s']) matches Ok(y) && same_value(x, y),
{
    lemma_time_digits(x);
    lemma_time_text_shape(x);
    let neg = x.mantissa < 0;
    let sg = if neg {
        seq!['-']
    } else {
        Seq::<char>::empty()
    };
    let (big_n, q) = time_shown(x);
    let sc = time_scale(x);
    let body = sg + fixed_body(big_n, q) + sc.spec_suffix(true);
    let t = time_text(x, true);
    assert(t == body.push('s'));
    assert(t.skip(t.len() - 1) =~= seq!['s']);
    assert(t.take(t.len() - 1) =~= body);
    lemma_parse_body_suffix(neg, big_n, q, sc);
    let y = Decimal {
        mantissa: (if neg { -big_n } else { big_n as int }) as i64,
        exponent: (sc.spec_exponent() - q) as i32,
    };
    assert(spec_parse_unit(t, seq!['s']) == Ok::<Decimal, UnitParseError>(y));
    let m = x.mantissa as int;
    let e = time_written(x).exponent as nat;
    let n = rounded_abs(time_written(x), 0);
    lemma_pow10_add(e, q);
    lemma_pow10_values();
    assert(pow10(0) == 1);
    assert(y.mantissa == m * pow10(e + q)) by (nonlinear_arith)
        requires
            y.mantissa == (if neg { -big_n } else { big_n as int }),
            big_n == (if q == 1 { 10 * n } else { n }),
            n == abs_int(m) * pow10(e),
            neg == (m < 0),
            pow10(e + q) == pow10(e) * pow10(q),
            pow10(q) == (if q == 1 { 10nat } else { 1nat }),
    ;
    assert(x.exponent - y.exponent == e + q);
    lemma_same_value_aligned(x, y);
    assert(y.mantissa * pow10(0) == y.mantissa);
}

impl Time {
    /// Reads `<number>[prefix]s`.
    pub fn parse(s: &str) -> (r: Result<Time, UnitParseError>)
        ensures
            r == (match spec_parse_unit(s@, seq!['s']) {
                Ok(d) => Ok(Time(d)),
                Err(e) => Err(e),
            }),
    {
        proof {
            reveal_strlit("s");
            assert("s"@ =~= seq!['s']);
        }
        match parse_unit(s, "s") {
            Ok(d) => Ok(Time(d)),
            Err(e) => Err(e),
        }
    }

    /// The time as [`time_text`] writes it; `alternate` writes micro as `u`.
    pub fn format(&self, alternate: bool) -> (r: String)
        requires
            self.0.wf(),
        ensures
            r@ == time_text(self.0, alternate),
    {
        let x = self.0;
        let mut out: Vec<char> = Vec::new();
        let whole = x.mantissa != 0 && magnitude_of(x) >= 0;
        let (val, sc) = if whole {
            (x, SiScale::Unity)
        } else {
            unscale(x)
        };
        write_fixed(val, 0, false, &mut out);
        if val.mantissa == 0 || magnitude_of(val) < 1 {
            out.push('.');
            out.push('0');
        }
        match sc.suffix(alternate) {
            Some(c) => out.push(c),
            None => {},
        }
        out.push('s');
        assert(out@ =~= time_text(x, alternate));
        string_from_chars(&out)
    }

    /// The time as [`time_text`] writes it, with micro as `µ`.
    pub fn to_text(&self) -> (r: String)
        requires
            self.0.wf(),
        ensures
            r@ == time_text(self.0, false),
    {
        self.format(false)
    }
}

/// An unsigned integer text: an optional `+` and at least one digit.
pub open spec fn spec_parse_u32(s: Seq<char>) -> Option<u32> {
    let body = if s.len() > 0 && s[0] == '+' {
        s.skip(1)
    } else {
        s
    };
    if body.len() == 0 || !all_digits(body) || value_of(body) > u32::MAX {
        None
    } else {
        Some(value_of(body) as u32)
    }
}

/// Reads an unsigned integer from `v[lo..hi]`.
pub fn parse_u32_in(v: &Vec<char>, lo: usize, hi: usize) -> (r: Option<u32>)
    requires
        lo <= hi <= v@.len(),
    ensures
        r == spec_parse_u32(v@.subrange(lo as int, hi as int)),
{
    let ghost s = v@.subrange(lo as int, hi as int);
    let mut i = lo;
    if i < hi && v[i] == '+' {
        i = i + 1;
    }
    assert(v@.subrange(i as int, hi as int) == (if s.len() > 0 && s[0] == '+' {
        s.skip(1)
    } else {
        s
    }));
    if i == hi {
        return None;
    }
    match digits_value(v, i, hi, 0, u32::MAX as u64) {
        None => None,
        Some(x) => Some(x as u32),
    }
}

/// The attenuation of a probe, as a multiplier.
#[derive(Debug, Clone, Copy, PartialEq, Eq, Structural)]
pub struct ProbeAttenuation(pub u32);

/// An attenuation: `x` or `X` stripped, then an unsigned integer.
pub open spec fn spec_parse_attenuation(s: Seq<char>) -> Result<u32, UnitParseError> {
    if s.len() == 0 || (s.last() != 'x' && s.last() != 'X') {
        Err(UnitParseError::MissingUnit)
    } else {
        match spec_parse_u32(s.drop_last()) {
            None => Err(UnitParseError::InvalidNumber),
            Some(n) => Ok(n),
        }
    }
}

impl ProbeAttenuation {
    /// Reads `<integer>(x|X)`.
    pub fn parse(s: &str) -> (r: Result<ProbeAttenuation, UnitParseError>)
        ensures
            r == (match spec_parse_attenuation(s@) {
                Ok(n) => Ok(ProbeAttenuation(n)),
                Err(e) => Err(e),
            }),
    {
        let v = chars_of(s);
        let n = v.len();
        if n == 0 || (v[n - 1] != 'x' && v[n - 1] != 'X') {
            return Err(UnitParseError::MissingUnit);
        }
        assert(v@.subrange(0, n - 1) == s@.drop_last());
        match parse_u32_in(&v, 0, n - 1) {
            None => Err(UnitParseError::InvalidNumber),
            Some(k) => Ok(ProbeAttenuation(k)),
        }
    }

    /// The multiplier followed by `X`.
    pub fn to_text(&self) -> (r: String)
        ensures
            r@ == digits_of(self.0 as nat) + seq!['X'],
    {
        let mut out: Vec<char> = Vec::new();
        push_digits(self.0 as u64, &mut out);
        out.push('X');
        assert(out@ =~= digits_of(self.0 as nat) + seq!['X']);
        string_from_chars(&out)
    }
}

impl Default for ProbeAttenuation {
    fn default() -> (r: ProbeAttenuation)
        ensures
            r.0 == 10,
    {
        ProbeAttenuation(10)
    }
}

impl core::str::FromStr for Frequency {
    type Err = UnitParseError;

    fn from_str(s: &str) -> Result<Frequency, UnitParseError> {
        Frequency::parse(s)
    }
}

impl core::str::FromStr for SamplingRate {
    type Err = UnitParseError;

    fn from_str(s: &str) -> Result<SamplingRate, UnitParseError> {
        SamplingRate::parse(s)
    }
}

impl core::str::FromStr for Voltage {
    type Err = UnitParseError;

    fn from_str(s: &str) -> Result<Voltage, UnitParseError> {
        Voltage::parse(s)
    }
}

impl core::str::FromStr for Time {
    type Err = UnitParseError;

    fn from_str(s: &str) -> Result<Time, UnitParseError> {
        Time::parse(s)
    }
}

impl core::str::FromStr for ProbeAttenuation {
    type Err = UnitParseError;

    fn from_str(s: &str) -> Result<ProbeAttenuation, UnitParseError> {
        ProbeAttenuation::parse(s)
    }
}

} // verus!
