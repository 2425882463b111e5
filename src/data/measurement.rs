//! Measurement responses (`Vpp=3.720V`) and the values derived from them.
use vstd::prelude::*;
use crate::data::head::Channel;
use crate::scaled_number::{
    checked_add, negate, parse_scaled_in, reciprocal, scaled_text, spec_add, spec_parse_scaled,
    spec_reciprocal, write_scaled, Decimal,
};
use crate::text::{chars_of, ends_with_in, matches_at, push_str, string_from_chars, strip_prefix, strip_suffix};

verus! {

/// The quantities the instrument can measure on a channel.
#[derive(Debug, Clone, Copy, PartialEq, Eq, Structural)]
pub enum MeasurementKind {
    PeakToPeak,
    Amplitude,
    Average,
    Period,
    Frequency,
    RiseTime,
    PeakWidth,
    TroughWidth,
    Rms,
}

impl MeasurementKind {
    pub open spec fn spec_prefix(self) -> Seq<char> {
        match self {
            MeasurementKind::PeakToPeak => "Vpp"@,
            MeasurementKind::Amplitude => "Va"@,
            MeasurementKind::Average => "V"@,
            MeasurementKind::Period => "T"@,
            MeasurementKind::Frequency => "F"@,
            MeasurementKind::RiseTime => "RT"@,
            MeasurementKind::PeakWidth => "PW"@,
            MeasurementKind::TroughWidth => "NW"@,
            MeasurementKind::Rms => "RMS"@,
        }
    }

    /// The name the instrument puts before `=`.
    pub fn prefix(self) -> (r: &'static str)
        ensures
            r@ == self.spec_prefix(),
    {
        match self {
            MeasurementKind::PeakToPeak => "Vpp",
            MeasurementKind::Amplitude => "Va",
            MeasurementKind::Average => "V",
            MeasurementKind::Period => "T",
            MeasurementKind::Frequency => "F",
            MeasurementKind::RiseTime => "RT",
            MeasurementKind::PeakWidth => "PW",
            MeasurementKind::TroughWidth => "NW",
            MeasurementKind::Rms => "RMS",
        }
    }

    pub open spec fn spec_unit(self) -> Seq<char> {
        match self {
            MeasurementKind::Period | MeasurementKind::RiseTime | MeasurementKind::PeakWidth
            | MeasurementKind::TroughWidth => "s"@,
            MeasurementKind::Frequency => "Hz"@,
            _ => "V"@,
        }
    }

    /// The unit after the value.
    pub fn unit(self) -> (r: &'static str)
        ensures
            r@ == self.spec_unit(),
    {
        match self {
            MeasurementKind::Period | MeasurementKind::RiseTime | MeasurementKind::PeakWidth
            | MeasurementKind::TroughWidth => "s",
            MeasurementKind::Frequency => "Hz",
            _ => "V",
        }
    }

    pub open spec fn spec_label(self) -> Seq<char> {
        match self {
            MeasurementKind::Average => "Vavg"@,
            _ => self.spec_prefix(),
        }
    }

    /// The name shown before `=` in a display.
    pub fn label(self) -> (r: &'static str)
        ensures
            r@ == self.spec_label(),
    {
        match self {
            MeasurementKind::Average => "Vavg",
            _ => self.prefix(),
        }
    }
}

/// Why a response line gave no measurement.
#[derive(Debug, Clone, Copy, PartialEq, Eq, Structural)]
pub enum MeasurementError {
    /// The line is about another quantity.
    OtherPrefix,
    /// The line names the quantity but its value cannot be read.
    InvalidValue,
}

/// A response line `<prefix>=<value><unit>\n`; `<prefix>=?\n` and
/// `<prefix>=OFF\n` mean that there is no reading.
pub open spec fn spec_parse_measurement(s: Seq<char>, kind: MeasurementKind) -> Result<
    Option<Decimal>,
    MeasurementError,
> {
    match strip_prefix(s, kind.spec_prefix().push('=')) {
        None => Err(MeasurementError::OtherPrefix),
        Some(rest) => if strip_suffix(rest, "?\n"@) is Some || strip_suffix(rest, "OFF\n"@) is Some {
            Ok(None)
        } else {
            match strip_suffix(rest, kind.spec_unit().push('\n')) {
                None => Err(MeasurementError::InvalidValue),
                Some(t) => match spec_parse_scaled(t) {
                    None => Err(MeasurementError::InvalidValue),
                    Some(d) => Ok(Some(d)),
                },
            }
        },
    }
}

/// Reads the reading of `kind` from a response line.
pub fn parse_measurement(s: &str, kind: MeasurementKind) -> (r: Result<Option<Decimal>, MeasurementError>)
    ensures
        r == spec_parse_measurement(s@, kind),
        r matches Ok(Some(d)) ==> d.wf(),
{
    let v = chars_of(s);
    let n = v.len();
    let p = kind.prefix();
    let pl = p.unicode_len();
    let ghost pre = kind.spec_prefix().push('=');
    if !(matches_at(&v, 0, p) && pl < n && v[pl] == '=') {
        proof {
            if s@.len() >= pre.len() && s@.take(pre.len() as int) == pre {
                let t = s@.take(pre.len() as int);
                assert(pre.len() == pl + 1);
                assert(v@.subrange(0, pl as int) =~= t.take(pl as int));
                assert(pre.take(pl as int) =~= p@);
                assert(t[pl as int] == v@[pl as int]);
                assert(pre[pl as int] == '=');
            }
        }
        return Err(MeasurementError::OtherPrefix);
    }
    assert(s@.take(pre.len() as int) =~= pre);
    let lo = pl + 1;
    assert(v@.subrange(lo as int, n as int) == s@.skip(pre.len() as int));
    if ends_with_in(&v, lo, n, "?\n") || ends_with_in(&v, lo, n, "OFF\n") {
        return Ok(None);
    }
    let u = kind.unit();
    let ul = u.unicode_len();
    let ghost rest = v@.subrange(lo as int, n as int);
    let ghost suf = kind.spec_unit().push('\n');
    if !(n - lo > ul && v[n - 1] == '\n' && matches_at(&v, n - 1 - ul, u)) {
        proof {
            if rest.len() >= suf.len() && rest.skip(rest.len() - suf.len()) == suf {
                let t = rest.skip(rest.len() - suf.len());
                assert(suf.len() == ul + 1);
                assert(n - lo > ul);
                assert(t[ul as int] == v@[n - 1]);
                assert(suf[ul as int] == '\n');
                assert(v@.subrange(n - 1 - ul, n - 1) =~= t.take(ul as int));
                assert(suf.take(ul as int) =~= u@);
            }
        }
        return Err(MeasurementError::InvalidValue);
    }
    assert(rest.skip(rest.len() - suf.len()) =~= suf);
    assert(rest.take(rest.len() - suf.len()) == v@.subrange(lo as int, n - 1 - ul));
    match parse_scaled_in(&v, lo, n - 1 - ul) {
        None => Err(MeasurementError::InvalidValue),
        Some(d) => Ok(Some(d)),
    }
}

/// The readings of one channel. Frequency and trough width are not sent:
/// they are derived from the period and the peak width.
#[derive(Debug, Clone, Copy, PartialEq, Eq, Structural)]
pub struct Measurements {
    pub peak_to_peak: Option<Decimal>,
    pub amplitude: Option<Decimal>,
    pub average: Option<Decimal>,
    pub period: Option<Decimal>,
    pub rise_time: Option<Decimal>,
    pub peak_width: Option<Decimal>,
}

pub open spec fn opt_wf(x: Option<Decimal>) -> bool {
    x matches Some(d) ==> d.wf()
}

/// `old` with the reading that `r` gives, if it gives one.
pub open spec fn updated(old: Option<Decimal>, r: Result<Option<Decimal>, MeasurementError>) -> Option<Decimal> {
    match r {
        Ok(v) => v,
        Err(_) => old,
    }
}

/// `m` with a response line applied: the line sets the one field whose prefix
/// it carries; a line whose value cannot be read is an error.
pub open spec fn spec_with_parsed(m: Measurements, line: Seq<char>) -> Result<Measurements, MeasurementError> {
    let a = spec_parse_measurement(line, MeasurementKind::PeakToPeak);
    let b = spec_parse_measurement(line, MeasurementKind::Amplitude);
    let c = spec_parse_measurement(line, MeasurementKind::Average);
    let d = spec_parse_measurement(line, MeasurementKind::Period);
    let e = spec_parse_measurement(line, MeasurementKind::RiseTime);
    let f = spec_parse_measurement(line, MeasurementKind::PeakWidth);
    let bad = Err::<Option<Decimal>, MeasurementError>(MeasurementError::InvalidValue);
    if a == bad || b == bad || c == bad || d == bad || e == bad || f == bad {
        Err(MeasurementError::InvalidValue)
    } else {
        Ok(
            Measurements {
                peak_to_peak: updated(m.peak_to_peak, a),
                amplitude: updated(m.amplitude, b),
                average: updated(m.average, c),
                period: updated(m.period, d),
                rise_time: updated(m.rise_time, e),
                peak_width: updated(m.peak_width, f),
            },
        )
    }
}

/// The text shown for one reading: label, `=`, and the value with its prefix
/// and unit when there is one.
pub open spec fn reading_text(kind: MeasurementKind, v: Option<Decimal>) -> Seq<char> {
    kind.spec_label() + seq!['='] + match v {
        Some(d) => scaled_text(d, 3, false, false) + kind.spec_unit(),
        None => Seq::empty(),
    }
}

fn reading_string(kind: MeasurementKind, v: Option<Decimal>) -> (r: String)
    requires
        opt_wf(v),
    ensures
        r@ == reading_text(kind, v),
{
    let mut out: Vec<char> = Vec::new();
    push_str(kind.label(), &mut out);
    out.push('=');
    match v {
        Some(d) => {
            write_scaled(d, 3, false, false, &mut out);
            push_str(kind.unit(), &mut out);
        },
        None => {},
    }
    assert(out@ =~= reading_text(kind, v));
    string_from_chars(&out)
}

/// The six queries sent for a channel's readings, in order.
pub open spec fn spec_measurement_commands(ch: Channel) -> Seq<Seq<char>> {
    match ch {
        Channel::Ch1 => seq![
            ":MEAS:CH1:PKPK?"@,
            ":MEAS:CH1:VAMP?"@,
            ":MEAS:CH1:AVER?"@,
            ":MEAS:CH1:PER?"@,
            ":MEAS:CH1:RT?"@,
            ":MEAS:CH1:PWID?"@,
        ],
        Channel::Ch2 => seq![
            ":MEAS:CH2:PKPK?"@,
            ":MEAS:CH2:VAMP?"@,
            ":MEAS:CH2:AVER?"@,
            ":MEAS:CH2:PER?"@,
            ":MEAS:CH2:RT?"@,
            ":MEAS:CH2:PWID?"@,
        ],
    }
}

impl Measurements {
    /// No readings.
    pub fn new() -> (r: Measurements)
        ensures
            r.peak_to_peak is None && r.amplitude is None && r.average is None && r.period is None
                && r.rise_time is None && r.peak_width is None,
    {
        Measurements {
            peak_to_peak: None,
            amplitude: None,
            average: None,
            period: None,
            rise_time: None,
            peak_width: None,
        }
    }

    pub open spec fn wf(self) -> bool {
        opt_wf(self.peak_to_peak) && opt_wf(self.amplitude) && opt_wf(self.average) && opt_wf(
            self.period,
        ) && opt_wf(self.rise_time) && opt_wf(self.peak_width)
    }

    /// Applies one response line; on error nothing changes.
    pub fn with_parsed(&mut self, line: &str) -> (r: Result<(), MeasurementError>)
        ensures
            r is Ok ==> spec_with_parsed(*old(self), line@) == Ok::<Measurements, MeasurementError>(*final(self)),
            r is Err ==> spec_with_parsed(*old(self), line@) == Err::<Measurements, MeasurementError>(MeasurementError::InvalidValue)
                && *final(self) == *old(self) && r == Err::<(), MeasurementError>(MeasurementError::InvalidValue),
            old(self).wf() ==> final(self).wf(),
    {
        let a = parse_measurement(line, MeasurementKind::PeakToPeak);
        let b = parse_measurement(line, MeasurementKind::Amplitude);
        let c = parse_measurement(line, MeasurementKind::Average);
        let d = parse_measurement(line, MeasurementKind::Period);
        let e = parse_measurement(line, MeasurementKind::RiseTime);
        let f = parse_measurement(line, MeasurementKind::PeakWidth);
        if matches!(a, Err(MeasurementError::InvalidValue)) || matches!(b, Err(MeasurementError::InvalidValue))
            || matches!(c, Err(MeasurementError::InvalidValue)) || matches!(d, Err(MeasurementError::InvalidValue))
            || matches!(e, Err(MeasurementError::InvalidValue)) || matches!(f, Err(MeasurementError::InvalidValue)) {
            return Err(MeasurementError::InvalidValue);
        }
        if let Ok(v) = a {
            self.peak_to_peak = v;
        }
        if let Ok(v) = b {
            self.amplitude = v;
        }
        if let Ok(v) = c {
            self.average = v;
        }
        if let Ok(v) = d {
            self.period = v;
        }
        if let Ok(v) = e {
            self.rise_time = v;
        }
        if let Ok(v) = f {
            self.peak_width = v;
        }
        Ok(())
    }

    /// The frequency, one over the period; absent without a period.
    pub fn frequency(&self) -> (r: Option<Decimal>)
        requires
            self.wf(),
        ensures
            r == (match self.period {
                Some(p) => spec_reciprocal(p),
                None => None,
            }),
            opt_wf(r),
    {
        match self.period {
            Some(p) => reciprocal(p),
            None => None,
        }
    }

    /// The trough width, the period less the peak width; absent without both.
    pub fn trough_width(&self) -> (r: Option<Decimal>)
        requires
            self.wf(),
        ensures
            r == (match (self.period, self.peak_width) {
                (Some(p), Some(w)) => spec_add(p, Decimal { mantissa: (-w.mantissa) as i64, exponent: w.exponent }),
                _ => None,
            }),
            opt_wf(r),
    {
        match (self.period, self.peak_width) {
            (Some(p), Some(w)) => checked_add(p, negate(w)),
            _ => None,
        }
    }

    /// The readings as shown: peak-to-peak, amplitude, frequency, period, rise
    /// time, peak width, trough width and average.
    pub fn for_display(&self) -> (r: Vec<String>)
        requires
            self.wf(),
        ensures
            r@.len() == 8,
            r@[0]@ == reading_text(MeasurementKind::PeakToPeak, self.peak_to_peak),
            r@[1]@ == reading_text(MeasurementKind::Amplitude, self.amplitude),
            r@[2]@ == reading_text(MeasurementKind::Frequency, self.spec_frequency()),
            r@[3]@ == reading_text(MeasurementKind::Period, self.period),
            r@[4]@ == reading_text(MeasurementKind::RiseTime, self.rise_time),
            r@[5]@ == reading_text(MeasurementKind::PeakWidth, self.peak_width),
            r@[6]@ == reading_text(MeasurementKind::TroughWidth, self.spec_trough_width()),
            r@[7]@ == reading_text(MeasurementKind::Average, self.average),
    {
        let mut out: Vec<String> = Vec::new();
        out.push(reading_string(MeasurementKind::PeakToPeak, self.peak_to_peak));
        out.push(reading_string(MeasurementKind::Amplitude, self.amplitude));
        out.push(reading_string(MeasurementKind::Frequency, self.frequency()));
        out.push(reading_string(MeasurementKind::Period, self.period));
        out.push(reading_string(MeasurementKind::RiseTime, self.rise_time));
        out.push(reading_string(MeasurementKind::PeakWidth, self.peak_width));
        out.push(reading_string(MeasurementKind::TroughWidth, self.trough_width()));
        out.push(reading_string(MeasurementKind::Average, self.average));
        out
    }

    pub open spec fn spec_frequency(self) -> Option<Decimal> {
        match self.period {
            Some(p) => spec_reciprocal(p),
            None => None,
        }
    }

    pub open spec fn spec_trough_width(self) -> Option<Decimal> {
        match (self.period, self.peak_width) {
            (Some(p), Some(w)) => spec_add(p, Decimal { mantissa: (-w.mantissa) as i64, exponent: w.exponent }),
            _ => None,
        }
    }

    /// The six queries for `ch`'s readings, in the order their answers are
    /// applied.
    pub fn channel_to_measurement_commands(ch: Channel) -> (r: Vec<&'static str>)
        ensures
            r@.len() == 6,
            forall|i: int| 0 <= i < 6 ==> (#[trigger] r@[i])@ == spec_measurement_commands(ch)[i],
    {
        let r = match ch {
            Channel::Ch1 => vec![
                ":MEAS:CH1:PKPK?",
                ":MEAS:CH1:VAMP?",
                ":MEAS:CH1:AVER?",
                ":MEAS:CH1:PER?",
                ":MEAS:CH1:RT?",
                ":MEAS:CH1:PWID?",
            ],
            Channel::Ch2 => vec![
                ":MEAS:CH2:PKPK?",
                ":MEAS:CH2:VAMP?",
                ":MEAS:CH2:AVER?",
                ":MEAS:CH2:PER?",
                ":MEAS:CH2:RT?",
                ":MEAS:CH2:PWID?",
            ],
        };
        r
    }
}

} // verus!
