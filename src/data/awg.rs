//! The arbitrary waveform generator's settings.
use vstd::prelude::*;
use crate::data::units::{Frequency, Voltage};
use crate::scaled_number::{parse_decimal, plain_text, spec_parse_decimal, write_plain, Decimal, MAX_EXPONENT};
use crate::text::{chars_of, push_str, string_from_chars, text_is, trim, trim_in};

verus! {

/// The generator's waveform. Firmware reports `AmpALT` for the modes after it.
#[derive(Debug, Clone, Copy, PartialEq, Eq, Hash, Structural)]
pub enum AwgMode {
    Sine,
    Square,
    Ramp,
    Pulse,
    AmpAlt,
    AttAlt,
    StairDown,
    StairUpDown,
    StairUp,
    BesselJ,
    BesselY,
    Sinc,
}

/// The value a wire name stands for.
pub open spec fn spec_awg_mode_from_wire(s: Seq<char>) -> Option<AwgMode> {
    if s == "SINE"@ {
        Some(AwgMode::Sine)
    } else if s == "SQUare"@ {
        Some(AwgMode::Square)
    } else if s == "RAMP"@ {
        Some(AwgMode::Ramp)
    } else if s == "PULSe"@ {
        Some(AwgMode::Pulse)
    } else if s == "AmpALT"@ {
        Some(AwgMode::AmpAlt)
    } else if s == "AttALT"@ {
        Some(AwgMode::AttAlt)
    } else if s == "StairDn"@ {
        Some(AwgMode::StairDown)
    } else if s == "StairUD"@ {
        Some(AwgMode::StairUpDown)
    } else if s == "StairUp"@ {
        Some(AwgMode::StairUp)
    } else if s == "Besselj"@ {
        Some(AwgMode::BesselJ)
    } else if s == "Bessely"@ {
        Some(AwgMode::BesselY)
    } else if s == "Sinc"@ {
        Some(AwgMode::Sinc)
    } else {
        None
    }
}

impl AwgMode {
    /// Reads the wire name.
    pub fn from_wire(s: &str) -> (r: Option<AwgMode>)
        ensures
            r == spec_awg_mode_from_wire(s@),
    {
        if text_is(s, "SINE") {
            Some(AwgMode::Sine)
        } else if text_is(s, "SQUare") {
            Some(AwgMode::Square)
        } else if text_is(s, "RAMP") {
            Some(AwgMode::Ramp)
        } else if text_is(s, "PULSe") {
            Some(AwgMode::Pulse)
        } else if text_is(s, "AmpALT") {
            Some(AwgMode::AmpAlt)
        } else if text_is(s, "AttALT") {
            Some(AwgMode::AttAlt)
        } else if text_is(s, "StairDn") {
            Some(AwgMode::StairDown)
        } else if text_is(s, "StairUD") {
            Some(AwgMode::StairUpDown)
        } else if text_is(s, "StairUp") {
            Some(AwgMode::StairUp)
        } else if text_is(s, "Besselj") {
            Some(AwgMode::BesselJ)
        } else if text_is(s, "Bessely") {
            Some(AwgMode::BesselY)
        } else if text_is(s, "Sinc") {
            Some(AwgMode::Sinc)
        } else {
            None
        }
    }

    pub open spec fn spec_name(self) -> Seq<char> {
        match self {
            AwgMode::Sine => "SINE"@,
            AwgMode::Square => "SQUare"@,
            AwgMode::Ramp => "RAMP"@,
            AwgMode::Pulse => "PULSe"@,
            AwgMode::AmpAlt => "AmpALT"@,
            AwgMode::AttAlt => "AttALT"@,
            AwgMode::StairDown => "StairDn"@,
            AwgMode::StairUpDown => "StairUD"@,
            AwgMode::StairUp => "StairUp"@,
            AwgMode::BesselJ => "Besselj"@,
            AwgMode::BesselY => "Bessely"@,
            AwgMode::Sinc => "Sinc"@,
        }
    }

    /// The wire name.
    pub fn name(self) -> (r: &'static str)
        ensures
            r@ == self.spec_name(),
    {
        match self {
            AwgMode::Sine => "SINE",
            AwgMode::Square => "SQUare",
            AwgMode::Ramp => "RAMP",
            AwgMode::Pulse => "PULSe",
            AwgMode::AmpAlt => "AmpALT",
            AwgMode::AttAlt => "AttALT",
            AwgMode::StairDown => "StairDn",
            AwgMode::StairUpDown => "StairUD",
            AwgMode::StairUp => "StairUp",
            AwgMode::BesselJ => "Besselj",
            AwgMode::BesselY => "Bessely",
            AwgMode::Sinc => "Sinc",
        }
    }
}

/// Whether the generator's output is on.
#[derive(Debug, Clone, Copy, PartialEq, Eq, Hash, Structural)]
pub enum AwgChannelDisplay {
    On,
    Off,
}

/// The value a wire name stands for.
pub open spec fn spec_awg_channel_display_from_wire(s: Seq<char>) -> Option<AwgChannelDisplay> {
    if s == "ON"@ {
        Some(AwgChannelDisplay::On)
    } else if s == "OFF"@ {
        Some(AwgChannelDisplay::Off)
    } else {
        None
    }
}

impl AwgChannelDisplay {
    /// Reads the wire name.
    pub fn from_wire(s: &str) -> (r: Option<AwgChannelDisplay>)
        ensures
            r == spec_awg_channel_display_from_wire(s@),
    {
        if text_is(s, "ON") {
            Some(AwgChannelDisplay::On)
        } else if text_is(s, "OFF") {
            Some(AwgChannelDisplay::Off)
        } else {
            None
        }
    }

    pub open spec fn spec_name(self) -> Seq<char> {
        match self {
            AwgChannelDisplay::On => "ON"@,
            AwgChannelDisplay::Off => "OFF"@,
        }
    }

    /// The wire name.
    pub fn name(self) -> (r: &'static str)
        ensures
            r@ == self.spec_name(),
    {
        match self {
            AwgChannelDisplay::On => "ON",
            AwgChannelDisplay::Off => "OFF",
        }
    }
}

impl AwgChannelDisplay {
    pub fn from_bool(on: bool) -> (r: AwgChannelDisplay)
        ensures
            r == (if on {
                AwgChannelDisplay::On
            } else {
                AwgChannelDisplay::Off
            }),
    {
        if on {
            AwgChannelDisplay::On
        } else {
            AwgChannelDisplay::Off
        }
    }

    pub fn is_on(self) -> (r: bool)
        ensures
            r == (self == AwgChannelDisplay::On),
    {
        match self {
            AwgChannelDisplay::On => true,
            AwgChannelDisplay::Off => false,
        }
    }
}

/// The generator's settings.
#[derive(Debug, Clone, Copy, PartialEq, Eq, Structural)]
pub struct AwgConfig {
    pub enabled: bool,
    pub mode: AwgMode,
    pub frequency: Frequency,
    pub amplitude: Voltage,
    pub offset: Voltage,
}

impl Default for AwgConfig {
    /// Off, sine, 1 MHz, 1 V amplitude, no offset.
    fn default() -> (r: AwgConfig)
        ensures
            !r.enabled,
            r.mode == AwgMode::Sine,
            r.frequency.0 == (Decimal { mantissa: 1, exponent: 6 }),
            r.amplitude.0 == (Decimal { mantissa: 1, exponent: 0 }),
            r.offset.0 == (Decimal { mantissa: 0, exponent: 0 }),
    {
        AwgConfig {
            enabled: false,
            mode: AwgMode::Sine,
            frequency: Frequency(Decimal { mantissa: 1, exponent: 6 }),
            amplitude: Voltage(Decimal { mantissa: 1, exponent: 0 }),
            offset: Voltage(Decimal { mantissa: 0, exponent: 0 }),
        }
    }
}

/// Why the generator's settings could not be read.
#[derive(Debug, Clone, Copy, PartialEq, Eq, Structural)]
pub enum AwgReadError {
    /// The output state is neither `ON` nor `OFF`.
    Display,
    /// The waveform name is unknown.
    Mode,
    /// A number cannot be read.
    Number,
}

/// A number reply in a firmware unit: the value, white space trimmed, moved
/// `shift` decades down (the firmware reports micro-hertz and millivolts).
pub open spec fn spec_reading(s: Seq<char>, shift: int) -> Option<Decimal> {
    match spec_parse_decimal(trim(s, false)) {
        None => None,
        Some(d) => if d.exponent - shift >= -MAX_EXPONENT {
            Some(Decimal { mantissa: d.mantissa, exponent: (d.exponent - shift) as i32 })
        } else {
            None
        },
    }
}

/// Reads a number reply given in `10^-shift` of the unit.
pub fn reading(s: &str, shift: i32) -> (r: Option<Decimal>)
    requires
        0 <= shift <= 6,
    ensures
        r == spec_reading(s@, shift as int),
        r matches Some(d) ==> d.wf(),
{
    let v = chars_of(s);
    let (b, e) = trim_in(&v, 0, v.len(), false);
    assert(v@.subrange(0, v@.len() as int) == s@);
    match crate::scaled_number::parse_decimal_in(&v, b, e) {
        None => None,
        Some(d) => if d.exponent - shift >= -MAX_EXPONENT {
            Some(Decimal { mantissa: d.mantissa, exponent: d.exponent - shift })
        } else {
            None
        },
    }
}

/// The settings the five replies describe, the first bad reply deciding the
/// error: output state, waveform, frequency (micro-hertz), amplitude and
/// offset (millivolts).
pub open spec fn spec_awg_from_replies(
    chan: Seq<char>,
    func: Seq<char>,
    freq: Seq<char>,
    ampl: Seq<char>,
    offs: Seq<char>,
) -> Result<AwgConfig, AwgReadError> {
    let display = spec_awg_channel_display_from_wire(trim(chan, false));
    let mode = spec_awg_mode_from_wire(trim(func, false));
    let f = spec_reading(freq, 6);
    let a = spec_reading(ampl, 3);
    let o = spec_reading(offs, 3);
    if display is None {
        Err(AwgReadError::Display)
    } else if mode is None {
        Err(AwgReadError::Mode)
    } else if f is None || a is None || o is None {
        Err(AwgReadError::Number)
    } else {
        Ok(
            AwgConfig {
                enabled: display.unwrap() == AwgChannelDisplay::On,
                mode: mode.unwrap(),
                frequency: Frequency(f.unwrap()),
                amplitude: Voltage(a.unwrap()),
                offset: Voltage(o.unwrap()),
            },
        )
    }
}

pub fn trimmed(s: &str) -> (r: String)
    ensures
        r@ == trim(s@, false),
{
    let v = chars_of(s);
    let (b, e) = trim_in(&v, 0, v.len(), false);
    assert(v@.subrange(0, v@.len() as int) == s@);
    let mut out: Vec<char> = Vec::new();
    crate::text::push_range(&v, b, e, &mut out);
    assert(out@ =~= trim(s@, false));
    string_from_chars(&out)
}

fn command_with_number(prefix: &str, d: Decimal) -> (r: String)
    requires
        d.wf(),
    ensures
        r@ == prefix@ + plain_text(d),
{
    let mut out: Vec<char> = Vec::new();
    push_str(prefix, &mut out);
    write_plain(d, &mut out);
    assert(out@ =~= prefix@ + plain_text(d));
    string_from_chars(&out)
}

fn command_with_name(prefix: &str, name: &str) -> (r: String)
    ensures
        r@ == prefix@ + name@,
{
    let mut out: Vec<char> = Vec::new();
    push_str(prefix, &mut out);
    push_str(name, &mut out);
    assert(out@ =~= prefix@ + name@);
    string_from_chars(&out)
}

impl AwgConfig {
    pub open spec fn wf(self) -> bool {
        self.frequency.0.wf() && self.amplitude.0.wf() && self.offset.0.wf()
    }

    /// Reads the settings from the replies to `:CHAN?`, `:FUNC?`,
    /// `:FUNC:FREQ?`, `:FUNC:AMPL?` and `:FUNC:OFFS?`.
    pub fn from_replies(chan: &str, func: &str, freq: &str, ampl: &str, offs: &str) -> (r: Result<
        AwgConfig,
        AwgReadError,
    >)
        ensures
            r == spec_awg_from_replies(chan@, func@, freq@, ampl@, offs@),
            r matches Ok(c) ==> c.wf(),
    {
        let chan_t = trimmed(chan);
        let display = AwgChannelDisplay::from_wire(chan_t.as_str());
        let func_t = trimmed(func);
        let mode = AwgMode::from_wire(func_t.as_str());
        let f = reading(freq, 6);
        let a = reading(ampl, 3);
        let o = reading(offs, 3);
        let display = match display {
            None => {
                return Err(AwgReadError::Display);
            },
            Some(d) => d,
        };
        let mode = match mode {
            None => {
                return Err(AwgReadError::Mode);
            },
            Some(m) => m,
        };
        match (f, a, o) {
            (Some(f), Some(a), Some(o)) => Ok(
                AwgConfig {
                    enabled: display.is_on(),
                    mode,
                    frequency: Frequency(f),
                    amplitude: Voltage(a),
                    offset: Voltage(o),
                },
            ),
            _ => Err(AwgReadError::Number),
        }
    }

    /// The write commands, in order: waveform, frequency, amplitude, offset,
    /// output state.
    pub fn set_commands(&self) -> (r: Vec<String>)
        requires
            self.wf(),
        ensures
            r@.len() == 5,
            r@[0]@ == ":FUNC "@ + self.mode.spec_name(),
            r@[1]@ == ":FUNC:FREQ "@ + plain_text(self.frequency.0),
            r@[2]@ == ":FUNC:AMPL "@ + plain_text(self.amplitude.0),
            r@[3]@ == ":FUNC:OFFS "@ + plain_text(self.offset.0),
            r@[4]@ == ":CHAN "@ + AwgChannelDisplay::from_bool_spec(self.enabled).spec_name(),
    {
        let mut out: Vec<String> = Vec::new();
        out.push(command_with_name(":FUNC ", self.mode.name()));
        out.push(command_with_number(":FUNC:FREQ ", self.frequency.0));
        out.push(command_with_number(":FUNC:AMPL ", self.amplitude.0));
        out.push(command_with_number(":FUNC:OFFS ", self.offset.0));
        out.push(command_with_name(":CHAN ", AwgChannelDisplay::from_bool(self.enabled).name()));
        out
    }
}

impl AwgChannelDisplay {
    pub open spec fn from_bool_spec(on: bool) -> AwgChannelDisplay {
        if on {
            AwgChannelDisplay::On
        } else {
            AwgChannelDisplay::Off
        }
    }
}

} // verus!
