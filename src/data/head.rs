//! The data header: time base, sampling, channels, trigger and run state.
use vstd::prelude::*;
use crate::data::units::{ProbeAttenuation, SamplingRate, Time, Voltage};
use crate::scaled_number::{Decimal, MAX_EXPONENT, MAX_MANTISSA};
use crate::text::text_is;
use crate::data::units::{spec_parse_attenuation, spec_parse_unit, spec_parse_voltage};
use crate::json::{json_doc_leaves, json_leaves, leaf_text, parse_json};
use crate::scaled_number::{parse_decimal, parse_int, spec_parse_decimal, spec_parse_int};

verus! {

/// An input channel of the oscilloscope.
#[derive(Debug, Clone, Copy, PartialEq, Eq, Hash, Structural)]
pub enum Channel {
    Ch1,
    Ch2,
}

/// The channel a wire name stands for.
pub open spec fn spec_channel_from_wire(s: Seq<char>) -> Option<Channel> {
    if s == "CH1"@ {
        Some(Channel::Ch1)
    } else if s == "CH2"@ {
        Some(Channel::Ch2)
    } else {
        None
    }
}

impl Channel {
    /// Reads the wire name.
    pub fn from_wire(s: &str) -> (r: Option<Channel>)
        ensures
            r == spec_channel_from_wire(s@),
    {
        if text_is(s, "CH1") {
            Some(Channel::Ch1)
        } else if text_is(s, "CH2") {
            Some(Channel::Ch2)
        } else {
            None
        }
    }

    pub open spec fn spec_name(self) -> Seq<char> {
        match self {
            Channel::Ch1 => "CH1"@,
            Channel::Ch2 => "CH2"@,
        }
    }

    /// The name written in commands and displays.
    pub fn name(self) -> (r: &'static str)
        ensures
            r@ == self.spec_name(),
    {
        match self {
            Channel::Ch1 => "CH1",
            Channel::Ch2 => "CH2",
        }
    }
}

/// Whether a channel is shown.
#[derive(Debug, Clone, Copy, PartialEq, Eq, Hash, Structural)]
pub enum ChannelDisplay {
    On,
    Off,
}

/// The channel display a wire name stands for.
pub open spec fn spec_channel_display_from_wire(s: Seq<char>) -> Option<ChannelDisplay> {
    if s == "ON"@ {
        Some(ChannelDisplay::On)
    } else if s == "OFF"@ {
        Some(ChannelDisplay::Off)
    } else {
        None
    }
}

impl ChannelDisplay {
    /// Reads the wire name.
    pub fn from_wire(s: &str) -> (r: Option<ChannelDisplay>)
        ensures
            r == spec_channel_display_from_wire(s@),
    {
        if text_is(s, "ON") {
            Some(ChannelDisplay::On)
        } else if text_is(s, "OFF") {
            Some(ChannelDisplay::Off)
        } else {
            None
        }
    }

    pub open spec fn spec_name(self) -> Seq<char> {
        match self {
            ChannelDisplay::On => "ON"@,
            ChannelDisplay::Off => "OFF"@,
        }
    }

    /// The name written in commands and displays.
    pub fn name(self) -> (r: &'static str)
        ensures
            r@ == self.spec_name(),
    {
        match self {
            ChannelDisplay::On => "ON",
            ChannelDisplay::Off => "OFF",
        }
    }
}

/// How a channel's input is coupled.
#[derive(Debug, Clone, Copy, PartialEq, Eq, Hash, Structural)]
pub enum ChannelCoupling {
    Dc,
    Ac,
    Gnd,
}

/// The channel coupling a wire name stands for.
pub open spec fn spec_channel_coupling_from_wire(s: Seq<char>) -> Option<ChannelCoupling> {
    if s == "DC"@ {
        Some(ChannelCoupling::Dc)
    } else if s == "AC"@ {
        Some(ChannelCoupling::Ac)
    } else if s == "GND"@ {
        Some(ChannelCoupling::Gnd)
    } else {
        None
    }
}

impl ChannelCoupling {
    /// Reads the wire name.
    pub fn from_wire(s: &str) -> (r: Option<ChannelCoupling>)
        ensures
            r == spec_channel_coupling_from_wire(s@),
    {
        if text_is(s, "DC") {
            Some(ChannelCoupling::Dc)
        } else if text_is(s, "AC") {
            Some(ChannelCoupling::Ac)
        } else if text_is(s, "GND") {
            Some(ChannelCoupling::Gnd)
        } else {
            None
        }
    }

    pub open spec fn spec_name(self) -> Seq<char> {
        match self {
            ChannelCoupling::Dc => "DC"@,
            ChannelCoupling::Ac => "AC"@,
            ChannelCoupling::Gnd => "GND"@,
        }
    }

    /// The name written in commands and displays.
    pub fn name(self) -> (r: &'static str)
        ensures
            r@ == self.spec_name(),
    {
        match self {
            ChannelCoupling::Dc => "DC",
            ChannelCoupling::Ac => "AC",
            ChannelCoupling::Gnd => "GND",
        }
    }
}

/// How the trigger input is coupled.
#[derive(Debug, Clone, Copy, PartialEq, Eq, Hash, Structural)]
pub enum TriggerCoupling {
    Dc,
    Ac,
}

/// The trigger coupling a wire name stands for.
pub open spec fn spec_trigger_coupling_from_wire(s: Seq<char>) -> Option<TriggerCoupling> {
    if s == "DC"@ {
        Some(TriggerCoupling::Dc)
    } else if s == "AC"@ {
        Some(TriggerCoupling::Ac)
    } else {
        None
    }
}

impl TriggerCoupling {
    /// Reads the wire name.
    pub fn from_wire(s: &str) -> (r: Option<TriggerCoupling>)
        ensures
            r == spec_trigger_coupling_from_wire(s@),
    {
        if text_is(s, "DC") {
            Some(TriggerCoupling::Dc)
        } else if text_is(s, "AC") {
            Some(TriggerCoupling::Ac)
        } else {
            None
        }
    }

    pub open spec fn spec_name(self) -> Seq<char> {
        match self {
            TriggerCoupling::Dc => "DC"@,
            TriggerCoupling::Ac => "AC"@,
        }
    }

    /// The name written in commands and displays.
    pub fn name(self) -> (r: &'static str)
        ensures
            r@ == self.spec_name(),
    {
        match self {
            TriggerCoupling::Dc => "DC",
            TriggerCoupling::Ac => "AC",
        }
    }
}

/// The edge the trigger fires on.
#[derive(Debug, Clone, Copy, PartialEq, Eq, Hash, Structural)]
pub enum TriggerEdge {
    Rising,
    Falling,
}

/// The trigger edge a wire name stands for.
pub open spec fn spec_trigger_edge_from_wire(s: Seq<char>) -> Option<TriggerEdge> {
    if s == "RISE"@ || s == "RISe"@ {
        Some(TriggerEdge::Rising)
    } else if s == "FALL"@ || s == "FALl"@ {
        Some(TriggerEdge::Falling)
    } else {
        None
    }
}

impl TriggerEdge {
    /// Reads the wire name.
    pub fn from_wire(s: &str) -> (r: Option<TriggerEdge>)
        ensures
            r == spec_trigger_edge_from_wire(s@),
    {
        if text_is(s, "RISE") || text_is(s, "RISe") {
            Some(TriggerEdge::Rising)
        } else if text_is(s, "FALL") || text_is(s, "FALl") {
            Some(TriggerEdge::Falling)
        } else {
            None
        }
    }

    pub open spec fn spec_name(self) -> Seq<char> {
        match self {
            TriggerEdge::Rising => "RISE"@,
            TriggerEdge::Falling => "FALL"@,
        }
    }

    /// The name written in commands and displays.
    pub fn name(self) -> (r: &'static str)
        ensures
            r@ == self.spec_name(),
    {
        match self {
            TriggerEdge::Rising => "RISE",
            TriggerEdge::Falling => "FALL",
        }
    }
}

/// The trigger's sweep mode.
#[derive(Debug, Clone, Copy, PartialEq, Eq, Hash, Structural)]
pub enum TriggerSweep {
    Auto,
    Normal,
    Single,
}

/// The trigger sweep a wire name stands for.
pub open spec fn spec_trigger_sweep_from_wire(s: Seq<char>) -> Option<TriggerSweep> {
    if s == "AUTo"@ || s == "AUTO"@ {
        Some(TriggerSweep::Auto)
    } else if s == "NORMal"@ {
        Some(TriggerSweep::Normal)
    } else if s == "SINGlE"@ {
        Some(TriggerSweep::Single)
    } else {
        None
    }
}

impl TriggerSweep {
    /// Reads the wire name.
    pub fn from_wire(s: &str) -> (r: Option<TriggerSweep>)
        ensures
            r == spec_trigger_sweep_from_wire(s@),
    {
        if text_is(s, "AUTo") || text_is(s, "AUTO") {
            Some(TriggerSweep::Auto)
        } else if text_is(s, "NORMal") {
            Some(TriggerSweep::Normal)
        } else if text_is(s, "SINGlE") {
            Some(TriggerSweep::Single)
        } else {
            None
        }
    }

    pub open spec fn spec_name(self) -> Seq<char> {
        match self {
            TriggerSweep::Auto => "Auto"@,
            TriggerSweep::Normal => "Normal"@,
            TriggerSweep::Single => "Single"@,
        }
    }

    /// The name written in commands and displays.
    pub fn name(self) -> (r: &'static str)
        ensures
            r@ == self.spec_name(),
    {
        match self {
            TriggerSweep::Auto => "Auto",
            TriggerSweep::Normal => "Normal",
            TriggerSweep::Single => "Single",
        }
    }
}

/// The trigger mode.
#[derive(Debug, Clone, Copy, PartialEq, Eq, Hash, Structural)]
pub enum TriggerMode {
    Single,
}

/// The trigger mode a wire name stands for.
pub open spec fn spec_trigger_mode_from_wire(s: Seq<char>) -> Option<TriggerMode> {
    if s == "SINGle"@ {
        Some(TriggerMode::Single)
    } else {
        None
    }
}

impl TriggerMode {
    /// Reads the wire name.
    pub fn from_wire(s: &str) -> (r: Option<TriggerMode>)
        ensures
            r == spec_trigger_mode_from_wire(s@),
    {
        if text_is(s, "SINGle") {
            Some(TriggerMode::Single)
        } else {
            None
        }
    }

    pub open spec fn spec_name(self) -> Seq<char> {
        match self {
            TriggerMode::Single => "Single"@,
        }
    }

    /// The name written in commands and displays.
    pub fn name(self) -> (r: &'static str)
        ensures
            r@ == self.spec_name(),
    {
        match self {
            TriggerMode::Single => "Single",
        }
    }
}

/// The trigger type.
#[derive(Debug, Clone, Copy, PartialEq, Eq, Hash, Structural)]
pub enum TriggerType {
    Edge,
}

/// The trigger type a wire name stands for.
pub open spec fn spec_trigger_type_from_wire(s: Seq<char>) -> Option<TriggerType> {
    if s == "Edge"@ {
        Some(TriggerType::Edge)
    } else {
        None
    }
}

impl TriggerType {
    /// Reads the wire name.
    pub fn from_wire(s: &str) -> (r: Option<TriggerType>)
        ensures
            r == spec_trigger_type_from_wire(s@),
    {
        if text_is(s, "Edge") {
            Some(TriggerType::Edge)
        } else {
            None
        }
    }

    pub open spec fn spec_name(self) -> Seq<char> {
        match self {
            TriggerType::Edge => "Edge"@,
        }
    }

    /// The name written in commands and displays.
    pub fn name(self) -> (r: &'static str)
        ensures
            r@ == self.spec_name(),
    {
        match self {
            TriggerType::Edge => "Edge",
        }
    }
}

/// The acquisition mode.
#[derive(Debug, Clone, Copy, PartialEq, Eq, Hash, Structural)]
pub enum SampleType {
    Sample,
    Peak,
}

/// The sample type a wire name stands for.
pub open spec fn spec_sample_type_from_wire(s: Seq<char>) -> Option<SampleType> {
    if s == "SAMPle"@ {
        Some(SampleType::Sample)
    } else if s == "PEAK"@ {
        Some(SampleType::Peak)
    } else {
        None
    }
}

impl SampleType {
    /// Reads the wire name.
    pub fn from_wire(s: &str) -> (r: Option<SampleType>)
        ensures
            r == spec_sample_type_from_wire(s@),
    {
        if text_is(s, "SAMPle") {
            Some(SampleType::Sample)
        } else if text_is(s, "PEAK") {
            Some(SampleType::Peak)
        } else {
            None
        }
    }

    pub open spec fn spec_name(self) -> Seq<char> {
        match self {
            SampleType::Sample => "Sample"@,
            SampleType::Peak => "Peak"@,
        }
    }

    /// The name written in commands and displays.
    pub fn name(self) -> (r: &'static str)
        ensures
            r@ == self.spec_name(),
    {
        match self {
            SampleType::Sample => "Sample",
            SampleType::Peak => "Peak",
        }
    }
}

/// The acquisition memory depth.
#[derive(Debug, Clone, Copy, PartialEq, Eq, Hash, Structural)]
pub enum MemoryDepth {
    FourK,
    EightK,
}

/// The memory depth a wire name stands for.
pub open spec fn spec_memory_depth_from_wire(s: Seq<char>) -> Option<MemoryDepth> {
    if s == "4K"@ {
        Some(MemoryDepth::FourK)
    } else if s == "8K"@ {
        Some(MemoryDepth::EightK)
    } else {
        None
    }
}

impl MemoryDepth {
    /// Reads the wire name.
    pub fn from_wire(s: &str) -> (r: Option<MemoryDepth>)
        ensures
            r == spec_memory_depth_from_wire(s@),
    {
        if text_is(s, "4K") {
            Some(MemoryDepth::FourK)
        } else if text_is(s, "8K") {
            Some(MemoryDepth::EightK)
        } else {
            None
        }
    }

    pub open spec fn spec_name(self) -> Seq<char> {
        match self {
            MemoryDepth::FourK => "4K"@,
            MemoryDepth::EightK => "8K"@,
        }
    }

    /// The name written in commands and displays.
    pub fn name(self) -> (r: &'static str)
        ensures
            r@ == self.spec_name(),
    {
        match self {
            MemoryDepth::FourK => "4K",
            MemoryDepth::EightK => "8K",
        }
    }
}

/// What a data header describes.
#[derive(Debug, Clone, Copy, PartialEq, Eq, Hash, Structural)]
pub enum DataType {
    Screen,
}

/// The data type a wire name stands for.
pub open spec fn spec_data_type_from_wire(s: Seq<char>) -> Option<DataType> {
    if s == "SCREEN"@ {
        Some(DataType::Screen)
    } else {
        None
    }
}

impl DataType {
    /// Reads the wire name.
    pub fn from_wire(s: &str) -> (r: Option<DataType>)
        ensures
            r == spec_data_type_from_wire(s@),
    {
        if text_is(s, "SCREEN") {
            Some(DataType::Screen)
        } else {
            None
        }
    }

    pub open spec fn spec_name(self) -> Seq<char> {
        match self {
            DataType::Screen => "Screen"@,
        }
    }

    /// The name written in commands and displays.
    pub fn name(self) -> (r: &'static str)
        ensures
            r@ == self.spec_name(),
    {
        match self {
            DataType::Screen => "Screen",
        }
    }
}

/// The acquisition state the instrument reports; `end` is read as ready.
#[derive(Debug, Clone, Copy, PartialEq, Eq, Hash, Structural)]
pub enum RunStatus {
    Scanning,
    Ready,
    Stopped,
    Auto,
    Triggering,
}

/// The run status a wire name stands for.
pub open spec fn spec_run_status_from_wire(s: Seq<char>) -> Option<RunStatus> {
    if s == "SCAN"@ {
        Some(RunStatus::Scanning)
    } else if s == "READy"@ || s == "end"@ {
        Some(RunStatus::Ready)
    } else if s == "STOP"@ {
        Some(RunStatus::Stopped)
    } else if s == "AUTo"@ {
        Some(RunStatus::Auto)
    } else if s == "TRIG"@ {
        Some(RunStatus::Triggering)
    } else {
        None
    }
}

impl RunStatus {
    /// Reads the wire name.
    pub fn from_wire(s: &str) -> (r: Option<RunStatus>)
        ensures
            r == spec_run_status_from_wire(s@),
    {
        if text_is(s, "SCAN") {
            Some(RunStatus::Scanning)
        } else if text_is(s, "READy") || text_is(s, "end") {
            Some(RunStatus::Ready)
        } else if text_is(s, "STOP") {
            Some(RunStatus::Stopped)
        } else if text_is(s, "AUTo") {
            Some(RunStatus::Auto)
        } else if text_is(s, "TRIG") {
            Some(RunStatus::Triggering)
        } else {
            None
        }
    }

    pub open spec fn spec_name(self) -> Seq<char> {
        match self {
            RunStatus::Scanning => "Scanning"@,
            RunStatus::Ready => "Ready"@,
            RunStatus::Stopped => "Stopped"@,
            RunStatus::Auto => "Auto"@,
            RunStatus::Triggering => "Triggering"@,
        }
    }

    /// The name written in commands and displays.
    pub fn name(self) -> (r: &'static str)
        ensures
            r@ == self.spec_name(),
    {
        match self {
            RunStatus::Scanning => "Scanning",
            RunStatus::Ready => "Ready",
            RunStatus::Stopped => "Stopped",
            RunStatus::Auto => "Auto",
            RunStatus::Triggering => "Triggering",
        }
    }
}

impl Channel {
    /// Position of the channel in a header's channel list.
    pub open spec fn spec_index(self) -> int {
        match self {
            Channel::Ch1 => 0,
            Channel::Ch2 => 1,
        }
    }

    pub fn index(self) -> (r: usize)
        ensures
            r == self.spec_index(),
    {
        match self {
            Channel::Ch1 => 0,
            Channel::Ch2 => 1,
        }
    }
}

impl ChannelDisplay {
    pub fn is_on(self) -> (r: bool)
        ensures
            r == (self == ChannelDisplay::On),
    {
        match self {
            ChannelDisplay::On => true,
            ChannelDisplay::Off => false,
        }
    }

    pub fn from_bool(on: bool) -> (r: ChannelDisplay)
        ensures
            r == (if on {
                ChannelDisplay::On
            } else {
                ChannelDisplay::Off
            }),
    {
        if on {
            ChannelDisplay::On
        } else {
            ChannelDisplay::Off
        }
    }
}

/// `n / 25` as a decimal: `4 * n` hundredths.
pub open spec fn spec_grid_divs(n: int) -> Option<Decimal> {
    if -MAX_MANTISSA <= 4 * n <= MAX_MANTISSA {
        Some(Decimal { mantissa: (4 * n) as i64, exponent: -2i32 })
    } else {
        None
    }
}

/// A count of samples in grid divisions, when the result fits a [`Decimal`].
pub fn grid_divs(n: i64) -> (r: Option<Decimal>)
    ensures
        r == spec_grid_divs(n as int),
{
    let x: i128 = 4 * n as i128;
    if x < -(MAX_MANTISSA as i128) || x > MAX_MANTISSA as i128 {
        None
    } else {
        Some(Decimal { mantissa: x as i64, exponent: -2 })
    }
}

/// `d * k`, when the result fits a [`Decimal`].
pub open spec fn spec_scale_by(d: Decimal, k: int) -> Option<Decimal> {
    if -MAX_MANTISSA <= d.mantissa * k <= MAX_MANTISSA {
        Some(Decimal { mantissa: (d.mantissa * k) as i64, exponent: d.exponent })
    } else {
        None
    }
}

pub fn scale_by(d: Decimal, k: u32) -> (r: Option<Decimal>)
    requires
        d.wf(),
    ensures
        r == spec_scale_by(d, k as int),
{
    let m = d.mantissa as i128;
    let kk = k as i128;
    assert(-1000000000000000000 * 4294967296 <= m * kk <= 1000000000000000000 * 4294967296)
        by (nonlinear_arith)
        requires
            -1000000000000000000 <= m <= 1000000000000000000,
            0 <= kk <= 4294967296,
    ;
    let x: i128 = m * kk;
    if x < -(MAX_MANTISSA as i128) || x > MAX_MANTISSA as i128 {
        None
    } else {
        Some(Decimal { mantissa: x as i64, exponent: d.exponent })
    }
}

/// Horizontal settings.
#[derive(Debug, Clone, Copy, PartialEq, Eq, Structural)]
pub struct TimeBase {
    /// Time per grid division.
    pub scale: Time,
    /// Horizontal offset, in samples.
    pub h_offset: i64,
}

impl TimeBase {
    /// The horizontal offset in grid divisions.
    pub fn h_offset_grid_divs(&self) -> (r: Option<Decimal>)
        ensures
            r == spec_grid_divs(self.h_offset as int),
    {
        grid_divs(self.h_offset)
    }
}

/// Sampling settings.
#[derive(Debug, Clone, Copy, PartialEq, Eq, Structural)]
pub struct Sample {
    pub fullscreen: i32,
    pub slow_move: i32,
    pub data_len: i32,
    pub sampling_rate: SamplingRate,
    pub sample_type: SampleType,
    pub depmem: MemoryDepth,
}

/// Settings of one input channel.
#[derive(Debug, Clone, Copy, PartialEq, Eq, Structural)]
pub struct ChannelInfo {
    pub channel: Channel,
    pub display: ChannelDisplay,
    pub coupling: ChannelCoupling,
    pub probe: ProbeAttenuation,
    /// Volts per grid division, before probe attenuation.
    pub scale: Voltage,
    /// Offset, in samples.
    pub offset: i64,
    /// The instrument's estimate of the signal's frequency.
    pub frequency: Decimal,
}

impl ChannelInfo {
    /// Volts per grid division with the probe's attenuation applied.
    pub fn scale_attenuated(&self) -> (r: Option<Voltage>)
        requires
            self.scale.0.wf(),
        ensures
            r == (match spec_scale_by(self.scale.0, self.probe.0 as int) {
                Some(d) => Some(Voltage(d)),
                None => None,
            }),
    {
        match scale_by(self.scale.0, self.probe.0) {
            Some(d) => Some(Voltage(d)),
            None => None,
        }
    }

    /// Volts per sample: the attenuated scale over the samples of a
    /// division (`4 * probe` hundredths of the scale), when it fits.
    pub open spec fn spec_scale_per_unit(self) -> Option<Decimal> {
        match spec_scale_by(self.scale.0, 4 * self.probe.0) {
            Some(d) => if d.exponent - 2 >= -MAX_EXPONENT {
                Some(Decimal { mantissa: d.mantissa, exponent: (d.exponent - 2) as i32 })
            } else {
                None
            },
            None => None,
        }
    }

    /// Volts per sample.
    pub fn scale_per_unit(&self) -> (r: Option<Decimal>)
        requires
            self.scale.0.wf(),
        ensures
            r == self.spec_scale_per_unit(),
            r matches Some(d) ==> d.wf(),
    {
        let k: u64 = 4 * self.probe.0 as u64;
        let m = self.scale.0.mantissa as i128;
        let kk = k as i128;
        assert(-1000000000000000000 * 17179869184 <= m * kk <= 1000000000000000000 * 17179869184)
            by (nonlinear_arith)
            requires
                -1000000000000000000 <= m <= 1000000000000000000,
                0 <= kk <= 17179869184,
        ;
        let x: i128 = m * kk;
        if x < -(MAX_MANTISSA as i128) || x > MAX_MANTISSA as i128 || self.scale.0.exponent - 2
            < -MAX_EXPONENT {
            None
        } else {
            Some(Decimal { mantissa: x as i64, exponent: self.scale.0.exponent - 2 })
        }
    }

    /// The offset in grid divisions.
    pub fn offset_grid_divs(&self) -> (r: Option<Decimal>)
        ensures
            r == spec_grid_divs(self.offset as int),
    {
        grid_divs(self.offset)
    }
}

/// Trigger settings.
#[derive(Debug, Clone, Copy, PartialEq, Eq, Structural)]
pub struct TriggerItems {
    pub channel: Channel,
    pub level: Voltage,
    pub edge: TriggerEdge,
    pub coupling: TriggerCoupling,
    pub sweep: TriggerSweep,
}

/// The trigger block of a header.
#[derive(Debug, Clone, Copy, PartialEq, Eq, Structural)]
pub struct Trigger {
    pub mode: TriggerMode,
    pub kind: TriggerType,
    pub items: TriggerItems,
}

/// A snapshot of the instrument's settings, sent before each waveform.
#[derive(Debug, Clone, Copy)]
pub struct DataHeader {
    pub time_base: TimeBase,
    pub sample: Sample,
    /// Channel settings, first channel first.
    pub channels: [ChannelInfo; 2],
    pub datatype: DataType,
    pub run_status: RunStatus,
    pub trigger: Trigger,
}

impl DataHeader {
    /// The settings of `ch`.
    pub fn channel(&self, ch: Channel) -> (r: &ChannelInfo)
        ensures
            *r == self.channels[ch.spec_index()],
    {
        &self.channels[ch.index()]
    }

    /// Whether `ch` is shown.
    pub fn channel_enabled(&self, ch: Channel) -> (r: bool)
        ensures
            r == (self.channels[ch.spec_index()].display == ChannelDisplay::On),
    {
        self.channel(ch).display.is_on()
    }
}

/// The time leaf at `key`, read.
pub open spec fn field_time(m: Map<Seq<char>, Seq<char>>, key: Seq<char>) -> Option<Time> {
    if m.contains_key(key) {
        let t = m[key];
        match spec_parse_unit(t, seq!['s']) { Ok(d) => Some(Time(d)), Err(_) => None }
    } else {
        None
    }
}

fn read_time(v: &serde_json::Value, key: &str) -> (r: Option<Time>)
    ensures
        r == field_time(json_leaves(*v), key@),
{
    match leaf_text(v, key) {
        None => None,
        Some(t) => match Time::parse(t.as_str()) { Ok(x) => Some(x), Err(_) => None },
    }
}

/// The rate leaf at `key`, read.
pub open spec fn field_rate(m: Map<Seq<char>, Seq<char>>, key: Seq<char>) -> Option<SamplingRate> {
    if m.contains_key(key) {
        let t = m[key];
        match spec_parse_unit(t, seq!['S', 'a', '/', 's']) { Ok(d) => Some(SamplingRate(d)), Err(_) => None }
    } else {
        None
    }
}

fn read_rate(v: &serde_json::Value, key: &str) -> (r: Option<SamplingRate>)
    ensures
        r == field_rate(json_leaves(*v), key@),
{
    match leaf_text(v, key) {
        None => None,
        Some(t) => match SamplingRate::parse(t.as_str()) { Ok(x) => Some(x), Err(_) => None },
    }
}

/// The voltage leaf at `key`, read.
pub open spec fn field_voltage(m: Map<Seq<char>, Seq<char>>, key: Seq<char>) -> Option<Voltage> {
    if m.contains_key(key) {
        let t = m[key];
        match spec_parse_voltage(t) { Ok(d) => Some(Voltage(d)), Err(_) => None }
    } else {
        None
    }
}

fn read_voltage(v: &serde_json::Value, key: &str) -> (r: Option<Voltage>)
    ensures
        r == field_voltage(json_leaves(*v), key@),
{
    match leaf_text(v, key) {
        None => None,
        Some(t) => match Voltage::parse(t.as_str()) { Ok(x) => Some(x), Err(_) => None },
    }
}

/// The probe leaf at `key`, read.
pub open spec fn field_probe(m: Map<Seq<char>, Seq<char>>, key: Seq<char>) -> Option<ProbeAttenuation> {
    if m.contains_key(key) {
        let t = m[key];
        match spec_parse_attenuation(t) { Ok(n) => Some(ProbeAttenuation(n)), Err(_) => None }
    } else {
        None
    }
}

fn read_probe(v: &serde_json::Value, key: &str) -> (r: Option<ProbeAttenuation>)
    ensures
        r == field_probe(json_leaves(*v), key@),
{
    match leaf_text(v, key) {
        None => None,
        Some(t) => match ProbeAttenuation::parse(t.as_str()) { Ok(x) => Some(x), Err(_) => None },
    }
}

/// The i64 leaf at `key`, read.
pub open spec fn field_i64(m: Map<Seq<char>, Seq<char>>, key: Seq<char>) -> Option<i64> {
    if m.contains_key(key) {
        let t = m[key];
        match spec_parse_int(t, 1000000000000000000) { Some(x) => Some(x as i64), None => None }
    } else {
        None
    }
}

fn read_i64(v: &serde_json::Value, key: &str) -> (r: Option<i64>)
    ensures
        r == field_i64(json_leaves(*v), key@),
{
    match leaf_text(v, key) {
        None => None,
        Some(t) => parse_int(t.as_str(), 1000000000000000000),
    }
}

/// The i32 leaf at `key`, read.
pub open spec fn field_i32(m: Map<Seq<char>, Seq<char>>, key: Seq<char>) -> Option<i32> {
    if m.contains_key(key) {
        let t = m[key];
        match spec_parse_int(t, 2147483647) { Some(x) => if x >= -2147483647 { Some(x as i32) } else { None }, None => None }
    } else {
        None
    }
}

fn read_i32(v: &serde_json::Value, key: &str) -> (r: Option<i32>)
    ensures
        r == field_i32(json_leaves(*v), key@),
{
    match leaf_text(v, key) {
        None => None,
        Some(t) => match parse_int(t.as_str(), 2147483647) { Some(x) => if x >= -2147483647 { Some(x as i32) } else { None }, None => None },
    }
}

/// The decimal leaf at `key`, read.
pub open spec fn field_decimal(m: Map<Seq<char>, Seq<char>>, key: Seq<char>) -> Option<Decimal> {
    if m.contains_key(key) {
        let t = m[key];
        spec_parse_decimal(t)
    } else {
        None
    }
}

fn read_decimal(v: &serde_json::Value, key: &str) -> (r: Option<Decimal>)
    ensures
        r == field_decimal(json_leaves(*v), key@),
{
    match leaf_text(v, key) {
        None => None,
        Some(t) => parse_decimal(t.as_str()),
    }
}

/// The channel leaf at `key`, read.
pub open spec fn field_channel(m: Map<Seq<char>, Seq<char>>, key: Seq<char>) -> Option<Channel> {
    if m.contains_key(key) {
        let t = m[key];
        spec_channel_from_wire(t)
    } else {
        None
    }
}

fn read_channel(v: &serde_json::Value, key: &str) -> (r: Option<Channel>)
    ensures
        r == field_channel(json_leaves(*v), key@),
{
    match leaf_text(v, key) {
        None => None,
        Some(t) => Channel::from_wire(t.as_str()),
    }
}

/// The display leaf at `key`, read.
pub open spec fn field_display(m: Map<Seq<char>, Seq<char>>, key: Seq<char>) -> Option<ChannelDisplay> {
    if m.contains_key(key) {
        let t = m[key];
        spec_channel_display_from_wire(t)
    } else {
        None
    }
}

fn read_display(v: &serde_json::Value, key: &str) -> (r: Option<ChannelDisplay>)
    ensures
        r == field_display(json_leaves(*v), key@),
{
    match leaf_text(v, key) {
        None => None,
        Some(t) => ChannelDisplay::from_wire(t.as_str()),
    }
}

/// The coupling leaf at `key`, read.
pub open spec fn field_coupling(m: Map<Seq<char>, Seq<char>>, key: Seq<char>) -> Option<ChannelCoupling> {
    if m.contains_key(key) {
        let t = m[key];
        spec_channel_coupling_from_wire(t)
    } else {
        None
    }
}

fn read_coupling(v: &serde_json::Value, key: &str) -> (r: Option<ChannelCoupling>)
    ensures
        r == field_coupling(json_leaves(*v), key@),
{
    match leaf_text(v, key) {
        None => None,
        Some(t) => ChannelCoupling::from_wire(t.as_str()),
    }
}

/// The tcoupling leaf at `key`, read.
pub open spec fn field_tcoupling(m: Map<Seq<char>, Seq<char>>, key: Seq<char>) -> Option<TriggerCoupling> {
    if m.contains_key(key) {
        let t = m[key];
        spec_trigger_coupling_from_wire(t)
    } else {
        None
    }
}

fn read_tcoupling(v: &serde_json::Value, key: &str) -> (r: Option<TriggerCoupling>)
    ensures
        r == field_tcoupling(json_leaves(*v), key@),
{
    match leaf_text(v, key) {
        None => None,
        Some(t) => TriggerCoupling::from_wire(t.as_str()),
    }
}

/// The edge leaf at `key`, read.
pub open spec fn field_edge(m: Map<Seq<char>, Seq<char>>, key: Seq<char>) -> Option<TriggerEdge> {
    if m.contains_key(key) {
        let t = m[key];
        spec_trigger_edge_from_wire(t)
    } else {
        None
    }
}

fn read_edge(v: &serde_json::Value, key: &str) -> (r: Option<TriggerEdge>)
    ensures
        r == field_edge(json_leaves(*v), key@),
{
    match leaf_text(v, key) {
        None => None,
        Some(t) => TriggerEdge::from_wire(t.as_str()),
    }
}

/// The sweep leaf at `key`, read.
pub open spec fn field_sweep(m: Map<Seq<char>, Seq<char>>, key: Seq<char>) -> Option<TriggerSweep> {
    if m.contains_key(key) {
        let t = m[key];
        spec_trigger_sweep_from_wire(t)
    } else {
        None
    }
}

fn read_sweep(v: &serde_json::Value, key: &str) -> (r: Option<TriggerSweep>)
    ensures
        r == field_sweep(json_leaves(*v), key@),
{
    match leaf_text(v, key) {
        None => None,
        Some(t) => TriggerSweep::from_wire(t.as_str()),
    }
}

/// The mode leaf at `key`, read.
pub open spec fn field_mode(m: Map<Seq<char>, Seq<char>>, key: Seq<char>) -> Option<TriggerMode> {
    if m.contains_key(key) {
        let t = m[key];
        spec_trigger_mode_from_wire(t)
    } else {
        None
    }
}

fn read_mode(v: &serde_json::Value, key: &str) -> (r: Option<TriggerMode>)
    ensures
        r == field_mode(json_leaves(*v), key@),
{
    match leaf_text(v, key) {
        None => None,
        Some(t) => TriggerMode::from_wire(t.as_str()),
    }
}

/// The ttype leaf at `key`, read.
pub open spec fn field_ttype(m: Map<Seq<char>, Seq<char>>, key: Seq<char>) -> Option<TriggerType> {
    if m.contains_key(key) {
        let t = m[key];
        spec_trigger_type_from_wire(t)
    } else {
        None
    }
}

fn read_ttype(v: &serde_json::Value, key: &str) -> (r: Option<TriggerType>)
    ensures
        r == field_ttype(json_leaves(*v), key@),
{
    match leaf_text(v, key) {
        None => None,
        Some(t) => TriggerType::from_wire(t.as_str()),
    }
}

/// The stype leaf at `key`, read.
pub open spec fn field_stype(m: Map<Seq<char>, Seq<char>>, key: Seq<char>) -> Option<SampleType> {
    if m.contains_key(key) {
        let t = m[key];
        spec_sample_type_from_wire(t)
    } else {
        None
    }
}

fn read_stype(v: &serde_json::Value, key: &str) -> (r: Option<SampleType>)
    ensures
        r == field_stype(json_leaves(*v), key@),
{
    match leaf_text(v, key) {
        None => None,
        Some(t) => SampleType::from_wire(t.as_str()),
    }
}

/// The depth leaf at `key`, read.
pub open spec fn field_depth(m: Map<Seq<char>, Seq<char>>, key: Seq<char>) -> Option<MemoryDepth> {
    if m.contains_key(key) {
        let t = m[key];
        spec_memory_depth_from_wire(t)
    } else {
        None
    }
}

fn read_depth(v: &serde_json::Value, key: &str) -> (r: Option<MemoryDepth>)
    ensures
        r == field_depth(json_leaves(*v), key@),
{
    match leaf_text(v, key) {
        None => None,
        Some(t) => MemoryDepth::from_wire(t.as_str()),
    }
}

/// The dtype leaf at `key`, read.
pub open spec fn field_dtype(m: Map<Seq<char>, Seq<char>>, key: Seq<char>) -> Option<DataType> {
    if m.contains_key(key) {
        let t = m[key];
        spec_data_type_from_wire(t)
    } else {
        None
    }
}

fn read_dtype(v: &serde_json::Value, key: &str) -> (r: Option<DataType>)
    ensures
        r == field_dtype(json_leaves(*v), key@),
{
    match leaf_text(v, key) {
        None => None,
        Some(t) => DataType::from_wire(t.as_str()),
    }
}

/// The status leaf at `key`, read.
pub open spec fn field_status(m: Map<Seq<char>, Seq<char>>, key: Seq<char>) -> Option<RunStatus> {
    if m.contains_key(key) {
        let t = m[key];
        spec_run_status_from_wire(t)
    } else {
        None
    }
}

fn read_status(v: &serde_json::Value, key: &str) -> (r: Option<RunStatus>)
    ensures
        r == field_status(json_leaves(*v), key@),
{
    match leaf_text(v, key) {
        None => None,
        Some(t) => RunStatus::from_wire(t.as_str()),
    }
}

/// The settings of channel `i` (0 or 1) in a header's leaves.
pub open spec fn spec_channel_info(m: Map<Seq<char>, Seq<char>>, i: int) -> Option<ChannelInfo> {
    let channel = field_channel(m, if i == 0 { "/CHANNEL/0/NAME"@ } else { "/CHANNEL/1/NAME"@ });
    let display = field_display(m, if i == 0 { "/CHANNEL/0/DISPLAY"@ } else { "/CHANNEL/1/DISPLAY"@ });
    let coupling = field_coupling(m, if i == 0 { "/CHANNEL/0/COUPLING"@ } else { "/CHANNEL/1/COUPLING"@ });
    let probe = field_probe(m, if i == 0 { "/CHANNEL/0/PROBE"@ } else { "/CHANNEL/1/PROBE"@ });
    let scale = field_voltage(m, if i == 0 { "/CHANNEL/0/SCALE"@ } else { "/CHANNEL/1/SCALE"@ });
    let offset = field_i64(m, if i == 0 { "/CHANNEL/0/OFFSET"@ } else { "/CHANNEL/1/OFFSET"@ });
    let frequency = field_decimal(m, if i == 0 { "/CHANNEL/0/FREQUENCE"@ } else { "/CHANNEL/1/FREQUENCE"@ });
    if channel is Some && display is Some && coupling is Some && probe is Some && scale is Some && offset is Some && frequency is Some {
        Some(ChannelInfo { channel: channel.unwrap(), display: display.unwrap(), coupling: coupling.unwrap(), probe: probe.unwrap(), scale: scale.unwrap(), offset: offset.unwrap(), frequency: frequency.unwrap() })
    } else {
        None
    }
}

fn read_channel_info(v: &serde_json::Value, i: usize) -> (r: Option<ChannelInfo>)
    requires
        i < 2,
    ensures
        r == spec_channel_info(json_leaves(*v), i as int),
{
    let channel = read_channel(v, if i == 0 { "/CHANNEL/0/NAME" } else { "/CHANNEL/1/NAME" });
    let display = read_display(v, if i == 0 { "/CHANNEL/0/DISPLAY" } else { "/CHANNEL/1/DISPLAY" });
    let coupling = read_coupling(v, if i == 0 { "/CHANNEL/0/COUPLING" } else { "/CHANNEL/1/COUPLING" });
    let probe = read_probe(v, if i == 0 { "/CHANNEL/0/PROBE" } else { "/CHANNEL/1/PROBE" });
    let scale = read_voltage(v, if i == 0 { "/CHANNEL/0/SCALE" } else { "/CHANNEL/1/SCALE" });
    let offset = read_i64(v, if i == 0 { "/CHANNEL/0/OFFSET" } else { "/CHANNEL/1/OFFSET" });
    let frequency = read_decimal(v, if i == 0 { "/CHANNEL/0/FREQUENCE" } else { "/CHANNEL/1/FREQUENCE" });
    match (channel, display, coupling, probe, scale, offset, frequency) {
        (Some(channel), Some(display), Some(coupling), Some(probe), Some(scale), Some(offset), Some(frequency)) => Some(ChannelInfo { channel, display, coupling, probe, scale, offset, frequency }),
        _ => None,
    }
}

/// The time base in a header's leaves.
pub open spec fn spec_time_base(m: Map<Seq<char>, Seq<char>>) -> Option<TimeBase> {
    let scale = field_time(m, "/TIMEBASE/SCALE"@);
    let h_offset = field_i64(m, "/TIMEBASE/HOFFSET"@);
    if scale is Some && h_offset is Some {
        Some(TimeBase { scale: scale.unwrap(), h_offset: h_offset.unwrap() })
    } else {
        None
    }
}

fn read_time_base(v: &serde_json::Value) -> (r: Option<TimeBase>)
    ensures
        r == spec_time_base(json_leaves(*v)),
{
    let scale = read_time(v, "/TIMEBASE/SCALE");
    let h_offset = read_i64(v, "/TIMEBASE/HOFFSET");
    match (scale, h_offset) {
        (Some(scale), Some(h_offset)) => Some(TimeBase { scale, h_offset }),
        _ => None,
    }
}

/// The sampling settings in a header's leaves.
pub open spec fn spec_sample(m: Map<Seq<char>, Seq<char>>) -> Option<Sample> {
    let fullscreen = field_i32(m, "/SAMPLE/FULLSCREEN"@);
    let slow_move = field_i32(m, "/SAMPLE/SLOWMOVE"@);
    let data_len = field_i32(m, "/SAMPLE/DATALEN"@);
    let sampling_rate = field_rate(m, "/SAMPLE/SAMPLERATE"@);
    let sample_type = field_stype(m, "/SAMPLE/TYPE"@);
    let depmem = field_depth(m, "/SAMPLE/DEPMEM"@);
    if fullscreen is Some && slow_move is Some && data_len is Some && sampling_rate is Some && sample_type is Some && depmem is Some {
        Some(Sample { fullscreen: fullscreen.unwrap(), slow_move: slow_move.unwrap(), data_len: data_len.unwrap(), sampling_rate: sampling_rate.unwrap(), sample_type: sample_type.unwrap(), depmem: depmem.unwrap() })
    } else {
        None
    }
}

fn read_sample(v: &serde_json::Value) -> (r: Option<Sample>)
    ensures
        r == spec_sample(json_leaves(*v)),
{
    let fullscreen = read_i32(v, "/SAMPLE/FULLSCREEN");
    let slow_move = read_i32(v, "/SAMPLE/SLOWMOVE");
    let data_len = read_i32(v, "/SAMPLE/DATALEN");
    let sampling_rate = read_rate(v, "/SAMPLE/SAMPLERATE");
    let sample_type = read_stype(v, "/SAMPLE/TYPE");
    let depmem = read_depth(v, "/SAMPLE/DEPMEM");
    match (fullscreen, slow_move, data_len, sampling_rate, sample_type, depmem) {
        (Some(fullscreen), Some(slow_move), Some(data_len), Some(sampling_rate), Some(sample_type), Some(depmem)) => Some(Sample { fullscreen, slow_move, data_len, sampling_rate, sample_type, depmem }),
        _ => None,
    }
}

/// The trigger items in a header's leaves.
pub open spec fn spec_trigger_items(m: Map<Seq<char>, Seq<char>>) -> Option<TriggerItems> {
    let channel = field_channel(m, "/Trig/Items/Channel"@);
    let level = field_voltage(m, "/Trig/Items/Level"@);
    let edge = field_edge(m, "/Trig/Items/Edge"@);
    let coupling = field_tcoupling(m, "/Trig/Items/Coupling"@);
    let sweep = field_sweep(m, "/Trig/Items/Sweep"@);
    if channel is Some && level is Some && edge is Some && coupling is Some && sweep is Some {
        Some(TriggerItems { channel: channel.unwrap(), level: level.unwrap(), edge: edge.unwrap(), coupling: coupling.unwrap(), sweep: sweep.unwrap() })
    } else {
        None
    }
}

fn read_trigger_items(v: &serde_json::Value) -> (r: Option<TriggerItems>)
    ensures
        r == spec_trigger_items(json_leaves(*v)),
{
    let channel = read_channel(v, "/Trig/Items/Channel");
    let level = read_voltage(v, "/Trig/Items/Level");
    let edge = read_edge(v, "/Trig/Items/Edge");
    let coupling = read_tcoupling(v, "/Trig/Items/Coupling");
    let sweep = read_sweep(v, "/Trig/Items/Sweep");
    match (channel, level, edge, coupling, sweep) {
        (Some(channel), Some(level), Some(edge), Some(coupling), Some(sweep)) => Some(TriggerItems { channel, level, edge, coupling, sweep }),
        _ => None,
    }
}

/// The trigger block in a header's leaves.
pub open spec fn spec_trigger(m: Map<Seq<char>, Seq<char>>) -> Option<Trigger> {
    let mode = field_mode(m, "/Trig/Mode"@);
    let kind = field_ttype(m, "/Trig/Type"@);
    let items = spec_trigger_items(m);
    if mode is Some && kind is Some && items is Some {
        Some(Trigger { mode: mode.unwrap(), kind: kind.unwrap(), items: items.unwrap() })
    } else {
        None
    }
}

fn read_trigger(v: &serde_json::Value) -> (r: Option<Trigger>)
    ensures
        r == spec_trigger(json_leaves(*v)),
{
    let mode = read_mode(v, "/Trig/Mode");
    let kind = read_ttype(v, "/Trig/Type");
    let items = read_trigger_items(v);
    match (mode, kind, items) {
        (Some(mode), Some(kind), Some(items)) => Some(Trigger { mode, kind, items }),
        _ => None,
    }
}

/// The settings of a channel before any header arrived: shown, DC, 10X
/// probe, zero scale, offset and frequency.
pub open spec fn default_channel_info(channel: Channel) -> ChannelInfo {
    ChannelInfo {
        channel,
        display: ChannelDisplay::On,
        coupling: ChannelCoupling::Dc,
        probe: ProbeAttenuation(10),
        scale: Voltage(Decimal { mantissa: 0, exponent: 0 }),
        offset: 0,
        frequency: Decimal { mantissa: 0, exponent: 0 },
    }
}

fn default_channel(channel: Channel) -> (r: ChannelInfo)
    ensures
        r == default_channel_info(channel),
{
    ChannelInfo {
        channel,
        display: ChannelDisplay::On,
        coupling: ChannelCoupling::Dc,
        probe: ProbeAttenuation(10),
        scale: Voltage(Decimal { mantissa: 0, exponent: 0 }),
        offset: 0,
        frequency: Decimal { mantissa: 0, exponent: 0 },
    }
}

impl Default for DataHeader {
    /// A header before any arrived: zero time base, 8K sampling, both
    /// channels in their first settings, ready, triggering on the first
    /// channel's rising edge at zero volts.
    fn default() -> (r: DataHeader)
        ensures
            r.time_base == (TimeBase { scale: Time(Decimal { mantissa: 0, exponent: 0 }), h_offset: 0 }),
            r.sample == (Sample {
                fullscreen: 0,
                slow_move: 0,
                data_len: 0,
                sampling_rate: SamplingRate(Decimal { mantissa: 0, exponent: 0 }),
                sample_type: SampleType::Sample,
                depmem: MemoryDepth::EightK,
            }),
            r.channels[0] == default_channel_info(Channel::Ch1),
            r.channels[1] == default_channel_info(Channel::Ch2),
            r.datatype == DataType::Screen,
            r.run_status == RunStatus::Ready,
            r.trigger == (Trigger {
                mode: TriggerMode::Single,
                kind: TriggerType::Edge,
                items: TriggerItems {
                    channel: Channel::Ch1,
                    level: Voltage(Decimal { mantissa: 0, exponent: 0 }),
                    edge: TriggerEdge::Rising,
                    coupling: TriggerCoupling::Dc,
                    sweep: TriggerSweep::Auto,
                },
            }),
    {
        let zero = Decimal { mantissa: 0, exponent: 0 };
        DataHeader {
            time_base: TimeBase { scale: Time(zero), h_offset: 0 },
            sample: Sample {
                fullscreen: 0,
                slow_move: 0,
                data_len: 0,
                sampling_rate: SamplingRate(zero),
                sample_type: SampleType::Sample,
                depmem: MemoryDepth::EightK,
            },
            channels: [default_channel(Channel::Ch1), default_channel(Channel::Ch2)],
            datatype: DataType::Screen,
            run_status: RunStatus::Ready,
            trigger: Trigger {
                mode: TriggerMode::Single,
                kind: TriggerType::Edge,
                items: TriggerItems {
                    channel: Channel::Ch1,
                    level: Voltage(zero),
                    edge: TriggerEdge::Rising,
                    coupling: TriggerCoupling::Dc,
                    sweep: TriggerSweep::Auto,
                },
            },
        }
    }
}

/// The header a document's leaves describe, read through the firmware's
/// key table (`TIMEBASE`, `SAMPLE`, `CHANNEL`, `DATATYPE`, `RUNSTATUS`,
/// `Trig`), when every field is present and valid.
#[verifier::opaque]
pub open spec fn spec_header(m: Map<Seq<char>, Seq<char>>) -> Option<DataHeader> {
    let time_base = spec_time_base(m);
    let sample = spec_sample(m);
    let ch0 = spec_channel_info(m, 0);
    let ch1 = spec_channel_info(m, 1);
    let datatype = field_dtype(m, "/DATATYPE"@);
    let run_status = field_status(m, "/RUNSTATUS"@);
    let trigger = spec_trigger(m);
    if time_base is Some && sample is Some && ch0 is Some && ch1 is Some && datatype is Some
        && run_status is Some && trigger is Some {
        Some(
            DataHeader {
                time_base: time_base.unwrap(),
                sample: sample.unwrap(),
                channels: [ch0.unwrap(), ch1.unwrap()],
                datatype: datatype.unwrap(),
                run_status: run_status.unwrap(),
                trigger: trigger.unwrap(),
            },
        )
    } else {
        None
    }
}

/// Why a header could not be read.
#[derive(Debug, Clone, Copy, PartialEq, Eq, Structural)]
pub enum HeaderError {
    /// The frame is shorter than its prefix.
    ShortFrame,
    /// The frame's body is not a JSON document.
    NotJson,
    /// A field is missing or holds an invalid value.
    Field,
}

/// Length of the opaque prefix of every response frame.
pub const FRAME_PREFIX: usize = 4;

/// The header a response frame holds: a frame shorter than its prefix, a body
/// that is not JSON, and a document missing a valid field are each an error.
pub open spec fn spec_decode(frame: Seq<u8>) -> Result<DataHeader, HeaderError> {
    if frame.len() < FRAME_PREFIX {
        Err(HeaderError::ShortFrame)
    } else {
        match json_doc_leaves(frame.skip(FRAME_PREFIX as int)) {
            None => Err(HeaderError::NotJson),
            Some(m) => match spec_header(m) {
                Some(h) => Ok(h),
                None => Err(HeaderError::Field),
            },
        }
    }
}

impl DataHeader {
    /// Reads a header from a parsed JSON document.
    pub fn from_json(v: &serde_json::Value) -> (r: Result<DataHeader, HeaderError>)
        ensures
            r == (match spec_header(json_leaves(*v)) {
                Some(h) => Ok(h),
                None => Err(HeaderError::Field),
            }),
    {
        proof {
            reveal(spec_header);
        }
        let time_base = read_time_base(v);
        let sample = read_sample(v);
        let ch0 = read_channel_info(v, 0);
        let ch1 = read_channel_info(v, 1);
        let datatype = read_dtype(v, "/DATATYPE");
        let run_status = read_status(v, "/RUNSTATUS");
        let trigger = read_trigger(v);
        match (time_base, sample, ch0, ch1, datatype, run_status, trigger) {
            (
                Some(time_base),
                Some(sample),
                Some(ch0),
                Some(ch1),
                Some(datatype),
                Some(run_status),
                Some(trigger),
            ) => Ok(DataHeader { time_base, sample, channels: [ch0, ch1], datatype, run_status, trigger }),
            _ => Err(HeaderError::Field),
        }
    }

    /// Reads a header from a response frame: the prefix is skipped and the
    /// rest must be a JSON document whose fields are all valid.
    pub fn decode(frame: &[u8]) -> (r: Result<DataHeader, HeaderError>)
        ensures
            r == spec_decode(frame@),
    {
        if frame.len() < FRAME_PREFIX {
            return Err(HeaderError::ShortFrame);
        }
        let body = vstd::slice::slice_subrange(frame, FRAME_PREFIX, frame.len());
        assert(body@ == frame@.skip(FRAME_PREFIX as int));
        match parse_json(body) {
            Err(_) => Err(HeaderError::NotJson),
            Ok(v) => DataHeader::from_json(&v),
        }
    }
}

} // verus!
