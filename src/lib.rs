//! Client-side protocol engine for a USB oscilloscope with an arbitrary
//! waveform generator: command encoding, response decoding and the decisions
//! of the acquisition loop.
use vstd::prelude::*;

pub mod consts;
pub mod controls;
pub mod data;
pub mod device;
pub mod json;
pub mod scaled_number;
pub mod text;
pub mod waveform;

use crate::data::awg::AwgConfig;
use crate::data::head::{
    Channel, ChannelCoupling, ChannelDisplay, DataHeader, MemoryDepth, SampleType,
    TriggerCoupling, TriggerEdge, TriggerSweep,
};
use crate::data::measurement::Measurements;
use crate::data::units::{ProbeAttenuation, Time, Voltage};
use crate::scaled_number::Decimal;

verus! {

/// A setting to change on the instrument.
#[derive(Debug, Clone, Copy)]
pub enum OscilloscopeCommand {
    /// Horizontal offset, in grid divisions.
    SetHorizontalOffset(Decimal),
    SetChannelDisplay(Channel, ChannelDisplay),
    /// Vertical offset, in grid divisions.
    SetChannelVOffset(Channel, Decimal),
    SetChannelVScale(Channel, Voltage),
    SetChannelCoupling(Channel, ChannelCoupling),
    SetChannelAttenuation(Channel, ProbeAttenuation),
    SetTimeScale(Time),
    SetTriggerSource(Channel),
    SetTriggerEdge(TriggerEdge),
    SetTriggerLevel(Voltage),
    SetTriggerSweep(TriggerSweep),
    SetTriggerCoupling(TriggerCoupling),
    SetAcquisitionMode(SampleType),
    SetAcquisitionDepth(MemoryDepth),
    Auto,
}

/// A setting of the acquisition loop itself.
#[derive(Debug, Clone, Copy)]
pub enum OscilloscopeRunSetting {
    SetMeasurementsEnabled(bool),
    ReadAwgConfig,
    SetAwgConfig(AwgConfig),
}

/// What the controller sends to the acquisition loop.
#[derive(Debug, Clone, Copy)]
pub enum OscilloscopeRunCommand {
    Command(OscilloscopeCommand),
    RunSetting(OscilloscopeRunSetting),
}

impl OscilloscopeRunCommand {
    pub fn from_command(cmd: OscilloscopeCommand) -> (r: OscilloscopeRunCommand)
        ensures
            r == OscilloscopeRunCommand::Command(cmd),
    {
        OscilloscopeRunCommand::Command(cmd)
    }

    pub fn from_setting(setting: OscilloscopeRunSetting) -> (r: OscilloscopeRunCommand)
        ensures
            r == OscilloscopeRunCommand::RunSetting(setting),
    {
        OscilloscopeRunCommand::RunSetting(setting)
    }
}

/// A header and the waveforms of the channels that are shown.
#[derive(Debug)]
pub struct SignalData {
    pub head: DataHeader,
    pub ch0_data: Option<arrayvec::ArrayVec<u8, 1024>>,
    pub ch1_data: Option<arrayvec::ArrayVec<u8, 1024>>,
}

/// One acquisition cycle's result.
#[derive(Debug)]
pub struct OscilloscopeData {
    /// Readings of both channels, when measurements are on.
    pub measurements: Option<[Measurements; 2]>,
    pub signal_data: SignalData,
    /// Wall-clock time the cycle took, in microseconds.
    pub acquisition_duration_us: u64,
}

/// What the acquisition loop sends to the controller.
#[derive(Debug)]
pub enum OscilloscopeMessage {
    Data(OscilloscopeData),
    Awg(AwgConfig),
}

/// How the acquisition loop starts.
#[derive(Debug, Clone, Copy, PartialEq, Eq, Structural)]
pub struct InitialDeviceRunConfig {
    pub measurements_enabled: bool,
}

impl Default for InitialDeviceRunConfig {
    fn default() -> (r: InitialDeviceRunConfig)
        ensures
            !r.measurements_enabled,
    {
        InitialDeviceRunConfig { measurements_enabled: false }
    }
}

} // verus!
