//! Command encoding and the decisions of the acquisition loop.
use vstd::prelude::*;
use crate::data::head::Channel;
use crate::data::units::{time_text, unit_text, Time, Voltage};
use crate::scaled_number::{checked_add, fixed_text, spec_add, write_fixed, write_scaled, Decimal};
use crate::text::{digits_of, push_digits, push_str, string_from_chars};
use crate::{
    InitialDeviceRunConfig, OscilloscopeCommand, OscilloscopeData, OscilloscopeMessage,
    OscilloscopeRunCommand, OscilloscopeRunSetting, SignalData,
};
use crate::data::awg::{
    spec_awg_channel_display_from_wire, spec_awg_from_replies, spec_awg_mode_from_wire,
    spec_reading, reading, trimmed, AwgChannelDisplay, AwgConfig, AwgMode,
};
use crate::text::{trim, utf8_text};
use vstd::utf8::{decode_utf8, valid_utf8};
use crate::data::measurement::{spec_with_parsed, Measurements};
use crate::data::awg::AwgReadError;
use crate::data::head::{spec_decode, ChannelDisplay, DataHeader, HeaderError, FRAME_PREFIX};
use crate::data::measurement::{spec_measurement_commands, MeasurementError};
use crate::waveform::{waveform_bytes, waveform_from, WAVEFORM_CAPACITY};
use arrayvec::ArrayVec;

verus! {

/// Why a command could not be written.
#[derive(Debug, Clone, Copy, PartialEq, Eq, Structural)]
pub enum EncodeError {
    /// A value moved by the rounding compensation no longer fits a decimal.
    OutOfRange,
}

/// `x` moved by `0.0001` away from zero (zero counts as positive). The
/// instrument rounds the values it reads, and this keeps them on the intended
/// side; offsets and the trigger level are then written with four decimals.
pub open spec fn nudge(x: Decimal) -> Option<Decimal> {
    spec_add(x, Decimal { mantissa: (if x.mantissa < 0 { -1int } else { 1int }) as i64, exponent: -4i32 })
}

fn nudged(x: Decimal) -> (r: Option<Decimal>)
    requires
        x.wf(),
    ensures
        r == nudge(x),
        r matches Some(d) ==> d.wf(),
{
    let step = Decimal { mantissa: if x.mantissa < 0 { -1 } else { 1 }, exponent: -4 };
    checked_add(x, step)
}

/// The decimals a command carries are within bounds.
pub open spec fn command_wf(cmd: OscilloscopeCommand) -> bool {
    match cmd {
        OscilloscopeCommand::SetHorizontalOffset(x) => x.wf(),
        OscilloscopeCommand::SetChannelVOffset(_, x) => x.wf(),
        OscilloscopeCommand::SetChannelVScale(_, v) => v.0.wf(),
        OscilloscopeCommand::SetTimeScale(t) => t.0.wf(),
        OscilloscopeCommand::SetTriggerLevel(v) => v.0.wf(),
        _ => true,
    }
}

/// `:<channel>:<what> <value>`.
pub open spec fn channel_text(ch: Channel, what: Seq<char>, value: Seq<char>) -> Seq<char> {
    seq![':'] + ch.spec_name() + what + value
}

/// The request that sets what `cmd` describes; `None` when a compensated
/// value does not fit.
pub open spec fn spec_command_text(cmd: OscilloscopeCommand) -> Option<Seq<char>> {
    match cmd {
        OscilloscopeCommand::SetHorizontalOffset(x) => match nudge(x) {
            Some(y) => Some(":HORIzontal:OFFSet "@ + fixed_text(y, 4, false)),
            None => None,
        },
        OscilloscopeCommand::SetChannelDisplay(ch, d) => Some(channel_text(ch, ":DISPlay "@, d.spec_name())),
        OscilloscopeCommand::SetChannelVOffset(ch, x) => match nudge(x) {
            Some(y) => Some(channel_text(ch, ":OFFSet "@, fixed_text(y, 4, false))),
            None => None,
        },
        OscilloscopeCommand::SetChannelVScale(ch, v) => Some(
            channel_text(ch, ":SCALe "@, unit_text(v.0, 2, false, "V"@)),
        ),
        OscilloscopeCommand::SetChannelCoupling(ch, c) => Some(channel_text(ch, ":COUPling "@, c.spec_name())),
        OscilloscopeCommand::SetChannelAttenuation(ch, a) => Some(
            channel_text(ch, ":PROBe "@, digits_of(a.0 as nat) + seq!['X']),
        ),
        OscilloscopeCommand::SetTimeScale(t) => Some(":HORIzontal:SCALe "@ + time_text(t.0, true)),
        OscilloscopeCommand::SetTriggerSource(ch) => Some(":TRIGger:SINGle:SOURce "@ + ch.spec_name()),
        OscilloscopeCommand::SetTriggerEdge(e) => Some(":TRIGger:SINGle:EDGe "@ + e.spec_name()),
        OscilloscopeCommand::SetTriggerLevel(v) => match nudge(v.0) {
            Some(y) => Some(":TRIGger:SINGle:EDGe:LEVel "@ + fixed_text(y, 4, false)),
            None => None,
        },
        OscilloscopeCommand::SetTriggerSweep(s) => Some(":TRIGger:SINGle:SWEep "@ + s.spec_name()),
        OscilloscopeCommand::SetTriggerCoupling(c) => Some(":TRIGger:SINGle:COUPling "@ + c.spec_name()),
        OscilloscopeCommand::SetAcquisitionMode(m) => Some(":ACQuire:MODe "@ + m.spec_name()),
        OscilloscopeCommand::SetAcquisitionDepth(d) => Some(":ACQuire:DEPMem "@ + d.spec_name()),
        OscilloscopeCommand::Auto => Some(":AUToset ."@),
    }
}

/// The query sent after `cmd` to wait until the instrument has applied it.
pub open spec fn spec_verify_query(cmd: OscilloscopeCommand) -> Option<Seq<char>> {
    match cmd {
        OscilloscopeCommand::SetChannelVScale(ch, _) => Some(seq![':'] + ch.spec_name() + ":SCALe?"@),
        OscilloscopeCommand::SetTimeScale(_) => Some(":HORIzontal:SCALe?"@),
        _ => None,
    }
}

/// The requests for one command: the setting, then, for scale changes, a
/// query whose answer is read and dropped.
#[derive(Debug)]
pub struct CommandPlan {
    pub request: String,
    pub verify: Option<String>,
}

fn text_of(parts: &Vec<char>) -> (r: String)
    ensures
        r@ == parts@,
{
    string_from_chars(parts)
}

fn channel_request(ch: Channel, what: &str, value: &Vec<char>) -> (r: String)
    ensures
        r@ == channel_text(ch, what@, value@),
{
    let mut out: Vec<char> = Vec::new();
    out.push(':');
    push_str(ch.name(), &mut out);
    push_str(what, &mut out);
    crate::text::push_range(value, 0, value.len(), &mut out);
    assert(value@.subrange(0, value@.len() as int) == value@);
    assert(out@ =~= channel_text(ch, what@, value@));
    text_of(&out)
}

fn joined(a: &str, b: &str) -> (r: String)
    ensures
        r@ == a@ + b@,
{
    let mut out: Vec<char> = Vec::new();
    push_str(a, &mut out);
    push_str(b, &mut out);
    assert(out@ =~= a@ + b@);
    text_of(&out)
}

fn joined_chars(a: &str, b: &Vec<char>) -> (r: String)
    ensures
        r@ == a@ + b@,
{
    let mut out: Vec<char> = Vec::new();
    push_str(a, &mut out);
    crate::text::push_range(b, 0, b.len(), &mut out);
    assert(b@.subrange(0, b@.len() as int) == b@);
    assert(out@ =~= a@ + b@);
    text_of(&out)
}

fn fixed4(y: Decimal) -> (r: Vec<char>)
    requires
        y.wf(),
    ensures
        r@ == fixed_text(y, 4, false),
{
    let mut v: Vec<char> = Vec::new();
    write_fixed(y, 4, false, &mut v);
    assert(v@ =~= fixed_text(y, 4, false));
    v
}

fn volts(y: Decimal, precision: u32) -> (r: Vec<char>)
    requires
        y.wf(),
        precision <= 1000,
    ensures
        r@ == unit_text(y, precision as nat, false, "V"@),
{
    let mut v: Vec<char> = Vec::new();
    write_scaled(y, precision, false, false, &mut v);
    v.push('V');
    proof {
        reveal_strlit("V");
    }
    assert(v@ =~= unit_text(y, precision as nat, false, "V"@));
    v
}

/// Writes the requests for `cmd`.
pub fn encode_command(cmd: &OscilloscopeCommand) -> (r: Result<CommandPlan, EncodeError>)
    requires
        command_wf(*cmd),
    ensures
        r is Err <==> spec_command_text(*cmd) is None,
        r matches Ok(p) ==> spec_command_text(*cmd) == Some(p.request@) && (match spec_verify_query(*cmd) {
            Some(q) => p.verify matches Some(v) && v@ == q,
            None => p.verify is None,
        }),
{
    let request = match *cmd {
        OscilloscopeCommand::SetHorizontalOffset(x) => match nudged(x) {
            Some(y) => joined_chars(":HORIzontal:OFFSet ", &fixed4(y)),
            None => {
                return Err(EncodeError::OutOfRange);
            },
        },
        OscilloscopeCommand::SetChannelDisplay(ch, d) => {
            let v = crate::text::chars_of(d.name());
            channel_request(ch, ":DISPlay ", &v)
        },
        OscilloscopeCommand::SetChannelVOffset(ch, x) => match nudged(x) {
            Some(y) => channel_request(ch, ":OFFSet ", &fixed4(y)),
            None => {
                return Err(EncodeError::OutOfRange);
            },
        },
        OscilloscopeCommand::SetChannelVScale(ch, v) => channel_request(ch, ":SCALe ", &volts(v.0, 2)),
        OscilloscopeCommand::SetChannelCoupling(ch, c) => {
            let v = crate::text::chars_of(c.name());
            channel_request(ch, ":COUPling ", &v)
        },
        OscilloscopeCommand::SetChannelAttenuation(ch, a) => {
            let mut v: Vec<char> = Vec::new();
            push_digits(a.0 as u64, &mut v);
            v.push('X');
            assert(v@ =~= digits_of(a.0 as nat) + seq!['X']);
            channel_request(ch, ":PROBe ", &v)
        },
        OscilloscopeCommand::SetTimeScale(t) => {
            let s = t.format(true);
            joined(":HORIzontal:SCALe ", s.as_str())
        },
        OscilloscopeCommand::SetTriggerSource(ch) => joined(":TRIGger:SINGle:SOURce ", ch.name()),
        OscilloscopeCommand::SetTriggerEdge(e) => joined(":TRIGger:SINGle:EDGe ", e.name()),
        OscilloscopeCommand::SetTriggerLevel(v) => match nudged(v.0) {
            Some(y) => joined_chars(":TRIGger:SINGle:EDGe:LEVel ", &fixed4(y)),
            None => {
                return Err(EncodeError::OutOfRange);
            },
        },
        OscilloscopeCommand::SetTriggerSweep(s) => joined(":TRIGger:SINGle:SWEep ", s.name()),
        OscilloscopeCommand::SetTriggerCoupling(c) => joined(":TRIGger:SINGle:COUPling ", c.name()),
        OscilloscopeCommand::SetAcquisitionMode(m) => joined(":ACQuire:MODe ", m.name()),
        OscilloscopeCommand::SetAcquisitionDepth(d) => joined(":ACQuire:DEPMem ", d.name()),
        OscilloscopeCommand::Auto => String::from_str(":AUToset ."),
    };
    let verify = match *cmd {
        OscilloscopeCommand::SetChannelVScale(ch, _) => {
            let mut out: Vec<char> = Vec::new();
            out.push(':');
            push_str(ch.name(), &mut out);
            push_str(":SCALe?", &mut out);
            assert(out@ =~= seq![':'] + ch.spec_name() + ":SCALe?"@);
            Some(text_of(&out))
        },
        OscilloscopeCommand::SetTimeScale(_) => Some(String::from_str(":HORIzontal:SCALe?")),
        _ => None,
    };
    Ok(CommandPlan { request, verify })
}


/// Which command a transfer belonged to.
#[derive(Debug, Clone, Copy, PartialEq, Eq, Structural)]
pub enum CommandKind {
    SetHorizontalOffset,
    SetChannelDisplay,
    SetChannelVOffset,
    SetChannelVScale,
    SetChannelCoupling,
    SetChannelAttenuation,
    SetTimeScale,
    SetTriggerSource,
    SetTriggerEdge,
    SetTriggerLevel,
    SetTriggerSweep,
    SetTriggerCoupling,
    SetAcquisitionMode,
    SetAcquisitionDepth,
    Auto,
}

pub open spec fn spec_command_kind(cmd: OscilloscopeCommand) -> CommandKind {
    match cmd {
        OscilloscopeCommand::SetHorizontalOffset(_) => CommandKind::SetHorizontalOffset,
        OscilloscopeCommand::SetChannelDisplay(_, _) => CommandKind::SetChannelDisplay,
        OscilloscopeCommand::SetChannelVOffset(_, _) => CommandKind::SetChannelVOffset,
        OscilloscopeCommand::SetChannelVScale(_, _) => CommandKind::SetChannelVScale,
        OscilloscopeCommand::SetChannelCoupling(_, _) => CommandKind::SetChannelCoupling,
        OscilloscopeCommand::SetChannelAttenuation(_, _) => CommandKind::SetChannelAttenuation,
        OscilloscopeCommand::SetTimeScale(_) => CommandKind::SetTimeScale,
        OscilloscopeCommand::SetTriggerSource(_) => CommandKind::SetTriggerSource,
        OscilloscopeCommand::SetTriggerEdge(_) => CommandKind::SetTriggerEdge,
        OscilloscopeCommand::SetTriggerLevel(_) => CommandKind::SetTriggerLevel,
        OscilloscopeCommand::SetTriggerSweep(_) => CommandKind::SetTriggerSweep,
        OscilloscopeCommand::SetTriggerCoupling(_) => CommandKind::SetTriggerCoupling,
        OscilloscopeCommand::SetAcquisitionMode(_) => CommandKind::SetAcquisitionMode,
        OscilloscopeCommand::SetAcquisitionDepth(_) => CommandKind::SetAcquisitionDepth,
        OscilloscopeCommand::Auto => CommandKind::Auto,
    }
}

pub fn command_kind(cmd: &OscilloscopeCommand) -> (r: CommandKind)
    ensures
        r == spec_command_kind(*cmd),
{
    match *cmd {
        OscilloscopeCommand::SetHorizontalOffset(_) => CommandKind::SetHorizontalOffset,
        OscilloscopeCommand::SetChannelDisplay(_, _) => CommandKind::SetChannelDisplay,
        OscilloscopeCommand::SetChannelVOffset(_, _) => CommandKind::SetChannelVOffset,
        OscilloscopeCommand::SetChannelVScale(_, _) => CommandKind::SetChannelVScale,
        OscilloscopeCommand::SetChannelCoupling(_, _) => CommandKind::SetChannelCoupling,
        OscilloscopeCommand::SetChannelAttenuation(_, _) => CommandKind::SetChannelAttenuation,
        OscilloscopeCommand::SetTimeScale(_) => CommandKind::SetTimeScale,
        OscilloscopeCommand::SetTriggerSource(_) => CommandKind::SetTriggerSource,
        OscilloscopeCommand::SetTriggerEdge(_) => CommandKind::SetTriggerEdge,
        OscilloscopeCommand::SetTriggerLevel(_) => CommandKind::SetTriggerLevel,
        OscilloscopeCommand::SetTriggerSweep(_) => CommandKind::SetTriggerSweep,
        OscilloscopeCommand::SetTriggerCoupling(_) => CommandKind::SetTriggerCoupling,
        OscilloscopeCommand::SetAcquisitionMode(_) => CommandKind::SetAcquisitionMode,
        OscilloscopeCommand::SetAcquisitionDepth(_) => CommandKind::SetAcquisitionDepth,
        OscilloscopeCommand::Auto => CommandKind::Auto,
    }
}

/// Where in the loop a transfer failed.
#[derive(Debug, Clone, Copy, PartialEq, Eq, Structural)]
pub enum IoPhase {
    /// A command's transfers: `step` 0 is the setting, 1 the confirming
    /// query and 2 the read of its answer.
    Command { kind: CommandKind, step: usize },
    /// Writing the generator's settings.
    AwgWrite,
    /// Reading the generator's settings.
    AwgRead,
    /// Requesting or reading the header and first waveform.
    Signal,
    /// Requesting or reading the second channel's waveform.
    SecondChannel,
    /// Reading a channel's measurements.
    Measurement(Channel),
}

/// Why the acquisition loop stopped with an error.
#[derive(Debug, Clone, Copy, PartialEq, Eq, Structural)]
pub enum RunError {
    /// A transfer failed or timed out.
    Io(IoPhase),
    /// A command could not be written.
    Encode(EncodeError),
    /// A command or setting carries a value out of bounds.
    InvalidValue,
    /// No buffer held a header: `failure` for the buffer tried last, `other`
    /// for the one tried before it, if any.
    Header { failure: HeaderError, other: Option<HeaderError> },
    /// A waveform frame is shorter than its prefix or longer than a buffer.
    Frame,
    /// A measurement reply is not UTF-8 text (`None`) or its value cannot be read.
    Measurement { channel: Channel, error: Option<MeasurementError> },
    /// A generator reply is not UTF-8 text (`None`), or is invalid.
    AwgRead(Option<AwgReadError>),
    /// The transport answered with another number of replies than asked for.
    Replies,
    /// An event arrived that the loop was not waiting for.
    UnexpectedEvent,
}

/// The waveform in a frame: the bytes after the prefix.
pub open spec fn spec_frame_data(frame: Seq<u8>) -> Option<Seq<u8>> {
    if frame.len() < FRAME_PREFIX || frame.len() - FRAME_PREFIX > WAVEFORM_CAPACITY {
        None
    } else {
        Some(frame.skip(FRAME_PREFIX as int))
    }
}

/// The waveform in a frame, in a buffer.
pub fn frame_data(frame: &[u8]) -> (r: Option<ArrayVec<u8, 1024>>)
    ensures
        r is Some <==> spec_frame_data(frame@) is Some,
        r matches Some(w) ==> Some(waveform_bytes(w)) == spec_frame_data(frame@),
{
    if frame.len() < FRAME_PREFIX || frame.len() - FRAME_PREFIX > WAVEFORM_CAPACITY {
        return None;
    }
    let w = waveform_from(frame, FRAME_PREFIX, frame.len());
    assert(frame@.subrange(FRAME_PREFIX as int, frame@.len() as int) == frame@.skip(FRAME_PREFIX as int));
    Some(w)
}

/// Which buffer holds the header, from what each decoded to: the second
/// buffer is tried first; when it is no header the first is; when neither is,
/// both errors are kept. `true` means the second buffer was the header.
pub open spec fn spec_pick_header(
    second: Result<DataHeader, HeaderError>,
    first: Result<DataHeader, HeaderError>,
) -> Result<(DataHeader, bool), RunError> {
    match second {
        Ok(h) => Ok((h, true)),
        Err(e2) => match first {
            Ok(h) => Ok((h, false)),
            Err(e1) => Err(RunError::Header { failure: e1, other: Some(e2) }),
        },
    }
}

/// Decides which of two decoded buffers is the header.
pub fn pick_header(
    second: Result<DataHeader, HeaderError>,
    first: Result<DataHeader, HeaderError>,
) -> (r: Result<(DataHeader, bool), RunError>)
    ensures
        r == spec_pick_header(second, first),
{
    match second {
        Ok(h) => Ok((h, true)),
        Err(e2) => match first {
            Ok(h) => Ok((h, false)),
            Err(e1) => Err(RunError::Header { failure: e1, other: Some(e2) }),
        },
    }
}

/// When exactly one of two buffers decodes as a header, that one is the
/// header whatever order the buffers arrived in, and the other is the
/// waveform.
pub proof fn lemma_pick_header_either_order(
    a: Result<DataHeader, HeaderError>,
    b: Result<DataHeader, HeaderError>,
)
    requires
        a is Ok != b is Ok,
    ensures
        spec_pick_header(a, b) is Ok,
        spec_pick_header(b, a) is Ok,
        a matches Ok(h) ==> spec_pick_header(a, b) == Ok::<(DataHeader, bool), RunError>((h, true))
            && spec_pick_header(b, a) == Ok::<(DataHeader, bool), RunError>((h, false)),
        b matches Ok(h) ==> spec_pick_header(a, b) == Ok::<(DataHeader, bool), RunError>((h, false))
            && spec_pick_header(b, a) == Ok::<(DataHeader, bool), RunError>((h, true)),
{
}

/// Decodes the two buffers of an acquisition and picks the header; the
/// first buffer is decoded only when the second is no header.
pub fn select_header(first: &[u8], second: &[u8]) -> (r: Result<(DataHeader, bool), RunError>)
    ensures
        r == spec_pick_header(spec_decode(second@), spec_decode(first@)),
{
    let d2 = DataHeader::decode(second);
    match d2 {
        Ok(h) => Ok((h, true)),
        Err(e2) => {
            let d1 = DataHeader::decode(first);
            pick_header(Err(e2), d1)
        },
    }
}

/// One transfer step: a request to send, or a reply to read.
#[derive(Debug)]
pub enum IoStep {
    Send(String),
    Recv,
}

/// A step's request text, or `None` for a read.
pub open spec fn step_view(s: IoStep) -> Option<Seq<char>> {
    match s {
        IoStep::Send(t) => Some(t@),
        IoStep::Recv => None,
    }
}

pub open spec fn steps_view(v: Seq<IoStep>) -> Seq<Option<Seq<char>>> {
    v.map_values(|s: IoStep| step_view(s))
}

/// The requests of an acquisition: the first shown channel's waveform (if
/// any is shown), then the header, then a read for each.
pub open spec fn spec_signal_steps(ch0: bool, ch1: bool) -> Seq<Option<Seq<char>>> {
    if ch0 {
        seq![Some(":DATa:WAVe:SCReen:CH1?"@), Some(":DATa:WAVe:SCReen:HEAD?"@), None, None]
    } else if ch1 {
        seq![Some(":DATa:WAVe:SCReen:CH2?"@), Some(":DATa:WAVe:SCReen:HEAD?"@), None, None]
    } else {
        seq![Some(":DATa:WAVe:SCReen:HEAD?"@), None]
    }
}

fn send_step(t: &str) -> (r: IoStep)
    ensures
        step_view(r) == Some(t@),
{
    IoStep::Send(String::from_str(t))
}

pub fn signal_steps(ch0: bool, ch1: bool) -> (r: Vec<IoStep>)
    ensures
        steps_view(r@) == spec_signal_steps(ch0, ch1),
{
    let mut v: Vec<IoStep> = Vec::new();
    if ch0 {
        v.push(send_step(":DATa:WAVe:SCReen:CH1?"));
    } else if ch1 {
        v.push(send_step(":DATa:WAVe:SCReen:CH2?"));
    }
    v.push(send_step(":DATa:WAVe:SCReen:HEAD?"));
    if ch0 || ch1 {
        v.push(IoStep::Recv);
    }
    v.push(IoStep::Recv);
    assert(steps_view(v@) =~= spec_signal_steps(ch0, ch1));
    v
}

/// The request for the second channel's waveform when both are shown.
pub open spec fn spec_second_channel_steps() -> Seq<Option<Seq<char>>> {
    seq![Some(":DATa:WAVe:SCReen:CH2?"@), None]
}

pub fn second_channel_steps() -> (r: Vec<IoStep>)
    ensures
        steps_view(r@) == spec_second_channel_steps(),
{
    let mut v: Vec<IoStep> = Vec::new();
    v.push(send_step(":DATa:WAVe:SCReen:CH2?"));
    v.push(IoStep::Recv);
    assert(steps_view(v@) =~= spec_second_channel_steps());
    v
}

/// The measurement queries of the shown channels, each followed by a read.
pub open spec fn spec_measurement_steps(ch0: bool, ch1: bool) -> Seq<Option<Seq<char>>> {
    let one = |ch: Channel| Seq::new(12, |i: int| if i % 2 == 0 { Some(spec_measurement_commands(ch)[i / 2]) } else { None });
    (if ch0 { one(Channel::Ch1) } else { Seq::empty() }) + (if ch1 { one(Channel::Ch2) } else { Seq::empty() })
}

fn push_measurement_steps(ch: Channel, v: &mut Vec<IoStep>)
    ensures
        steps_view(final(v)@) == steps_view(old(v)@) + Seq::new(12, |i: int| if i % 2 == 0 { Some(spec_measurement_commands(ch)[i / 2]) } else { None }),
{
    let ghost start = steps_view(v@);
    let cmds = crate::data::measurement::Measurements::channel_to_measurement_commands(ch);
    let ghost want = Seq::new(12, |i: int| if i % 2 == 0 { Some(spec_measurement_commands(ch)[i / 2]) } else { None::<Seq<char>> });
    let mut i: usize = 0;
    while i < 6
        invariant
            i <= 6,
            cmds@.len() == 6,
            forall|j: int| 0 <= j < 6 ==> (#[trigger] cmds@[j])@ == spec_measurement_commands(ch)[j],
            want == Seq::new(12, |i: int| if i % 2 == 0 { Some(spec_measurement_commands(ch)[i / 2]) } else { None::<Seq<char>> }),
            steps_view(v@) == start + want.take(2 * i),
        decreases 6 - i,
    {
        let ghost before = v@;
        let st = send_step(cmds[i]);
        let ghost g = st;
        v.push(st);
        v.push(IoStep::Recv);
        assert(v@ == before.push(g).push(IoStep::Recv));
        assert(steps_view(v@) =~= steps_view(before).push(step_view(g)).push(None));
        i = i + 1;
        assert(want.take(2 * i) =~= want.take(2 * (i - 1)).push(want[2 * (i - 1)]).push(want[2 * (i - 1) + 1]));
        assert(steps_view(v@) =~= start + want.take(2 * i));
    }
    assert(want.take(12) == want);
}

pub fn measurement_steps(ch0: bool, ch1: bool) -> (r: Vec<IoStep>)
    ensures
        steps_view(r@) == spec_measurement_steps(ch0, ch1),
{
    let mut v: Vec<IoStep> = Vec::new();
    if ch0 {
        push_measurement_steps(Channel::Ch1, &mut v);
    }
    if ch1 {
        push_measurement_steps(Channel::Ch2, &mut v);
    }
    assert(steps_view(v@) =~= spec_measurement_steps(ch0, ch1));
    v
}


/// The steps of a command: its request, then the confirming query and a read.
pub open spec fn spec_command_steps(cmd: OscilloscopeCommand) -> Seq<Option<Seq<char>>> {
    seq![spec_command_text(cmd)] + match spec_verify_query(cmd) {
        Some(q) => seq![Some(q), None],
        None => Seq::empty(),
    }
}

/// The generator queries, in order: output state, waveform, frequency,
/// amplitude, offset.
pub open spec fn spec_awg_query(k: int) -> Seq<char> {
    if k == 0 {
        ":CHAN?"@
    } else if k == 1 {
        ":FUNC?"@
    } else if k == 2 {
        ":FUNC:FREQ?"@
    } else if k == 3 {
        ":FUNC:AMPL?"@
    } else {
        ":FUNC:OFFS?"@
    }
}

/// Generator query `k` followed by a read.
pub open spec fn spec_awg_query_steps(k: int) -> Seq<Option<Seq<char>>> {
    seq![Some(spec_awg_query(k)), None]
}

pub fn awg_query_steps(k: usize) -> (r: Vec<IoStep>)
    ensures
        steps_view(r@) == spec_awg_query_steps(k as int),
{
    let q = if k == 0 {
        ":CHAN?"
    } else if k == 1 {
        ":FUNC?"
    } else if k == 2 {
        ":FUNC:FREQ?"
    } else if k == 3 {
        ":FUNC:AMPL?"
    } else {
        ":FUNC:OFFS?"
    };
    let mut v: Vec<IoStep> = Vec::new();
    v.push(send_step(q));
    v.push(IoStep::Recv);
    assert(steps_view(v@) =~= spec_awg_query_steps(k as int));
    v
}

/// What is wrong with the answer `t` to generator query `k`, if anything:
/// an unknown output state, an unknown waveform, or a number that cannot be
/// read.
pub open spec fn spec_awg_field_error(k: int, t: Seq<char>) -> Option<AwgReadError> {
    if k == 0 {
        if spec_awg_channel_display_from_wire(trim(t, false)) is None {
            Some(AwgReadError::Display)
        } else {
            None
        }
    } else if k == 1 {
        if spec_awg_mode_from_wire(trim(t, false)) is None {
            Some(AwgReadError::Mode)
        } else {
            None
        }
    } else if spec_reading(t, if k == 2 { 6 } else { 3 }) is None {
        Some(AwgReadError::Number)
    } else {
        None
    }
}

fn awg_field_error(k: usize, t: &str) -> (r: Option<AwgReadError>)
    requires
        k < 5,
    ensures
        r == spec_awg_field_error(k as int, t@),
{
    if k == 0 {
        let u = trimmed(t);
        if AwgChannelDisplay::from_wire(u.as_str()).is_none() {
            Some(AwgReadError::Display)
        } else {
            None
        }
    } else if k == 1 {
        let u = trimmed(t);
        if AwgMode::from_wire(u.as_str()).is_none() {
            Some(AwgReadError::Mode)
        } else {
            None
        }
    } else if reading(t, if k == 2 { 6 } else { 3 }).is_none() {
        Some(AwgReadError::Number)
    } else {
        None
    }
}

pub open spec fn replies_view(rs: Seq<Vec<u8>>) -> Seq<Seq<u8>> {
    rs.map_values(|r: Vec<u8>| r@)
}

pub open spec fn texts_view(v: Seq<String>) -> Seq<Seq<char>> {
    v.map_values(|t: String| t@)
}

/// Where reading the generator's settings begins: query 0, no answers yet.
pub open spec fn awg_read_started(s: RunLoop, r: (RunLoop, Action)) -> bool {
    &&& (r.1 matches Action::Exchange(v) && steps_view(v@) == spec_awg_query_steps(0))
    &&& (r.0.phase matches Phase::AwgRead { texts } && texts@.len() == 0)
    &&& same_flags(s, r.0)
}

/// What the answer to generator query `texts.len()` leads to: an error for a
/// reply that is not UTF-8 or not valid, else the next query, and after the
/// fifth answer the settings are delivered.
pub open spec fn spec_awg_replied(s: RunLoop, texts: Seq<Seq<char>>, rs: Seq<Seq<u8>>, r: (RunLoop, Action)) -> bool {
    let k = texts.len() as int;
    if rs.len() != 1 {
        r.1 == Action::Finish(Err(RunError::Replies))
    } else if !valid_utf8(rs[0]) {
        r.1 == Action::Finish(Err(RunError::AwgRead(None)))
    } else if k >= 5 {
        r.1 == Action::Finish(Err(RunError::UnexpectedEvent))
    } else {
        let t = decode_utf8(rs[0]);
        match spec_awg_field_error(k, t) {
            Some(e) => r.1 == Action::Finish(Err(RunError::AwgRead(Some(e)))),
            None => if k < 4 {
                &&& (r.1 matches Action::Exchange(v) && steps_view(v@) == spec_awg_query_steps(k + 1))
                &&& (r.0.phase matches Phase::AwgRead { texts: t2 } && texts_view(t2@) == texts.push(t))
                &&& same_flags(s, r.0)
            } else {
                match spec_awg_from_replies(texts[0], texts[1], texts[2], texts[3], t) {
                    Ok(c) => r.1 == Action::Deliver(OscilloscopeMessage::Awg(c)) && r.0.phase is Delivering
                        && same_flags(s, r.0),
                    Err(e) => r.1 == Action::Finish(Err(RunError::AwgRead(Some(e)))),
                }
            },
        }
    }
}

/// Response lines applied in order to `m`; `Err(None)` for one that is not
/// UTF-8 text.
pub open spec fn spec_apply_replies(m: Measurements, rs: Seq<Seq<u8>>) -> Result<
    Measurements,
    Option<MeasurementError>,
>
    decreases rs.len(),
{
    if rs.len() == 0 {
        Ok(m)
    } else if !valid_utf8(rs[0]) {
        Err(None)
    } else {
        match spec_with_parsed(m, decode_utf8(rs[0])) {
            Err(e) => Err(Some(e)),
            Ok(m2) => spec_apply_replies(m2, rs.skip(1)),
        }
    }
}

pub open spec fn empty_measurements() -> Measurements {
    Measurements {
        peak_to_peak: None,
        amplitude: None,
        average: None,
        period: None,
        rise_time: None,
        peak_width: None,
    }
}

/// Applies the replies `rs[lo..hi]` to empty readings.
pub fn measurements_from_replies(rs: &Vec<Vec<u8>>, lo: usize, hi: usize) -> (r: Result<
    Measurements,
    Option<MeasurementError>,
>)
    requires
        lo <= hi <= rs@.len(),
    ensures
        r == spec_apply_replies(empty_measurements(), replies_view(rs@).subrange(lo as int, hi as int)),
        r matches Ok(m) ==> m.wf(),
{
    let ghost all = replies_view(rs@).subrange(lo as int, hi as int);
    let mut m = Measurements::new();
    let mut i = lo;
    while i < hi
        invariant
            lo <= i <= hi <= rs@.len(),
            all == replies_view(rs@).subrange(lo as int, hi as int),
            spec_apply_replies(m, replies_view(rs@).subrange(i as int, hi as int)) == spec_apply_replies(
                empty_measurements(),
                all,
            ),
            m.wf(),
        decreases hi - i,
    {
        let ghost rest = replies_view(rs@).subrange(i as int, hi as int);
        assert(rest[0] == rs@[i as int]@);
        assert(rest.skip(1) == replies_view(rs@).subrange(i + 1, hi as int));
        match utf8_text(rs[i].as_slice()) {
            None => {
                return Err(None);
            },
            Some(t) => {
                match m.with_parsed(t.as_str()) {
                    Err(e) => {
                        return Err(Some(e));
                    },
                    Ok(()) => {},
                }
            },
        }
        i = i + 1;
    }
    assert(replies_view(rs@).subrange(i as int, hi as int).len() == 0);
    Ok(m)
}

/// What the acquisition loop is waiting for.
#[derive(Debug)]
pub enum Phase {
    /// The result of polling the command queue.
    Polling,
    /// The transfers of a command.
    Command(CommandKind),
    /// The transfers that write the generator's settings.
    AwgWrite,
    /// The answer to the next generator query; `texts` holds the answers
    /// so far.
    AwgRead { texts: Vec<String> },
    /// The replies with the header and the first waveform.
    Signal,
    /// The reply with the second channel's waveform.
    SecondChannel { head: DataHeader, ch0_data: Option<ArrayVec<u8, 1024>> },
    /// The measurement replies.
    Measuring { signal: SignalData },
    /// The delivery of a message.
    Delivering,
    /// Nothing: the loop has stopped.
    Finished,
}

impl Phase {
    /// Whether a transfer with the instrument is in flight.
    pub open spec fn awaits_transfer(self) -> bool {
        match self {
            Phase::Command(_) | Phase::AwgWrite | Phase::AwgRead { .. } | Phase::Signal
            | Phase::SecondChannel { .. } | Phase::Measuring { .. } => true,
            _ => false,
        }
    }

    /// The part of the loop a failed transfer belongs to.
    pub open spec fn io_phase(self) -> IoPhase {
        match self {
            Phase::AwgWrite => IoPhase::AwgWrite,
            Phase::AwgRead { .. } => IoPhase::AwgRead,
            Phase::SecondChannel { .. } => IoPhase::SecondChannel,
            _ => IoPhase::Signal,
        }
    }
}

/// The part of the loop a transfer failing at step `i` belongs to: a command
/// names itself and the step; in the measurements the first channel's twelve
/// steps come first.
pub open spec fn io_phase_at(s: RunLoop, i: usize) -> IoPhase {
    match s.phase {
        Phase::Measuring { .. } => if s.ch0_enabled && i < 12 {
            IoPhase::Measurement(Channel::Ch1)
        } else {
            IoPhase::Measurement(Channel::Ch2)
        },
        Phase::Command(kind) => IoPhase::Command { kind, step: i },
        _ => s.phase.io_phase(),
    }
}

/// What polling the command queue found.
#[derive(Debug)]
pub enum CommandPoll {
    Received(OscilloscopeRunCommand),
    Empty,
    Closed,
}

/// What happened since the last action.
#[derive(Debug)]
pub enum Event {
    Polled(CommandPoll),
    /// The transfers were done; one reply per read, in order.
    Replies(Vec<Vec<u8>>),
    /// The transfer at this step index failed or timed out.
    IoFailed(usize),
    Delivered,
    /// The outbound queue is full; the message comes back.
    OutboundFull(OscilloscopeMessage),
    OutboundClosed,
}

/// What the driver is to do next.
#[derive(Debug)]
pub enum Action {
    PollCommand,
    /// Do these transfers in order and report the replies.
    Exchange(Vec<IoStep>),
    /// Put this message on the outbound queue, waiting while it is full.
    Deliver(OscilloscopeMessage),
    /// Stop, with this result.
    Finish(Result<(), RunError>),
}

/// The acquisition loop's state.
#[derive(Debug)]
pub struct RunLoop {
    /// Shown channels, from the latest header; they shape the next requests.
    pub ch0_enabled: bool,
    pub ch1_enabled: bool,
    pub measurements_enabled: bool,
    pub phase: Phase,
    /// When the current acquisition started, in microseconds.
    pub started_us: u64,
}


/// The generator's write commands, in order, with no reads.
pub open spec fn spec_awg_write_steps(c: AwgConfig) -> Seq<Option<Seq<char>>> {
    seq![
        Some(":FUNC "@ + c.mode.spec_name()),
        Some(":FUNC:FREQ "@ + crate::scaled_number::plain_text(c.frequency.0)),
        Some(":FUNC:AMPL "@ + crate::scaled_number::plain_text(c.amplitude.0)),
        Some(":FUNC:OFFS "@ + crate::scaled_number::plain_text(c.offset.0)),
        Some(":CHAN "@ + AwgChannelDisplay::from_bool_spec(c.enabled).spec_name()),
    ]
}

fn awg_write_steps(c: &AwgConfig) -> (r: Vec<IoStep>)
    requires
        c.wf(),
    ensures
        steps_view(r@) == spec_awg_write_steps(*c),
{
    let mut texts = c.set_commands();
    let mut v: Vec<IoStep> = Vec::new();
    let ghost t = texts@;
    let mut i: usize = 0;
    while i < 5
        invariant
            i <= 5,
            t.len() == 5,
            texts@ == t.skip(i as int),
            steps_view(v@) == spec_awg_write_steps(*c).take(i as int),
            t[0]@ == ":FUNC "@ + c.mode.spec_name(),
            t[1]@ == ":FUNC:FREQ "@ + crate::scaled_number::plain_text(c.frequency.0),
            t[2]@ == ":FUNC:AMPL "@ + crate::scaled_number::plain_text(c.amplitude.0),
            t[3]@ == ":FUNC:OFFS "@ + crate::scaled_number::plain_text(c.offset.0),
            t[4]@ == ":CHAN "@ + AwgChannelDisplay::from_bool_spec(c.enabled).spec_name(),
        decreases 5 - i,
    {
        let text = texts.remove(0);
        assert(text == t[i as int]);
        assert(texts@ =~= t.skip(i + 1));
        let ghost before = v@;
        let st = IoStep::Send(text);
        let ghost g = st;
        v.push(st);
        assert(steps_view(v@) =~= steps_view(before).push(step_view(g)));
        i = i + 1;
        assert(steps_view(v@) =~= spec_awg_write_steps(*c).take(i as int));
    }
    assert(spec_awg_write_steps(*c).take(5) == spec_awg_write_steps(*c));
    v
}

/// Microseconds from `start` to `now`, zero if the clock went back.
pub open spec fn elapsed(start: u64, now: u64) -> u64 {
    if now >= start {
        (now - start) as u64
    } else {
        0
    }
}

pub open spec fn same_flags(a: RunLoop, b: RunLoop) -> bool {
    a.ch0_enabled == b.ch0_enabled && a.ch1_enabled == b.ch1_enabled && a.measurements_enabled
        == b.measurements_enabled && a.started_us == b.started_us
}

pub open spec fn command_steps_ok(c: OscilloscopeCommand, r: Action) -> bool {
    r matches Action::Exchange(v) && steps_view(v@) == spec_command_steps(c)
}

/// What polling the command queue leads to.
pub open spec fn spec_polled(s: RunLoop, p: CommandPoll, now: u64, r: (RunLoop, Action)) -> bool {
    match p {
        CommandPoll::Closed => r.1 == Action::Finish(Ok(())) && r.0.phase is Finished,
        CommandPoll::Empty => r.1 matches Action::Exchange(v) && steps_view(v@) == spec_signal_steps(
            s.ch0_enabled,
            s.ch1_enabled,
        ) && r.0.phase is Signal && r.0.started_us == now && r.0.ch0_enabled == s.ch0_enabled
            && r.0.ch1_enabled == s.ch1_enabled && r.0.measurements_enabled == s.measurements_enabled,
        CommandPoll::Received(OscilloscopeRunCommand::Command(c)) => if !command_wf(c) {
            r.1 == Action::Finish(Err(RunError::InvalidValue))
        } else if spec_command_text(c) is None {
            r.1 == Action::Finish(Err(RunError::Encode(EncodeError::OutOfRange)))
        } else {
            command_steps_ok(c, r.1) && r.0.phase == Phase::Command(spec_command_kind(c)) && same_flags(s, r.0)
        },
        CommandPoll::Received(
            OscilloscopeRunCommand::RunSetting(OscilloscopeRunSetting::SetMeasurementsEnabled(b)),
        ) => r.1 is PollCommand && r.0.phase is Polling && r.0.measurements_enabled == b
            && r.0.ch0_enabled == s.ch0_enabled && r.0.ch1_enabled == s.ch1_enabled,
        CommandPoll::Received(OscilloscopeRunCommand::RunSetting(OscilloscopeRunSetting::ReadAwgConfig)) => awg_read_started(s, r),
        CommandPoll::Received(OscilloscopeRunCommand::RunSetting(OscilloscopeRunSetting::SetAwgConfig(c))) => if !c.wf() {
            r.1 == Action::Finish(Err(RunError::InvalidValue))
        } else {
            r.1 matches Action::Exchange(v) && steps_view(v@) == spec_awg_write_steps(c)
                && r.0.phase is AwgWrite && same_flags(s, r.0)
        },
    }
}

pub fn command_is_wf(cmd: &OscilloscopeCommand) -> (r: bool)
    ensures
        r == command_wf(*cmd),
{
    match *cmd {
        OscilloscopeCommand::SetHorizontalOffset(x) => x.is_wf(),
        OscilloscopeCommand::SetChannelVOffset(_, x) => x.is_wf(),
        OscilloscopeCommand::SetChannelVScale(_, v) => v.0.is_wf(),
        OscilloscopeCommand::SetTimeScale(t) => t.0.is_wf(),
        OscilloscopeCommand::SetTriggerLevel(v) => v.0.is_wf(),
        _ => true,
    }
}

fn plan_steps(plan: CommandPlan) -> (r: Vec<IoStep>)
    ensures
        steps_view(r@) == seq![Some(plan.request@)] + match plan.verify {
            Some(q) => seq![Some(q@), None],
            None => Seq::<Option<Seq<char>>>::empty(),
        },
{
    let ghost req = plan.request@;
    let ghost ver = plan.verify;
    let mut v: Vec<IoStep> = Vec::new();
    v.push(IoStep::Send(plan.request));
    match plan.verify {
        Some(q) => {
            v.push(IoStep::Send(q));
            v.push(IoStep::Recv);
        },
        None => {},
    }
    assert(steps_view(v@) =~= seq![Some(req)] + match ver {
        Some(q) => seq![Some(q@), None],
        None => Seq::<Option<Seq<char>>>::empty(),
    });
    v
}

impl RunLoop {
    /// A loop about to poll its command queue, both channels assumed shown.
    pub fn new(config: InitialDeviceRunConfig) -> (r: RunLoop)
        ensures
            r.ch0_enabled && r.ch1_enabled,
            r.measurements_enabled == config.measurements_enabled,
            r.phase is Polling,
    {
        RunLoop {
            ch0_enabled: true,
            ch1_enabled: true,
            measurements_enabled: config.measurements_enabled,
            phase: Phase::Polling,
            started_us: 0,
        }
    }

    fn finish(self, result: Result<(), RunError>) -> (r: (RunLoop, Action))
        ensures
            r.1 == Action::Finish(result),
            r.0.phase is Finished,
    {
        (
            RunLoop {
                ch0_enabled: self.ch0_enabled,
                ch1_enabled: self.ch1_enabled,
                measurements_enabled: self.measurements_enabled,
                phase: Phase::Finished,
                started_us: self.started_us,
            },
            Action::Finish(result),
        )
    }

    fn with_phase(self, phase: Phase) -> (r: RunLoop)
        ensures
            same_flags(self, r),
            r.phase == phase,
    {
        RunLoop {
            ch0_enabled: self.ch0_enabled,
            ch1_enabled: self.ch1_enabled,
            measurements_enabled: self.measurements_enabled,
            phase,
            started_us: self.started_us,
        }
    }

    /// Handles the result of polling the command queue.
    pub fn on_polled(self, poll: CommandPoll, now_us: u64) -> (r: (RunLoop, Action))
        ensures
            spec_polled(self, poll, now_us, r),
    {
        match poll {
            CommandPoll::Closed => self.finish(Ok(())),
            CommandPoll::Empty => {
                let steps = signal_steps(self.ch0_enabled, self.ch1_enabled);
                (
                    RunLoop {
                        ch0_enabled: self.ch0_enabled,
                        ch1_enabled: self.ch1_enabled,
                        measurements_enabled: self.measurements_enabled,
                        phase: Phase::Signal,
                        started_us: now_us,
                    },
                    Action::Exchange(steps),
                )
            },
            CommandPoll::Received(OscilloscopeRunCommand::Command(c)) => {
                if !command_is_wf(&c) {
                    return self.finish(Err(RunError::InvalidValue));
                }
                match encode_command(&c) {
                    Err(e) => self.finish(Err(RunError::Encode(e))),
                    Ok(plan) => {
                        let steps = plan_steps(plan);
                        let kind = command_kind(&c);
                        (self.with_phase(Phase::Command(kind)), Action::Exchange(steps))
                    },
                }
            },
            CommandPoll::Received(OscilloscopeRunCommand::RunSetting(setting)) => match setting {
                OscilloscopeRunSetting::SetMeasurementsEnabled(b) => (
                    RunLoop {
                        ch0_enabled: self.ch0_enabled,
                        ch1_enabled: self.ch1_enabled,
                        measurements_enabled: b,
                        phase: Phase::Polling,
                        started_us: self.started_us,
                    },
                    Action::PollCommand,
                ),
                OscilloscopeRunSetting::ReadAwgConfig => (
                    self.with_phase(Phase::AwgRead { texts: Vec::new() }),
                    Action::Exchange(awg_query_steps(0)),
                ),
                OscilloscopeRunSetting::SetAwgConfig(c) => {
                    if !(c.frequency.0.is_wf() && c.amplitude.0.is_wf() && c.offset.0.is_wf()) {
                        return self.finish(Err(RunError::InvalidValue));
                    }
                    let steps = awg_write_steps(&c);
                    (self.with_phase(Phase::AwgWrite), Action::Exchange(steps))
                },
            },
        }
    }
}


/// Whether a header shows channel `i`.
pub open spec fn shown(h: DataHeader, i: int) -> bool {
    h.channels[i].display == ChannelDisplay::On
}

/// How the loop goes on once a cycle's signal is complete: the shown
/// channels are taken from its header; with measurements on and a channel
/// shown, the measurement queries follow; otherwise the cycle's message is
/// delivered.
pub open spec fn spec_after_signal(s: RunLoop, signal: SignalData, now: u64, r: (RunLoop, Action)) -> bool {
    let ch0 = shown(signal.head, 0);
    let ch1 = shown(signal.head, 1);
    &&& r.0.ch0_enabled == ch0
    &&& r.0.ch1_enabled == ch1
    &&& r.0.measurements_enabled == s.measurements_enabled
    &&& r.0.started_us == s.started_us
    &&& if s.measurements_enabled && (ch0 || ch1) {
        r.0.phase == (Phase::Measuring { signal }) && (r.1 matches Action::Exchange(v) && steps_view(v@)
            == spec_measurement_steps(ch0, ch1))
    } else {
        r.0.phase is Delivering && r.1 == Action::Deliver(
            OscilloscopeMessage::Data(
                OscilloscopeData {
                    measurements: if s.measurements_enabled {
                        Some([empty_measurements(), empty_measurements()])
                    } else {
                        None
                    },
                    signal_data: signal,
                    acquisition_duration_us: elapsed(s.started_us, now),
                },
            ),
        )
    }
}

/// Readings of a channel from its six replies starting at `lo`, or empty
/// readings when the channel is not shown.
pub open spec fn spec_channel_readings(shown: bool, rs: Seq<Seq<u8>>, lo: int) -> Result<
    Measurements,
    Option<MeasurementError>,
> {
    if shown {
        spec_apply_replies(empty_measurements(), rs.subrange(lo, lo + 6))
    } else {
        Ok(empty_measurements())
    }
}

/// What the replies to the measurement queries lead to: the first failing
/// channel ends the loop, else the cycle's message is delivered.
pub open spec fn spec_measured(s: RunLoop, signal: SignalData, rs: Seq<Seq<u8>>, now: u64, r: (RunLoop, Action)) -> bool {
    let n0: int = if s.ch0_enabled { 6 } else { 0 };
    let n1: int = if s.ch1_enabled { 6 } else { 0 };
    let m0 = spec_channel_readings(s.ch0_enabled, rs, 0);
    let m1 = spec_channel_readings(s.ch1_enabled, rs, n0);
    if rs.len() != n0 + n1 {
        r.1 == Action::Finish(Err(RunError::Replies))
    } else if m0 is Err {
        r.1 == Action::Finish(Err(RunError::Measurement { channel: Channel::Ch1, error: m0->Err_0 }))
    } else if m1 is Err {
        r.1 == Action::Finish(Err(RunError::Measurement { channel: Channel::Ch2, error: m1->Err_0 }))
    } else {
        r.0.phase is Delivering && same_flags(s, r.0) && r.1 == Action::Deliver(
            OscilloscopeMessage::Data(
                OscilloscopeData {
                    measurements: Some([m0.unwrap(), m1.unwrap()]),
                    signal_data: signal,
                    acquisition_duration_us: elapsed(s.started_us, now),
                },
            ),
        )
    }
}

/// The header and the waveform bytes that the two replies of an acquisition
/// give: the second reply is tried as the header first, and the waveform is
/// the other reply's frame.
pub open spec fn spec_two_replies(rs: Seq<Seq<u8>>) -> Result<(DataHeader, Seq<u8>), RunError> {
    match spec_pick_header(spec_decode(rs[1]), spec_decode(rs[0])) {
        Err(e) => Err(e),
        Ok((h, second)) => match spec_frame_data(if second { rs[0] } else { rs[1] }) {
            None => Err(RunError::Frame),
            Some(w) => Ok((h, w)),
        },
    }
}

/// When exactly one of the two buffers of an acquisition decodes as a header
/// and the other is a valid frame, the acquisition gets that header and keeps
/// the other buffer as its waveform, whichever of the two arrived first.
pub proof fn lemma_two_replies_either_order(a: Seq<u8>, b: Seq<u8>)
    requires
        spec_decode(a) is Ok != spec_decode(b) is Ok,
    ensures
        spec_decode(a) is Ok && spec_frame_data(b) is Some ==> spec_two_replies(seq![a, b]) == Ok::<
            (DataHeader, Seq<u8>),
            RunError,
        >((spec_decode(a)->Ok_0, spec_frame_data(b)->Some_0)) && spec_two_replies(seq![b, a]) == Ok::<
            (DataHeader, Seq<u8>),
            RunError,
        >((spec_decode(a)->Ok_0, spec_frame_data(b)->Some_0)),
        spec_decode(b) is Ok && spec_frame_data(a) is Some ==> spec_two_replies(seq![a, b]) == Ok::<
            (DataHeader, Seq<u8>),
            RunError,
        >((spec_decode(b)->Ok_0, spec_frame_data(a)->Some_0)) && spec_two_replies(seq![b, a]) == Ok::<
            (DataHeader, Seq<u8>),
            RunError,
        >((spec_decode(b)->Ok_0, spec_frame_data(a)->Some_0)),
{
    assert(seq![a, b][0] == a && seq![a, b][1] == b);
    assert(seq![b, a][0] == b && seq![b, a][1] == a);
}

/// The signal of a cycle with one channel shown: the waveform goes to that
/// channel.
pub open spec fn signal_with(s: RunLoop, head: DataHeader, d: ArrayVec<u8, 1024>) -> SignalData {
    if s.ch0_enabled {
        SignalData { head, ch0_data: Some(d), ch1_data: None }
    } else {
        SignalData { head, ch0_data: None, ch1_data: Some(d) }
    }
}

/// What the replies to the signal requests lead to. With no channel shown
/// the one reply must be the header. Otherwise the header is picked from the
/// two replies as [`spec_two_replies`] says; with both channels shown the
/// second channel's waveform is requested next, else the signal is complete.
pub open spec fn spec_signal_replied(s: RunLoop, rs: Seq<Seq<u8>>, now: u64, r: (RunLoop, Action)) -> bool {
    let any = s.ch0_enabled || s.ch1_enabled;
    if rs.len() != (if any { 2int } else { 1int }) {
        r.1 == Action::Finish(Err(RunError::Replies))
    } else if !any {
        match spec_decode(rs[0]) {
            Err(e) => r.1 == Action::Finish(Err(RunError::Header { failure: e, other: None })),
            Ok(h) => spec_after_signal(s, SignalData { head: h, ch0_data: None, ch1_data: None }, now, r),
        }
    } else {
        match spec_two_replies(rs) {
            Err(e) => r.1 == Action::Finish(Err(e)),
            Ok((h, w)) => if s.ch0_enabled && s.ch1_enabled {
                &&& (r.0.phase matches Phase::SecondChannel { head, ch0_data } && head == h
                    && ch0_data is Some && waveform_bytes(ch0_data->Some_0) == w)
                &&& (r.1 matches Action::Exchange(v) && steps_view(v@) == spec_second_channel_steps())
                &&& same_flags(s, r.0)
            } else {
                exists|d: ArrayVec<u8, 1024>| waveform_bytes(d) == w && spec_after_signal(
                    s,
                    signal_with(s, h, d),
                    now,
                    r,
                )
            },
        }
    }
}

/// What the reply with the second channel's waveform leads to.
pub open spec fn spec_second_replied(
    s: RunLoop,
    head: DataHeader,
    ch0_data: Option<ArrayVec<u8, 1024>>,
    rs: Seq<Seq<u8>>,
    now: u64,
    r: (RunLoop, Action),
) -> bool {
    if rs.len() != 1 {
        r.1 == Action::Finish(Err(RunError::Replies))
    } else if spec_frame_data(rs[0]) is None {
        r.1 == Action::Finish(Err(RunError::Frame))
    } else {
        exists|d: ArrayVec<u8, 1024>| Some(waveform_bytes(d)) == spec_frame_data(rs[0]) && spec_after_signal(
            s,
            SignalData { head, ch0_data, ch1_data: Some(d) },
            now,
            r,
        )
    }
}

/// What the replies to the transfers of the current phase lead to.
pub open spec fn spec_replied(s: RunLoop, rs: Seq<Seq<u8>>, now: u64, r: (RunLoop, Action)) -> bool {
    match s.phase {
        Phase::Command(_) => r.1 is PollCommand && r.0.phase is Polling && same_flags(s, r.0),
        Phase::AwgWrite => awg_read_started(s, r),
        Phase::AwgRead { texts } => spec_awg_replied(s, texts_view(texts@), rs, r),
        Phase::Signal => spec_signal_replied(s, rs, now, r),
        Phase::SecondChannel { head, ch0_data } => spec_second_replied(s, head, ch0_data, rs, now, r),
        Phase::Measuring { signal } => spec_measured(s, signal, rs, now, r),
        _ => r.1 == Action::Finish(Err(RunError::UnexpectedEvent)),
    }
}

impl RunLoop {
    /// Goes on once a cycle's signal is complete.
    fn after_signal(self, signal: SignalData, now_us: u64) -> (r: (RunLoop, Action))
        ensures
            spec_after_signal(self, signal, now_us, r),
    {
        let ch0 = signal.head.channels[0].display.is_on();
        let ch1 = signal.head.channels[1].display.is_on();
        if self.measurements_enabled && (ch0 || ch1) {
            let steps = measurement_steps(ch0, ch1);
            (
                RunLoop {
                    ch0_enabled: ch0,
                    ch1_enabled: ch1,
                    measurements_enabled: self.measurements_enabled,
                    phase: Phase::Measuring { signal },
                    started_us: self.started_us,
                },
                Action::Exchange(steps),
            )
        } else {
            let measurements = if self.measurements_enabled {
                Some([Measurements::new(), Measurements::new()])
            } else {
                None
            };
            let duration = if now_us >= self.started_us {
                now_us - self.started_us
            } else {
                0
            };
            (
                RunLoop {
                    ch0_enabled: ch0,
                    ch1_enabled: ch1,
                    measurements_enabled: self.measurements_enabled,
                    phase: Phase::Delivering,
                    started_us: self.started_us,
                },
                Action::Deliver(
                    OscilloscopeMessage::Data(
                        OscilloscopeData { measurements, signal_data: signal, acquisition_duration_us: duration },
                    ),
                ),
            )
        }
    }
}


proof fn lemma_after_signal_flags_only(a: RunLoop, b: RunLoop, signal: SignalData, now: u64, r: (RunLoop, Action))
    requires
        same_flags(a, b),
    ensures
        spec_after_signal(a, signal, now, r) == spec_after_signal(b, signal, now, r),
{
}

/// The reply specs read only the flags of the state they start from.
proof fn lemma_replied_flags_only(a: RunLoop, b: RunLoop, v: Seq<Seq<u8>>, now: u64, r: (RunLoop, Action))
    requires
        same_flags(a, b),
    ensures
        spec_signal_replied(a, v, now, r) ==> spec_signal_replied(b, v, now, r),
        forall|head: DataHeader, c0: Option<ArrayVec<u8, 1024>>|
            spec_second_replied(a, head, c0, v, now, r) ==> #[trigger] spec_second_replied(b, head, c0, v, now, r),
        forall|signal: SignalData| spec_measured(a, signal, v, now, r) ==> #[trigger] spec_measured(b, signal, v, now, r),
{
    if spec_signal_replied(a, v, now, r) {
        let any = a.ch0_enabled || a.ch1_enabled;
        if v.len() == (if any { 2int } else { 1int }) {
            if !any {
                if spec_decode(v[0]) is Ok {
                    lemma_after_signal_flags_only(
                        a,
                        b,
                        SignalData { head: spec_decode(v[0])->Ok_0, ch0_data: None, ch1_data: None },
                        now,
                        r,
                    );
                }
            } else if spec_two_replies(v) is Ok && !(a.ch0_enabled && a.ch1_enabled) {
                let (h, w) = spec_two_replies(v)->Ok_0;
                let d = choose|d: ArrayVec<u8, 1024>| waveform_bytes(d) == w && spec_after_signal(
                    a,
                    signal_with(a, h, d),
                    now,
                    r,
                );
                assert(signal_with(a, h, d) == signal_with(b, h, d));
                lemma_after_signal_flags_only(a, b, signal_with(a, h, d), now, r);
            }
        }
    }
    assert forall|head: DataHeader, c0: Option<ArrayVec<u8, 1024>>|
        spec_second_replied(a, head, c0, v, now, r) implies #[trigger] spec_second_replied(b, head, c0, v, now, r) by {
        if v.len() == 1 && spec_frame_data(v[0]) is Some {
            let d = choose|d: ArrayVec<u8, 1024>| Some(waveform_bytes(d)) == spec_frame_data(v[0])
                && spec_after_signal(a, SignalData { head, ch0_data: c0, ch1_data: Some(d) }, now, r);
            lemma_after_signal_flags_only(a, b, SignalData { head, ch0_data: c0, ch1_data: Some(d) }, now, r);
        }
    }
}

/// Whether the loop expects `event` in its current phase.
pub open spec fn expected(s: RunLoop, event: Event) -> bool {
    match event {
        Event::Polled(_) => s.phase is Polling,
        Event::Replies(_) | Event::IoFailed(_) => s.phase.awaits_transfer(),
        Event::Delivered | Event::OutboundFull(_) | Event::OutboundClosed => s.phase is Delivering,
    }
}

/// One step of the loop: what `event` in state `s` leads to.
pub open spec fn spec_step(s: RunLoop, event: Event, now: u64, r: (RunLoop, Action)) -> bool {
    if !expected(s, event) {
        r.1 == Action::Finish(Err(RunError::UnexpectedEvent)) && r.0.phase is Finished
    } else {
        match event {
            Event::Polled(p) => spec_polled(s, p, now, r),
            Event::Replies(rs) => spec_replied(s, replies_view(rs@), now, r),
            Event::IoFailed(i) => r.1 == Action::Finish(Err(RunError::Io(io_phase_at(s, i))))
                && r.0.phase is Finished,
            Event::Delivered => r.1 is PollCommand && r.0.phase is Polling && same_flags(s, r.0),
            Event::OutboundFull(m) => r.1 == Action::Deliver(m) && r.0 == s,
            Event::OutboundClosed => r.1 == Action::Finish(Ok(())) && r.0.phase is Finished,
        }
    }
}

impl RunLoop {
    fn on_signal_replies(self, rs: Vec<Vec<u8>>, now_us: u64) -> (r: (RunLoop, Action))
        ensures
            spec_signal_replied(self, replies_view(rs@), now_us, r),
    {
        let ghost v = replies_view(rs@);
        let any = self.ch0_enabled || self.ch1_enabled;
        let want: usize = if any {
            2
        } else {
            1
        };
        if rs.len() != want {
            return self.finish(Err(RunError::Replies));
        }
        assert(v[0] == rs@[0]@);
        if !any {
            match DataHeader::decode(rs[0].as_slice()) {
                Err(e) => self.finish(Err(RunError::Header { failure: e, other: None })),
                Ok(head) => self.after_signal(SignalData { head, ch0_data: None, ch1_data: None }, now_us),
            }
        } else {
            assert(v[1] == rs@[1]@);
            match select_header(rs[0].as_slice(), rs[1].as_slice()) {
                Err(e) => self.finish(Err(e)),
                Ok((head, second_is_header)) => {
                    let frame = if second_is_header {
                        rs[0].as_slice()
                    } else {
                        rs[1].as_slice()
                    };
                    match frame_data(frame) {
                        None => self.finish(Err(RunError::Frame)),
                        Some(d) => {
                            if self.ch0_enabled && self.ch1_enabled {
                                let steps = second_channel_steps();
                                (
                                    self.with_phase(Phase::SecondChannel { head, ch0_data: Some(d) }),
                                    Action::Exchange(steps),
                                )
                            } else {
                                let ghost gd = d;
                                let signal = if self.ch0_enabled {
                                    SignalData { head, ch0_data: Some(d), ch1_data: None }
                                } else {
                                    SignalData { head, ch0_data: None, ch1_data: Some(d) }
                                };
                                let r = self.after_signal(signal, now_us);
                                assert(spec_after_signal(self, signal_with(self, head, gd), now_us, r));
                                r
                            }
                        },
                    }
                },
            }
        }
    }

    fn on_second_replies(
        self,
        head: DataHeader,
        ch0_data: Option<ArrayVec<u8, 1024>>,
        rs: Vec<Vec<u8>>,
        now_us: u64,
    ) -> (r: (RunLoop, Action))
        ensures
            spec_second_replied(self, head, ch0_data, replies_view(rs@), now_us, r),
    {
        let ghost v = replies_view(rs@);
        if rs.len() != 1 {
            return self.finish(Err(RunError::Replies));
        }
        assert(v[0] == rs@[0]@);
        match frame_data(rs[0].as_slice()) {
            None => self.finish(Err(RunError::Frame)),
            Some(d) => {
                let ghost gd = d;
                let ghost g0 = ch0_data;
                let r = self.after_signal(SignalData { head, ch0_data, ch1_data: Some(d) }, now_us);
                assert(spec_after_signal(self, SignalData { head, ch0_data: g0, ch1_data: Some(gd) }, now_us, r));
                r
            },
        }
    }

    fn on_measuring_replies(self, signal: SignalData, rs: Vec<Vec<u8>>, now_us: u64) -> (r: (RunLoop, Action))
        ensures
            spec_measured(self, signal, replies_view(rs@), now_us, r),
    {
        let ghost v = replies_view(rs@);
        let n0: usize = if self.ch0_enabled {
            6
        } else {
            0
        };
        let n1: usize = if self.ch1_enabled {
            6
        } else {
            0
        };
        if rs.len() != n0 + n1 {
            return self.finish(Err(RunError::Replies));
        }
        let m0 = if self.ch0_enabled {
            measurements_from_replies(&rs, 0, 6)
        } else {
            Ok(Measurements::new())
        };
        let m0 = match m0 {
            Err(e) => {
                return self.finish(Err(RunError::Measurement { channel: Channel::Ch1, error: e }));
            },
            Ok(m) => m,
        };
        let m1 = if self.ch1_enabled {
            measurements_from_replies(&rs, n0, n0 + 6)
        } else {
            Ok(Measurements::new())
        };
        let m1 = match m1 {
            Err(e) => {
                return self.finish(Err(RunError::Measurement { channel: Channel::Ch2, error: e }));
            },
            Ok(m) => m,
        };
        let duration = if now_us >= self.started_us {
            now_us - self.started_us
        } else {
            0
        };
        (
            self.with_phase(Phase::Delivering),
            Action::Deliver(
                OscilloscopeMessage::Data(
                    OscilloscopeData {
                        measurements: Some([m0, m1]),
                        signal_data: signal,
                        acquisition_duration_us: duration,
                    },
                ),
            ),
        )
    }

    fn on_awg_reply(self, texts: Vec<String>, rs: Vec<Vec<u8>>) -> (r: (RunLoop, Action))
        ensures
            spec_awg_replied(self, texts_view(texts@), replies_view(rs@), r),
    {
        let ghost v = replies_view(rs@);
        let ghost tv = texts_view(texts@);
        if rs.len() != 1 {
            return self.finish(Err(RunError::Replies));
        }
        assert(v[0] == rs@[0]@);
        let t = match utf8_text(rs[0].as_slice()) {
            None => {
                return self.finish(Err(RunError::AwgRead(None)));
            },
            Some(t) => t,
        };
        let k = texts.len();
        if k >= 5 {
            return self.finish(Err(RunError::UnexpectedEvent));
        }
        match awg_field_error(k, t.as_str()) {
            Some(e) => {
                return self.finish(Err(RunError::AwgRead(Some(e))));
            },
            None => {},
        }
        if k < 4 {
            let mut texts = texts;
            let ghost tt = t;
            texts.push(t);
            assert(texts_view(texts@) =~= tv.push(tt@));
            (self.with_phase(Phase::AwgRead { texts }), Action::Exchange(awg_query_steps(k + 1)))
        } else {
            assert(tv[0] == texts@[0]@ && tv[1] == texts@[1]@ && tv[2] == texts@[2]@ && tv[3] == texts@[3]@);
            match AwgConfig::from_replies(
                texts[0].as_str(),
                texts[1].as_str(),
                texts[2].as_str(),
                texts[3].as_str(),
                t.as_str(),
            ) {
                Ok(c) => (self.with_phase(Phase::Delivering), Action::Deliver(OscilloscopeMessage::Awg(c))),
                Err(e) => self.finish(Err(RunError::AwgRead(Some(e)))),
            }
        }
    }

    /// Handles the replies to the transfers of the current phase.
    pub fn on_replies(self, rs: Vec<Vec<u8>>, now_us: u64) -> (r: (RunLoop, Action))
        ensures
            spec_replied(self, replies_view(rs@), now_us, r),
    {
        let ghost s = self;
        let RunLoop { ch0_enabled, ch1_enabled, measurements_enabled, phase, started_us } = self;
        let base = RunLoop { ch0_enabled, ch1_enabled, measurements_enabled, phase: Phase::Polling, started_us };
        let ghost v = replies_view(rs@);
        let r = match phase {
            Phase::Command(_) => (base, Action::PollCommand),
            Phase::AwgWrite => (
                base.with_phase(Phase::AwgRead { texts: Vec::new() }),
                Action::Exchange(awg_query_steps(0)),
            ),
            Phase::AwgRead { texts } => base.on_awg_reply(texts, rs),
            Phase::Signal => base.on_signal_replies(rs, now_us),
            Phase::SecondChannel { head, ch0_data } => base.on_second_replies(head, ch0_data, rs, now_us),
            Phase::Measuring { signal } => base.on_measuring_replies(signal, rs, now_us),
            _ => base.finish(Err(RunError::UnexpectedEvent)),
        };
        proof {
            lemma_replied_flags_only(base, s, v, now_us, r);
        }
        r
    }

    /// Takes one event and decides the next action.
    pub fn step(self, event: Event, now_us: u64) -> (r: (RunLoop, Action))
        ensures
            spec_step(self, event, now_us, r),
    {
        let ghost s = self;
        let ghost ev = event;
        let is_polling = matches!(self.phase, Phase::Polling);
        let in_transfer = matches!(
            self.phase,
            Phase::Command(_) | Phase::AwgWrite | Phase::AwgRead { .. } | Phase::Signal
                | Phase::SecondChannel { .. } | Phase::Measuring { .. }
        );
        let delivering = matches!(self.phase, Phase::Delivering);
        match event {
            Event::Polled(p) => if is_polling {
                self.on_polled(p, now_us)
            } else {
                self.finish(Err(RunError::UnexpectedEvent))
            },
            Event::Replies(rs) => if in_transfer {
                self.on_replies(rs, now_us)
            } else {
                self.finish(Err(RunError::UnexpectedEvent))
            },
            Event::IoFailed(i) => if in_transfer {
                let phase = match self.phase {
                    Phase::Measuring { .. } => if self.ch0_enabled && i < 12 {
                        IoPhase::Measurement(Channel::Ch1)
                    } else {
                        IoPhase::Measurement(Channel::Ch2)
                    },
                    Phase::Command(kind) => IoPhase::Command { kind, step: i },
                    Phase::AwgWrite => IoPhase::AwgWrite,
                    Phase::AwgRead { .. } => IoPhase::AwgRead,
                    Phase::SecondChannel { .. } => IoPhase::SecondChannel,
                    _ => IoPhase::Signal,
                };
                self.finish(Err(RunError::Io(phase)))
            } else {
                self.finish(Err(RunError::UnexpectedEvent))
            },
            Event::Delivered => if delivering {
                let r = self.with_phase(Phase::Polling);
                (r, Action::PollCommand)
            } else {
                self.finish(Err(RunError::UnexpectedEvent))
            },
            Event::OutboundFull(m) => if delivering {
                (self, Action::Deliver(m))
            } else {
                self.finish(Err(RunError::UnexpectedEvent))
            },
            Event::OutboundClosed => if delivering {
                self.finish(Ok(()))
            } else {
                self.finish(Err(RunError::UnexpectedEvent))
            },
        }
    }
}

/// Closing the command queue ends the loop without error when the queue is
/// next polled.
pub proof fn lemma_closed_queue_ends_cleanly(s: RunLoop, now: u64, r: (RunLoop, Action))
    requires
        s.phase is Polling,
        spec_step(s, Event::Polled(CommandPoll::Closed), now, r),
    ensures
        r.1 == Action::Finish(Ok(())),
        r.0.phase is Finished,
{
}

/// While a transfer with the instrument is in flight, no event ends the loop
/// without error.
pub proof fn lemma_no_clean_stop_mid_transfer(s: RunLoop, event: Event, now: u64, r: (RunLoop, Action))
    requires
        s.phase.awaits_transfer(),
        spec_step(s, event, now, r),
    ensures
        r.1 != Action::Finish(Ok(())),
{
    match event {
        Event::Replies(rs) => {
            let v = replies_view(rs@);
            match s.phase {
                Phase::Signal => {
                    let any = s.ch0_enabled || s.ch1_enabled;
                    if v.len() == (if any { 2int } else { 1int }) && any && spec_two_replies(v) is Ok
                        && !(s.ch0_enabled && s.ch1_enabled) {
                        let (h, w) = spec_two_replies(v)->Ok_0;
                        let d = choose|d: ArrayVec<u8, 1024>| waveform_bytes(d) == w && spec_after_signal(
                            s,
                            signal_with(s, h, d),
                            now,
                            r,
                        );
                    }
                },
                Phase::SecondChannel { head, ch0_data } => {
                    if !(v.len() != 1) && !(spec_frame_data(v[0]) is None) {
                        let d = choose|d: ArrayVec<u8, 1024>| Some(waveform_bytes(d)) == spec_frame_data(v[0])
                            && spec_after_signal(s, SignalData { head, ch0_data, ch1_data: Some(d) }, now, r);
                    }
                },
                _ => {},
            }
        },
        _ => {},
    }
}

/// While the outbound queue is full the loop holds on to the message it
/// packaged and asks again to deliver it unchanged, doing nothing else; once
/// it is delivered the loop polls its commands again.
pub proof fn lemma_full_queue_keeps_message(s: RunLoop, m: OscilloscopeMessage, now: u64, r: (RunLoop, Action))
    requires
        s.phase is Delivering,
        spec_step(s, Event::OutboundFull(m), now, r),
    ensures
        r.1 == Action::Deliver(m),
        r.0 == s,
{
}

/// A delivered message is followed by polling the command queue.
pub proof fn lemma_delivered_then_poll(s: RunLoop, now: u64, r: (RunLoop, Action))
    requires
        s.phase is Delivering,
        spec_step(s, Event::Delivered, now, r),
    ensures
        r.1 is PollCommand,
        r.0.phase is Polling,
{
}

/// While a message is being delivered no other message is handed out and
/// nothing else is done: the only delivery asked for is the same message
/// handed back by a full queue; the loop polls again only once it was
/// delivered, and it stops only when the queue is closed or on an error.
pub proof fn lemma_delivery_never_drops(s: RunLoop, event: Event, now: u64, r: (RunLoop, Action))
    requires
        s.phase is Delivering,
        spec_step(s, event, now, r),
    ensures
        r.1 is Deliver ==> (event matches Event::OutboundFull(m) && r.1 == Action::Deliver(m) && r.0 == s),
        r.1 is PollCommand ==> event is Delivered,
        !(r.1 is Exchange),
        r.1 == Action::Finish(Ok(())) ==> event is OutboundClosed,
{
}

} // verus!
