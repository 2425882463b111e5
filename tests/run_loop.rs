use owowon::data::awg::AwgReadError;
use owowon::data::head::{Channel, ChannelDisplay, HeaderError, MemoryDepth, TriggerEdge};
use owowon::data::units::{ProbeAttenuation, Time, Voltage};
use owowon::device::{
    encode_command, Action, CommandKind, CommandPoll, EncodeError, Event, IoPhase, IoStep, Phase, RunError,
    RunLoop,
};
use owowon::scaled_number::Decimal;
use owowon::{
    InitialDeviceRunConfig, OscilloscopeCommand, OscilloscopeMessage, OscilloscopeRunCommand,
    OscilloscopeRunSetting,
};

const HEADER: &str = r#"{"TIMEBASE":{"SCALE":"500us","HOFFSET":0},"SAMPLE":{"FULLSCREEN":300,"SLOWMOVE":-1,"DATALEN":300,"SAMPLERATE":"1MSa/s","TYPE":"SAMPle","DEPMEM":"4K"},"CHANNEL":[{"NAME":"CH1","DISPLAY":"ON","COUPLING":"DC","PROBE":"10X","SCALE":"1.00V","OFFSET":0,"FREQUENCE":0},{"NAME":"CH2","DISPLAY":"OFF","COUPLING":"DC","PROBE":"10X","SCALE":"1.00V","OFFSET":0,"FREQUENCE":0}],"DATATYPE":"SCREEN","RUNSTATUS":"TRIG","Trig":{"Mode":"SINGle","Type":"Edge","Items":{"Channel":"CH1","Level":"0.00V","Edge":"RISE","Coupling":"DC","Sweep":"AUTo"}}}"#;

fn frame(body: &[u8]) -> Vec<u8> {
    let mut v = vec![0, 0, 0, 0];
    v.extend_from_slice(body);
    v
}

fn texts(steps: &[IoStep]) -> Vec<Option<String>> {
    steps
        .iter()
        .map(|s| match s {
            IoStep::Send(t) => Some(t.clone()),
            IoStep::Recv => None,
        })
        .collect()
}

fn request(cmd: OscilloscopeCommand) -> (String, Option<String>) {
    let plan = encode_command(&cmd).unwrap();
    (plan.request, plan.verify)
}

#[test]
fn command_texts() {
    assert_eq!(
        request(OscilloscopeCommand::SetHorizontalOffset(Decimal::new(5, -1))).0,
        ":HORIzontal:OFFSet 0.5001"
    );
    assert_eq!(
        request(OscilloscopeCommand::SetHorizontalOffset(Decimal::new(0, 0))).0,
        ":HORIzontal:OFFSet 0.0001"
    );
    assert_eq!(
        request(OscilloscopeCommand::SetChannelVOffset(Channel::Ch2, Decimal::new(-12, -1))).0,
        ":CH2:OFFSet -1.2001"
    );
    assert_eq!(
        request(OscilloscopeCommand::SetChannelVScale(Channel::Ch1, Voltage(Decimal::new(1, 0)))),
        (":CH1:SCALe 1.00V".to_string(), Some(":CH1:SCALe?".to_string()))
    );
    assert_eq!(
        request(OscilloscopeCommand::SetTimeScale(Time(Decimal::new(5, -4)))),
        (":HORIzontal:SCALe 500us".to_string(), Some(":HORIzontal:SCALe?".to_string()))
    );
    assert_eq!(
        request(OscilloscopeCommand::SetTriggerLevel(Voltage(Decimal::new(12, -1)))).0,
        ":TRIGger:SINGle:EDGe:LEVel 1.2001"
    );
    assert_eq!(
        request(OscilloscopeCommand::SetChannelDisplay(Channel::Ch1, ChannelDisplay::Off)),
        (":CH1:DISPlay OFF".to_string(), None)
    );
    assert_eq!(
        request(OscilloscopeCommand::SetChannelAttenuation(Channel::Ch2, ProbeAttenuation(10))).0,
        ":CH2:PROBe 10X"
    );
    assert_eq!(
        request(OscilloscopeCommand::SetTriggerEdge(TriggerEdge::Falling)).0,
        ":TRIGger:SINGle:EDGe FALL"
    );
    assert_eq!(
        request(OscilloscopeCommand::SetAcquisitionDepth(MemoryDepth::EightK)).0,
        ":ACQuire:DEPMem 8K"
    );
    assert_eq!(
        request(OscilloscopeCommand::SetTriggerLevel(Voltage(Decimal::new(-5, -1)))).0,
        ":TRIGger:SINGle:EDGe:LEVel -0.5001"
    );
    assert_eq!(request(OscilloscopeCommand::Auto), (":AUToset .".to_string(), None));
    assert_eq!(
        encode_command(&OscilloscopeCommand::SetHorizontalOffset(Decimal::new(999_999_999_999_999_999, 0)))
            .unwrap_err(),
        EncodeError::OutOfRange
    );
}

#[test]
fn closed_command_queue_stops_cleanly() {
    let lp = RunLoop::new(InitialDeviceRunConfig { measurements_enabled: false });
    let (lp, action) = lp.step(Event::Polled(CommandPoll::Closed), 0);
    assert!(matches!(action, Action::Finish(Ok(()))));
    assert!(matches!(lp.phase, Phase::Finished));
}

#[test]
fn transfer_failure_is_terminal_with_phase() {
    let lp = RunLoop::new(InitialDeviceRunConfig::default());
    let (lp, _) = lp.step(Event::Polled(CommandPoll::Empty), 0);
    let (_, action) = lp.step(Event::IoFailed(1), 5);
    assert!(matches!(action, Action::Finish(Err(RunError::Io(IoPhase::Signal)))));
}

#[test]
fn bad_awg_answer_stops_before_the_next_query() {
    let lp = RunLoop::new(InitialDeviceRunConfig::default());
    let read = OscilloscopeRunCommand::RunSetting(OscilloscopeRunSetting::ReadAwgConfig);
    let (lp, _) = lp.step(Event::Polled(CommandPoll::Received(read)), 0);
    let (lp, _) = lp.step(Event::Replies(vec![b"ON\n".to_vec()]), 0);
    let (_, action) = lp.step(Event::Replies(vec![b"Triangle\n".to_vec()]), 0);
    assert!(matches!(action, Action::Finish(Err(RunError::AwgRead(Some(AwgReadError::Mode))))));
}

#[test]
fn failed_command_transfer_names_command_and_step() {
    let lp = RunLoop::new(InitialDeviceRunConfig::default());
    let cmd = OscilloscopeRunCommand::Command(OscilloscopeCommand::SetChannelVScale(
        Channel::Ch1,
        Voltage(Decimal::new(1, 0)),
    ));
    let (lp, _) = lp.step(Event::Polled(CommandPoll::Received(cmd)), 0);
    let (_, action) = lp.step(Event::IoFailed(2), 0);
    assert!(matches!(
        action,
        Action::Finish(Err(RunError::Io(IoPhase::Command { kind: CommandKind::SetChannelVScale, step: 2 })))
    ));
}

#[test]
fn header_only_cycle_with_bad_reply() {
    let lp = RunLoop::new(InitialDeviceRunConfig::default());
    let off = OscilloscopeRunCommand::Command(OscilloscopeCommand::SetChannelDisplay(Channel::Ch1, ChannelDisplay::Off));
    let (lp, _) = lp.step(Event::Polled(CommandPoll::Received(off)), 0);
    let (lp, _) = lp.step(Event::Replies(vec![]), 0);
    let (lp, _) = lp.step(Event::Polled(CommandPoll::Empty), 0);
    // both channels still assumed shown: two replies, neither a header
    let (_, action) = lp.step(Event::Replies(vec![frame(&[1]), frame(&[2])]), 0);
    assert!(matches!(
        action,
        Action::Finish(Err(RunError::Header { failure: HeaderError::NotJson, other: Some(HeaderError::NotJson) }))
    ));
}

#[test]
fn unexpected_event_is_an_error() {
    let lp = RunLoop::new(InitialDeviceRunConfig::default());
    let (_, action) = lp.step(Event::Delivered, 0);
    assert!(matches!(action, Action::Finish(Err(RunError::UnexpectedEvent))));
}

#[test]
fn full_queue_keeps_the_message() {
    let lp = RunLoop::new(InitialDeviceRunConfig::default());
    let read = OscilloscopeRunCommand::RunSetting(OscilloscopeRunSetting::ReadAwgConfig);
    let (lp, action) = lp.step(Event::Polled(CommandPoll::Received(read)), 0);
    let queries = [":CHAN?", ":FUNC?", ":FUNC:FREQ?", ":FUNC:AMPL?", ":FUNC:OFFS?"];
    let answers: [&[u8]; 5] = [b"OFF\n", b"RAMP\n", b"1000000\n", b"1000\n", b"0\n"];
    let mut lp = lp;
    let mut action = action;
    for k in 0..5 {
        match &action {
            Action::Exchange(steps) => assert_eq!(texts(steps), vec![Some(queries[k].to_string()), None]),
            other => panic!("unexpected {other:?}"),
        }
        let (next, next_action) = lp.step(Event::Replies(vec![answers[k].to_vec()]), 0);
        lp = next;
        action = next_action;
    }
    let msg = match action {
        Action::Deliver(m) => m,
        other => panic!("unexpected {other:?}"),
    };
    let (lp, action) = lp.step(Event::OutboundFull(msg), 0);
    let msg = match action {
        Action::Deliver(m) => m,
        other => panic!("unexpected {other:?}"),
    };
    match &msg {
        OscilloscopeMessage::Awg(c) => {
            assert!(!c.enabled);
            assert_eq!(c.frequency.0.mantissa as f64 * 10f64.powi(c.frequency.0.exponent), 1.0);
        }
        other => panic!("unexpected {other:?}"),
    }
    let (lp, action) = lp.step(Event::Delivered, 0);
    assert!(matches!(action, Action::PollCommand));
    assert!(matches!(lp.phase, Phase::Polling));
}

#[test]
fn acquisition_cycle_with_measurements() {
    let lp = RunLoop::new(InitialDeviceRunConfig { measurements_enabled: true });
    let (lp, action) = lp.step(Event::Polled(CommandPoll::Empty), 100);
    match &action {
        Action::Exchange(steps) => assert_eq!(
            texts(steps),
            vec![
                Some(":DATa:WAVe:SCReen:CH1?".to_string()),
                Some(":DATa:WAVe:SCReen:HEAD?".to_string()),
                None,
                None
            ]
        ),
        other => panic!("unexpected {other:?}"),
    }
    // the header arrives first this time
    let replies = vec![frame(HEADER.as_bytes()), frame(&[1, 2, 3])];
    let (lp, action) = lp.step(Event::Replies(replies), 200);
    // both channels were assumed shown: the second channel is requested next
    assert!(matches!(action, Action::Exchange(_)));
    let (lp, action) = lp.step(Event::Replies(vec![frame(&[9, 9])]), 300);
    // the header shows only the first channel: its six queries follow
    match &action {
        Action::Exchange(steps) => assert_eq!(steps.len(), 12),
        other => panic!("unexpected {other:?}"),
    }
    assert!(lp.ch0_enabled && !lp.ch1_enabled);
    let lines: Vec<Vec<u8>> = ["Vpp=3.720V\n", "Va=?\n", "V=1.000V\n", "T=1.000ms\n", "RT=OFF\n", "PW=500.0us\n"]
        .iter()
        .map(|l| l.as_bytes().to_vec())
        .collect();
    let (lp, action) = lp.step(Event::Replies(lines), 1100);
    let data = match action {
        Action::Deliver(OscilloscopeMessage::Data(d)) => d,
        other => panic!("unexpected {other:?}"),
    };
    assert_eq!(data.acquisition_duration_us, 1000);
    let m = data.measurements.unwrap();
    assert!(m[0].peak_to_peak.is_some());
    assert!(m[1].peak_to_peak.is_none());
    assert_eq!(data.signal_data.ch0_data.unwrap().as_slice(), &[1, 2, 3]);
    assert_eq!(data.signal_data.ch1_data.unwrap().as_slice(), &[9, 9]);
    let (_, action) = lp.step(Event::OutboundClosed, 1200);
    assert!(matches!(action, Action::Finish(Ok(()))));
}

#[test]
fn measurement_toggle_and_bad_values() {
    let lp = RunLoop::new(InitialDeviceRunConfig::default());
    let set = OscilloscopeRunCommand::RunSetting(OscilloscopeRunSetting::SetMeasurementsEnabled(true));
    let (lp, action) = lp.step(Event::Polled(CommandPoll::Received(set)), 0);
    assert!(matches!(action, Action::PollCommand));
    assert!(lp.measurements_enabled);
    let bad = OscilloscopeRunCommand::Command(OscilloscopeCommand::SetHorizontalOffset(Decimal::new(1, 5000)));
    let (_, action) = lp.step(Event::Polled(CommandPoll::Received(bad)), 0);
    assert!(matches!(action, Action::Finish(Err(RunError::InvalidValue))));
}

#[test]
fn no_channel_shown_reads_only_the_header() {
    let hidden = HEADER.replacen("\"DISPLAY\":\"ON\"", "\"DISPLAY\":\"OFF\"", 1);
    let lp = RunLoop::new(InitialDeviceRunConfig::default());
    let (lp, _) = lp.step(Event::Polled(CommandPoll::Empty), 0);
    let (lp, _) = lp.step(Event::Replies(vec![frame(&[5, 6]), frame(hidden.as_bytes())]), 0);
    let (lp, _) = lp.step(Event::Replies(vec![frame(&[7])]), 0);
    assert!(!lp.ch0_enabled && !lp.ch1_enabled);
    let (lp, _) = lp.step(Event::Delivered, 0);
    let (lp, action) = lp.step(Event::Polled(CommandPoll::Empty), 0);
    match &action {
        Action::Exchange(steps) => assert_eq!(texts(steps), vec![Some(":DATa:WAVe:SCReen:HEAD?".to_string()), None]),
        other => panic!("unexpected {other:?}"),
    }
    let (_, action) = lp.step(Event::Replies(vec![vec![1, 2]]), 0);
    assert!(matches!(
        action,
        Action::Finish(Err(RunError::Header { failure: HeaderError::ShortFrame, other: None }))
    ));
}
