use owowon::data::awg::{AwgChannelDisplay, AwgConfig, AwgMode, AwgReadError};
use owowon::data::head::{
    Channel, ChannelCoupling, ChannelDisplay, DataHeader, HeaderError, MemoryDepth, RunStatus,
    SampleType, TriggerEdge, TriggerSweep,
};
use owowon::data::measurement::{parse_measurement, MeasurementError, MeasurementKind, Measurements};
use owowon::device::{frame_data, pick_header, select_header, RunError};
use owowon::text::utf8_text;
use owowon::scaled_number::Decimal;
use owowon::waveform::samples;

fn value(d: Decimal) -> f64 {
    d.mantissa as f64 * 10f64.powi(d.exponent)
}

const HEADER: &str = r#"{"TIMEBASE":{"SCALE":"500us","HOFFSET":-25},"SAMPLE":{"FULLSCREEN":300,"SLOWMOVE":-1,"DATALEN":300,"SAMPLERATE":"1MSa/s","TYPE":"SAMPle","DEPMEM":"4K"},"CHANNEL":[{"NAME":"CH1","DISPLAY":"ON","COUPLING":"DC","PROBE":"10X","SCALE":"1.00V","OFFSET":25,"FREQUENCE":1000.5},{"NAME":"CH2","DISPLAY":"OFF","COUPLING":"AC","PROBE":"1X","SCALE":"500mV","OFFSET":-10,"FREQUENCE":0}],"DATATYPE":"SCREEN","RUNSTATUS":"end","Trig":{"Mode":"SINGle","Type":"Edge","Items":{"Channel":"CH1","Level":"1.20V","Edge":"RISe","Coupling":"DC","Sweep":"AUTO"}}}"#;

fn frame(body: &[u8]) -> Vec<u8> {
    let mut v = vec![0x12, 0x34, 0x56, 0x78];
    v.extend_from_slice(body);
    v
}

#[test]
fn header_decodes_with_firmware_keys() {
    let h = DataHeader::decode(&frame(HEADER.as_bytes())).unwrap();
    assert_eq!(h.time_base.h_offset, -25);
    assert!((value(h.time_base.scale.0) - 5e-4).abs() < 1e-15);
    assert_eq!(value(h.sample.sampling_rate.0), 1e6);
    assert_eq!(h.sample.sample_type, SampleType::Sample);
    assert_eq!(h.sample.depmem, MemoryDepth::FourK);
    assert_eq!(h.sample.slow_move, -1);
    assert_eq!(h.channels[0].channel, Channel::Ch1);
    assert_eq!(h.channels[0].display, ChannelDisplay::On);
    assert_eq!(h.channels[1].display, ChannelDisplay::Off);
    assert_eq!(h.channels[1].coupling, ChannelCoupling::Ac);
    assert_eq!(h.channels[0].probe.0, 10);
    assert_eq!(h.channels[0].offset, 25);
    assert_eq!(value(h.channels[0].frequency), 1000.5);
    assert_eq!(h.run_status, RunStatus::Ready);
    assert_eq!(h.trigger.items.edge, TriggerEdge::Rising);
    assert_eq!(h.trigger.items.sweep, TriggerSweep::Auto);
    assert!((value(h.trigger.items.level.0) - 1.2).abs() < 1e-12);
    assert!(h.channel_enabled(Channel::Ch1));
    assert!(!h.channel_enabled(Channel::Ch2));
    assert_eq!(h.channel(Channel::Ch2).offset, -10);
    let div = h.channels[0].offset_grid_divs().unwrap();
    assert_eq!(value(div), 1.0);
    let per_unit = h.channels[0].scale_per_unit().unwrap();
    assert!((value(per_unit) - 0.4).abs() < 1e-12);
    assert_eq!(value(h.channels[0].scale_attenuated().unwrap().0), 10.0);
}

#[test]
fn header_errors() {
    assert_eq!(DataHeader::decode(&[1, 2]).unwrap_err(), HeaderError::ShortFrame);
    assert_eq!(DataHeader::decode(&frame(b"\x01\x02garbage")).unwrap_err(), HeaderError::NotJson);
    let bad_status = HEADER.replace("\"end\"", "\"WEIRD\"");
    assert_eq!(DataHeader::decode(&frame(bad_status.as_bytes())).unwrap_err(), HeaderError::Field);
    let missing = HEADER.replace("\"Trig\"", "\"TRIG\"");
    assert_eq!(DataHeader::decode(&frame(missing.as_bytes())).unwrap_err(), HeaderError::Field);
}

#[test]
fn header_found_in_either_buffer() {
    let head = frame(HEADER.as_bytes());
    let data = frame(&[1, 2, 3, 250]);
    let (h1, second) = select_header(&data, &head).unwrap();
    assert!(second);
    assert_eq!(h1.time_base.h_offset, -25);
    let (h2, second) = select_header(&head, &data).unwrap();
    assert!(!second);
    assert_eq!(h2.time_base.h_offset, -25);
    match select_header(&data, &data) {
        Err(RunError::Header { failure, other }) => {
            assert_eq!(failure, HeaderError::NotJson);
            assert_eq!(other, Some(HeaderError::NotJson));
        }
        other => panic!("unexpected {other:?}"),
    }
}

#[test]
fn pick_header_either_order() {
    let h = DataHeader::decode(&frame(HEADER.as_bytes())).unwrap();
    let (a, second) = pick_header(Ok(h), Err(HeaderError::NotJson)).unwrap();
    assert!(second);
    assert_eq!(a.time_base.h_offset, h.time_base.h_offset);
    let (b, second) = pick_header(Err(HeaderError::NotJson), Ok(h)).unwrap();
    assert!(!second);
    assert_eq!(b.time_base.h_offset, h.time_base.h_offset);
}

#[test]
fn measurement_lines() {
    let r = parse_measurement("Vpp=3.720V\n", MeasurementKind::PeakToPeak).unwrap().unwrap();
    assert_eq!(value(r), 3.72);
    assert_eq!(parse_measurement("Vpp=OFF\n", MeasurementKind::PeakToPeak), Ok(None));
    assert_eq!(parse_measurement("Vpp=?\n", MeasurementKind::PeakToPeak), Ok(None));
    assert_eq!(
        parse_measurement("Va=3.640V\n", MeasurementKind::PeakToPeak),
        Err(MeasurementError::OtherPrefix)
    );
    assert_eq!(
        parse_measurement("Vpp=3.7x\n", MeasurementKind::PeakToPeak),
        Err(MeasurementError::InvalidValue)
    );
    let t = parse_measurement("T=1000.0us\n", MeasurementKind::Period).unwrap().unwrap();
    assert!((value(t) - 1e-3).abs() < 1e-15);
}

#[test]
fn measurements_apply_lines_and_derive() {
    let mut m = Measurements::new();
    assert_eq!(m.with_parsed("Vpp=3.720V\n"), Ok(()));
    assert_eq!(m.with_parsed("V=1.822V\n"), Ok(()));
    assert_eq!(m.with_parsed("T=1000.0us\n"), Ok(()));
    assert_eq!(m.with_parsed("PW=400.0us\n"), Ok(()));
    assert_eq!(m.with_parsed("RT=?\n"), Ok(()));
    assert_eq!(m.with_parsed("junk\n"), Ok(()));
    assert_eq!(m.with_parsed("PW=bad s\n"), Err(MeasurementError::InvalidValue));
    assert_eq!(value(m.peak_to_peak.unwrap()), 3.72);
    assert_eq!(value(m.average.unwrap()), 1.822);
    assert!(m.amplitude.is_none());
    assert!(m.rise_time.is_none());
    assert!((value(m.frequency().unwrap()) - 1000.0).abs() < 1e-9);
    assert!((value(m.trough_width().unwrap()) - 6e-4).abs() < 1e-15);
    let shown = m.for_display();
    assert_eq!(shown.len(), 8);
    assert_eq!(shown[0], "Vpp=3.720V");
    assert_eq!(shown[1], "Va=");
    assert_eq!(shown[2], "F=1.000kHz");
    assert_eq!(shown[3], "T=1.000ms");
    assert_eq!(shown[6], "NW=600.0\u{b5}s");
    assert_eq!(shown[7], "Vavg=1.822V");
    assert_eq!(Measurements::new().frequency(), None);
}

#[test]
fn measurement_queries() {
    let q = Measurements::channel_to_measurement_commands(Channel::Ch2);
    assert_eq!(q, vec![":MEAS:CH2:PKPK?", ":MEAS:CH2:VAMP?", ":MEAS:CH2:AVER?", ":MEAS:CH2:PER?", ":MEAS:CH2:RT?", ":MEAS:CH2:PWID?"]);
}

#[test]
fn awg_readback_units_are_corrected() {
    let c = AwgConfig::from_replies("ON\n", "SQUare\n", "1000000\n", "1500\n", "-250\n").unwrap();
    assert!(c.enabled);
    assert_eq!(c.mode, AwgMode::Square);
    assert_eq!(value(c.frequency.0), 1.0);
    assert_eq!(value(c.amplitude.0), 1.5);
    assert_eq!(value(c.offset.0), -0.25);
    assert_eq!(
        AwgConfig::from_replies("MAYBE", "SINE", "1", "1", "1"),
        Err(AwgReadError::Display)
    );
    assert_eq!(
        AwgConfig::from_replies("OFF", "Triangle", "1", "1", "1"),
        Err(AwgReadError::Mode)
    );
    assert_eq!(
        AwgConfig::from_replies("OFF", "Sinc", "x", "1", "1"),
        Err(AwgReadError::Number)
    );
}

#[test]
fn awg_write_commands() {
    let c = AwgConfig {
        enabled: true,
        mode: AwgMode::StairUpDown,
        frequency: owowon::data::units::Frequency(Decimal::new(15000, -1)),
        amplitude: owowon::data::units::Voltage(Decimal::new(25, -1)),
        offset: owowon::data::units::Voltage(Decimal::new(0, 0)),
    };
    assert_eq!(
        c.set_commands(),
        vec![":FUNC StairUD", ":FUNC:FREQ 1500", ":FUNC:AMPL 2.5", ":FUNC:OFFS 0", ":CHAN ON"]
    );
    let d = AwgConfig::default();
    assert!(!d.enabled);
    assert_eq!(d.mode, AwgMode::Sine);
    assert_eq!(value(d.frequency.0), 1e6);
    assert_eq!(AwgChannelDisplay::from_bool(false).name(), "OFF");
}

#[test]
fn waveform_frames_and_samples() {
    let f = frame(&[1, 2, 255, 128]);
    let w = frame_data(&f).unwrap();
    assert_eq!(w.as_slice(), &[1, 2, 255, 128]);
    assert!(frame_data(&[1, 2]).is_none());
    assert!(frame_data(&vec![0u8; 1029]).is_none());
    assert_eq!(samples(&[1, 3, 255, 253, 7]), vec![4, -4]);
    let full = vec![200u8; 300];
    let s = samples(&full);
    assert_eq!(s.len(), 300);
    assert_eq!(s[0], -112);
}

#[test]
fn utf8_replies() {
    assert_eq!(utf8_text(b"ON\n").as_deref(), Some("ON\n"));
    assert_eq!(utf8_text(&[0xc2, 0xb5]).as_deref(), Some("\u{b5}"));
    assert_eq!(utf8_text(&[0xff, 0x41]), None);
}

#[test]
fn default_header() {
    let h = DataHeader::default();
    assert_eq!(h.channels[0].channel, Channel::Ch1);
    assert_eq!(h.channels[1].channel, Channel::Ch2);
    assert_eq!(h.channels[1].probe.0, 10);
    assert_eq!(h.run_status, RunStatus::Ready);
    assert_eq!(h.sample.depmem, MemoryDepth::EightK);
}
