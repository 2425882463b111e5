use owowon::controls::{
    calc_new_horizontal_offset, calc_new_trigger_level, calc_new_vertical_offset,
    grid_offset_change, trigger_level_change, Modifiers,
};
use owowon::data::head::DataHeader;
use owowon::scaled_number::Decimal;

const HEADER: &str = r#"{"TIMEBASE":{"SCALE":"1ms","HOFFSET":50},"SAMPLE":{"FULLSCREEN":300,"SLOWMOVE":-1,"DATALEN":300,"SAMPLERATE":"1MSa/s","TYPE":"SAMPle","DEPMEM":"4K"},"CHANNEL":[{"NAME":"CH1","DISPLAY":"ON","COUPLING":"DC","PROBE":"1X","SCALE":"1V","OFFSET":5,"FREQUENCE":0},{"NAME":"CH2","DISPLAY":"ON","COUPLING":"DC","PROBE":"10X","SCALE":"500mV","OFFSET":0,"FREQUENCE":0}],"DATATYPE":"SCREEN","RUNSTATUS":"STOP","Trig":{"Mode":"SINGle","Type":"Edge","Items":{"Channel":"CH2","Level":"1V","Edge":"RISE","Coupling":"DC","Sweep":"SINGlE"}}}"#;

fn header() -> DataHeader {
    let mut v = vec![0u8; 4];
    v.extend_from_slice(HEADER.as_bytes());
    DataHeader::decode(&v).unwrap()
}

fn value(d: Decimal) -> f64 {
    d.mantissa as f64 * 10f64.powi(d.exponent)
}

const PLAIN: Modifiers = Modifiers { command: false, shift: false };
const SHIFT: Modifiers = Modifiers { command: false, shift: true };
const COMMAND: Modifiers = Modifiers { command: true, shift: true };

#[test]
fn offset_steps() {
    assert_eq!(grid_offset_change(PLAIN, true), 5);
    assert_eq!(grid_offset_change(SHIFT, false), -25);
    assert_eq!(grid_offset_change(COMMAND, true), 1);
    let h = header();
    assert_eq!(value(calc_new_vertical_offset(&h.channels[0], PLAIN, true).unwrap()), 0.4);
    assert_eq!(value(calc_new_horizontal_offset(&h, SHIFT, false).unwrap()), 1.0);
}

#[test]
fn trigger_level_steps() {
    let h = header();
    // CH2: 0.5 V per division at 10X is 0.2 V per sample
    let up = calc_new_trigger_level(&h, PLAIN, true).unwrap();
    assert!((value(up.0) - 1.2).abs() < 1e-12);
    let down = calc_new_trigger_level(&h, SHIFT, false).unwrap();
    assert!((value(down.0) - 0.0).abs() < 1e-12);
    let step = trigger_level_change(SHIFT, false, Decimal::new(2, -1)).unwrap();
    assert_eq!(value(step), -1.0);
}
