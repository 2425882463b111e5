use owowon::consts::{probe_attenuations, selected_time_base, selected_voltage, time_bases, vertical_scales};
use owowon::data::head::DataHeader;
use owowon::data::units::{Time, Voltage};
use owowon::scaled_number::{value_eq, Decimal};

const HEADER: &str = r#"{"TIMEBASE":{"SCALE":"2.0ms","HOFFSET":0},"SAMPLE":{"FULLSCREEN":300,"SLOWMOVE":-1,"DATALEN":300,"SAMPLERATE":"1MSa/s","TYPE":"PEAK","DEPMEM":"8K"},"CHANNEL":[{"NAME":"CH1","DISPLAY":"ON","COUPLING":"DC","PROBE":"10X","SCALE":"0.5V","OFFSET":0,"FREQUENCE":0},{"NAME":"CH2","DISPLAY":"ON","COUPLING":"GND","PROBE":"10X","SCALE":"3V","OFFSET":0,"FREQUENCE":0}],"DATATYPE":"SCREEN","RUNSTATUS":"SCAN","Trig":{"Mode":"SINGle","Type":"Edge","Items":{"Channel":"CH2","Level":"-1.5V","Edge":"FALl","Coupling":"AC","Sweep":"NORMal"}}}"#;

fn header() -> DataHeader {
    let mut v = vec![0u8; 4];
    v.extend_from_slice(HEADER.as_bytes());
    DataHeader::decode(&v).unwrap()
}

#[test]
fn tables_hold_the_offered_settings() {
    let t = time_bases();
    assert_eq!(t.len(), 36);
    assert_eq!(t[0], Time(Decimal::new(2, -9)));
    assert_eq!(t[35], Time(Decimal::new(1000, 0)));
    let v = vertical_scales();
    assert_eq!(v.len(), 10);
    assert_eq!(v[9], Voltage(Decimal::new(10, 0)));
    assert_eq!(probe_attenuations().iter().map(|p| p.0).collect::<Vec<_>>(), vec![1, 10, 100, 1000, 10000]);
}

#[test]
fn time_base_selected_by_value() {
    let h = header();
    let (i, t, prev, next) = selected_time_base(&h);
    assert_eq!(i, 18);
    assert_eq!(t, Time(Decimal::new(2, -3)));
    assert_eq!(prev, Some(Time(Decimal::new(1, -3))));
    assert_eq!(next, Some(Time(Decimal::new(5, -3))));
}

#[test]
fn voltage_selected_by_value_or_first() {
    let h = header();
    let (i, v, prev, next) = selected_voltage(&h.channels[0]);
    assert_eq!(i, 5);
    assert_eq!(v, Voltage(Decimal::new(5, -1)));
    assert_eq!(prev, Some(Voltage(Decimal::new(2, -1))));
    assert_eq!(next, Some(Voltage(Decimal::new(1, 0))));
    let (i, v, prev, next) = selected_voltage(&h.channels[1]);
    assert_eq!(i, 0);
    assert_eq!(v, Voltage(Decimal::new(1, -2)));
    assert_eq!(prev, None);
    assert_eq!(next, Some(Voltage(Decimal::new(2, -2))));
}

#[test]
fn equal_values_in_different_forms() {
    assert!(value_eq(Decimal::new(20, -1), Decimal::new(2, 0)));
    assert!(value_eq(Decimal::new(-5, 3), Decimal::new(-5000, 0)));
    assert!(!value_eq(Decimal::new(2, 0), Decimal::new(2, 1)));
    assert!(!value_eq(Decimal::new(1, 900), Decimal::new(1, -900)));
}

#[test]
fn time_bases_read_back_from_their_text() {
    for t in time_bases() {
        let text = t.format(true);
        let back = text.parse::<Time>().unwrap();
        assert!(value_eq(back.0, t.0), "{text}");
    }
}
