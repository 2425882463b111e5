use owowon::data::units::{Frequency, ProbeAttenuation, SamplingRate, Time, UnitParseError, Voltage};
use owowon::scaled_number::Decimal;

fn value(d: Decimal) -> f64 {
    d.mantissa as f64 * 10f64.powi(d.exponent)
}

#[test]
fn voltage_with_and_without_space() {
    let a = "3.3V".parse::<Voltage>().unwrap();
    let b = "3.3 V".parse::<Voltage>().unwrap();
    assert_eq!(a, b);
    assert_eq!(a.0, Decimal::new(33, -1));
    assert_eq!("3.3".parse::<Voltage>(), Err(UnitParseError::MissingUnit));
    assert_eq!("abcV".parse::<Voltage>(), Err(UnitParseError::InvalidNumber));
    assert_eq!(value("500mv".parse::<Voltage>().unwrap().0), 0.5);
}

#[test]
fn other_units_parse() {
    assert_eq!(value("1.000kHz".parse::<Frequency>().unwrap().0), 1000.0);
    assert_eq!("1.000k".parse::<Frequency>(), Err(UnitParseError::MissingUnit));
    assert_eq!(value("1MSa/s".parse::<SamplingRate>().unwrap().0), 1e6);
    let t = "500us".parse::<Time>().unwrap();
    assert!((value(t.0) - 5e-4).abs() < 1e-15);
    assert_eq!("500u".parse::<Time>(), Err(UnitParseError::MissingUnit));
    assert_eq!("5xs".parse::<Time>(), Err(UnitParseError::InvalidNumber));
    assert_eq!("10X".parse::<ProbeAttenuation>(), Ok(ProbeAttenuation(10)));
    assert_eq!("1x".parse::<ProbeAttenuation>(), Ok(ProbeAttenuation(1)));
    assert_eq!("10".parse::<ProbeAttenuation>(), Err(UnitParseError::MissingUnit));
    assert_eq!("-1X".parse::<ProbeAttenuation>(), Err(UnitParseError::InvalidNumber));
    assert_eq!("99999999999X".parse::<ProbeAttenuation>(), Err(UnitParseError::InvalidNumber));
}

#[test]
fn unit_texts() {
    assert_eq!(Voltage(Decimal::new(1, 0)).to_text(), "1.000V");
    assert_eq!(Voltage(Decimal::new(1, 0)).format(2, false), "1.00V");
    assert_eq!(Frequency(Decimal::new(1, 6)).format(3, false), "1.000MHz");
    assert_eq!(SamplingRate(Decimal::new(250, 3)).format(3, false), "250.0kSa/s");
    assert_eq!(ProbeAttenuation(100).to_text(), "100X");
    assert_eq!(ProbeAttenuation::default(), ProbeAttenuation(10));
}

#[test]
fn time_texts() {
    assert_eq!(Time(Decimal::new(2, 0)).to_text(), "2.0s");
    assert_eq!(Time(Decimal::new(20, 0)).to_text(), "20s");
    assert_eq!(Time(Decimal::new(5, -9)).to_text(), "5.0ns");
    assert_eq!(Time(Decimal::new(5, -4)).format(true), "500us");
    assert_eq!(Time(Decimal::new(5, -4)).to_text(), "500\u{b5}s");
    assert_eq!(Time(Decimal::new(0, 0)).to_text(), "0.0s");
    assert_eq!(Time(Decimal::new(1, 3)).to_text(), "1000s");
}
