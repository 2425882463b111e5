use owowon::scaled_number::{
    parse_decimal, parse_scaled, reciprocal, unscale, Decimal, DynamicDecimals, ScaledNumber,
    SiScale,
};

fn value(d: Decimal) -> f64 {
    d.mantissa as f64 * 10f64.powi(d.exponent)
}

#[test]
fn unscale_zero_has_no_prefix() {
    let (u, s) = unscale(Decimal::new(0, 0));
    assert_eq!(u.mantissa, 0);
    assert_eq!(s, SiScale::Unity);
}

#[test]
fn unscale_gives_mantissa_in_unit_range() {
    for (m, e, scale) in [
        (12345i64, -7i32, SiScale::Milli),
        (5, -9, SiScale::Nano),
        (999, 0, SiScale::Unity),
        (1000, 0, SiScale::Kilo),
        (-47, 4, SiScale::Kilo),
        (1, -12, SiScale::Pico),
        (999, 9, SiScale::Giga),
    ] {
        let (u, s) = unscale(Decimal::new(m, e));
        assert_eq!(s, scale);
        let v = value(u).abs();
        assert!((1.0..1000.0).contains(&v), "{m}e{e} gave {v}");
        assert_eq!(u.mantissa, m);
    }
}

#[test]
fn unscale_outside_prefix_range_is_clamped() {
    let (u, s) = unscale(Decimal::new(5, 15));
    assert_eq!(s, SiScale::Giga);
    assert_eq!((u.mantissa, u.exponent), (5, 6));
}

#[test]
fn scaled_format_round_trips() {
    for (m, e) in [(12345i64, -7i32), (1, -12), (-7, 3), (999999, 6), (3, -1), (42, 0)] {
        let x = Decimal::new(m, e);
        let text = ScaledNumber(x).format(3, true, false);
        let back = parse_scaled(&text).expect("reads back");
        let (u, s) = unscale(x);
        let decimals = 3 - (value(u).abs().log10().floor() as i32);
        let tolerance = 0.5 * 10f64.powi(s.exponent() as i32 - decimals) * 1.000001;
        assert!((value(back) - value(x)).abs() <= tolerance, "{text}");
    }
}

#[test]
fn scaled_format_exact_texts() {
    assert_eq!(ScaledNumber(Decimal::new(12345, -7)).format(3, true, false), "1.235m");
    assert_eq!(ScaledNumber(Decimal::new(5, -6)).to_text(), "5.000\u{b5}");
    assert_eq!(ScaledNumber(Decimal::new(5, -6)).format(3, true, false), "5.000u");
    assert_eq!(ScaledNumber(Decimal::new(47, 3)).to_text(), "47.00k");
    assert_eq!(ScaledNumber(Decimal::new(-250, 0)).to_text(), "-250.0");
    assert_eq!(ScaledNumber(Decimal::new(0, 0)).to_text(), "0.000");
    assert_eq!(ScaledNumber(Decimal::new(15, -1)).format(3, false, true), "+1.500");
}

#[test]
fn dynamic_decimals_keep_significant_digits() {
    assert_eq!(DynamicDecimals(Decimal::new(1234, -1), 3).to_text(false), "123.4");
    assert_eq!(DynamicDecimals(Decimal::new(5, 0), 2).to_text(false), "5.00");
    assert_eq!(DynamicDecimals(Decimal::new(25, -1), 0).to_text(false), "3");
}

#[test]
fn parse_scaled_suffixes() {
    let d = parse_scaled("1.5k").unwrap();
    assert_eq!(value(d), 1500.0);
    let d = parse_scaled("20 m").unwrap();
    assert!((value(d) - 0.02).abs() < 1e-12);
    let d = parse_scaled("7K").unwrap();
    assert_eq!(value(d), 7000.0);
    assert_eq!(parse_scaled("3"), Some(Decimal::new(3, 0)));
    assert_eq!(parse_scaled(""), None);
    assert_eq!(parse_scaled("5x"), None);
    assert_eq!(parse_scaled("5."), None);
    assert_eq!(parse_scaled("m"), None);
}

#[test]
fn parse_decimal_forms() {
    assert_eq!(parse_decimal("3.720"), Some(Decimal::new(3720, -3)));
    assert_eq!(parse_decimal("-0.5"), Some(Decimal::new(-5, -1)));
    assert_eq!(parse_decimal("+2"), Some(Decimal::new(2, 0)));
    assert_eq!(parse_decimal(".5"), Some(Decimal::new(5, -1)));
    assert_eq!(parse_decimal("1."), Some(Decimal::new(1, 0)));
    assert_eq!(parse_decimal("1e-7"), Some(Decimal::new(1, -7)));
    assert_eq!(parse_decimal("2.5E3"), Some(Decimal::new(25, 2)));
    assert_eq!(parse_decimal("."), None);
    assert_eq!(parse_decimal("1.2.3"), None);
    assert_eq!(parse_decimal("1e"), None);
    assert_eq!(parse_decimal("abc"), None);
    assert_eq!(parse_decimal("12345678901234567890"), None);
}

#[test]
fn reciprocal_of_a_period() {
    let f = reciprocal(Decimal::new(10000, -7)).unwrap();
    assert!((value(f) - 1000.0).abs() < 1e-9);
    assert_eq!(reciprocal(Decimal::new(0, 0)), None);
    let f = reciprocal(Decimal::new(-4, 0)).unwrap();
    assert!((value(f) + 0.25).abs() < 1e-12);
}

#[test]
fn si_scale_steps() {
    assert_eq!(SiScale::Milli.next(), Some(SiScale::Unity));
    assert_eq!(SiScale::Milli.prev(), Some(SiScale::Micro));
    assert_eq!(SiScale::Giga.next(), None);
    assert_eq!(SiScale::Pico.prev(), None);
    assert_eq!(SiScale::from_char('K'), Some(SiScale::Kilo));
    assert_eq!(SiScale::from_char('x'), None);
}
