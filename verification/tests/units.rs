use std::convert::TryFrom;

use domain::models::typed_lines::ValueWithUnit;
use domain::models::unit::distance_unit::DistanceUnit;
use domain::models::unit::length_unit::LengthUnit;
use domain::models::unit::Ratio;

fn as_f64(r: Ratio) -> f64 {
    r.num as f64 / r.den as f64
}

#[test]
fn parses_percent_unit() {
    assert_eq!(LengthUnit::try_from("%").unwrap(), LengthUnit::Percent);
}

#[test]
fn provides_variant_factors_from_markers() {
    assert_eq!(as_f64(LengthUnit::Px.factor()), 1.0);
    assert_eq!(as_f64(LengthUnit::Em.factor()), 3.0);
    assert_eq!(as_f64(LengthUnit::Rem.factor()), 2.0);
    assert_eq!(as_f64(LengthUnit::Percent.factor()), 0.5);
}

#[test]
fn converts_values_between_units_using_factors() {
    let value_in_em =
        as_f64(LengthUnit::convert_value(Ratio::from_int(9), LengthUnit::Px, LengthUnit::Em).unwrap());
    let value_in_px =
        as_f64(LengthUnit::convert_value(Ratio::from_int(3), LengthUnit::Em, LengthUnit::Px).unwrap());

    assert!((value_in_em - 3.0).abs() < f64::EPSILON);
    assert!((value_in_px - 9.0).abs() < f64::EPSILON);
}

#[test]
fn converts_value_with_unit_via_instance_method() {
    let value_in = ValueWithUnit { value: Ratio::from_int(9), unit: LengthUnit::Px };

    let converted = value_in.convert_to(LengthUnit::Em).unwrap();
    assert!((as_f64(converted.value) - 3.0).abs() < f64::EPSILON);
    assert_eq!(converted.unit, LengthUnit::Em);
}

#[test]
fn parses_distance_units() {
    assert_eq!(DistanceUnit::try_from("m").unwrap(), DistanceUnit::Meter);
    assert_eq!(DistanceUnit::try_from("km").unwrap(), DistanceUnit::Kilometer);
    assert_eq!(DistanceUnit::try_from("miles").unwrap(), DistanceUnit::Miles);
}

#[test]
fn converts_distance_units() {
    let km = as_f64(
        DistanceUnit::convert_value(Ratio::from_int(1000), DistanceUnit::Meter, DistanceUnit::Kilometer)
            .unwrap(),
    );
    let miles = as_f64(
        DistanceUnit::convert_value(Ratio::new(160934, 100), DistanceUnit::Meter, DistanceUnit::Miles)
            .unwrap(),
    );

    assert!((km - 1.0).abs() < f64::EPSILON);
    assert!((miles - 1.0).abs() < 1e-10);
}

#[test]
fn rejects_unknown_unit_symbols_with_message() {
    assert_eq!(LengthUnit::try_from("miles").unwrap_err(), "Unsupported unit 'miles'");
    assert_eq!(DistanceUnit::try_from("px").unwrap_err(), "Unsupported unit 'px'");
    assert_eq!(LengthUnit::from_symbol("PX"), None);
    assert_eq!(LengthUnit::from_symbol("rem"), Some(LengthUnit::Rem));
}

#[test]
fn converting_to_same_unit_and_back_keeps_value() {
    let v = Ratio::new(7, 2);
    let same = LengthUnit::convert_value(v, LengthUnit::Rem, LengthUnit::Rem).unwrap();
    assert_eq!(same.num * v.den, v.num * same.den);
    let there = DistanceUnit::convert_value(v, DistanceUnit::Miles, DistanceUnit::Kilometer).unwrap();
    let back = DistanceUnit::convert_value(there, DistanceUnit::Kilometer, DistanceUnit::Miles).unwrap();
    assert_eq!(back.num * v.den, v.num * back.den);
    assert_eq!(there.num, 7 * 80467);
    assert_eq!(there.den, 100000);
}

#[test]
fn integer_values_convert_exactly() {
    let padding = ValueWithUnit { value: 8i64, unit: LengthUnit::Rem };
    let px = padding.convert_to(LengthUnit::Px);
    assert_eq!(px.unit, LengthUnit::Px);
    assert_eq!(as_f64(px.value), 16.0);
    let pct = ValueWithUnit { value: 3i64, unit: LengthUnit::Px }.convert_to(LengthUnit::Percent);
    assert_eq!(as_f64(pct.value), 6.0);
}

#[test]
fn conversion_overflow_gives_none() {
    let huge = Ratio::new(i128::MAX / 2, 1);
    assert_eq!(LengthUnit::convert_value(huge, LengthUnit::Em, LengthUnit::Px), None);
}

#[test]
fn conversion_cancels_common_factors() {
    let v = Ratio::new(3, 1i128 << 126);
    let r = LengthUnit::convert_value(v, LengthUnit::Px, LengthUnit::Em).unwrap();
    assert_eq!(r, Ratio::new(1, 1i128 << 126));
}
