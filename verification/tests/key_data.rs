use domain::key_data::{build_key_data_for_schema, build_unit_options, make_key_data, validate_value_str};
use domain::models::elements::{ElementField, ElementSchema, FieldSpec, ValueType};
use domain::str_map::StrMap;

fn units() -> StrMap<Vec<String>> {
    let mut units = StrMap::new();
    units.insert("length".to_string(), vec!["px".to_string(), "em".to_string()]);
    units
}

#[test]
fn validates_values_by_type() {
    assert!(!validate_value_str("", ValueType::Str));
    assert!(validate_value_str("x", ValueType::Str));
    assert!(validate_value_str("-12", ValueType::Int));
    assert!(!validate_value_str("1.5", ValueType::Int));
    assert!(validate_value_str("1.5", ValueType::Float));
    assert!(validate_value_str("1e3", ValueType::Float));
    assert!(!validate_value_str("abc", ValueType::Float));
    assert!(validate_value_str("TRUE", ValueType::Bool));
    assert!(validate_value_str("False", ValueType::Bool));
    assert!(!validate_value_str("yes", ValueType::Bool));
}

#[test]
fn key_data_takes_first_unit_of_its_group() {
    let units = units();
    let spec = FieldSpec { ty: ValueType::Float, unit: Some("length".to_string()) };
    let kd = make_key_data("width", &spec, &units);
    assert_eq!(kd.key, "width");
    assert_eq!(kd.value, "");
    assert_eq!(kd.unit, "px");
    assert_eq!(kd.unit_options, vec!["px".to_string(), "em".to_string()]);
    assert!(!kd.is_valid);

    let unknown = FieldSpec { ty: ValueType::Float, unit: Some("angle".to_string()) };
    assert!(build_unit_options(&unknown, &units).is_empty());
    let none = FieldSpec { ty: ValueType::Str, unit: None };
    assert_eq!(make_key_data("label", &none, &units).unit, "");
}

#[test]
fn key_data_follows_schema_order() {
    let schema = ElementSchema::new(
        true,
        vec![
            ElementField::new("width".to_string(), FieldSpec { ty: ValueType::Float, unit: Some("length".to_string()) }),
            ElementField::new("label".to_string(), FieldSpec { ty: ValueType::Str, unit: None }),
        ],
    );
    let data = build_key_data_for_schema(&schema, &units());
    let keys: Vec<&str> = data.iter().map(|k| k.key.as_str()).collect();
    assert_eq!(keys, vec!["width", "label"]);
    assert_eq!(data[0].unit, "px");
    assert_eq!(data[1].unit_options.len(), 0);
}

#[test]
fn value_checks_agree_with_std_parsing() {
    let samples = [
        "", "0", "-12", "+7", "1.5", "1e3", ".5", "inf", "NaN", "-", "abc", "TRUE", "False", "tRuE",
        "yes", "9223372036854775808", " 1", "1_000",
    ];
    for s in samples {
        assert_eq!(validate_value_str(s, ValueType::Str), !s.is_empty(), "{s:?}");
        assert_eq!(validate_value_str(s, ValueType::Int), !s.is_empty() && s.parse::<i64>().is_ok(), "{s:?}");
        assert_eq!(validate_value_str(s, ValueType::Float), !s.is_empty() && s.parse::<f64>().is_ok(), "{s:?}");
        let lower = s.to_lowercase();
        assert_eq!(
            validate_value_str(s, ValueType::Bool),
            !s.is_empty() && (lower == "true" || lower == "false"),
            "{s:?}"
        );
    }
}
