use domain::schema::{
    json_value_matches_type, validate_element, validate_element_name, Element, ElementSchema,
    JsonValueKind, KeySpec, Schemas, ValueType,
};
use domain::str_map::StrMap;

fn key(ty: ValueType, unit: Option<&str>) -> KeySpec {
    KeySpec { ty, unit: unit.map(|u| u.to_string()) }
}

fn default_schemas() -> Schemas {
    let mut units = StrMap::new();
    units.insert("length".to_string(), vec!["px".to_string(), "em".to_string()]);
    let mut elements = StrMap::new();
    let mut button = StrMap::new();
    button.insert("label".to_string(), key(ValueType::Str, None));
    button.insert("disabled".to_string(), key(ValueType::Bool, None));
    elements.insert("Button".to_string(), ElementSchema { allow_init: true, fields: button });
    let mut text_field = StrMap::new();
    text_field.insert("placeholder".to_string(), key(ValueType::Str, None));
    text_field.insert("maxLength".to_string(), key(ValueType::Int, None));
    elements.insert("TextField".to_string(), ElementSchema { allow_init: false, fields: text_field });
    let mut container = StrMap::new();
    container.insert("width".to_string(), key(ValueType::Float, Some("length")));
    container.insert("padding".to_string(), key(ValueType::Int, Some("length")));
    elements.insert("Container".to_string(), ElementSchema { allow_init: true, fields: container });
    Schemas { units, elements }
}

#[test]
fn schema_test_allow_init_field() {
    let schemas = default_schemas();

    let button = schemas.schema_for("Button").unwrap();
    assert!(button.allow_init, "Button should have allow_init = true");
    assert!(button.fields.contains_key("label"), "Button should have 'label' field");

    let container = schemas.schema_for("Container").unwrap();
    assert!(container.allow_init, "Container should have allow_init = true");

    let text_field = schemas.schema_for("TextField").unwrap();
    assert!(!text_field.allow_init, "TextField should have allow_init = false");

    let init_names = schemas.init_element_names();
    assert!(init_names.contains(&"Button"));
    assert!(init_names.contains(&"Container"));
    assert!(!init_names.contains(&"TextField"));
}

#[test]
fn init_element_names_are_sorted() {
    let schemas = default_schemas();
    assert_eq!(schemas.init_element_names(), vec!["Button", "Container"]);
    assert_eq!(schemas.units_for("length").unwrap().len(), 2);
    assert!(schemas.units_for("distance").is_none());
}

#[test]
fn unknown_element_is_one_error() {
    let schemas = default_schemas();
    let error = validate_element_name(&schemas, "Slider").err().unwrap();
    assert_eq!(error.key, None);
    assert_eq!(error.message, "Unknown element name 'Slider'");
    let element = Element { name: "Slider".into(), params: StrMap::new() };
    let errors = validate_element(&schemas, &element).unwrap_err();
    assert_eq!(errors.len(), 1);
}

#[test]
fn element_errors_list_unknown_then_missing_then_wrong_types() {
    let schemas = default_schemas();
    let mut params = StrMap::new();
    params.insert("label".to_string(), JsonValueKind::Integer);
    params.insert("color".to_string(), JsonValueKind::String);
    let element = Element { name: "Button".into(), params };
    let errors = validate_element(&schemas, &element).unwrap_err();
    let got: Vec<(Option<String>, String)> =
        errors.into_iter().map(|e| (e.key, e.message)).collect();
    assert_eq!(
        got,
        vec![
            (Some("color".to_string()), "Key not allowed for this element type".to_string()),
            (Some("disabled".to_string()), "Missing required key".to_string()),
            (Some("label".to_string()), "Wrong type (expected Str)".to_string()),
        ]
    );
}

#[test]
fn valid_element_passes() {
    let schemas = default_schemas();
    let mut params = StrMap::new();
    params.insert("width".to_string(), JsonValueKind::OtherNumber);
    params.insert("padding".to_string(), JsonValueKind::Integer);
    let element = Element { name: "Container".into(), params };
    assert!(validate_element(&schemas, &element).is_ok());
}

#[test]
fn json_kinds_match_types() {
    assert!(json_value_matches_type(&JsonValueKind::Integer, ValueType::Float));
    assert!(json_value_matches_type(&JsonValueKind::OtherNumber, ValueType::Float));
    assert!(!json_value_matches_type(&JsonValueKind::OtherNumber, ValueType::Int));
    assert!(json_value_matches_type(&JsonValueKind::Bool, ValueType::Bool));
    assert!(!json_value_matches_type(&JsonValueKind::Null, ValueType::Str));
}
