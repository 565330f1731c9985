use domain::models::elements::{ElementField, ElementSchema, FieldSpec, Schemas, ValueType};
use domain::models::error::item_line_conversion_error::ItemLineConversionError;
use domain::models::model::{ItemLine, ItemSet};
use domain::models::typed_lines::{ButtonLine, ContainerLine, TextFieldLine};
use domain::models::unit::length_unit::LengthUnit;
use domain::str_map::StrMap;

fn field(name: &str, ty: ValueType, unit: Option<&str>) -> ElementField {
    ElementField::new(name.to_string(), FieldSpec { ty, unit: unit.map(|u| u.to_string()) })
}

fn default_schemas() -> Schemas {
    let mut units = StrMap::new();
    units.insert(
        "length".to_string(),
        vec!["px".to_string(), "em".to_string(), "rem".to_string(), "%".to_string()],
    );
    units.insert(
        "distance".to_string(),
        vec!["m".to_string(), "km".to_string(), "miles".to_string()],
    );
    let mut elements = StrMap::new();
    elements.insert(
        "Container".to_string(),
        ElementSchema::new(
            true,
            vec![
                field("width", ValueType::Float, Some("length")),
                field("height", ValueType::Float, Some("length")),
                field("padding", ValueType::Int, Some("length")),
            ],
        ),
    );
    elements.insert(
        "Button".to_string(),
        ElementSchema::new(
            true,
            vec![
                field("label", ValueType::Str, None),
                field("onClick", ValueType::Str, None),
                field("disabled", ValueType::Bool, None),
            ],
        ),
    );
    elements.insert(
        "TextField".to_string(),
        ElementSchema::new(
            false,
            vec![
                field("placeholder", ValueType::Str, None),
                field("maxLength", ValueType::Int, None),
                field("value", ValueType::Str, None),
            ],
        ),
    );
    Schemas { units, elements }
}

fn set(key: &str, value: &str, unit: &str) -> ItemSet {
    ItemSet { key: key.into(), value: value.into(), unit: unit.into() }
}

fn valid_container_line() -> ItemLine {
    ItemLine {
        title: "Container".into(),
        data: vec![set("width", "100.5", "px"), set("height", "42.0", "em"), set("padding", "8", "rem")],
    }
}

#[test]
fn converts_container_line_to_typed_struct() {
    let schemas = default_schemas();
    let line = valid_container_line();

    let container = ContainerLine::try_from_item_line(&line, &schemas).unwrap();

    assert_eq!(container.width.value.as_str().parse::<f64>().unwrap(), 100.5);
    assert_eq!(container.width.unit, LengthUnit::Px);
    assert_eq!(container.height.unit, LengthUnit::Em);
    assert_eq!(container.padding.value, 8);
    assert_eq!(container.padding.unit, LengthUnit::Rem);
}

#[test]
fn rejects_unit_not_in_length_group() {
    let schemas = default_schemas();
    let mut line = valid_container_line();
    line.data[0].unit = "miles".into();

    let error = ContainerLine::try_from_item_line(&line, &schemas).unwrap_err();
    assert_eq!(error, ItemLineConversionError::UnitNotAllowedForLength { unit: "miles".into() });
}

#[test]
fn rejects_non_container_line() {
    let schemas = default_schemas();
    let mut line = valid_container_line();
    line.title = "Button".into();

    let error = ContainerLine::try_from_item_line(&line, &schemas).unwrap_err();
    assert_eq!(
        error,
        ItemLineConversionError::WrongElementType { expected: "Container", found: "Button".into() }
    );
}

#[test]
fn converts_button_line_to_typed_struct() {
    let schemas = default_schemas();
    let line = ItemLine { title: "Button".into(), data: vec![set("label", "Submit", "")] };

    let button = ButtonLine::try_from_item_line(&line, &schemas).unwrap();
    assert_eq!(button.label, "Submit");
}

#[test]
fn converts_text_field_line_to_typed_struct() {
    let schemas = default_schemas();
    let line = ItemLine {
        title: "TextField".into(),
        data: vec![set("placeholder", "Your name", ""), set("maxLength", "120", ""), set("value", "Alice", "")],
    };

    let text_field = TextFieldLine::try_from_item_line(&line, &schemas).unwrap();
    assert_eq!(text_field.placeholder, "Your name");
    assert_eq!(text_field.max_length, 120);
    assert_eq!(text_field.value, "Alice");
}

#[test]
fn container_errors_come_in_order() {
    let schemas = default_schemas();
    let mut line = valid_container_line();
    line.data[0].value = "wide".into();
    assert_eq!(
        ContainerLine::try_from_item_line(&line, &schemas).unwrap_err(),
        ItemLineConversionError::InvalidFloatValue { field: "width", value: "wide".into() }
    );
    let mut line = valid_container_line();
    line.data[2].value = "8.5".into();
    assert_eq!(
        ContainerLine::try_from_item_line(&line, &schemas).unwrap_err(),
        ItemLineConversionError::InvalidIntValue { field: "padding", value: "8.5".into() }
    );
    let mut line = valid_container_line();
    line.data.remove(1);
    assert_eq!(
        ContainerLine::try_from_item_line(&line, &schemas).unwrap_err(),
        ItemLineConversionError::MissingValue { field: "height" }
    );
}

#[test]
fn container_schema_must_match() {
    let mut schemas = default_schemas();
    schemas.elements.insert(
        "Container".to_string(),
        ElementSchema::new(
            true,
            vec![
                field("width", ValueType::Int, Some("length")),
                field("height", ValueType::Float, Some("length")),
                field("padding", ValueType::Int, Some("length")),
            ],
        ),
    );
    assert_eq!(
        ContainerLine::try_from_item_line(&valid_container_line(), &schemas).unwrap_err(),
        ItemLineConversionError::SchemaFieldTypeMismatch {
            field: "width",
            expected: ValueType::Float,
            found: ValueType::Int
        }
    );
    let empty = Schemas { units: StrMap::new(), elements: StrMap::new() };
    assert_eq!(
        ContainerLine::try_from_item_line(&valid_container_line(), &empty).unwrap_err(),
        ItemLineConversionError::MissingContainerSchema
    );
}

#[test]
fn length_group_must_exist() {
    let mut schemas = default_schemas();
    schemas.units = StrMap::new();
    schemas.units.insert("distance".to_string(), vec!["m".to_string()]);
    assert_eq!(
        ContainerLine::try_from_item_line(&valid_container_line(), &schemas).unwrap_err(),
        ItemLineConversionError::MissingLengthUnitGroup
    );
}

#[test]
fn text_field_max_length_must_be_an_integer() {
    let schemas = default_schemas();
    let line = ItemLine {
        title: "TextField".into(),
        data: vec![set("placeholder", "p", ""), set("maxLength", "99999999999999999999", ""), set("value", "v", "")],
    };
    assert_eq!(
        TextFieldLine::try_from_item_line(&line, &schemas).unwrap_err(),
        ItemLineConversionError::InvalidIntValue { field: "maxLength", value: "99999999999999999999".into() }
    );
}

#[test]
fn error_messages_read_as_displayed() {
    assert_eq!(
        ItemLineConversionError::UnitNotAllowedForLength { unit: "miles".into() }.message(),
        "Unit 'miles' is not allowed by 'length' config group"
    );
    assert_eq!(
        ItemLineConversionError::WrongElementType { expected: "Container", found: "Button".into() }.message(),
        "ItemLine element mismatch. expected='Container', found='Button'"
    );
    assert_eq!(
        ItemLineConversionError::SchemaFieldTypeMismatch {
            field: "width",
            expected: ValueType::Float,
            found: ValueType::Int
        }
        .message(),
        "Schema field 'width' type mismatch. expected=Float, found=Int"
    );
    assert_eq!(
        ItemLineConversionError::SchemaFieldUnitMismatch {
            field: "label",
            expected: "none",
            found: Some("length".into())
        }
        .message(),
        "Schema field 'label' unit mismatch. expected=none, found=Some(\"length\")"
    );
}

#[test]
fn elements_test_allow_init_field() {
    let schemas = default_schemas();

    let button = schemas.schema_for("Button").unwrap();
    assert!(button.allow_init, "Button should have allow_init = true");
    assert!(button.contains_field("label"), "Button should have 'label' field");
    assert_eq!(
        button.iter_fields().iter().map(|(name, _)| *name).collect::<Vec<_>>(),
        vec!["label", "onClick", "disabled"]
    );

    let container = schemas.schema_for("Container").unwrap();
    assert!(container.allow_init, "Container should have allow_init = true");

    let text_field = schemas.schema_for("TextField").unwrap();
    assert!(!text_field.allow_init, "TextField should have allow_init = false");

    let init_names = schemas.init_element_names();
    assert!(init_names.contains(&"Button"));
    assert!(init_names.contains(&"Container"));
    assert!(!init_names.contains(&"TextField"));
}

#[test]
fn element_init_names_are_sorted_whatever_the_insertion_order() {
    let mut elements = StrMap::new();
    elements.insert("b".to_string(), ElementSchema::new(true, vec![]));
    elements.insert("c".to_string(), ElementSchema::new(false, vec![]));
    elements.insert("a".to_string(), ElementSchema::new(true, vec![]));
    let schemas = Schemas { units: StrMap::new(), elements };
    assert_eq!(schemas.init_element_names(), vec!["a", "b"]);
    assert_eq!(default_schemas().init_element_names(), vec!["Button", "Container"]);
}
