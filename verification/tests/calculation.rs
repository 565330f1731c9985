use domain::models::elements::{ElementField, ElementSchema, FieldSpec, Schemas, ValueType};
use domain::models::model::{ItemLine, ItemSet};
use domain::str_map::StrMap;
use domain::utility::calculation::{collect_numeric_values, LineCalculationRequest, LineGenerator};

fn field(name: &str, ty: ValueType, unit: Option<&str>) -> ElementField {
    ElementField::new(name.to_string(), FieldSpec { ty, unit: unit.map(|u| u.to_string()) })
}

fn default_schemas() -> Schemas {
    let mut units = StrMap::new();
    units.insert(
        "length".to_string(),
        vec!["px".to_string(), "em".to_string(), "rem".to_string(), "%".to_string()],
    );
    let mut elements = StrMap::new();
    elements.insert(
        "Container".to_string(),
        ElementSchema::new(
            true,
            vec![
                field("width", ValueType::Float, Some("length")),
                field("height", ValueType::Float, Some("length")),
                field("padding", ValueType::Int, Some("length")),
            ],
        ),
    );
    elements.insert(
        "Button".to_string(),
        ElementSchema::new(true, vec![field("label", ValueType::Str, None)]),
    );
    Schemas { units, elements }
}

fn set(key: &str, value: &str, unit: &str) -> ItemSet {
    ItemSet { key: key.to_string(), value: value.to_string(), unit: unit.to_string() }
}

#[test]
fn collects_only_numeric_values() {
    let line = ItemLine {
        title: "example".to_string(),
        data: vec![set("a", "10", "m"), set("b", "x", "m"), set("c", "2.5", "m")],
    };

    let values = collect_numeric_values(&line);
    let count = values.len();
    let sum: f64 = values.iter().map(|v| v.as_str().parse::<f64>().unwrap()).sum();
    assert_eq!(count, 2);
    assert!((sum - 12.5).abs() < f64::EPSILON);
}

#[test]
fn container_with_zero_values_produces_zero_calculation_parameters() {
    let schemas = default_schemas();
    let line = ItemLine {
        title: "Container".to_string(),
        data: vec![set("width", "0", "px"), set("height", "0", "px"), set("padding", "0", "px")],
    };

    let _generator = LineGenerator::from_line(&line, &schemas).unwrap();
}

#[test]
fn generator_dispatches_on_title() {
    let schemas = default_schemas();
    let line = ItemLine {
        title: "Container".to_string(),
        data: vec![set("width", "100.5", "px"), set("height", "42.0", "em"), set("padding", "8", "rem")],
    };
    let generator = LineGenerator::from_line(&line, &schemas).unwrap();
    assert_eq!(generator.title(), "Container");
    assert!(matches!(generator, LineGenerator::Container(_)));

    let unknown = ItemLine { title: "Slider".to_string(), data: vec![set("min", "1e3", ""), set("name", "x", "")] };
    let generator = LineGenerator::from_line(&unknown, &schemas).unwrap();
    assert_eq!(generator.title(), "Slider");
    match generator {
        LineGenerator::Unknown(data) => {
            assert_eq!(data.numeric_values.len(), 1);
            assert_eq!(data.numeric_values[0].as_str(), "1e3");
        }
        _ => panic!("expected an untyped line"),
    }
}

#[test]
fn generator_reports_conversion_message() {
    let schemas = default_schemas();
    let line = ItemLine { title: "Button".to_string(), data: vec![] };
    let error = LineGenerator::from_line(&line, &schemas).err().unwrap();
    assert_eq!(error, "Missing value for field 'label'");
}

#[test]
fn request_keeps_its_parts() {
    let line = ItemLine { title: "Button".to_string(), data: vec![] };
    let request = LineCalculationRequest::new(1, "own".to_string(), 2, 7, line);
    assert_eq!(request.list_index, 1);
    assert_eq!(request.list_name, "own");
    assert_eq!(request.line_index, 2);
    assert_eq!(request.request_revision, 7);
    assert_eq!(request.line.title, "Button");
}
