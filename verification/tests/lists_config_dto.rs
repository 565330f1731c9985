use domain::dto::lists_config::{
    ElementFieldDto, ElementSchemaDto, FieldSpecDto, ListsConfigDto, SchemasDto,
};
use domain::models::elements::{ElementField, ElementSchema, FieldSpec, Schemas, ValueType};
use domain::str_map::StrMap;

#[test]
fn maps_lists_config_dto_to_domain() {
    let mut units = StrMap::new();
    units.insert("length".to_string(), vec!["px".to_string()]);
    let mut elements = StrMap::new();
    elements.insert(
        "Button".to_string(),
        ElementSchemaDto {
            allow_init: true,
            fields: vec![ElementFieldDto {
                name: "label".into(),
                spec: FieldSpecDto { ty: ValueType::Str, unit: None },
            }],
        },
    );
    let dto = ListsConfigDto {
        title: "Lists Config".into(),
        description: "Config description".into(),
        properties: SchemasDto { units, elements },
    };

    assert_eq!(dto.title, "Lists Config");
    let schemas: Schemas = dto.properties.into();
    assert!(schemas.elements.contains_key("Button"));
    assert!(schemas.schema_for("Button").unwrap().contains_field("label"));
}

#[test]
fn schemas_round_trip_through_config_dto() {
    let mut units = StrMap::new();
    units.insert("length".to_string(), vec!["px".to_string(), "em".to_string()]);
    let mut elements = StrMap::new();
    elements.insert(
        "Container".to_string(),
        ElementSchemaDto {
            allow_init: true,
            fields: vec![
                ElementFieldDto {
                    name: "width".into(),
                    spec: FieldSpecDto { ty: ValueType::Float, unit: Some("length".into()) },
                },
                ElementFieldDto {
                    name: "padding".into(),
                    spec: FieldSpecDto { ty: ValueType::Int, unit: Some("length".into()) },
                },
            ],
        },
    );
    let schemas: Schemas = SchemasDto { units, elements }.into();
    let dto = SchemasDto::from(&schemas);
    let back: Schemas = dto.into();
    let container = back.schema_for("Container").unwrap();
    assert!(container.allow_init);
    assert_eq!(container.fields().len(), 2);
    assert_eq!(container.fields()[1].name, "padding");
    assert_eq!(container.field("width").unwrap().unit.as_deref(), Some("length"));
    assert_eq!(back.units.get("length").unwrap(), &vec!["px".to_string(), "em".to_string()]);
}

#[test]
fn field_lookup_takes_the_first_field_of_a_name() {
    let first = FieldSpec { ty: ValueType::Int, unit: None };
    let second = FieldSpec { ty: ValueType::Float, unit: Some("length".to_string()) };
    let schema = ElementSchema::new(
        false,
        vec![ElementField::new("size".to_string(), first), ElementField::new("size".to_string(), second)],
    );
    assert_eq!(schema.field("size").unwrap().ty, ValueType::Int);
    assert!(schema.field("width").is_none());
    assert!(schema.contains_field("size"));
    assert!(!schema.contains_field("width"));
}
