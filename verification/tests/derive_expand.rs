use domain::derive_expand::{expand_item_line_struct, ItemFieldDecl};

fn decl(name: &str, schema_name: Option<&str>, ty: Option<&str>, unit: Option<&str>) -> ItemFieldDecl {
    ItemFieldDecl {
        name: name.to_string(),
        schema_name: schema_name.map(|s| s.to_string()),
        ty: ty.map(|s| s.to_string()),
        unit: unit.map(|s| s.to_string()),
    }
}

fn template(struct_name: &str, element_name: &str, validate_arms: &str, assign_arms: &str) -> String {
    format!(
        "
impl {struct_name} {{
    pub fn try_from_item_line(
        line: &crate::models::model::ItemLine,
        schemas: &crate::models::elements::Schemas,
    ) -> Result<Self, crate::models::error::item_line_conversion_error::ItemLineConversionError> {{
        let schema = schemas
            .schema_for({element_name})
            .ok_or(ItemLineConversionError::MissingContainerSchema)?;

        {validate_arms}

        if line.title != {element_name} {{
            return Err(ItemLineConversionError::WrongElementType {{
                expected: {element_name},
                found: line.title.clone(),
            }});
        }}

        Ok(Self {{
            {assign_arms}
        }})
    }}
}}
"
    )
}

#[test]
fn writes_the_typed_reading_of_a_line() {
    let fields = vec![
        decl("width", None, Some("Float"), Some("length")),
        decl("max_length", Some("maxLength"), Some("Int"), None),
    ];
    let code = expand_item_line_struct("ContainerLine", &Some("Container".to_string()), &fields).unwrap();
    let validate = "validate_field(schema.field(\"width\"), \"width\", ValueType::Float, \"length\")?;\
validate_field_without_unit(schema.field(\"maxLength\"), \"maxLength\", ValueType::Int)?;";
    let assign = "width: ValueWithUnit { value: parse_float_value(line, \"width\")?, unit: \
crate::utility::parse::parse_length_unit(line, schemas, \"width\")? },\
max_length: parse_int_value(line, \"maxLength\")?,";
    assert_eq!(code, template("ContainerLine", "\"Container\"", validate, assign));

    let plain = expand_item_line_struct("ButtonLine", &None, &vec![decl("label", None, Some("Str"), None)]).unwrap();
    assert!(plain.contains(".schema_for(\"ButtonLine\")"));
    assert!(plain.contains("label: parse_string_value(line, \"label\")?,"));
}

#[test]
fn reports_the_first_field_without_a_supported_type() {
    let fields = vec![decl("a", None, Some("Str"), None), decl("b", None, Some("Bool"), None), decl("c", None, None, None)];
    assert_eq!(
        expand_item_line_struct("S", &None, &fields).unwrap_err(),
        "Unsupported item_field ty 'Bool'. Supported: Float, Int, Str"
    );
    assert_eq!(
        expand_item_line_struct("S", &None, &vec![decl("c", None, None, None)]).unwrap_err(),
        "Missing item_field ty. Example: #[item_field(ty = \"Float\", unit = \"length\")] or #[item_field(ty = \"Str\")]"
    );
}
