use vstd::prelude::*;

use crate::literal::{debug_str, string_lit};
use crate::text::str_eq;

verus! {

/// A field of a struct deriving the typed reading of a line: its name and what its
/// `#[item_field(...)]` attributes say (the schema's name for it, its value type, its
/// unit group).
pub struct ItemFieldDecl {
    pub name: String,
    pub schema_name: Option<String>,
    pub ty: Option<String>,
    pub unit: Option<String>,
}

/// The start of the generated code, before the struct's name.
pub const IMPL_HEAD: &'static str = "\nimpl ";

/// The generated code from after the struct's name to the element's name.
pub const FN_HEAD: &'static str = " {\n    pub fn try_from_item_line(\n        line: &crate::models::model::ItemLine,\n        schemas: &crate::models::elements::Schemas,\n    ) -> Result<Self, crate::models::error::item_line_conversion_error::ItemLineConversionError> {\n        let schema = schemas\n            .schema_for(";

/// The generated code from after the element's name to the field checks.
pub const SCHEMA_TAIL: &'static str = ")\n            .ok_or(ItemLineConversionError::MissingContainerSchema)?;\n\n        ";

/// The generated code from after the field checks to the title comparison.
pub const TITLE_CHECK: &'static str = "\n\n        if line.title != ";

/// The generated code from the title comparison to the expected element.
pub const WRONG_TYPE: &'static str = " {\n            return Err(ItemLineConversionError::WrongElementType {\n                expected: ";

/// The generated code from after the expected element to the field values.
pub const BUILD_HEAD: &'static str = ",\n                found: line.title.clone(),\n            });\n        }\n\n        Ok(Self {\n            ";

/// The end of the generated code.
pub const BUILD_TAIL: &'static str = "\n        })\n    }\n}\n";

/// The error for a field whose attributes give no `ty`.
pub const MISSING_TY: &'static str = "Missing item_field ty. Example: #[item_field(ty = \"Float\", unit = \"length\")] or #[item_field(ty = \"Str\")]";

/// The value type a field's `ty` names, as code.
pub open spec fn ty_token(ty: Seq<char>) -> Option<Seq<char>> {
    if ty == "Float"@ {
        Some("ValueType::Float"@)
    } else if ty == "Int"@ {
        Some("ValueType::Int"@)
    } else if ty == "Str"@ {
        Some("ValueType::Str"@)
    } else {
        None
    }
}

/// The code that reads a field's value from `line`, by its `ty` (one of `Float`, `Int`,
/// `Str`) and its name in the schema, written as a literal.
pub open spec fn value_parser(ty: Seq<char>, schema_name: Seq<char>) -> Seq<char> {
    let f = if ty == "Float"@ {
        "parse_float_value(line, "@
    } else if ty == "Int"@ {
        "parse_int_value(line, "@
    } else {
        "parse_string_value(line, "@
    };
    f + schema_name + ")?"@
}

/// The name of an optional string, or `default`.
pub open spec fn name_or(name: Option<String>, default: Seq<char>) -> Seq<char> {
    match name {
        Some(n) => n@,
        None => default,
    }
}

/// The validation code and the construction code of one field, or why the field cannot be
/// read.
pub open spec fn field_arms(f: ItemFieldDecl) -> Result<(Seq<char>, Seq<char>), Seq<char>> {
    let sn = debug_str(name_or(f.schema_name, f.name@));
    match f.ty {
        None => Err(MISSING_TY@),
        Some(t) => match ty_token(t@) {
            None => Err("Unsupported item_field ty '"@ + t@ + "'. Supported: Float, Int, Str"@),
            Some(tok) => {
                let parser = value_parser(t@, sn);
                match f.unit {
                    Some(u) => Ok(
                        (
                            "validate_field(schema.field("@ + sn + "), "@ + sn + ", "@ + tok + ", "@ + debug_str(u@)
                                + ")?;"@,
                            f.name@ + ": ValueWithUnit { value: "@ + parser + ", unit: "@
                                + "crate::utility::parse::parse_"@ + u@ + "_unit(line, schemas, "@ + sn + ")?"@
                                + " },"@,
                        ),
                    ),
                    None => Ok(
                        (
                            "validate_field_without_unit(schema.field("@ + sn + "), "@ + sn + ", "@ + tok + ")?;"@,
                            f.name@ + ": "@ + parser + ","@,
                        ),
                    ),
                }
            },
        },
    }
}

/// The validation and construction code of all fields in order, or the first field's
/// error.
pub open spec fn all_arms(fields: Seq<ItemFieldDecl>) -> Result<(Seq<char>, Seq<char>), Seq<char>>
    decreases fields.len(),
{
    if fields.len() == 0 {
        Ok((Seq::empty(), Seq::empty()))
    } else {
        match all_arms(fields.drop_last()) {
            Err(e) => Err(e),
            Ok((v, a)) => match field_arms(fields.last()) {
                Err(e) => Err(e),
                Ok((v2, a2)) => Ok((v + v2, a + a2)),
            },
        }
    }
}

/// The code of the typed reading of struct `struct_name` for element `element` (the
/// struct's name when absent), or the first field's error.
pub open spec fn spec_expand_item_line(
    struct_name: Seq<char>,
    element: Option<String>,
    fields: Seq<ItemFieldDecl>,
) -> Result<Seq<char>, Seq<char>> {
    let en = debug_str(name_or(element, struct_name));
    match all_arms(fields) {
        Err(e) => Err(e),
        Ok((v, a)) => Ok(
            IMPL_HEAD@ + struct_name + FN_HEAD@ + en + SCHEMA_TAIL@ + v + TITLE_CHECK@ + en + WRONG_TYPE@ + en
                + BUILD_HEAD@ + a + BUILD_TAIL@,
        ),
    }
}

fn field_code(f: &ItemFieldDecl) -> (r: Result<(String, String), String>)
    ensures
        match field_arms(*f) {
            Ok((v, a)) => r matches Ok((rv, ra)) && rv@ == v && ra@ == a,
            Err(e) => r matches Err(m) && m@ == e,
        },
{
    let sn = match &f.schema_name {
        Some(n) => string_lit(n.as_str()),
        None => string_lit(f.name.as_str()),
    };
    let t = match &f.ty {
        None => {
            return Err(MISSING_TY.to_owned());
        },
        Some(t) => t,
    };
    let (tok, parser_head) = if str_eq(t.as_str(), "Float") {
        ("ValueType::Float", "parse_float_value(line, ")
    } else if str_eq(t.as_str(), "Int") {
        ("ValueType::Int", "parse_int_value(line, ")
    } else if str_eq(t.as_str(), "Str") {
        ("ValueType::Str", "parse_string_value(line, ")
    } else {
        let mut m = "Unsupported item_field ty '".to_owned();
        m.append(t.as_str());
        m.append("'. Supported: Float, Int, Str");
        return Err(m);
    };
    let mut parser = parser_head.to_owned();
    parser.append(sn.as_str());
    parser.append(")?");
    assert(parser@ == value_parser(t@, sn@));
    match &f.unit {
        Some(u) => {
            let mut v = "validate_field(schema.field(".to_owned();
            v.append(sn.as_str());
            v.append("), ");
            v.append(sn.as_str());
            v.append(", ");
            v.append(tok);
            v.append(", ");
            v.append(string_lit(u.as_str()).as_str());
            v.append(")?;");
            let mut a = f.name.clone();
            a.append(": ValueWithUnit { value: ");
            a.append(parser.as_str());
            a.append(", unit: ");
            a.append("crate::utility::parse::parse_");
            a.append(u.as_str());
            a.append("_unit(line, schemas, ");
            a.append(sn.as_str());
            a.append(")?");
            a.append(" },");
            Ok((v, a))
        },
        None => {
            let mut v = "validate_field_without_unit(schema.field(".to_owned();
            v.append(sn.as_str());
            v.append("), ");
            v.append(sn.as_str());
            v.append(", ");
            v.append(tok);
            v.append(")?;");
            let mut a = f.name.clone();
            a.append(": ");
            a.append(parser.as_str());
            a.append(",");
            Ok((v, a))
        },
    }
}

/// Writes the typed reading of a line for struct `struct_name` with fields `fields`: a
/// `try_from_item_line` that finds the schema of `element` (the struct's name when
/// absent), validates each field against it, checks the line's title, and builds the
/// struct from the line's values and units. A field without a supported `ty` gives its
/// error instead.
pub fn expand_item_line_struct(
    struct_name: &str,
    element: &Option<String>,
    fields: &Vec<ItemFieldDecl>,
) -> (r: Result<String, String>)
    ensures
        match spec_expand_item_line(struct_name@, *element, fields@) {
            Ok(t) => r matches Ok(s) && s@ == t,
            Err(e) => r matches Err(m) && m@ == e,
        },
{
    let en = match element {
        Some(e) => string_lit(e.as_str()),
        None => string_lit(struct_name),
    };
    let mut validate = String::new();
    let mut assign = String::new();
    let mut i: usize = 0;
    while i < fields.len()
        invariant
            i <= fields.len(),
            all_arms(fields@.take(i as int)) == Ok::<(Seq<char>, Seq<char>), Seq<char>>((validate@, assign@)),
        decreases fields.len() - i,
    {
        assert(fields@.take(i + 1).drop_last() =~= fields@.take(i as int));
        assert(fields@.take(i + 1).last() == fields@[i as int]);
        match field_code(&fields[i]) {
            Err(m) => {
                proof {
                    lemma_all_arms_error(fields@, i + 1);
                }
                return Err(m);
            },
            Ok((v, a)) => {
                validate.append(v.as_str());
                assign.append(a.as_str());
            },
        }
        i += 1;
    }
    assert(fields@.take(i as int) =~= fields@);
    let mut out = IMPL_HEAD.to_owned();
    out.append(struct_name);
    out.append(FN_HEAD);
    out.append(en.as_str());
    out.append(SCHEMA_TAIL);
    out.append(validate.as_str());
    out.append(TITLE_CHECK);
    out.append(en.as_str());
    out.append(WRONG_TYPE);
    out.append(en.as_str());
    out.append(BUILD_HEAD);
    out.append(assign.as_str());
    out.append(BUILD_TAIL);
    Ok(out)
}

proof fn lemma_all_arms_error(fields: Seq<ItemFieldDecl>, n: int)
    requires
        0 < n <= fields.len(),
        all_arms(fields.take(n)) is Err,
    ensures
        all_arms(fields) == all_arms(fields.take(n)),
    decreases fields.len() - n,
{
    if n < fields.len() {
        assert(fields.take(n + 1).drop_last() =~= fields.take(n));
        lemma_all_arms_error(fields, n + 1);
    } else {
        assert(fields.take(n) =~= fields);
    }
}

} // verus!
