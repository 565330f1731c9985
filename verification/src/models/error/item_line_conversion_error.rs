use vstd::prelude::*;

use crate::literal::{debug_str, string_lit};
use crate::models::elements::ValueType;

verus! {

/// Why an [`ItemLine`](crate::models::model::ItemLine) could not be read as a typed line.
#[derive(Debug, Clone, PartialEq, Eq)]
pub enum ItemLineConversionError {
    MissingContainerSchema,
    MissingLengthUnitGroup,
    MissingDistanceUnitGroup,
    SchemaFieldMissing { field: &'static str },
    SchemaFieldTypeMismatch { field: &'static str, expected: ValueType, found: ValueType },
    SchemaFieldUnitMismatch { field: &'static str, expected: &'static str, found: Option<String> },
    WrongElementType { expected: &'static str, found: String },
    MissingValue { field: &'static str },
    InvalidFloatValue { field: &'static str, value: String },
    InvalidIntValue { field: &'static str, value: String },
    UnsupportedLengthUnit { unit: String },
    UnsupportedDistanceUnit { unit: String },
    UnitNotAllowedForLength { unit: String },
    UnitNotAllowedForDistance { unit: String },
}

/// The name of a value type, as `Debug` writes it.
pub open spec fn value_type_name(t: ValueType) -> Seq<char> {
    match t {
        ValueType::Str => "Str"@,
        ValueType::Int => "Int"@,
        ValueType::Float => "Float"@,
        ValueType::Bool => "Bool"@,
    }
}

/// The name of a value type, as `Debug` writes it.
pub fn value_type_name_string(t: ValueType) -> (r: String)
    ensures
        r@ == value_type_name(t),
{
    match t {
        ValueType::Str => "Str".to_owned(),
        ValueType::Int => "Int".to_owned(),
        ValueType::Float => "Float".to_owned(),
        ValueType::Bool => "Bool".to_owned(),
    }
}

/// An optional string as `Debug` writes it: `None` or `Some("...")`.
pub open spec fn debug_opt_string(s: Option<String>) -> Seq<char> {
    match s {
        None => "None"@,
        Some(x) => "Some("@ + debug_str(x@) + ")"@,
    }
}

/// The message of each error.
pub open spec fn error_message(e: ItemLineConversionError) -> Seq<char> {
    match e {
        ItemLineConversionError::MissingContainerSchema => "Container schema was not found in lists config"@,
        ItemLineConversionError::MissingLengthUnitGroup => "Length unit group was not found in lists config"@,
        ItemLineConversionError::MissingDistanceUnitGroup => "Distance unit group was not found in lists config"@,
        ItemLineConversionError::SchemaFieldMissing { field } => "Schema field '"@ + field@
            + "' is missing for Container"@,
        ItemLineConversionError::SchemaFieldTypeMismatch { field, expected, found } => "Schema field '"@
            + field@ + "' type mismatch. expected="@ + value_type_name(expected) + ", found="@
            + value_type_name(found),
        ItemLineConversionError::SchemaFieldUnitMismatch { field, expected, found } => "Schema field '"@
            + field@ + "' unit mismatch. expected="@ + expected@ + ", found="@ + debug_opt_string(
            found,
        ),
        ItemLineConversionError::WrongElementType { expected, found } => "ItemLine element mismatch. expected='"@
            + expected@ + "', found='"@ + found@ + "'"@,
        ItemLineConversionError::MissingValue { field } => "Missing value for field '"@ + field@
            + "'"@,
        ItemLineConversionError::InvalidFloatValue { field, value } => "Field '"@ + field@
            + "' must be a float, got '"@ + value@ + "'"@,
        ItemLineConversionError::InvalidIntValue { field, value } => "Field '"@ + field@
            + "' must be an int, got '"@ + value@ + "'"@,
        ItemLineConversionError::UnsupportedLengthUnit { unit } => "Unsupported length unit '"@
            + unit@ + "'"@,
        ItemLineConversionError::UnsupportedDistanceUnit { unit } => "Unsupported distance unit '"@
            + unit@ + "'"@,
        ItemLineConversionError::UnitNotAllowedForLength { unit } => "Unit '"@ + unit@
            + "' is not allowed by 'length' config group"@,
        ItemLineConversionError::UnitNotAllowedForDistance { unit } => "Unit '"@ + unit@
            + "' is not allowed by 'distance' config group"@,
    }
}

impl ItemLineConversionError {
    /// The human-readable message of this error.
    pub fn message(&self) -> (r: String)
        ensures
            r@ == error_message(*self),
    {
        match self {
            ItemLineConversionError::MissingContainerSchema => "Container schema was not found in lists config".to_owned(),
            ItemLineConversionError::MissingLengthUnitGroup => "Length unit group was not found in lists config".to_owned(),
            ItemLineConversionError::MissingDistanceUnitGroup => "Distance unit group was not found in lists config".to_owned(),
            ItemLineConversionError::SchemaFieldMissing { field } => {
                let mut m = "Schema field '".to_owned();
                m.append(field);
                m.append("' is missing for Container");
                m
            },
            ItemLineConversionError::SchemaFieldTypeMismatch { field, expected, found } => {
                let mut m = "Schema field '".to_owned();
                m.append(field);
                m.append("' type mismatch. expected=");
                m.append(value_type_name_string(*expected).as_str());
                m.append(", found=");
                m.append(value_type_name_string(*found).as_str());
                m
            },
            ItemLineConversionError::SchemaFieldUnitMismatch { field, expected, found } => {
                let mut m = "Schema field '".to_owned();
                m.append(field);
                m.append("' unit mismatch. expected=");
                m.append(expected);
                m.append(", found=");
                match found {
                    None => m.append("None"),
                    Some(s) => {
                        m.append("Some(");
                        m.append(string_lit(s.as_str()).as_str());
                        m.append(")");
                    },
                }
                m
            },
            ItemLineConversionError::WrongElementType { expected, found } => {
                let mut m = "ItemLine element mismatch. expected='".to_owned();
                m.append(expected);
                m.append("', found='");
                m.append(found.as_str());
                m.append("'");
                m
            },
            ItemLineConversionError::MissingValue { field } => {
                let mut m = "Missing value for field '".to_owned();
                m.append(field);
                m.append("'");
                m
            },
            ItemLineConversionError::InvalidFloatValue { field, value } => {
                let mut m = "Field '".to_owned();
                m.append(field);
                m.append("' must be a float, got '");
                m.append(value.as_str());
                m.append("'");
                m
            },
            ItemLineConversionError::InvalidIntValue { field, value } => {
                let mut m = "Field '".to_owned();
                m.append(field);
                m.append("' must be an int, got '");
                m.append(value.as_str());
                m.append("'");
                m
            },
            ItemLineConversionError::UnsupportedLengthUnit { unit } => {
                let mut m = "Unsupported length unit '".to_owned();
                m.append(unit.as_str());
                m.append("'");
                m
            },
            ItemLineConversionError::UnsupportedDistanceUnit { unit } => {
                let mut m = "Unsupported distance unit '".to_owned();
                m.append(unit.as_str());
                m.append("'");
                m
            },
            ItemLineConversionError::UnitNotAllowedForLength { unit } => {
                let mut m = "Unit '".to_owned();
                m.append(unit.as_str());
                m.append("' is not allowed by 'length' config group");
                m
            },
            ItemLineConversionError::UnitNotAllowedForDistance { unit } => {
                let mut m = "Unit '".to_owned();
                m.append(unit.as_str());
                m.append("' is not allowed by 'distance' config group");
                m
            },
        }
    }
}

} // verus!
