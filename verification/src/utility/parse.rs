use vstd::prelude::*;

use crate::models::elements::{FieldSpec, Schemas, ValueType};
use crate::models::error::item_line_conversion_error::ItemLineConversionError;
use crate::models::model::{find_set, first_set_with_key, ItemLine};
use crate::models::typed_lines::FloatLiteral;
use crate::models::unit::distance_unit::DistanceUnit;
use crate::models::unit::length_unit::LengthUnit;
use crate::text::{is_float_literal, parse_i64, spec_parse_i64, str_eq};

verus! {

/// A value type that a field's text can be read as.
pub trait ParseFieldValue: Sized {
    /// What reading `raw` as the value of field `field` yields.
    spec fn spec_parse_field(field: &'static str, raw: String) -> Result<Self, ItemLineConversionError>;

    /// Reads `raw` as the value of field `field`.
    fn parse_field(field: &'static str, raw: &String) -> (r: Result<Self, ItemLineConversionError>)
        ensures
            r == Self::spec_parse_field(field, *raw),
    ;
}

impl ParseFieldValue for FloatLiteral {
    open spec fn spec_parse_field(field: &'static str, raw: String) -> Result<Self, ItemLineConversionError> {
        if is_float_literal(raw@) {
            Ok(FloatLiteral { text: raw })
        } else {
            Err(ItemLineConversionError::InvalidFloatValue { field, value: raw })
        }
    }

    fn parse_field(field: &'static str, raw: &String) -> (r: Result<Self, ItemLineConversionError>) {
        match FloatLiteral::parse(raw) {
            Some(v) => Ok(v),
            None => Err(ItemLineConversionError::InvalidFloatValue { field, value: raw.clone() }),
        }
    }
}

impl ParseFieldValue for i64 {
    open spec fn spec_parse_field(field: &'static str, raw: String) -> Result<Self, ItemLineConversionError> {
        match spec_parse_i64(raw@) {
            Some(v) => Ok(v as i64),
            None => Err(ItemLineConversionError::InvalidIntValue { field, value: raw }),
        }
    }

    fn parse_field(field: &'static str, raw: &String) -> (r: Result<Self, ItemLineConversionError>) {
        match parse_i64(raw.as_str()) {
            Some(v) => Ok(v),
            None => Err(ItemLineConversionError::InvalidIntValue { field, value: raw.clone() }),
        }
    }
}

impl ParseFieldValue for String {
    open spec fn spec_parse_field(field: &'static str, raw: String) -> Result<Self, ItemLineConversionError> {
        Ok(raw)
    }

    fn parse_field(field: &'static str, raw: &String) -> (r: Result<Self, ItemLineConversionError>) {
        Ok(raw.clone())
    }
}

/// The spec that an optional reference points to.
pub open spec fn opt_spec(field: Option<&FieldSpec>) -> Option<FieldSpec> {
    match field {
        Some(f) => Some(*f),
        None => None,
    }
}

/// What checking a schema field with a unit gives: the field must exist, have the
/// expected type and belong to the unit group `expected_unit`.
pub open spec fn spec_validate_field(
    field: Option<FieldSpec>,
    field_name: &'static str,
    expected_type: ValueType,
    expected_unit: &'static str,
) -> Result<(), ItemLineConversionError> {
    match field {
        None => Err(ItemLineConversionError::SchemaFieldMissing { field: field_name }),
        Some(f) => if f.ty != expected_type {
            Err(
                ItemLineConversionError::SchemaFieldTypeMismatch {
                    field: field_name,
                    expected: expected_type,
                    found: f.ty,
                },
            )
        } else if !(f.unit matches Some(u) && u@ == expected_unit@) {
            Err(
                ItemLineConversionError::SchemaFieldUnitMismatch {
                    field: field_name,
                    expected: expected_unit,
                    found: f.unit,
                },
            )
        } else {
            Ok(())
        },
    }
}

/// What checking a schema field without a unit gives: the field must exist, have the
/// expected type and have no unit group.
pub open spec fn spec_validate_field_without_unit(
    field: Option<FieldSpec>,
    field_name: &'static str,
    expected_type: ValueType,
) -> Result<(), ItemLineConversionError> {
    match field {
        None => Err(ItemLineConversionError::SchemaFieldMissing { field: field_name }),
        Some(f) => if f.ty != expected_type {
            Err(
                ItemLineConversionError::SchemaFieldTypeMismatch {
                    field: field_name,
                    expected: expected_type,
                    found: f.ty,
                },
            )
        } else if f.unit is Some {
            Err(
                ItemLineConversionError::SchemaFieldUnitMismatch {
                    field: field_name,
                    expected: "none",
                    found: f.unit,
                },
            )
        } else {
            Ok(())
        },
    }
}

/// Checks that a schema field exists, has type `expected_type` and takes its unit from
/// the group `expected_unit`.
pub fn validate_field(
    field: Option<&FieldSpec>,
    field_name: &'static str,
    expected_type: ValueType,
    expected_unit: &'static str,
) -> (r: Result<(), ItemLineConversionError>)
    ensures
        r == spec_validate_field(opt_spec(field), field_name, expected_type, expected_unit),
{
    let field = match field {
        Some(f) => f,
        None => {
            return Err(ItemLineConversionError::SchemaFieldMissing { field: field_name });
        },
    };
    if field.ty != expected_type {
        return Err(
            ItemLineConversionError::SchemaFieldTypeMismatch {
                field: field_name,
                expected: expected_type,
                found: field.ty,
            },
        );
    }
    let unit_matches = match &field.unit {
        Some(u) => str_eq(u.as_str(), expected_unit),
        None => false,
    };
    if !unit_matches {
        return Err(
            ItemLineConversionError::SchemaFieldUnitMismatch {
                field: field_name,
                expected: expected_unit,
                found: crate::models::elements::clone_opt_string(&field.unit),
            },
        );
    }
    Ok(())
}

/// Checks that a schema field exists, has type `expected_type` and has no unit.
pub fn validate_field_without_unit(
    field: Option<&FieldSpec>,
    field_name: &'static str,
    expected_type: ValueType,
) -> (r: Result<(), ItemLineConversionError>)
    ensures
        r == spec_validate_field_without_unit(opt_spec(field), field_name, expected_type),
{
    let field = match field {
        Some(f) => f,
        None => {
            return Err(ItemLineConversionError::SchemaFieldMissing { field: field_name });
        },
    };
    if field.ty != expected_type {
        return Err(
            ItemLineConversionError::SchemaFieldTypeMismatch {
                field: field_name,
                expected: expected_type,
                found: field.ty,
            },
        );
    }
    if field.unit.is_some() {
        return Err(
            ItemLineConversionError::SchemaFieldUnitMismatch {
                field: field_name,
                expected: "none",
                found: crate::models::elements::clone_opt_string(&field.unit),
            },
        );
    }
    Ok(())
}

/// What reading field `field` of `line` as a `T` gives: the first set with that key is
/// read, and a line without one gives `MissingValue`.
pub open spec fn spec_parse_value<T: ParseFieldValue>(line: ItemLine, field: &'static str) -> Result<
    T,
    ItemLineConversionError,
> {
    match first_set_with_key(line.data@, field@) {
        None => Err(ItemLineConversionError::MissingValue { field }),
        Some(i) => T::spec_parse_field(field, line.data@[i].value),
    }
}

/// Reads the value of field `field` of `line` as a `T`.
pub fn parse_value<T: ParseFieldValue>(line: &ItemLine, field: &'static str) -> (r: Result<
    T,
    ItemLineConversionError,
>)
    ensures
        r == spec_parse_value::<T>(*line, field),
{
    match find_set(line, field) {
        None => Err(ItemLineConversionError::MissingValue { field }),
        Some(item) => T::parse_field(field, &item.value),
    }
}

/// The value text of field `field` of `line`.
pub fn find_value<'a>(line: &'a ItemLine, field: &'static str) -> (r: Result<
    &'a str,
    ItemLineConversionError,
>)
    ensures
        match first_set_with_key(line.data@, field@) {
            None => r == Err::<&str, _>(ItemLineConversionError::MissingValue { field }),
            Some(i) => r matches Ok(s) && s@ == line.data@[i].value@,
        },
{
    match find_set(line, field) {
        None => Err(ItemLineConversionError::MissingValue { field }),
        Some(item) => Ok(item.value.as_str()),
    }
}

/// Whether some string of `v` has the text of `s`.
pub fn contains_string(v: &Vec<String>, s: &String) -> (r: bool)
    ensures
        r == exists|j: int| 0 <= j < v@.len() && v@[j]@ == s@,
{
    let mut i: usize = 0;
    while i < v.len()
        invariant
            i <= v.len(),
            forall|j: int| 0 <= j < i ==> v@[j]@ != s@,
        decreases v.len() - i,
    {
        if v[i] == *s {
            return true;
        }
        i += 1;
    }
    false
}

/// What reading the length unit of field `field` of `line` gives: the unit of the first
/// set with that key must be listed in the `length` unit group and name a [`LengthUnit`].
pub open spec fn spec_parse_length_unit(line: ItemLine, schemas: Schemas, field: &'static str) -> Result<
    LengthUnit,
    ItemLineConversionError,
> {
    match first_set_with_key(line.data@, field@) {
        None => Err(ItemLineConversionError::MissingValue { field }),
        Some(i) => {
            let item = line.data@[i];
            match schemas.units.spec_get("length"@) {
                None => Err(ItemLineConversionError::MissingLengthUnitGroup),
                Some(allowed) => if !(exists|j: int|
                    0 <= j < allowed@.len() && allowed@[j]@ == item.unit@) {
                    Err(ItemLineConversionError::UnitNotAllowedForLength { unit: item.unit })
                } else {
                    match LengthUnit::spec_from_symbol(item.unit@) {
                        Some(u) => Ok(u),
                        None => Err(ItemLineConversionError::UnsupportedLengthUnit { unit: item.unit }),
                    }
                },
            }
        },
    }
}

/// Reads the length unit of field `field` of `line`.
pub fn parse_length_unit(line: &ItemLine, schemas: &Schemas, field: &'static str) -> (r: Result<
    LengthUnit,
    ItemLineConversionError,
>)
    ensures
        r == spec_parse_length_unit(*line, *schemas, field),
{
    let item = match find_set(line, field) {
        Some(item) => item,
        None => {
            return Err(ItemLineConversionError::MissingValue { field });
        },
    };
    let allowed_units = match schemas.units.get("length") {
        Some(units) => units,
        None => {
            return Err(ItemLineConversionError::MissingLengthUnitGroup);
        },
    };
    if !contains_string(allowed_units, &item.unit) {
        return Err(ItemLineConversionError::UnitNotAllowedForLength { unit: item.unit.clone() });
    }
    proof {
        let k = first_set_with_key(line.data@, field@)->0;
        assert(line.data@[k] == *item);
        let allowed = schemas.units.spec_get("length"@)->0;
        assert(allowed == *allowed_units);
        assert(exists|j: int| 0 <= j < allowed@.len() && allowed@[j]@ == item.unit@);
    }
    match LengthUnit::from_symbol(item.unit.as_str()) {
        Some(u) => Ok(u),
        None => Err(ItemLineConversionError::UnsupportedLengthUnit { unit: item.unit.clone() }),
    }
}

/// What reading the distance unit of field `field` of `line` gives: the unit of the first
/// set with that key must be listed in the `distance` unit group and name a
/// [`DistanceUnit`].
pub open spec fn spec_parse_distance_unit(line: ItemLine, schemas: Schemas, field: &'static str) -> Result<
    DistanceUnit,
    ItemLineConversionError,
> {
    match first_set_with_key(line.data@, field@) {
        None => Err(ItemLineConversionError::MissingValue { field }),
        Some(i) => {
            let item = line.data@[i];
            match schemas.units.spec_get("distance"@) {
                None => Err(ItemLineConversionError::MissingDistanceUnitGroup),
                Some(allowed) => if !(exists|j: int|
                    0 <= j < allowed@.len() && allowed@[j]@ == item.unit@) {
                    Err(ItemLineConversionError::UnitNotAllowedForDistance { unit: item.unit })
                } else {
                    match DistanceUnit::spec_from_symbol(item.unit@) {
                        Some(u) => Ok(u),
                        None => Err(ItemLineConversionError::UnsupportedDistanceUnit { unit: item.unit }),
                    }
                },
            }
        },
    }
}

/// Reads the distance unit of field `field` of `line`.
pub fn parse_distance_unit(line: &ItemLine, schemas: &Schemas, field: &'static str) -> (r: Result<
    DistanceUnit,
    ItemLineConversionError,
>)
    ensures
        r == spec_parse_distance_unit(*line, *schemas, field),
{
    let item = match find_set(line, field) {
        Some(item) => item,
        None => {
            return Err(ItemLineConversionError::MissingValue { field });
        },
    };
    let allowed_units = match schemas.units.get("distance") {
        Some(units) => units,
        None => {
            return Err(ItemLineConversionError::MissingDistanceUnitGroup);
        },
    };
    if !contains_string(allowed_units, &item.unit) {
        return Err(ItemLineConversionError::UnitNotAllowedForDistance { unit: item.unit.clone() });
    }
    proof {
        let k = first_set_with_key(line.data@, field@)->0;
        assert(line.data@[k] == *item);
        let allowed = schemas.units.spec_get("distance"@)->0;
        assert(allowed == *allowed_units);
        assert(exists|j: int| 0 <= j < allowed@.len() && allowed@[j]@ == item.unit@);
    }
    match DistanceUnit::from_symbol(item.unit.as_str()) {
        Some(u) => Ok(u),
        None => Err(ItemLineConversionError::UnsupportedDistanceUnit { unit: item.unit.clone() }),
    }
}

} // verus!
