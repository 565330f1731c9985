use vstd::prelude::*;

use crate::models::elements::{Schemas, ValueType};
use crate::models::error::item_line_conversion_error::ItemLineConversionError;
use crate::models::model::{first_set_with_key, ItemLine, ItemSet};
use crate::models::unit::length_unit::LengthUnit;
use crate::models::unit::{
    convert_between, convert_between_result, fits_ratio, same_fraction, scaled, Ratio,
    UnitConvertible,
    FACTOR_BOUND,
};
use crate::text::{is_float_literal, is_float_literal_str, spec_parse_i64, str_eq};
use crate::utility::parse::{
    opt_spec, parse_length_unit, parse_value, spec_parse_length_unit, spec_parse_value,
    spec_validate_field, spec_validate_field_without_unit, validate_field,
    validate_field_without_unit,
};

verus! {

/// The text of a floating-point value, accepted by `f64`'s parser (see
/// [`is_float_literal`]).
#[derive(Debug, PartialEq)]
pub struct FloatLiteral {
    pub text: String,
}

impl FloatLiteral {
    /// The text is a floating-point literal.
    pub open spec fn wf(&self) -> bool {
        is_float_literal(self.text@)
    }

    /// `text` as a floating-point value, when it is a floating-point literal.
    pub fn parse(text: &String) -> (r: Option<FloatLiteral>)
        ensures
            r == (if is_float_literal(text@) {
                Some(FloatLiteral { text: *text })
            } else {
                None
            }),
    {
        if is_float_literal_str(text.as_str()) {
            Some(FloatLiteral { text: text.clone() })
        } else {
            None
        }
    }

    /// The literal's text.
    pub fn as_str(&self) -> (r: &str)
        ensures
            r@ == self.text@,
    {
        self.text.as_str()
    }
}

/// A value together with the unit it is measured in.
#[derive(Debug, Clone, PartialEq)]
pub struct ValueWithUnit<T, U> {
    pub value: T,
    pub unit: U,
}

impl<U: UnitConvertible> ValueWithUnit<Ratio, U> {
    /// This value expressed in unit `to`, exactly, or `None` when the fraction does not
    /// fit into a [`Ratio`].
    pub fn convert_to(self, to: U) -> (r: Option<Self>)
        requires
            self.value.wf(),
        ensures
            match convert_between_result(self.value, self.unit, to) {
                Some(v) => r == Some(ValueWithUnit { value: v, unit: to }),
                None => r is None,
            },
    {
        match convert_between(self.value, self.unit, to) {
            Some(v) => Some(ValueWithUnit { value: v, unit: to }),
            None => None,
        }
    }
}

impl<U: UnitConvertible> ValueWithUnit<i64, U> {
    /// This integer value expressed in unit `to`, as an exact fraction with common
    /// factors cancelled (an integer always fits).
    pub fn convert_to(self, to: U) -> (r: ValueWithUnit<Ratio, U>)
        ensures
            r.unit == to,
            convert_between_result((Ratio { num: self.value as i128, den: 1 }), self.unit, to)
                == Some(r.value),
            same_fraction(
                (r.value.num as int, r.value.den as int),
                scaled(self.value as int, 1, self.unit.spec_factor(), to.spec_factor()),
            ),
            r.value.wf(),
    {
        let v = Ratio::from_int(self.value);
        let ghost f = self.unit.spec_factor();
        let ghost t = to.spec_factor();
        proof {
            self.unit.lemma_factor_bounds();
            to.lemma_factor_bounds();
            assert(0 < f.num * t.den <= FACTOR_BOUND * FACTOR_BOUND) by (nonlinear_arith)
                requires
                    0 < f.num <= FACTOR_BOUND,
                    0 < t.den <= FACTOR_BOUND,
            ;
            assert(0 < f.den * t.num <= FACTOR_BOUND * FACTOR_BOUND) by (nonlinear_arith)
                requires
                    0 < f.den <= FACTOR_BOUND,
                    0 < t.num <= FACTOR_BOUND,
            ;
            let x = scaled(v.num as int, v.den as int, f, t);
            assert(-0x8000_0000_0000_0000 * (FACTOR_BOUND * FACTOR_BOUND) <= x.0 <= 0x8000_0000_0000_0000
                * (FACTOR_BOUND * FACTOR_BOUND)) by (nonlinear_arith)
                requires
                    x.0 == v.num * (f.num * t.den),
                    -0x8000_0000_0000_0000 <= v.num <= 0x8000_0000_0000_0000,
                    0 < f.num * t.den <= FACTOR_BOUND * FACTOR_BOUND,
            ;
            assert(fits_ratio(x));
        }
        match convert_between(v, self.unit, to) {
            Some(x) => ValueWithUnit { value: x, unit: to },
            None => ValueWithUnit { value: v, unit: to },
        }
    }
}

/// A `Container` line: width, height and padding, each with a length unit.
#[derive(Debug, PartialEq)]
pub struct ContainerLine {
    pub width: ValueWithUnit<FloatLiteral, LengthUnit>,
    pub height: ValueWithUnit<FloatLiteral, LengthUnit>,
    pub padding: ValueWithUnit<i64, LengthUnit>,
}

/// A `Button` line: its label.
#[derive(Debug, PartialEq)]
pub struct ButtonLine {
    pub label: String,
}

/// A `TextField` line: placeholder, maximum length and value.
#[derive(Debug, PartialEq)]
pub struct TextFieldLine {
    pub placeholder: String,
    pub max_length: i64,
    pub value: String,
}

/// A measured value of a line: its value read from field `field` and its length unit.
pub open spec fn spec_measured<T: crate::utility::parse::ParseFieldValue>(
    line: ItemLine,
    schemas: Schemas,
    field: &'static str,
) -> Result<ValueWithUnit<T, LengthUnit>, ItemLineConversionError> {
    match spec_parse_value::<T>(line, field) {
        Err(e) => Err(e),
        Ok(value) => match spec_parse_length_unit(line, schemas, field) {
            Err(e) => Err(e),
            Ok(unit) => Ok(ValueWithUnit { value, unit }),
        },
    }
}

fn read_measured<T: crate::utility::parse::ParseFieldValue>(
    line: &ItemLine,
    schemas: &Schemas,
    field: &'static str,
) -> (r: Result<ValueWithUnit<T, LengthUnit>, ItemLineConversionError>)
    ensures
        r == spec_measured::<T>(*line, *schemas, field),
{
    let value = match parse_value::<T>(line, field) {
        Ok(v) => v,
        Err(e) => {
            return Err(e);
        },
    };
    match parse_length_unit(line, schemas, field) {
        Ok(unit) => Ok(ValueWithUnit { value, unit }),
        Err(e) => Err(e),
    }
}

/// What reading `line` as a `Container` gives. The `Container` schema must exist; its
/// fields `width` and `height` must be floats and `padding` an int, all with the `length`
/// unit group; the line must be a `Container`; then width, height and padding are read in
/// that order, each value before its unit. The first failure is the result.
#[verifier::opaque]
pub open spec fn spec_container_line(line: ItemLine, schemas: Schemas) -> Result<
    ContainerLine,
    ItemLineConversionError,
> {
    match schemas.elements.spec_get("Container"@) {
        None => Err(ItemLineConversionError::MissingContainerSchema),
        Some(schema) => match spec_validate_field(
            schema.spec_field("width"@),
            "width",
            ValueType::Float,
            "length",
        ) {
            Err(e) => Err(e),
            Ok(_) => match spec_validate_field(
                schema.spec_field("height"@),
                "height",
                ValueType::Float,
                "length",
            ) {
                Err(e) => Err(e),
                Ok(_) => match spec_validate_field(
                    schema.spec_field("padding"@),
                    "padding",
                    ValueType::Int,
                    "length",
                ) {
                    Err(e) => Err(e),
                    Ok(_) => if line.title@ != "Container"@ {
                        Err(
                            ItemLineConversionError::WrongElementType {
                                expected: "Container",
                                found: line.title,
                            },
                        )
                    } else {
                        match spec_measured::<FloatLiteral>(line, schemas, "width") {
                            Err(e) => Err(e),
                            Ok(width) => match spec_measured::<FloatLiteral>(
                                line,
                                schemas,
                                "height",
                            ) {
                                Err(e) => Err(e),
                                Ok(height) => match spec_measured::<i64>(line, schemas, "padding") {
                                    Err(e) => Err(e),
                                    Ok(padding) => Ok(ContainerLine { width, height, padding }),
                                },
                            },
                        }
                    },
                },
            },
        },
    }
}

impl ContainerLine {
    /// Reads `line` as a `Container` line, checking it against the `Container` schema.
    pub fn try_from_item_line(line: &ItemLine, schemas: &Schemas) -> (r: Result<
        Self,
        ItemLineConversionError,
    >)
        ensures
            r == spec_container_line(*line, *schemas),
    {
        reveal(spec_container_line);
        let schema = match schemas.schema_for("Container") {
            Some(s) => s,
            None => {
                return Err(ItemLineConversionError::MissingContainerSchema);
            },
        };
        match validate_field(schema.field("width"), "width", ValueType::Float, "length") {
            Ok(_) => {},
            Err(e) => {
                return Err(e);
            },
        }
        match validate_field(schema.field("height"), "height", ValueType::Float, "length") {
            Ok(_) => {},
            Err(e) => {
                return Err(e);
            },
        }
        match validate_field(schema.field("padding"), "padding", ValueType::Int, "length") {
            Ok(_) => {},
            Err(e) => {
                return Err(e);
            },
        }
        if !str_eq(line.title.as_str(), "Container") {
            return Err(
                ItemLineConversionError::WrongElementType {
                    expected: "Container",
                    found: line.title.clone(),
                },
            );
        }
        let width = match read_measured::<FloatLiteral>(line, schemas, "width") {
            Ok(v) => v,
            Err(e) => {
                return Err(e);
            },
        };
        let height = match read_measured::<FloatLiteral>(line, schemas, "height") {
            Ok(v) => v,
            Err(e) => {
                return Err(e);
            },
        };
        let padding = match read_measured::<i64>(line, schemas, "padding") {
            Ok(v) => v,
            Err(e) => {
                return Err(e);
            },
        };
        Ok(ContainerLine { width, height, padding })
    }
}

/// What reading `line` as a `Button` gives: the `Button` schema must exist with a `label`
/// field of type `Str` and no unit, the line must be a `Button`, and it must have a
/// `label` value.
#[verifier::opaque]
pub open spec fn spec_button_line(line: ItemLine, schemas: Schemas) -> Result<
    ButtonLine,
    ItemLineConversionError,
> {
    match schemas.elements.spec_get("Button"@) {
        None => Err(ItemLineConversionError::MissingContainerSchema),
        Some(schema) => match spec_validate_field_without_unit(
            schema.spec_field("label"@),
            "label",
            ValueType::Str,
        ) {
            Err(e) => Err(e),
            Ok(_) => if line.title@ != "Button"@ {
                Err(ItemLineConversionError::WrongElementType { expected: "Button", found: line.title })
            } else {
                match spec_parse_value::<String>(line, "label") {
                    Err(e) => Err(e),
                    Ok(label) => Ok(ButtonLine { label }),
                }
            },
        },
    }
}

impl ButtonLine {
    /// Reads `line` as a `Button` line, checking it against the `Button` schema.
    pub fn try_from_item_line(line: &ItemLine, schemas: &Schemas) -> (r: Result<
        Self,
        ItemLineConversionError,
    >)
        ensures
            r == spec_button_line(*line, *schemas),
    {
        reveal(spec_button_line);
        let schema = match schemas.schema_for("Button") {
            Some(s) => s,
            None => {
                return Err(ItemLineConversionError::MissingContainerSchema);
            },
        };
        match validate_field_without_unit(schema.field("label"), "label", ValueType::Str) {
            Ok(_) => {},
            Err(e) => {
                return Err(e);
            },
        }
        if !str_eq(line.title.as_str(), "Button") {
            return Err(
                ItemLineConversionError::WrongElementType {
                    expected: "Button",
                    found: line.title.clone(),
                },
            );
        }
        match parse_value::<String>(line, "label") {
            Ok(label) => Ok(ButtonLine { label }),
            Err(e) => Err(e),
        }
    }
}

/// What reading `line` as a `TextField` gives: the `TextField` schema must exist with
/// fields `placeholder` (`Str`), `maxLength` (`Int`) and `value` (`Str`), none with a
/// unit; the line must be a `TextField`; then the three values are read in that order.
#[verifier::opaque]
pub open spec fn spec_text_field_line(line: ItemLine, schemas: Schemas) -> Result<
    TextFieldLine,
    ItemLineConversionError,
> {
    match schemas.elements.spec_get("TextField"@) {
        None => Err(ItemLineConversionError::MissingContainerSchema),
        Some(schema) => match spec_validate_field_without_unit(
            schema.spec_field("placeholder"@),
            "placeholder",
            ValueType::Str,
        ) {
            Err(e) => Err(e),
            Ok(_) => match spec_validate_field_without_unit(
                schema.spec_field("maxLength"@),
                "maxLength",
                ValueType::Int,
            ) {
                Err(e) => Err(e),
                Ok(_) => match spec_validate_field_without_unit(
                    schema.spec_field("value"@),
                    "value",
                    ValueType::Str,
                ) {
                    Err(e) => Err(e),
                    Ok(_) => if line.title@ != "TextField"@ {
                        Err(
                            ItemLineConversionError::WrongElementType {
                                expected: "TextField",
                                found: line.title,
                            },
                        )
                    } else {
                        match spec_parse_value::<String>(line, "placeholder") {
                            Err(e) => Err(e),
                            Ok(placeholder) => match spec_parse_value::<i64>(line, "maxLength") {
                                Err(e) => Err(e),
                                Ok(max_length) => match spec_parse_value::<String>(line, "value") {
                                    Err(e) => Err(e),
                                    Ok(value) => Ok(TextFieldLine { placeholder, max_length, value }),
                                },
                            },
                        }
                    },
                },
            },
        },
    }
}

impl TextFieldLine {
    /// Reads `line` as a `TextField` line, checking it against the `TextField` schema.
    pub fn try_from_item_line(line: &ItemLine, schemas: &Schemas) -> (r: Result<
        Self,
        ItemLineConversionError,
    >)
        ensures
            r == spec_text_field_line(*line, *schemas),
    {
        reveal(spec_text_field_line);
        let schema = match schemas.schema_for("TextField") {
            Some(s) => s,
            None => {
                return Err(ItemLineConversionError::MissingContainerSchema);
            },
        };
        match validate_field_without_unit(schema.field("placeholder"), "placeholder", ValueType::Str) {
            Ok(_) => {},
            Err(e) => {
                return Err(e);
            },
        }
        match validate_field_without_unit(schema.field("maxLength"), "maxLength", ValueType::Int) {
            Ok(_) => {},
            Err(e) => {
                return Err(e);
            },
        }
        match validate_field_without_unit(schema.field("value"), "value", ValueType::Str) {
            Ok(_) => {},
            Err(e) => {
                return Err(e);
            },
        }
        if !str_eq(line.title.as_str(), "TextField") {
            return Err(
                ItemLineConversionError::WrongElementType {
                    expected: "TextField",
                    found: line.title.clone(),
                },
            );
        }
        let placeholder = match parse_value::<String>(line, "placeholder") {
            Ok(v) => v,
            Err(e) => {
                return Err(e);
            },
        };
        let max_length = match parse_value::<i64>(line, "maxLength") {
            Ok(v) => v,
            Err(e) => {
                return Err(e);
            },
        };
        let value = match parse_value::<String>(line, "value") {
            Ok(v) => v,
            Err(e) => {
                return Err(e);
            },
        };
        Ok(TextFieldLine { placeholder, max_length, value })
    }
}

/// All length units, in declaration order.
pub fn all_length_units() -> (r: [LengthUnit; 4])
    ensures
        r@ == seq![LengthUnit::Px, LengthUnit::Em, LengthUnit::Rem, LengthUnit::Percent],
{
    [LengthUnit::Px, LengthUnit::Em, LengthUnit::Rem, LengthUnit::Percent]
}

} // verus!

verus! {

/// Position `i` of `data` holds the first set keyed `key`.
pub open spec fn is_first_set(data: Seq<ItemSet>, key: Seq<char>, i: int) -> bool {
    &&& 0 <= i < data.len()
    &&& data[i].key@ == key
    &&& forall|j: int| 0 <= j < i ==> data[j].key@ != key
}

proof fn lemma_first_set_is_found(data: Seq<ItemSet>, key: Seq<char>, i: int)
    requires
        is_first_set(data, key, i),
    ensures
        first_set_with_key(data, key) == Some(i),
{
    let c = choose|c: int|
        0 <= c < data.len() && data[c].key@ == key && forall|j: int| 0 <= j < c ==> data[j].key@ != key;
    if c < i {
        assert(data[c].key@ == key);
    }
    if i < c {
        assert(data[i].key@ == key);
    }
}

proof fn lemma_some_first_set(data: Seq<ItemSet>, key: Seq<char>, i: int)
    requires
        0 <= i < data.len(),
        data[i].key@ == key,
    ensures
        exists|k: int| #[trigger] is_first_set(data, key, k),
    decreases i,
{
    if exists|j: int| 0 <= j < i && data[j].key@ == key {
        let j = choose|j: int| 0 <= j < i && data[j].key@ == key;
        lemma_some_first_set(data, key, j);
    } else {
        assert(is_first_set(data, key, i));
    }
}

proof fn lemma_found_is_first(data: Seq<ItemSet>, key: Seq<char>)
    ensures
        first_set_with_key(data, key) matches Some(i) ==> is_first_set(data, key, i),
{
    if exists|i: int| 0 <= i < data.len() && data[i].key@ == key {
        let i = choose|i: int| 0 <= i < data.len() && data[i].key@ == key;
        lemma_some_first_set(data, key, i);
        let k = choose|k: int| is_first_set(data, key, k);
        lemma_first_set_is_found(data, key, k);
    }
}

proof fn lemma_symbol_of_unit(s: Seq<char>)
    ensures
        LengthUnit::spec_from_symbol(s) matches Some(u) ==> u.symbol() == s,
{
}

/// A `Container` line takes its width, height and padding each from the first set keyed
/// with that field's own name: the width's and height's values are those sets' texts,
/// the padding is the integer its set's text denotes, and each unit is the one its set
/// names.
pub proof fn law_container_reads_each_field_from_its_own_set(
    line: ItemLine,
    schemas: Schemas,
    w: int,
    h: int,
    p: int,
)
    requires
        is_first_set(line.data@, "width"@, w),
        is_first_set(line.data@, "height"@, h),
        is_first_set(line.data@, "padding"@, p),
    ensures
        spec_container_line(line, schemas) matches Ok(c) ==> {
            &&& c.width.value.text@ == line.data@[w].value@
            &&& c.width.unit.symbol() == line.data@[w].unit@
            &&& c.height.value.text@ == line.data@[h].value@
            &&& c.height.unit.symbol() == line.data@[h].unit@
            &&& spec_parse_i64(line.data@[p].value@) == Some(c.padding.value as int)
            &&& c.padding.unit.symbol() == line.data@[p].unit@
        },
{
    reveal(spec_container_line);
    lemma_first_set_is_found(line.data@, "width"@, w);
    lemma_first_set_is_found(line.data@, "height"@, h);
    lemma_first_set_is_found(line.data@, "padding"@, p);
    lemma_symbol_of_unit(line.data@[w].unit@);
    lemma_symbol_of_unit(line.data@[h].unit@);
    lemma_symbol_of_unit(line.data@[p].unit@);
}

/// A line read as a `Container` is titled `Container` and has a set for each of
/// `width`, `height` and `padding`.
pub proof fn law_container_needs_its_fields(line: ItemLine, schemas: Schemas)
    ensures
        spec_container_line(line, schemas) is Ok ==> {
            &&& line.title@ == "Container"@
            &&& exists|w: int| #[trigger] is_first_set(line.data@, "width"@, w)
            &&& exists|h: int| #[trigger] is_first_set(line.data@, "height"@, h)
            &&& exists|p: int| #[trigger] is_first_set(line.data@, "padding"@, p)
        },
{
    reveal(spec_container_line);
    lemma_found_is_first(line.data@, "width"@);
    lemma_found_is_first(line.data@, "height"@);
    lemma_found_is_first(line.data@, "padding"@);
}

/// A `Button` line's label is the text of its first set keyed `label`.
pub proof fn law_button_reads_its_label(line: ItemLine, schemas: Schemas, l: int)
    requires
        is_first_set(line.data@, "label"@, l),
    ensures
        spec_button_line(line, schemas) matches Ok(b) ==> b.label@ == line.data@[l].value@,
{
    reveal(spec_button_line);
    lemma_first_set_is_found(line.data@, "label"@, l);
}

/// A `TextField` line takes its placeholder and value as the texts of the first sets
/// keyed `placeholder` and `value`, and its maximum length as the integer that the first
/// set keyed `maxLength` denotes.
pub proof fn law_text_field_reads_each_field_from_its_own_set(
    line: ItemLine,
    schemas: Schemas,
    ph: int,
    ml: int,
    v: int,
)
    requires
        is_first_set(line.data@, "placeholder"@, ph),
        is_first_set(line.data@, "maxLength"@, ml),
        is_first_set(line.data@, "value"@, v),
    ensures
        spec_text_field_line(line, schemas) matches Ok(t) ==> {
            &&& t.placeholder@ == line.data@[ph].value@
            &&& spec_parse_i64(line.data@[ml].value@) == Some(t.max_length as int)
            &&& t.value@ == line.data@[v].value@
        },
{
    reveal(spec_text_field_line);
    lemma_first_set_is_found(line.data@, "placeholder"@, ph);
    lemma_first_set_is_found(line.data@, "maxLength"@, ml);
    lemma_first_set_is_found(line.data@, "value"@, v);
}

} // verus!
