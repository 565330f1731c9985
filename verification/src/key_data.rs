use vstd::prelude::*;

use crate::dto::lists_config::clone_strings;
use crate::models::elements::{ElementSchema, FieldSpec, ValueType};
use crate::models::typed_lines::FloatLiteral;
use crate::str_map::StrMap;
use crate::utility::parse::ParseFieldValue;
use crate::text::{
    chars_of, eq_ignore_ascii_case, is_float_literal, is_float_literal_str, parse_i64,
    range_eq_ignore_ascii_case, spec_parse_i64,
};

verus! {

/// An editable field of a line: its key, the value typed so far, the chosen unit, the
/// units to choose from, and whether the value is valid.
pub struct KeyData {
    pub key: String,
    pub value: String,
    pub unit: String,
    pub unit_options: Vec<String>,
    pub is_valid: bool,
}

/// The units that a field may take: those of its unit group, or none when it has no
/// unit group or the group is unknown.
pub open spec fn spec_unit_options(spec: FieldSpec, units: StrMap<Vec<String>>) -> Seq<Seq<char>> {
    match spec.unit {
        None => Seq::empty(),
        Some(unit_type) => match units.spec_get(unit_type@) {
            Some(group) => Seq::new(group@.len(), |i: int| group@[i]@),
            None => Seq::empty(),
        },
    }
}

/// The texts of a sequence of strings.
pub open spec fn strings_view(s: Seq<String>) -> Seq<Seq<char>> {
    Seq::new(s.len(), |i: int| s[i]@)
}

/// The units that a field may take.
pub fn build_unit_options(spec: &FieldSpec, units: &StrMap<Vec<String>>) -> (r: Vec<String>)
    ensures
        strings_view(r@) == spec_unit_options(*spec, *units),
{
    match &spec.unit {
        None => {
            let r: Vec<String> = Vec::new();
            assert(strings_view(r@) =~= Seq::<Seq<char>>::empty());
            r
        },
        Some(unit_type) => match units.get(unit_type.as_str()) {
            Some(group) => {
                let r = clone_strings(group);
                assert(strings_view(r@) =~= spec_unit_options(*spec, *units));
                r
            },
            None => {
                let r: Vec<String> = Vec::new();
                assert(strings_view(r@) =~= Seq::<Seq<char>>::empty());
                r
            },
        },
    }
}

/// An empty, not yet valid field `key` with the spec `spec`: its unit is the first of its
/// unit group (empty when there is none).
pub fn make_key_data(key: &str, spec: &FieldSpec, units: &StrMap<Vec<String>>) -> (r: KeyData)
    ensures
        r.key@ == key@,
        r.value@ == Seq::<char>::empty(),
        strings_view(r.unit_options@) == spec_unit_options(*spec, *units),
        r.unit@ == (if spec_unit_options(*spec, *units).len() > 0 {
            spec_unit_options(*spec, *units)[0]
        } else {
            Seq::empty()
        }),
        !r.is_valid,
{
    let unit_options = build_unit_options(spec, units);
    let unit = if unit_options.len() > 0 {
        unit_options[0].clone()
    } else {
        String::new()
    };
    proof {
        if unit_options.len() > 0 {
            assert(strings_view(unit_options@)[0] == unit_options@[0]@);
        }
    }
    KeyData { key: key.to_owned(), value: String::new(), unit, unit_options, is_valid: false }
}

/// The empty fields of a new line of `schema`, in the schema's field order.
pub fn build_key_data_for_schema(schema: &ElementSchema, units: &StrMap<Vec<String>>) -> (r: Vec<
    KeyData,
>)
    ensures
        r@.len() == schema.spec_fields().len(),
        forall|i: int|
            #![trigger r@[i]]
            0 <= i < r@.len() ==> {
                let f = schema.spec_fields()[i];
                &&& r@[i].key@ == f.name@
                &&& r@[i].value@ == Seq::<char>::empty()
                &&& strings_view(r@[i].unit_options@) == spec_unit_options(f.spec, *units)
                &&& r@[i].unit@ == (if spec_unit_options(f.spec, *units).len() > 0 {
                    spec_unit_options(f.spec, *units)[0]
                } else {
                    Seq::empty()
                })
                &&& !r@[i].is_valid
            },
{
    let fields = schema.iter_fields();
    let mut out: Vec<KeyData> = Vec::new();
    let mut i: usize = 0;
    while i < fields.len()
        invariant
            i <= fields.len(),
            fields@.len() == schema.spec_fields().len(),
            forall|k: int|
                #![trigger fields@[k]]
                0 <= k < fields@.len() ==> fields@[k].0@ == schema.spec_fields()[k].name@
                    && *fields@[k].1 == schema.spec_fields()[k].spec,
            out@.len() == i,
            forall|k: int|
                #![trigger out@[k]]
                0 <= k < i ==> {
                    let f = schema.spec_fields()[k];
                    &&& out@[k].key@ == f.name@
                    &&& out@[k].value@ == Seq::<char>::empty()
                    &&& strings_view(out@[k].unit_options@) == spec_unit_options(f.spec, *units)
                    &&& out@[k].unit@ == (if spec_unit_options(f.spec, *units).len() > 0 {
                        spec_unit_options(f.spec, *units)[0]
                    } else {
                        Seq::empty()
                    })
                    &&& !out@[k].is_valid
                },
        decreases fields.len() - i,
    {
        let (name, spec) = fields[i];
        assert(fields@[i as int] == (name, spec));
        out.push(make_key_data(name, spec, units));
        i += 1;
    }
    out
}

/// Whether `value` is a valid value of type `ty`: it is not empty, and an `Int` must be
/// an `i64` literal, a `Float` an `f64` literal and a `Bool` `true` or `false` in any
/// ASCII case.
pub open spec fn spec_validate_value_str(value: Seq<char>, ty: ValueType) -> bool {
    value.len() > 0 && match ty {
        ValueType::Str => true,
        ValueType::Int => spec_parse_i64(value) is Some,
        ValueType::Float => is_float_literal(value),
        ValueType::Bool => eq_ignore_ascii_case(value, seq!['t', 'r', 'u', 'e'])
            || eq_ignore_ascii_case(value, seq!['f', 'a', 'l', 's', 'e']),
    }
}

/// `c` in ASCII lower case.
pub open spec fn ascii_lower_char(c: char) -> char {
    if 'A' <= c && c <= 'Z' {
        ((c as int) + 32) as char
    } else {
        c
    }
}

/// `s` with its ASCII capitals made lower case.
pub open spec fn ascii_lowercase(s: Seq<char>) -> Seq<char> {
    Seq::new(s.len(), |i: int| ascii_lower_char(s[i]))
}

proof fn lemma_eq_ignore_case_is_lowercase_eq(s: Seq<char>, lower: Seq<char>)
    requires
        forall|i: int| 0 <= i < lower.len() ==> 'a' <= #[trigger] lower[i] && lower[i] <= 'z',
    ensures
        eq_ignore_ascii_case(s, lower) <==> ascii_lowercase(s) == lower,
{
    if eq_ignore_ascii_case(s, lower) {
        assert forall|i: int| 0 <= i < s.len() implies ascii_lowercase(s)[i] == lower[i] by {
            assert(crate::text::char_eq_ignore_ascii_case(s[i], lower[i]));
        }
        assert(ascii_lowercase(s) =~= lower);
    }
    if ascii_lowercase(s) == lower {
        assert forall|i: int| 0 <= i < s.len() implies crate::text::char_eq_ignore_ascii_case(
            #[trigger] s[i],
            lower[i],
        ) by {
            assert(ascii_lowercase(s)[i] == lower[i]);
        }
    }
}

/// What the editor form accepts for each value type, over all texts: nothing empty; any
/// text for `Str`; what `str::parse::<i64>` accepts for `Int`; a floating-point literal
/// for `Float`; and for `Bool` exactly the texts whose ASCII lower case is `true` or
/// `false`.
pub proof fn law_valid_values_by_type(value: Seq<char>)
    ensures
        spec_validate_value_str(value, ValueType::Str) <==> value.len() > 0,
        spec_validate_value_str(value, ValueType::Int) <==> value.len() > 0 && spec_parse_i64(value) is Some,
        spec_validate_value_str(value, ValueType::Float) <==> value.len() > 0 && is_float_literal(value),
        spec_validate_value_str(value, ValueType::Bool) <==> (ascii_lowercase(value) == seq![
            't',
            'r',
            'u',
            'e',
        ] || ascii_lowercase(value) == seq!['f', 'a', 'l', 's', 'e']),
{
    lemma_eq_ignore_case_is_lowercase_eq(value, seq!['t', 'r', 'u', 'e']);
    lemma_eq_ignore_case_is_lowercase_eq(value, seq!['f', 'a', 'l', 's', 'e']);
}

/// Whether `value` is a valid, non-empty value of type `ty`.
pub fn validate_value_str(value: &str, ty: ValueType) -> (r: bool)
    ensures
        r == spec_validate_value_str(value@, ty),
{
    if value.is_empty() {
        return false;
    }
    match ty {
        ValueType::Str => true,
        ValueType::Int => parse_i64(value).is_some(),
        ValueType::Float => is_float_literal_str(value),
        ValueType::Bool => {
            let chars = chars_of(value);
            let t = vec!['t', 'r', 'u', 'e'];
            let f = vec!['f', 'a', 'l', 's', 'e'];
            assert(t@ =~= seq!['t', 'r', 'u', 'e']);
            assert(f@ =~= seq!['f', 'a', 'l', 's', 'e']);
            assert(chars@.subrange(0, chars@.len() as int) =~= chars@);
            range_eq_ignore_ascii_case(&chars, 0, chars.len(), &t) || range_eq_ignore_ascii_case(
                &chars,
                0,
                chars.len(),
                &f,
            )
        },
    }
}

/// The form and the typed-line reader agree on numbers: a value that the form marks
/// valid for an `Int` field is exactly one that reading it as an `i64` accepts, and for a
/// `Float` field exactly one that reading it as a floating-point value accepts.
pub proof fn law_form_agrees_with_reader(field: &'static str, raw: String)
    ensures
        spec_validate_value_str(raw@, ValueType::Int) <==> <i64 as ParseFieldValue>::spec_parse_field(
            field,
            raw,
        ) is Ok,
        spec_validate_value_str(raw@, ValueType::Float) <==> <FloatLiteral as ParseFieldValue>::spec_parse_field(
            field,
            raw,
        ) is Ok,
{
    if raw@.len() == 0 {
        assert(crate::text::split_sign(raw@).1.len() == 0);
        assert(crate::text::leading_digits(Seq::<char>::empty()) == 0);
    }
}

} // verus!
