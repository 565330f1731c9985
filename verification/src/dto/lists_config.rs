use vstd::prelude::*;

use crate::models::elements::{
    clone_opt_string, ElementField, ElementSchema, FieldSpec, Schemas, ValueType,
};
use crate::str_map::StrMap;

verus! {

/// A lists configuration file: a title, a description and the schemas under `properties`.
pub struct ListsConfigDto {
    pub title: String,
    pub description: String,
    pub properties: SchemasDto,
}

/// The unit groups and element schemas as stored in a configuration file.
pub struct SchemasDto {
    pub units: StrMap<Vec<String>>,
    pub elements: StrMap<ElementSchemaDto>,
}

/// An element schema as stored in a configuration file.
pub struct ElementSchemaDto {
    pub allow_init: bool,
    pub fields: Vec<ElementFieldDto>,
}

/// A field as stored in a configuration file.
pub struct ElementFieldDto {
    pub name: String,
    pub spec: FieldSpecDto,
}

/// A field spec as stored in a configuration file.
pub struct FieldSpecDto {
    pub ty: ValueType,
    pub unit: Option<String>,
}

/// The spec that a stored field spec describes.
pub open spec fn field_spec_of(d: FieldSpecDto) -> FieldSpec {
    FieldSpec { ty: d.ty, unit: d.unit }
}

/// The field that a stored field describes.
pub open spec fn element_field_of(d: ElementFieldDto) -> ElementField {
    ElementField { name: d.name, spec: field_spec_of(d.spec) }
}

/// The fields that a sequence of stored fields describes.
pub open spec fn fields_of(d: Seq<ElementFieldDto>) -> Seq<ElementField> {
    Seq::new(d.len(), |i: int| element_field_of(d[i]))
}

/// `s` is the schema that the stored schema `d` describes.
pub open spec fn schema_matches(s: ElementSchema, d: ElementSchemaDto) -> bool {
    s.allow_init == d.allow_init && s.spec_fields() == fields_of(d.fields@)
}

/// Both maps have the same keys in the same order, and each value of `s` is the schema
/// that the value of `d` at the same place describes.
pub open spec fn elements_match(s: StrMap<ElementSchema>, d: StrMap<ElementSchemaDto>) -> bool {
    &&& s.spec_len() == d.spec_len()
    &&& forall|k: int|
        0 <= k < s.spec_len() ==> #[trigger] s.spec_entries()[k].0 == d.spec_entries()[k].0
            && schema_matches(s.value_at(k), d.value_at(k))
}

/// Both unit maps have the same keys in the same order and the same unit texts.
pub open spec fn units_match(a: StrMap<Vec<String>>, b: StrMap<Vec<String>>) -> bool {
    &&& a.spec_len() == b.spec_len()
    &&& forall|k: int|
        0 <= k < a.spec_len() ==> #[trigger] a.spec_entries()[k].0 == b.spec_entries()[k].0
            && a.value_at(k)@ == b.value_at(k)@
}

/// Reading a stored field spec keeps its value type and its unit group as they are.
pub proof fn law_field_spec_kept(d: FieldSpecDto)
    ensures
        field_spec_of(d).ty == d.ty,
        field_spec_of(d).unit == d.unit,
{
}

/// Schemas that match stored schemas (the way both directions of the conversion relate
/// them) have the same element names in the same order, the same init flags, and, field
/// by field, the same names, value types and unit groups.
pub proof fn law_stored_schemas_kept(s: StrMap<ElementSchema>, d: StrMap<ElementSchemaDto>, k: int, f: int)
    requires
        elements_match(s, d),
        0 <= k < s.spec_len(),
    ensures
        s.spec_entries()[k].0 == d.spec_entries()[k].0,
        s.value_at(k).allow_init == d.value_at(k).allow_init,
        s.value_at(k).spec_fields().len() == d.value_at(k).fields@.len(),
        0 <= f < d.value_at(k).fields@.len() ==> {
            let field = s.value_at(k).spec_fields()[f];
            let stored = d.value_at(k).fields@[f];
            &&& field.name == stored.name
            &&& field.spec.ty == stored.spec.ty
            &&& field.spec.unit == stored.spec.unit
        },
{
    assert(s.spec_entries()[k].0 == d.spec_entries()[k].0);
}

impl FieldSpec {
    /// The spec that `value` describes.
    pub fn from_dto(value: &FieldSpecDto) -> (r: FieldSpec)
        ensures
            r == field_spec_of(*value),
    {
        FieldSpec { ty: value.ty, unit: clone_opt_string(&value.unit) }
    }
}

impl FieldSpecDto {
    /// `value` as stored in a configuration file.
    pub fn from_spec(value: &FieldSpec) -> (r: FieldSpecDto)
        ensures
            field_spec_of(r) == *value,
    {
        FieldSpecDto { ty: value.ty, unit: clone_opt_string(&value.unit) }
    }
}

impl ElementField {
    /// The field that `value` describes.
    pub fn from_dto(value: &ElementFieldDto) -> (r: ElementField)
        ensures
            r == element_field_of(*value),
    {
        ElementField::new(value.name.clone(), FieldSpec::from_dto(&value.spec))
    }
}

impl ElementFieldDto {
    /// `value` as stored in a configuration file.
    pub fn from_field(value: &ElementField) -> (r: ElementFieldDto)
        ensures
            element_field_of(r) == *value,
    {
        ElementFieldDto { name: value.name.clone(), spec: FieldSpecDto::from_spec(&value.spec) }
    }
}

impl ElementSchema {
    /// The schema that `value` describes.
    pub fn from_dto(value: &ElementSchemaDto) -> (r: ElementSchema)
        ensures
            schema_matches(r, *value),
    {
        let mut fields: Vec<ElementField> = Vec::new();
        let mut i: usize = 0;
        while i < value.fields.len()
            invariant
                i <= value.fields.len(),
                fields@.len() == i,
                forall|k: int| 0 <= k < i ==> #[trigger] fields@[k] == element_field_of(value.fields@[k]),
            decreases value.fields.len() - i,
        {
            fields.push(ElementField::from_dto(&value.fields[i]));
            i += 1;
        }
        assert(fields@ =~= fields_of(value.fields@));
        ElementSchema::new(value.allow_init, fields)
    }
}

impl ElementSchemaDto {
    /// `value` as stored in a configuration file.
    pub fn from_schema(value: &ElementSchema) -> (r: ElementSchemaDto)
        ensures
            schema_matches(*value, r),
    {
        let src = value.fields();
        let mut fields: Vec<ElementFieldDto> = Vec::new();
        let mut i: usize = 0;
        while i < src.len()
            invariant
                i <= src.len(),
                src@ == value.spec_fields(),
                fields@.len() == i,
                forall|k: int| 0 <= k < i ==> element_field_of(#[trigger] fields@[k]) == src@[k],
            decreases src.len() - i,
        {
            fields.push(ElementFieldDto::from_field(&src[i]));
            i += 1;
        }
        assert(value.spec_fields() =~= fields_of(fields@));
        ElementSchemaDto { allow_init: value.allow_init, fields }
    }
}

/// A copy of a list of strings.
pub fn clone_strings(v: &Vec<String>) -> (r: Vec<String>)
    ensures
        r@ == v@,
{
    let mut out: Vec<String> = Vec::new();
    let mut i: usize = 0;
    while i < v.len()
        invariant
            i <= v.len(),
            out@ == v@.take(i as int),
        decreases v.len() - i,
    {
        out.push(v[i].clone());
        i += 1;
        assert(out@ =~= v@.take(i as int));
    }
    assert(v@.take(i as int) =~= v@);
    out
}

/// A copy of a unit map.
pub fn clone_units(units: &StrMap<Vec<String>>) -> (r: StrMap<Vec<String>>)
    ensures
        units_match(r, *units),
{
    proof {
        use_type_invariant(units);
    }
    let mut out: StrMap<Vec<String>> = StrMap::new();
    let mut i: usize = 0;
    while i < units.len()
        invariant
            i <= units.spec_len(),
            units.keys_unique(),
            out.spec_len() == i,
            forall|k: int|
                0 <= k < i ==> #[trigger] out.spec_entries()[k].0 == units.spec_entries()[k].0
                    && out.value_at(k)@ == units.value_at(k)@,
        decreases units.spec_len() - i,
    {
        let key = units.key(i).clone();
        proof {
            if out.has_key(key@) {
                let j = choose|j: int| 0 <= j < out.spec_len() && out.key_at(j) == key@;
                assert(units.key_at(j) == units.key_at(i as int));
            }
        }
        out.insert(key, clone_strings(units.value(i)));
        i += 1;
    }
    out
}

impl Schemas {
    /// The schemas that `value` describes.
    pub fn from_dto(value: &SchemasDto) -> (r: Schemas)
        ensures
            units_match(r.units, value.units),
            elements_match(r.elements, value.elements),
    {
        let src = &value.elements;
        proof {
            use_type_invariant(src);
        }
        let mut elements: StrMap<ElementSchema> = StrMap::new();
        let mut i: usize = 0;
        while i < src.len()
            invariant
                i <= src.spec_len(),
                src.keys_unique(),
                elements.spec_len() == i,
                forall|k: int|
                    0 <= k < i ==> #[trigger] elements.spec_entries()[k].0 == src.spec_entries()[k].0
                        && schema_matches(elements.value_at(k), src.value_at(k)),
            decreases src.spec_len() - i,
        {
            let key = src.key(i).clone();
            proof {
                if elements.has_key(key@) {
                    let j = choose|j: int| 0 <= j < elements.spec_len() && elements.key_at(j) == key@;
                    assert(src.key_at(j) == src.key_at(i as int));
                }
            }
            elements.insert(key, ElementSchema::from_dto(src.value(i)));
            i += 1;
        }
        Schemas { units: clone_units(&value.units), elements }
    }
}

impl SchemasDto {
    /// `value` as stored in a configuration file.
    pub fn from_schemas(value: &Schemas) -> (r: SchemasDto)
        ensures
            units_match(r.units, value.units),
            elements_match(value.elements, r.elements),
    {
        let src = &value.elements;
        proof {
            use_type_invariant(src);
        }
        let mut elements: StrMap<ElementSchemaDto> = StrMap::new();
        let mut i: usize = 0;
        while i < src.len()
            invariant
                i <= src.spec_len(),
                src.keys_unique(),
                elements.spec_len() == i,
                forall|k: int|
                    0 <= k < i ==> #[trigger] elements.spec_entries()[k].0 == src.spec_entries()[k].0
                        && schema_matches(src.value_at(k), elements.value_at(k)),
            decreases src.spec_len() - i,
        {
            let key = src.key(i).clone();
            proof {
                if elements.has_key(key@) {
                    let j = choose|j: int| 0 <= j < elements.spec_len() && elements.key_at(j) == key@;
                    assert(src.key_at(j) == src.key_at(i as int));
                }
            }
            elements.insert(key, ElementSchemaDto::from_schema(src.value(i)));
            i += 1;
        }
        SchemasDto { units: clone_units(&value.units), elements }
    }
}

impl From<SchemasDto> for Schemas {
    fn from(value: SchemasDto) -> (r: Self)
        ensures
            units_match(r.units, value.units),
            elements_match(r.elements, value.elements),
    {
        Schemas::from_dto(&value)
    }
}

impl vstd::std_specs::convert::FromSpecImpl<SchemasDto> for Schemas {
    open spec fn obeys_from_spec() -> bool {
        false
    }

    open spec fn from_spec(v: SchemasDto) -> Self {
        vstd::pervasive::arbitrary()
    }
}

impl From<&Schemas> for SchemasDto {
    fn from(value: &Schemas) -> (r: Self)
        ensures
            units_match(r.units, value.units),
            elements_match(value.elements, r.elements),
    {
        SchemasDto::from_schemas(value)
    }
}

impl vstd::std_specs::convert::FromSpecImpl<&Schemas> for SchemasDto {
    open spec fn obeys_from_spec() -> bool {
        false
    }

    open spec fn from_spec(v: &Schemas) -> Self {
        vstd::pervasive::arbitrary()
    }
}

impl From<ElementSchemaDto> for ElementSchema {
    fn from(value: ElementSchemaDto) -> (r: Self)
        ensures
            schema_matches(r, value),
    {
        ElementSchema::from_dto(&value)
    }
}

impl vstd::std_specs::convert::FromSpecImpl<ElementSchemaDto> for ElementSchema {
    open spec fn obeys_from_spec() -> bool {
        false
    }

    open spec fn from_spec(v: ElementSchemaDto) -> Self {
        vstd::pervasive::arbitrary()
    }
}

impl From<&ElementSchema> for ElementSchemaDto {
    fn from(value: &ElementSchema) -> (r: Self)
        ensures
            schema_matches(*value, r),
    {
        ElementSchemaDto::from_schema(value)
    }
}

impl vstd::std_specs::convert::FromSpecImpl<&ElementSchema> for ElementSchemaDto {
    open spec fn obeys_from_spec() -> bool {
        false
    }

    open spec fn from_spec(v: &ElementSchema) -> Self {
        vstd::pervasive::arbitrary()
    }
}

impl From<ElementFieldDto> for ElementField {
    fn from(value: ElementFieldDto) -> (r: Self)
        ensures
            r == element_field_of(value),
    {
        ElementField::from_dto(&value)
    }
}

impl vstd::std_specs::convert::FromSpecImpl<ElementFieldDto> for ElementField {
    open spec fn obeys_from_spec() -> bool {
        false
    }

    open spec fn from_spec(v: ElementFieldDto) -> Self {
        vstd::pervasive::arbitrary()
    }
}

impl From<&ElementField> for ElementFieldDto {
    fn from(value: &ElementField) -> (r: Self)
        ensures
            element_field_of(r) == *value,
    {
        ElementFieldDto::from_field(value)
    }
}

impl vstd::std_specs::convert::FromSpecImpl<&ElementField> for ElementFieldDto {
    open spec fn obeys_from_spec() -> bool {
        false
    }

    open spec fn from_spec(v: &ElementField) -> Self {
        vstd::pervasive::arbitrary()
    }
}

impl From<FieldSpecDto> for FieldSpec {
    fn from(value: FieldSpecDto) -> (r: Self)
        ensures
            r == field_spec_of(value),
    {
        FieldSpec::from_dto(&value)
    }
}

impl vstd::std_specs::convert::FromSpecImpl<FieldSpecDto> for FieldSpec {
    open spec fn obeys_from_spec() -> bool {
        false
    }

    open spec fn from_spec(v: FieldSpecDto) -> Self {
        vstd::pervasive::arbitrary()
    }
}

impl From<&FieldSpec> for FieldSpecDto {
    fn from(value: &FieldSpec) -> (r: Self)
        ensures
            field_spec_of(r) == *value,
    {
        FieldSpecDto::from_spec(value)
    }
}

impl vstd::std_specs::convert::FromSpecImpl<&FieldSpec> for FieldSpecDto {
    open spec fn obeys_from_spec() -> bool {
        false
    }

    open spec fn from_spec(v: &FieldSpec) -> Self {
        vstd::pervasive::arbitrary()
    }
}

/// Storing schemas in a configuration file and reading them back gives the same unit
/// groups and the same element schemas, in the same order.
pub proof fn law_schemas_round_trip(initial: Schemas, stored: SchemasDto, back: Schemas)
    requires
        units_match(stored.units, initial.units),
        elements_match(initial.elements, stored.elements),
        units_match(back.units, stored.units),
        elements_match(back.elements, stored.elements),
    ensures
        units_match(back.units, initial.units),
        back.elements.spec_len() == initial.elements.spec_len(),
        forall|k: int|
            0 <= k < back.elements.spec_len() ==> #[trigger] back.elements.spec_entries()[k].0
                == initial.elements.spec_entries()[k].0 && back.elements.value_at(k).allow_init
                == initial.elements.value_at(k).allow_init && back.elements.value_at(k).spec_fields()
                == initial.elements.value_at(k).spec_fields(),
{
    assert forall|k: int| 0 <= k < back.units.spec_len() implies #[trigger] back.units.spec_entries()[k].0
        == initial.units.spec_entries()[k].0 && back.units.value_at(k)@ == initial.units.value_at(k)@ by {
        assert(stored.units.spec_entries()[k].0 == initial.units.spec_entries()[k].0);
        assert(back.units.spec_entries()[k].0 == stored.units.spec_entries()[k].0);
        assert(back.units.value_at(k)@ == stored.units.value_at(k)@);
        assert(stored.units.value_at(k)@ == initial.units.value_at(k)@);
    }
    assert forall|k: int| 0 <= k < back.elements.spec_len() implies #[trigger] back.elements.spec_entries()[k].0
        == initial.elements.spec_entries()[k].0 && back.elements.value_at(k).allow_init
        == initial.elements.value_at(k).allow_init && back.elements.value_at(k).spec_fields()
        == initial.elements.value_at(k).spec_fields() by {
        assert(initial.elements.spec_entries()[k].0 == stored.elements.spec_entries()[k].0);
    }
}

} // verus!
