use vstd::prelude::*;

use crate::str_map::StrMap;
use crate::text::{
    lemma_str_lt_asymmetric, lemma_str_lt_total, lemma_str_lt_transitive, str_less, str_lt,
};

verus! {

/// The type that a key's value must have.
#[derive(Debug, Clone, Copy, PartialEq, Eq, Structural)]
pub enum ValueType {
    Str,
    Int,
    Float,
    Bool,
}

/// What a key holds: its value type and, optionally, the unit group of its unit.
pub struct KeySpec {
    pub ty: ValueType,
    pub unit: Option<String>,
}

/// The schema of an element: whether it may be added on init, and its keys.
pub struct ElementSchema {
    pub allow_init: bool,
    pub fields: StrMap<KeySpec>,
}

/// The unit groups and element schemas.
pub struct Schemas {
    pub units: StrMap<Vec<String>>,
    pub elements: StrMap<ElementSchema>,
}

/// The kind of a JSON value, as far as checking it against a [`ValueType`] needs.
#[derive(Debug, Clone, Copy, PartialEq, Eq, Structural)]
pub enum JsonValueKind {
    Null,
    Bool,
    String,
    /// A number that `serde_json` can give as an `i64`.
    Integer,
    /// Any other number.
    OtherNumber,
    Array,
    Object,
}

/// An element with its parameters, each given by the kind of its JSON value.
pub struct Element {
    pub name: String,
    pub params: StrMap<JsonValueKind>,
}

/// A problem found while checking an element.
pub struct ValidationError {
    pub key: Option<String>,
    pub message: String,
}

/// The texts of a [`ValidationError`].
pub struct ValidationErrorView {
    pub key: Option<Seq<char>>,
    pub message: Seq<char>,
}

impl View for ValidationError {
    type V = ValidationErrorView;

    open spec fn view(&self) -> ValidationErrorView {
        ValidationErrorView {
            key: match self.key {
                Some(k) => Some(k@),
                None => None,
            },
            message: self.message@,
        }
    }
}

/// The views of a sequence of errors.
pub open spec fn errors_view(s: Seq<ValidationError>) -> Seq<ValidationErrorView> {
    Seq::new(s.len(), |i: int| s[i]@)
}

/// The names of the entries whose schema allows adding them on init, in entry order.
pub open spec fn init_names_of(entries: Seq<(String, ElementSchema)>) -> Seq<Seq<char>>
    decreases entries.len(),
{
    if entries.len() == 0 {
        Seq::empty()
    } else {
        let rest = init_names_of(entries.drop_last());
        if entries.last().1.allow_init {
            rest.push(entries.last().0@)
        } else {
            rest
        }
    }
}

/// Every string of `s` sorts before every later one.
pub open spec fn sorted_strictly(s: Seq<Seq<char>>) -> bool {
    forall|i: int, j: int| 0 <= i < j < s.len() ==> str_lt(#[trigger] s[i], #[trigger] s[j])
}

/// The texts of a sequence of string slices.
pub open spec fn strs_view(s: Seq<&str>) -> Seq<Seq<char>> {
    Seq::new(s.len(), |i: int| s[i]@)
}

proof fn lemma_init_names_member(entries: Seq<(String, ElementSchema)>, x: Seq<char>)
    ensures
        init_names_of(entries).contains(x) <==> exists|k: int|
            0 <= k < entries.len() && entries[k].1.allow_init && #[trigger] entries[k].0@ == x,
    decreases entries.len(),
{
    if entries.len() > 0 {
        let rest = entries.drop_last();
        lemma_init_names_member(rest, x);
        let last = entries.last();
        if init_names_of(entries).contains(x) {
            if entries.last().1.allow_init && x == last.0@ {
                assert(entries[entries.len() - 1].0@ == x);
            } else {
                if entries.last().1.allow_init {
                    let i = choose|i: int|
                        0 <= i < init_names_of(entries).len() && init_names_of(entries)[i] == x;
                    assert(init_names_of(rest)[i] == x);
                }
                let k = choose|k: int|
                    0 <= k < rest.len() && rest[k].1.allow_init && #[trigger] rest[k].0@ == x;
                assert(entries[k] == rest[k]);
            }
        }
        if exists|k: int| 0 <= k < entries.len() && entries[k].1.allow_init && #[trigger] entries[k].0@ == x {
            let k = choose|k: int|
                0 <= k < entries.len() && entries[k].1.allow_init && #[trigger] entries[k].0@ == x;
            if k < entries.len() - 1 {
                assert(rest[k] == entries[k]);
                let i = choose|i: int|
                    0 <= i < init_names_of(rest).len() && init_names_of(rest)[i] == x;
                if entries.last().1.allow_init {
                    assert(init_names_of(entries)[i] == x);
                }
            } else {
                assert(init_names_of(entries).last() == x);
            }
        }
    }
}

impl Schemas {
    /// The schema of the element called `element_name`, if any.
    pub fn schema_for(&self, element_name: &str) -> (r: Option<&ElementSchema>)
        ensures
            match r {
                Some(s) => self.elements.spec_get(element_name@) == Some(*s),
                None => self.elements.spec_get(element_name@) is None,
            },
    {
        self.elements.get(element_name)
    }

    /// The units of the unit group `unit_type`, if any.
    pub fn units_for(&self, unit_type: &str) -> (r: Option<&Vec<String>>)
        ensures
            match r {
                Some(u) => self.units.spec_get(unit_type@) == Some(*u),
                None => self.units.spec_get(unit_type@) is None,
            },
    {
        self.units.get(unit_type)
    }

    /// The names of the elements whose schema allows adding them on init, sorted.
    pub fn init_element_names(&self) -> (r: Vec<&str>)
        ensures
            sorted_strictly(strs_view(r@)),
            forall|x: Seq<char>|
                strs_view(r@).contains(x) <==> init_names_of(self.elements.spec_entries()).contains(x),
    {
        proof {
            use_type_invariant(&self.elements);
        }
        let mut names: Vec<&str> = Vec::new();
        let n = self.elements.len();
        let mut i: usize = 0;
        while i < n
            invariant
                i <= n == self.elements.spec_len(),
                self.elements.keys_unique(),
                sorted_strictly(strs_view(names@)),
                forall|x: Seq<char>|
                    strs_view(names@).contains(x) <==> exists|k: int|
                        0 <= k < i && self.elements.value_at(k).allow_init
                            && #[trigger] self.elements.key_at(k) == x,
            decreases n - i,
        {
            let ghost old_names = strs_view(names@);
            let allow = self.elements.value(i).allow_init;
            if allow {
                let name = self.elements.key(i).as_str();
                proof {
                    assert forall|j: int| 0 <= j < names@.len() implies names@[j]@ != name@ by {
                        assert(strs_view(names@).contains(names@[j]@)) by {
                            assert(strs_view(names@)[j] == names@[j]@);
                        }
                        let k = choose|k: int|
                            0 <= k < i && self.elements.value_at(k).allow_init
                                && #[trigger] self.elements.key_at(k) == names@[j]@;
                        assert(self.elements.key_at(k) != self.elements.key_at(i as int));
                    }
                }
                insert_sorted(&mut names, name);
            }
            proof {
                assert forall|x: Seq<char>|
                    strs_view(names@).contains(x) <==> exists|k: int|
                        0 <= k < i + 1 && self.elements.value_at(k).allow_init
                            && #[trigger] self.elements.key_at(k) == x by {
                    if strs_view(names@).contains(x) {
                        if old_names.contains(x) {
                            let k = choose|k: int|
                                0 <= k < i && self.elements.value_at(k).allow_init
                                    && #[trigger] self.elements.key_at(k) == x;
                            assert(0 <= k < i + 1);
                        } else {
                            assert(allow);
                            assert(x == self.elements.key_at(i as int));
                        }
                    }
                    if exists|k: int|
                        0 <= k < i + 1 && self.elements.value_at(k).allow_init
                            && #[trigger] self.elements.key_at(k) == x {
                        let k = choose|k: int|
                            0 <= k < i + 1 && self.elements.value_at(k).allow_init
                                && #[trigger] self.elements.key_at(k) == x;
                        if k < i {
                            assert(exists|k: int|
                                0 <= k < i && self.elements.value_at(k).allow_init
                                    && #[trigger] self.elements.key_at(k) == x);
                            assert(old_names.contains(x));
                        } else {
                            assert(allow);
                        }
                    }
                }
            }
            i += 1;
        }
        proof {
            let entries = self.elements.spec_entries();
            assert forall|x: Seq<char>|
                strs_view(names@).contains(x) <==> init_names_of(entries).contains(x) by {
                lemma_init_names_member(entries, x);
                if exists|k: int| 0 <= k < entries.len() && entries[k].1.allow_init && #[trigger] entries[k].0@ == x {
                    let k = choose|k: int|
                        0 <= k < entries.len() && entries[k].1.allow_init && #[trigger] entries[k].0@ == x;
                    assert(self.elements.key_at(k) == x);
                }
                if exists|k: int|
                    0 <= k < n && self.elements.value_at(k).allow_init
                        && #[trigger] self.elements.key_at(k) == x {
                    let k = choose|k: int|
                        0 <= k < n && self.elements.value_at(k).allow_init
                            && #[trigger] self.elements.key_at(k) == x;
                    assert(entries[k].0@ == x);
                }
            }
        }
        names
    }
}

/// Inserts `name` into the sorted list `names`, keeping it sorted.
pub(crate) fn insert_sorted<'a>(names: &mut Vec<&'a str>, name: &'a str)
    requires
        sorted_strictly(strs_view(old(names)@)),
        forall|j: int| 0 <= j < old(names)@.len() ==> old(names)@[j]@ != name@,
    ensures
        sorted_strictly(strs_view(final(names)@)),
        forall|x: Seq<char>|
            strs_view(final(names)@).contains(x) <==> (strs_view(old(names)@).contains(x) || x
                == name@),
{
    let ghost before = strs_view(names@);
    let mut p: usize = 0;
    while p < names.len() && !str_less(name, names[p])
        invariant
            p <= names.len(),
            names@ == old(names)@,
            forall|j: int| 0 <= j < p ==> !str_lt(name@, #[trigger] names@[j]@),
        decreases names.len() - p,
    {
        p += 1;
    }
    names.insert(p, name);
    proof {
        let s = strs_view(names@);
        assert(s =~= before.insert(p as int, name@));
        assert forall|i: int, j: int| 0 <= i < j < s.len() implies str_lt(#[trigger] s[i], #[trigger] s[j]) by {
            if i < p && j < p {
                assert(s[i] == before[i] && s[j] == before[j]);
            } else if i < p && j == p {
                assert(s[i] == before[i]);
                assert(before[i] == old(names)@[i]@);
                lemma_str_lt_total(name@, before[i]);
            } else if i < p && j > p {
                assert(s[i] == before[i] && s[j] == before[j - 1]);
                if i < j - 1 {
                } else {
                }
            } else if i == p {
                assert(s[j] == before[j - 1]);
                assert(str_lt(name@, before[p as int]));
                if j - 1 > p {
                    lemma_str_lt_transitive(name@, before[p as int], before[j - 1]);
                }
            } else {
                assert(s[i] == before[i - 1] && s[j] == before[j - 1]);
            }
        }
        assert forall|x: Seq<char>| s.contains(x) <==> (before.contains(x) || x == name@) by {
            if s.contains(x) {
                let k = choose|k: int| 0 <= k < s.len() && s[k] == x;
                if k < p {
                    assert(before[k] == x);
                } else if k > p {
                    assert(before[k - 1] == x);
                }
            }
            if before.contains(x) {
                let k = choose|k: int| 0 <= k < before.len() && before[k] == x;
                if k < p {
                    assert(s[k] == x);
                } else {
                    assert(s[k + 1] == x);
                }
            }
            if x == name@ {
                assert(s[p as int] == x);
            }
        }
    }
}

/// The name of a value type, as `Debug` writes it.
pub open spec fn value_type_name(t: ValueType) -> Seq<char> {
    match t {
        ValueType::Str => "Str"@,
        ValueType::Int => "Int"@,
        ValueType::Float => "Float"@,
        ValueType::Bool => "Bool"@,
    }
}

fn value_type_name_string(t: ValueType) -> (r: String)
    ensures
        r@ == value_type_name(t),
{
    match t {
        ValueType::Str => "Str".to_owned(),
        ValueType::Int => "Int".to_owned(),
        ValueType::Float => "Float".to_owned(),
        ValueType::Bool => "Bool".to_owned(),
    }
}

/// The error for a parameter the schema does not know.
pub open spec fn key_not_allowed_error(k: Seq<char>) -> ValidationErrorView {
    ValidationErrorView { key: Some(k), message: "Key not allowed for this element type"@ }
}

/// The error for a schema key the element lacks.
pub open spec fn missing_key_error(k: Seq<char>) -> ValidationErrorView {
    ValidationErrorView { key: Some(k), message: "Missing required key"@ }
}

/// The error for a parameter whose value has the wrong type.
pub open spec fn wrong_type_error(k: Seq<char>, ty: ValueType) -> ValidationErrorView {
    ValidationErrorView {
        key: Some(k),
        message: "Wrong type (expected "@ + value_type_name(ty) + ")"@,
    }
}

/// The error for an element name without a schema.
pub open spec fn unknown_element_error(name: Seq<char>) -> ValidationErrorView {
    ValidationErrorView { key: None, message: "Unknown element name '"@ + name + "'"@ }
}

/// One error for each of `keys` (in order) that `schema` does not have.
pub open spec fn unknown_key_errors(keys: Seq<Seq<char>>, schema: ElementSchema) -> Seq<
    ValidationErrorView,
>
    decreases keys.len(),
{
    if keys.len() == 0 {
        Seq::empty()
    } else {
        let rest = unknown_key_errors(keys.drop_last(), schema);
        if schema.fields.has_key(keys.last()) {
            rest
        } else {
            rest.push(key_not_allowed_error(keys.last()))
        }
    }
}

/// One error for each of `keys` (in order) that `element` has no parameter for.
pub open spec fn missing_key_errors(keys: Seq<Seq<char>>, element: Element) -> Seq<
    ValidationErrorView,
>
    decreases keys.len(),
{
    if keys.len() == 0 {
        Seq::empty()
    } else {
        let rest = missing_key_errors(keys.drop_last(), element);
        if element.params.has_key(keys.last()) {
            rest
        } else {
            rest.push(missing_key_error(keys.last()))
        }
    }
}

/// Whether a JSON value of kind `value` has the type `expected`: a string for `Str`, a
/// boolean for `Bool`, an `i64` number for `Int` and any number for `Float`.
pub open spec fn spec_matches_type(value: JsonValueKind, expected: ValueType) -> bool {
    match expected {
        ValueType::Str => value == JsonValueKind::String,
        ValueType::Bool => value == JsonValueKind::Bool,
        ValueType::Int => value == JsonValueKind::Integer,
        ValueType::Float => value == JsonValueKind::Integer || value == JsonValueKind::OtherNumber,
    }
}

/// A JSON value has type `Str` exactly when it is a string, `Bool` exactly when it is a
/// boolean, `Int` exactly when it is a number that fits an `i64`, and `Float` exactly
/// when it is any number.
pub proof fn law_value_types_match_their_json_kinds(value: JsonValueKind)
    ensures
        spec_matches_type(value, ValueType::Str) <==> value == JsonValueKind::String,
        spec_matches_type(value, ValueType::Bool) <==> value == JsonValueKind::Bool,
        spec_matches_type(value, ValueType::Int) <==> value == JsonValueKind::Integer,
        spec_matches_type(value, ValueType::Float) <==> (value == JsonValueKind::Integer || value
            == JsonValueKind::OtherNumber),
        spec_matches_type(value, ValueType::Int) ==> spec_matches_type(value, ValueType::Float),
{
}

/// One error for each schema key of `entries` (in order) whose parameter in `element`
/// has the wrong type.
pub open spec fn wrong_type_errors(entries: Seq<(String, KeySpec)>, element: Element) -> Seq<
    ValidationErrorView,
>
    decreases entries.len(),
{
    if entries.len() == 0 {
        Seq::empty()
    } else {
        let rest = wrong_type_errors(entries.drop_last(), element);
        let (k, spec) = entries.last();
        match element.params.spec_get(k@) {
            Some(v) => if spec_matches_type(v, spec.ty) {
                rest
            } else {
                rest.push(wrong_type_error(k@, spec.ty))
            },
            None => rest,
        }
    }
}

/// Whether the parameter of `element` for schema key `k` (if it has one) has type `ty`.
pub open spec fn param_has_type(element: Element, k: Seq<char>, ty: ValueType) -> bool {
    match element.params.spec_get(k) {
        Some(v) => spec_matches_type(v, ty),
        None => true,
    }
}

/// No wrong-type error is reported exactly when every schema key's parameter, where the
/// element has one, has the key's type; and there is never more than one error per key.
pub proof fn law_wrong_type_errors_exactly_for_mismatches(entries: Seq<(String, KeySpec)>, element: Element)
    ensures
        wrong_type_errors(entries, element).len() == 0 <==> forall|i: int|
            0 <= i < entries.len() ==> #[trigger] param_has_type(element, entries[i].0@, entries[i].1.ty),
        wrong_type_errors(entries, element).len() <= entries.len(),
    decreases entries.len(),
{
    if entries.len() > 0 {
        let init = entries.drop_last();
        law_wrong_type_errors_exactly_for_mismatches(init, element);
        let last = entries.len() - 1;
        assert(entries.last() == entries[last]);
        if wrong_type_errors(entries, element).len() == 0 {
            assert forall|i: int| 0 <= i < entries.len() implies #[trigger] param_has_type(
                element,
                entries[i].0@,
                entries[i].1.ty,
            ) by {
                if i < last {
                    assert(init[i] == entries[i]);
                    assert(param_has_type(element, init[i].0@, init[i].1.ty));
                }
            }
        } else {
            if forall|i: int|
                0 <= i < entries.len() ==> #[trigger] param_has_type(element, entries[i].0@, entries[i].1.ty) {
                assert forall|i: int| 0 <= i < init.len() implies #[trigger] param_has_type(
                    element,
                    init[i].0@,
                    init[i].1.ty,
                ) by {
                    assert(init[i] == entries[i]);
                    assert(param_has_type(element, entries[i].0@, entries[i].1.ty));
                }
                assert(param_has_type(element, entries[last].0@, entries[last].1.ty));
            }
        }
    }
}

proof fn lemma_unknown_key_errors(keys: Seq<Seq<char>>, schema: ElementSchema)
    ensures
        unknown_key_errors(keys, schema).len() == 0 <==> forall|i: int|
            0 <= i < keys.len() ==> schema.fields.has_key(#[trigger] keys[i]),
    decreases keys.len(),
{
    if keys.len() > 0 {
        let init = keys.drop_last();
        lemma_unknown_key_errors(init, schema);
        assert forall|i: int| 0 <= i < init.len() implies init[i] == keys[i] by {}
        if forall|i: int| 0 <= i < keys.len() ==> schema.fields.has_key(#[trigger] keys[i]) {
            assert(schema.fields.has_key(keys[keys.len() - 1]));
            assert forall|i: int| 0 <= i < init.len() implies schema.fields.has_key(#[trigger] init[i]) by {
                assert(schema.fields.has_key(keys[i]));
            }
        }
        if unknown_key_errors(keys, schema).len() == 0 {
            assert forall|i: int| 0 <= i < keys.len() implies schema.fields.has_key(#[trigger] keys[i]) by {
                if i < keys.len() - 1 {
                    assert(schema.fields.has_key(init[i]));
                }
            }
        }
    }
}

proof fn lemma_missing_key_errors(keys: Seq<Seq<char>>, element: Element)
    ensures
        missing_key_errors(keys, element).len() == 0 <==> forall|i: int|
            0 <= i < keys.len() ==> element.params.has_key(#[trigger] keys[i]),
    decreases keys.len(),
{
    if keys.len() > 0 {
        let init = keys.drop_last();
        lemma_missing_key_errors(init, element);
        assert forall|i: int| 0 <= i < init.len() implies init[i] == keys[i] by {}
        if forall|i: int| 0 <= i < keys.len() ==> element.params.has_key(#[trigger] keys[i]) {
            assert(element.params.has_key(keys[keys.len() - 1]));
            assert forall|i: int| 0 <= i < init.len() implies element.params.has_key(#[trigger] init[i]) by {
                assert(element.params.has_key(keys[i]));
            }
        }
        if missing_key_errors(keys, element).len() == 0 {
            assert forall|i: int| 0 <= i < keys.len() implies element.params.has_key(#[trigger] keys[i]) by {
                if i < keys.len() - 1 {
                    assert(element.params.has_key(init[i]));
                }
            }
        }
    }
}

/// An element passes its schema exactly when every parameter it has is a key of the
/// schema, every key of the schema is a parameter, and every parameter has its key's
/// type.
pub proof fn law_element_valid_exactly_when(schema: ElementSchema, element: Element)
    ensures
        element_errors(schema, element).len() == 0 <==> {
            &&& forall|i: int|
                0 <= i < element.params.spec_keys().len() ==> schema.fields.has_key(
                    #[trigger] element.params.spec_keys()[i],
                )
            &&& forall|i: int|
                0 <= i < schema.fields.spec_keys().len() ==> element.params.has_key(
                    #[trigger] schema.fields.spec_keys()[i],
                )
            &&& forall|i: int|
                0 <= i < schema.fields.spec_entries().len() ==> #[trigger] param_has_type(
                    element,
                    schema.fields.spec_entries()[i].0@,
                    schema.fields.spec_entries()[i].1.ty,
                )
        },
{
    lemma_unknown_key_errors(element.params.spec_keys(), schema);
    lemma_missing_key_errors(schema.fields.spec_keys(), element);
    law_wrong_type_errors_exactly_for_mismatches(schema.fields.spec_entries(), element);
}

/// All problems of `element` against `schema`: unknown parameters, then missing keys,
/// then values of the wrong type.
pub open spec fn element_errors(schema: ElementSchema, element: Element) -> Seq<ValidationErrorView> {
    unknown_key_errors(element.params.spec_keys(), schema) + missing_key_errors(
        schema.fields.spec_keys(),
        element,
    ) + wrong_type_errors(schema.fields.spec_entries(), element)
}

/// Whether a JSON value of kind `value` has the type `expected`.
pub fn json_value_matches_type(value: &JsonValueKind, expected: ValueType) -> (r: bool)
    ensures
        r == spec_matches_type(*value, expected),
{
    match expected {
        ValueType::Str => *value == JsonValueKind::String,
        ValueType::Bool => *value == JsonValueKind::Bool,
        ValueType::Int => *value == JsonValueKind::Integer,
        ValueType::Float => *value == JsonValueKind::Integer || *value == JsonValueKind::OtherNumber,
    }
}

/// The negation of `v` (whether a flag is unset).
pub fn is_false(v: &bool) -> (r: bool)
    ensures
        r == !*v,
{
    !*v
}

/// The schema of `element_name`, or an error naming the unknown element.
pub fn validate_element_name<'a>(schemas: &'a Schemas, element_name: &str) -> (r: Result<
    &'a ElementSchema,
    ValidationError,
>)
    ensures
        match r {
            Ok(s) => schemas.elements.spec_get(element_name@) == Some(*s),
            Err(e) => schemas.elements.spec_get(element_name@) is None && e@ == unknown_element_error(
                element_name@,
            ),
        },
{
    match schemas.schema_for(element_name) {
        Some(schema) => Ok(schema),
        None => {
            let mut message = "Unknown element name '".to_owned();
            message.append(element_name);
            message.append("'");
            Err(ValidationError { key: None, message })
        },
    }
}

/// Appends to `errors` one error for each parameter of `element` that `element_schema`
/// does not have, then one for each key of `element_schema` that `element` lacks.
pub fn validate_keys_names(
    element_schema: &ElementSchema,
    element: &Element,
    errors: &mut Vec<ValidationError>,
)
    ensures
        errors_view(final(errors)@) == errors_view(old(errors)@) + unknown_key_errors(
            element.params.spec_keys(),
            *element_schema,
        ) + missing_key_errors(element_schema.fields.spec_keys(), *element),
{
    let ghost start = errors_view(errors@);
    let n = element.params.len();
    let mut i: usize = 0;
    while i < n
        invariant
            i <= n == element.params.spec_len(),
            errors_view(errors@) == start + unknown_key_errors(
                element.params.spec_keys().take(i as int),
                *element_schema,
            ),
        decreases n - i,
    {
        let key = element.params.key(i);
        let ghost keys = element.params.spec_keys().take(i + 1);
        assert(keys.drop_last() =~= element.params.spec_keys().take(i as int));
        assert(keys.last() == key@);
        let ghost before = errors_view(errors@);
        if !element_schema.fields.contains_key(key.as_str()) {
            let message = "Key not allowed for this element type".to_owned();
            errors.push(ValidationError { key: Some(key.clone()), message });
            assert(errors_view(errors@) =~= before.push(key_not_allowed_error(key@)));
        }
        i += 1;
    }
    assert(element.params.spec_keys().take(n as int) =~= element.params.spec_keys());
    let ghost middle = errors_view(errors@);
    let m = element_schema.fields.len();
    let mut j: usize = 0;
    while j < m
        invariant
            j <= m == element_schema.fields.spec_len(),
            errors_view(errors@) == middle + missing_key_errors(
                element_schema.fields.spec_keys().take(j as int),
                *element,
            ),
        decreases m - j,
    {
        let key = element_schema.fields.key(j);
        let ghost keys = element_schema.fields.spec_keys().take(j + 1);
        assert(keys.drop_last() =~= element_schema.fields.spec_keys().take(j as int));
        assert(keys.last() == key@);
        let ghost before = errors_view(errors@);
        if !element.params.contains_key(key.as_str()) {
            let message = "Missing required key".to_owned();
            errors.push(ValidationError { key: Some(key.clone()), message });
            assert(errors_view(errors@) =~= before.push(missing_key_error(key@)));
        }
        j += 1;
    }
    assert(element_schema.fields.spec_keys().take(m as int) =~= element_schema.fields.spec_keys());
}

/// Appends to `errors` one error for each key of `element_schema` whose parameter in
/// `element` has the wrong type.
pub fn validate_values(
    element_schema: &ElementSchema,
    element: &Element,
    errors: &mut Vec<ValidationError>,
)
    ensures
        errors_view(final(errors)@) == errors_view(old(errors)@) + wrong_type_errors(
            element_schema.fields.spec_entries(),
            *element,
        ),
{
    let ghost start = errors_view(errors@);
    let m = element_schema.fields.len();
    let mut j: usize = 0;
    while j < m
        invariant
            j <= m == element_schema.fields.spec_len(),
            errors_view(errors@) == start + wrong_type_errors(
                element_schema.fields.spec_entries().take(j as int),
                *element,
            ),
        decreases m - j,
    {
        let key = element_schema.fields.key(j);
        let spec = element_schema.fields.value(j);
        let ghost entries = element_schema.fields.spec_entries().take(j + 1);
        assert(entries.drop_last() =~= element_schema.fields.spec_entries().take(j as int));
        assert(entries.last() == element_schema.fields.spec_entries()[j as int]);
        let ghost before = errors_view(errors@);
        match element.params.get(key.as_str()) {
            Some(value) => {
                if !json_value_matches_type(value, spec.ty) {
                    let mut message = "Wrong type (expected ".to_owned();
                    message.append(value_type_name_string(spec.ty).as_str());
                    message.append(")");
                    errors.push(ValidationError { key: Some(key.clone()), message });
                    assert(errors_view(errors@) =~= before.push(wrong_type_error(key@, spec.ty)));
                }
            },
            None => {},
        }
        j += 1;
    }
    assert(element_schema.fields.spec_entries().take(m as int) =~= element_schema.fields.spec_entries());
}

/// Checks `element` against its schema in `schemas`: an unknown element name gives that
/// one error; otherwise all problems found are returned, or `Ok` when there are none.
pub fn validate_element(schemas: &Schemas, element: &Element) -> (r: Result<(), Vec<ValidationError>>)
    ensures
        match schemas.elements.spec_get(element.name@) {
            None => r matches Err(v) && errors_view(v@) == seq![unknown_element_error(element.name@)],
            Some(schema) => if element_errors(schema, *element).len() == 0 {
                r is Ok
            } else {
                r matches Err(v) && errors_view(v@) == element_errors(schema, *element)
            },
        },
{
    let element_schema = match validate_element_name(schemas, element.name.as_str()) {
        Ok(schema) => schema,
        Err(error) => {
            let mut v = Vec::new();
            v.push(error);
            assert(errors_view(v@) =~= seq![unknown_element_error(element.name@)]);
            return Err(v);
        },
    };
    let mut errors: Vec<ValidationError> = Vec::new();
    assert(errors_view(errors@) =~= Seq::<ValidationErrorView>::empty());
    validate_keys_names(element_schema, element, &mut errors);
    validate_values(element_schema, element, &mut errors);
    assert(errors_view(errors@) =~= element_errors(*element_schema, *element));
    if errors.len() == 0 {
        Ok(())
    } else {
        Err(errors)
    }
}

impl KeySpec {
    /// A copy of this key spec.
    pub fn clone_spec(&self) -> (r: KeySpec)
        ensures
            r == *self,
    {
        KeySpec { ty: self.ty, unit: crate::models::elements::clone_opt_string(&self.unit) }
    }
}

impl ElementSchema {
    /// A copy of this schema.
    pub fn clone_schema(&self) -> (r: ElementSchema)
        ensures
            r.allow_init == self.allow_init,
            r.fields.spec_entries() == self.fields.spec_entries(),
    {
        let src = &self.fields;
        proof {
            use_type_invariant(src);
        }
        let mut fields: StrMap<KeySpec> = StrMap::new();
        let mut i: usize = 0;
        while i < src.len()
            invariant
                i <= src.spec_len(),
                src.keys_unique(),
                fields.spec_entries() == src.spec_entries().take(i as int),
            decreases src.spec_len() - i,
        {
            let key = src.key(i).clone();
            proof {
                if fields.has_key(key@) {
                    let j = choose|j: int| 0 <= j < fields.spec_len() && fields.key_at(j) == key@;
                    assert(src.key_at(j) == src.key_at(i as int));
                }
            }
            fields.insert(key, src.value(i).clone_spec());
            i += 1;
            assert(fields.spec_entries() =~= src.spec_entries().take(i as int));
        }
        assert(src.spec_entries().take(i as int) =~= src.spec_entries());
        ElementSchema { allow_init: self.allow_init, fields }
    }
}

/// `a` and `b` have the same element names in the same order, with schemas of the same
/// init flag and keys.
pub open spec fn elements_match(a: StrMap<ElementSchema>, b: StrMap<ElementSchema>) -> bool {
    &&& a.spec_len() == b.spec_len()
    &&& forall|k: int|
        0 <= k < a.spec_len() ==> #[trigger] a.spec_entries()[k].0 == b.spec_entries()[k].0
            && a.value_at(k).allow_init == b.value_at(k).allow_init
            && a.value_at(k).fields.spec_entries() == b.value_at(k).fields.spec_entries()
}

/// A copy of a map of element schemas.
pub fn clone_elements(src: &StrMap<ElementSchema>) -> (r: StrMap<ElementSchema>)
    ensures
        elements_match(r, *src),
{
    proof {
        use_type_invariant(src);
    }
    let mut out: StrMap<ElementSchema> = StrMap::new();
    let mut i: usize = 0;
    while i < src.len()
        invariant
            i <= src.spec_len(),
            src.keys_unique(),
            out.spec_len() == i,
            forall|k: int|
                0 <= k < i ==> #[trigger] out.spec_entries()[k].0 == src.spec_entries()[k].0
                    && out.value_at(k).allow_init == src.value_at(k).allow_init
                    && out.value_at(k).fields.spec_entries() == src.value_at(k).fields.spec_entries(),
        decreases src.spec_len() - i,
    {
        let key = src.key(i).clone();
        proof {
            if out.has_key(key@) {
                let j = choose|j: int| 0 <= j < out.spec_len() && out.key_at(j) == key@;
                assert(src.key_at(j) == src.key_at(i as int));
            }
        }
        out.insert(key, src.value(i).clone_schema());
        i += 1;
    }
    out
}

} // verus!
