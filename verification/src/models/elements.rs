use vstd::prelude::*;

use crate::str_map::StrMap;
use crate::schema::{insert_sorted, sorted_strictly, strs_view};
use crate::text::str_eq;

verus! {

/// The type that a field's value must have.
#[derive(Debug, Clone, Copy, PartialEq, Eq, Structural)]
pub enum ValueType {
    Str,
    Int,
    Float,
    Bool,
}

/// What a field holds: its value type and, optionally, the unit group its unit comes from.
#[derive(Debug)]
pub struct FieldSpec {
    pub ty: ValueType,
    pub unit: Option<String>,
}

/// A named field of an element.
#[derive(Debug)]
pub struct ElementField {
    pub name: String,
    pub spec: FieldSpec,
}

/// A copy of an optional string.
pub fn clone_opt_string(s: &Option<String>) -> (r: Option<String>)
    ensures
        r == *s,
{
    match s {
        Some(x) => Some(x.clone()),
        None => None,
    }
}

impl FieldSpec {
    /// A copy of this spec.
    pub fn clone_spec(&self) -> (r: FieldSpec)
        ensures
            r == *self,
    {
        FieldSpec { ty: self.ty, unit: clone_opt_string(&self.unit) }
    }
}

impl ElementField {
    /// A field called `name` with the spec `spec`.
    pub fn new(name: String, spec: FieldSpec) -> (r: Self)
        ensures
            r == (ElementField { name, spec }),
    {
        Self { name, spec }
    }

    /// A copy of this field.
    pub fn clone_field(&self) -> (r: ElementField)
        ensures
            r == *self,
    {
        ElementField { name: self.name.clone(), spec: self.spec.clone_spec() }
    }
}

/// The schema of an element: whether it may be added on init, and its ordered fields.
#[derive(Debug)]
pub struct ElementSchema {
    pub allow_init: bool,
    pub fields: Vec<ElementField>,
}

/// Whether position `k` holds a field called `name` and no earlier position does.
pub open spec fn is_first_named(fields: Seq<ElementField>, name: Seq<char>, k: int) -> bool {
    &&& 0 <= k < fields.len()
    &&& fields[k].name@ == name
    &&& forall|j: int| 0 <= j < k ==> fields[j].name@ != name
}

/// The position of the first field of `fields` called `name`, if any.
pub open spec fn first_field_named(fields: Seq<ElementField>, name: Seq<char>) -> Option<int> {
    if exists|i: int| 0 <= i < fields.len() && fields[i].name@ == name {
        Some(choose|i: int| is_first_named(fields, name, i))
    } else {
        None
    }
}

proof fn lemma_first_match_exists(fields: Seq<ElementField>, name: Seq<char>, i: int)
    requires
        0 <= i < fields.len(),
        fields[i].name@ == name,
    ensures
        exists|k: int| #[trigger] is_first_named(fields, name, k),
    decreases i,
{
    if exists|j: int| 0 <= j < i && fields[j].name@ == name {
        let j = choose|j: int| 0 <= j < i && fields[j].name@ == name;
        lemma_first_match_exists(fields, name, j);
    } else {
        assert(is_first_named(fields, name, i));
    }
}

/// The first field called `name` is absent exactly when no field has that name; otherwise
/// it is the one position holding a field so named with none before it.
pub proof fn lemma_first_field_named(fields: Seq<ElementField>, name: Seq<char>)
    ensures
        first_field_named(fields, name) is None <==> forall|i: int|
            0 <= i < fields.len() ==> fields[i].name@ != name,
        first_field_named(fields, name) matches Some(i) ==> is_first_named(fields, name, i),
        forall|k: int| #[trigger] is_first_named(fields, name, k) ==> first_field_named(fields, name) == Some(k),
{
    if exists|i: int| 0 <= i < fields.len() && fields[i].name@ == name {
        let i = choose|i: int| 0 <= i < fields.len() && fields[i].name@ == name;
        lemma_first_match_exists(fields, name, i);
        let c = choose|c: int| is_first_named(fields, name, c);
        assert(first_field_named(fields, name) == Some(c));
        assert(is_first_named(fields, name, c));
        assert forall|k: int| #[trigger] is_first_named(fields, name, k) implies c == k by {
            if c < k {
                assert(fields[c].name@ == name);
            }
            if k < c {
                assert(fields[k].name@ == name);
            }
        }
    }
}

impl ElementSchema {
    /// The fields, in order.
    pub open spec fn spec_fields(&self) -> Seq<ElementField> {
        self.fields@
    }

    /// The spec of the first field called `name`, if any.
    pub open spec fn spec_field(&self, name: Seq<char>) -> Option<FieldSpec> {
        match first_field_named(self.spec_fields(), name) {
            Some(i) => Some(self.spec_fields()[i].spec),
            None => None,
        }
    }

    /// A schema with the given init flag and fields.
    pub fn new(allow_init: bool, fields: Vec<ElementField>) -> (r: Self)
        ensures
            r.allow_init == allow_init,
            r.spec_fields() == fields@,
    {
        Self { allow_init, fields }
    }

    /// The spec of the first field called `name` (`None` when there is no such field).
    pub fn field(&self, name: &str) -> (r: Option<&FieldSpec>)
        ensures
            match self.spec_field(name@) {
                Some(s) => r == Some(&s),
                None => r is None,
            },
    {
        let mut i: usize = 0;
        while i < self.fields.len()
            invariant
                i <= self.fields.len(),
                forall|j: int| 0 <= j < i ==> self.fields@[j].name@ != name@,
            decreases self.fields.len() - i,
        {
            if str_eq(self.fields[i].name.as_str(), name) {
                proof {
                    assert(is_first_named(self.fields@, name@, i as int));
                    lemma_first_field_named(self.fields@, name@);
                }
                return Some(&self.fields[i].spec);
            }
            i += 1;
        }
        proof {
            lemma_first_field_named(self.fields@, name@);
        }
        None
    }

    /// The fields, in order.
    pub fn fields(&self) -> (r: &[ElementField])
        ensures
            r@ == self.spec_fields(),
    {
        self.fields.as_slice()
    }

    /// The fields as (name, spec) pairs, in order.
    pub fn iter_fields(&self) -> (r: Vec<(&str, &FieldSpec)>)
        ensures
            r@.len() == self.spec_fields().len(),
            forall|i: int|
                #![trigger r@[i]]
                0 <= i < r@.len() ==> r@[i].0@ == self.spec_fields()[i].name@ && *r@[i].1
                    == self.spec_fields()[i].spec,
    {
        let mut out: Vec<(&str, &FieldSpec)> = Vec::new();
        let mut i: usize = 0;
        while i < self.fields.len()
            invariant
                i <= self.fields.len(),
                out@.len() == i,
                forall|k: int|
                    #![trigger out@[k]]
                    0 <= k < i ==> out@[k].0@ == self.fields@[k].name@ && *out@[k].1
                        == self.fields@[k].spec,
            decreases self.fields.len() - i,
        {
            let f = &self.fields[i];
            out.push((f.name.as_str(), &f.spec));
            i += 1;
        }
        out
    }

    /// Whether the schema has a field called `name`.
    pub fn contains_field(&self, name: &str) -> (r: bool)
        ensures
            r == self.spec_field(name@) is Some,
    {
        self.field(name).is_some()
    }

    /// A copy of this schema.
    pub fn clone_schema(&self) -> (r: ElementSchema)
        ensures
            r.allow_init == self.allow_init,
            r.spec_fields() == self.spec_fields(),
    {
        let mut fields: Vec<ElementField> = Vec::new();
        let mut i: usize = 0;
        while i < self.fields.len()
            invariant
                i <= self.fields.len(),
                fields@ == self.fields@.take(i as int),
            decreases self.fields.len() - i,
        {
            fields.push(self.fields[i].clone_field());
            i += 1;
            assert(fields@ =~= self.fields@.take(i as int));
        }
        assert(self.fields@.take(i as int) =~= self.fields@);
        ElementSchema { allow_init: self.allow_init, fields }
    }
}

/// The unit groups and element schemas of a configuration.
pub struct Schemas {
    pub units: StrMap<Vec<String>>,
    pub elements: StrMap<ElementSchema>,
}

/// Whether `x` is the name of an entry whose schema allows adding it on init.
pub open spec fn is_init_name(entries: Seq<(String, ElementSchema)>, x: Seq<char>) -> bool {
    exists|k: int| 0 <= k < entries.len() && entries[k].1.allow_init && #[trigger] entries[k].0@ == x
}

impl Schemas {
    /// The schema of the element called `element_name`, if any.
    pub fn schema_for(&self, element_name: &str) -> (r: Option<&ElementSchema>)
        ensures
            match r {
                Some(s) => self.elements.spec_get(element_name@) == Some(*s),
                None => self.elements.spec_get(element_name@) is None,
            },
    {
        self.elements.get(element_name)
    }

    /// The names of the elements whose schema allows adding them on init, sorted, each
    /// once.
    pub fn init_element_names(&self) -> (r: Vec<&str>)
        ensures
            sorted_strictly(strs_view(r@)),
            forall|x: Seq<char>|
                strs_view(r@).contains(x) <==> is_init_name(self.elements.spec_entries(), x),
    {
        proof {
            use_type_invariant(&self.elements);
        }
        let mut names: Vec<&str> = Vec::new();
        let n = self.elements.len();
        let mut i: usize = 0;
        while i < n
            invariant
                i <= n == self.elements.spec_len(),
                self.elements.keys_unique(),
                sorted_strictly(strs_view(names@)),
                forall|x: Seq<char>|
                    strs_view(names@).contains(x) <==> exists|k: int|
                        0 <= k < i && self.elements.value_at(k).allow_init
                            && #[trigger] self.elements.key_at(k) == x,
            decreases n - i,
        {
            let ghost old_names = strs_view(names@);
            let allow = self.elements.value(i).allow_init;
            if allow {
                let name = self.elements.key(i).as_str();
                proof {
                    assert forall|j: int| 0 <= j < names@.len() implies names@[j]@ != name@ by {
                        assert(strs_view(names@).contains(names@[j]@)) by {
                            assert(strs_view(names@)[j] == names@[j]@);
                        }
                        let k = choose|k: int|
                            0 <= k < i && self.elements.value_at(k).allow_init
                                && #[trigger] self.elements.key_at(k) == names@[j]@;
                        assert(self.elements.key_at(k) != self.elements.key_at(i as int));
                    }
                }
                insert_sorted(&mut names, name);
            }
            proof {
                assert forall|x: Seq<char>|
                    strs_view(names@).contains(x) <==> exists|k: int|
                        0 <= k < i + 1 && self.elements.value_at(k).allow_init
                            && #[trigger] self.elements.key_at(k) == x by {
                    if strs_view(names@).contains(x) {
                        if old_names.contains(x) {
                            let k = choose|k: int|
                                0 <= k < i && self.elements.value_at(k).allow_init
                                    && #[trigger] self.elements.key_at(k) == x;
                            assert(0 <= k < i + 1);
                        } else {
                            assert(allow);
                            assert(x == self.elements.key_at(i as int));
                        }
                    }
                    if exists|k: int|
                        0 <= k < i + 1 && self.elements.value_at(k).allow_init
                            && #[trigger] self.elements.key_at(k) == x {
                        let k = choose|k: int|
                            0 <= k < i + 1 && self.elements.value_at(k).allow_init
                                && #[trigger] self.elements.key_at(k) == x;
                        if k < i {
                            assert(exists|k: int|
                                0 <= k < i && self.elements.value_at(k).allow_init
                                    && #[trigger] self.elements.key_at(k) == x);
                            assert(old_names.contains(x));
                        } else {
                            assert(allow);
                        }
                    }
                }
            }
            i += 1;
        }
        proof {
            let entries = self.elements.spec_entries();
            assert forall|x: Seq<char>| strs_view(names@).contains(x) <==> is_init_name(entries, x) by {
                if is_init_name(entries, x) {
                    let k = choose|k: int|
                        0 <= k < entries.len() && entries[k].1.allow_init && #[trigger] entries[k].0@ == x;
                    assert(self.elements.key_at(k) == x);
                }
                if exists|k: int|
                    0 <= k < n && self.elements.value_at(k).allow_init
                        && #[trigger] self.elements.key_at(k) == x {
                    let k = choose|k: int|
                        0 <= k < n && self.elements.value_at(k).allow_init
                            && #[trigger] self.elements.key_at(k) == x;
                    assert(entries[k].0@ == x);
                }
            }
        }
        names
    }
}

} // verus!
