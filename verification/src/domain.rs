use vstd::prelude::*;

use crate::dto::lists_config::{clone_units, units_match};
use crate::schema::{clone_elements, elements_match, ElementSchema, Schemas};
use crate::str_map::StrMap;

verus! {

/// One field of a line: its key, its value as text, and its unit.
pub struct ItemSet {
    pub key: String,
    pub value: String,
    pub unit: String,
}

/// One line of a list: its title and its fields.
pub struct ItemLine {
    pub title: String,
    pub sets: Vec<ItemSet>,
}

/// A named list of lines.
pub struct ItemList {
    pub name: String,
    pub lines: Vec<ItemLine>,
}

/// A document: optional unit groups and element schemas of its own, and its lists.
pub struct ItemData {
    pub units: StrMap<Vec<String>>,
    pub elements: StrMap<ElementSchema>,
    pub lists: Vec<ItemList>,
}

impl ItemData {
    /// The schemas of this document: its own unit groups and element schemas, or
    /// `defaults` when it has neither.
    pub fn get_schemas(&self, defaults: Schemas) -> (r: Schemas)
        ensures
            self.units.spec_len() == 0 && self.elements.spec_len() == 0 ==> r == defaults,
            !(self.units.spec_len() == 0 && self.elements.spec_len() == 0) ==> units_match(
                r.units,
                self.units,
            ) && elements_match(r.elements, self.elements),
    {
        if self.units.is_empty() && self.elements.is_empty() {
            defaults
        } else {
            Schemas { units: clone_units(&self.units), elements: clone_elements(&self.elements) }
        }
    }
}

} // verus!
