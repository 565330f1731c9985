use vstd::prelude::*;

use crate::app_state::{
    field_is_valid, field_validity, line_snapshot, row_valid, row_view, validated_lists, with_line_state,
    AppState, AppStateView, KeyDataView, LineItem, LineState, LineView, ListView, UiEffect, all_valid,
    first_invalid, list_wf,
};
use crate::key_data::{build_key_data_for_schema, spec_unit_options, strings_view, KeyData};
use crate::models::elements::{ElementField, ElementSchema};
use crate::str_map::StrMap;
use crate::utility::calculation::LineCalculationRequest;

verus! {

/// What the user did in the editor.
#[derive(Debug, Clone, Copy, PartialEq, Eq, Structural)]
pub enum ActionType {
    AddLine,
    ValueChanged,
    TabNextField,
    TabPrevField,
    DebouncedFieldCheck,
    UnitChanged,
    LineTypeChanged,
    RemoveLine,
    SwitchList,
    CycleListNext,
    CycleListPrev,
    AddList,
    RemoveList,
    SaveList,
    LoadList,
    NavigateDir,
    ValidateBeforeSave,
    Exit,
}

/// An action of the user, with the element name, the line and field it concerns (or,
/// for list actions, the list in `line_index`) and the text it carries.
pub struct Action {
    pub action_type: ActionType,
    pub schema_name: String,
    pub line_index: i32,
    pub key_data_index: i32,
    pub new_value: String,
}

/// The field that a new line of an element starts with for field `f`: empty, not valid,
/// with the first unit of its group chosen.
pub open spec fn fresh_field(f: ElementField, units: StrMap<Vec<String>>) -> KeyDataView {
    let opts = spec_unit_options(f.spec, units);
    KeyDataView {
        key: f.name@,
        value: Seq::empty(),
        unit: if opts.len() > 0 {
            opts[0]
        } else {
            Seq::empty()
        },
        unit_options: opts,
        is_valid: false,
    }
}

/// The fields that a new line of an element with schema `schema` starts with.
pub open spec fn fresh_row(schema: ElementSchema, units: StrMap<Vec<String>>) -> Seq<KeyDataView> {
    Seq::new(schema.spec_fields().len(), |i: int| fresh_field(schema.spec_fields()[i], units))
}

fn fresh_row_of(schema: &ElementSchema, units: &StrMap<Vec<String>>) -> (r: Vec<KeyData>)
    ensures
        row_view(r@) == fresh_row(*schema, *units),
{
    let r = build_key_data_for_schema(schema, units);
    proof {
        assert forall|i: int| 0 <= i < r@.len() implies #[trigger] row_view(r@)[i] == fresh_row(*schema, *units)[i] by {
            assert(r@[i]@.unit_options =~= strings_view(r@[i].unit_options@));
        }
        assert(row_view(r@) =~= fresh_row(*schema, *units));
    }
    r
}

/// `v` with a new line `title` holding `row` at the end of the shown list.
pub open spec fn with_line_added(v: AppStateView, title: Seq<char>, row: Seq<KeyDataView>) -> AppStateView {
    let l = v.lists[v.active];
    AppStateView {
        lists: v.lists.update(
            v.active,
            ListView {
                lines: l.lines.push(LineView { title, state: LineState::Invalid }),
                key_data: l.key_data.push(row),
            },
        ),
        ..v
    }
}

/// The effects move the focus to the first invalid field (by its line and field), or to
/// no field when all are valid.
pub open spec fn focuses_first_invalid(lists: Seq<ListView>, effects: Seq<UiEffect>) -> bool {
    &&& all_valid(lists) ==> effects == seq![UiEffect::FocusField { target: None }]
    &&& !all_valid(lists) ==> exists|i: int, j: int, k: int| first_invalid(lists, i, j, k)
    &&& forall|i: int, j: int, k: int|
        #[trigger] first_invalid(lists, i, j, k) ==> effects == seq![
            UiEffect::FocusField { target: Some((j as usize, k as usize)) },
        ]
}

/// Adding a line: nothing without an element name; otherwise a line of that element
/// (when it has a schema) is appended to the shown list with empty fields, then all fields
/// are validated and the focus goes to the first invalid one.
pub open spec fn add_line_post(old: AppState, new: AppState, action: Action, effects: Seq<UiEffect>) -> bool {
    if action.schema_name@.len() == 0 {
        new@ == old@ && effects.len() == 0
    } else {
        let added = match old.schemas.elements.spec_get(action.schema_name@) {
            Some(s) => with_line_added(old@, action.schema_name@, fresh_row(s, old.schemas.units)),
            None => old@,
        };
        &&& new@ == AppStateView { lists: validated_lists(added.lists, old.schemas), ..old@ }
        &&& focuses_first_invalid(new@.lists, effects)
    }
}

/// `v` after field `pi` of line `li` of the shown list was set to `value`: the field is
/// revalidated, and the line becomes valid or invalid by whether all its fields are valid
/// now. Missing lines change nothing; a missing field leaves the fields as they are.
pub open spec fn value_changed_view(
    v: AppStateView,
    schemas: crate::models::elements::Schemas,
    li: int,
    pi: int,
    value: Seq<char>,
) -> AppStateView {
    let l = v.lists[v.active];
    if 0 <= li < l.key_data.len() {
        let row = l.key_data[li];
        let schema = schemas.elements.spec_get(l.lines[li].title);
        let new_row = if 0 <= pi < row.len() {
            let kd = KeyDataView { value, ..row[pi] };
            row.update(pi, KeyDataView { is_valid: field_is_valid(kd, schema), ..kd })
        } else {
            row
        };
        let state = if row_valid(new_row) {
            LineState::Valid
        } else {
            LineState::Invalid
        };
        AppStateView {
            lists: v.lists.update(
                v.active,
                ListView {
                    lines: l.lines.update(li, LineView { title: l.lines[li].title, state }),
                    key_data: l.key_data.update(li, new_row),
                },
            ),
            ..v
        }
    } else {
        v
    }
}

/// `v` with the unit of field `pi` of line `li` of the shown list set to `unit`, when that
/// field exists.
pub open spec fn unit_changed_view(v: AppStateView, li: int, pi: int, unit: Seq<char>) -> AppStateView {
    let l = v.lists[v.active];
    if 0 <= li < l.key_data.len() && 0 <= pi < l.key_data[li].len() {
        let row = l.key_data[li];
        AppStateView {
            lists: v.lists.update(
                v.active,
                ListView { key_data: l.key_data.update(li, row.update(pi, KeyDataView { unit, ..row[pi] })), ..l },
            ),
            ..v
        }
    } else {
        v
    }
}

/// Whether line `li` of `l` exists, has fields, and all of them are valid.
pub open spec fn line_fully_valid(l: ListView, li: int) -> bool {
    0 <= li < l.key_data.len() && l.key_data[li].len() > 0 && row_valid(l.key_data[li])
}

/// A debounced check of a line: a line of the shown list whose fields are all valid
/// starts running, and a calculation of it is requested; anything else changes nothing.
pub open spec fn debounced_check_post(old: AppState, new: AppState, action: Action, effects: Seq<UiEffect>) -> bool {
    let a = old@.active;
    let li = action.line_index as int;
    if line_fully_valid(old@.lists[a], li) {
        &&& new@ == with_line_state(old@, a, li, LineState::Running)
        &&& effects.len() == 1
        &&& effects[0] matches UiEffect::Calculate { request } && request.list_index == a && request.list_name@
            == old@.names[a] && request.line_index == li && request.request_revision == 0 && request.line@
            == line_snapshot(old@.lists[a], li)
    } else {
        new@ == old@ && effects.len() == 0
    }
}

/// `v` after line `li` of the shown list became a line of the element `title` with
/// schema `schema`: its fields start afresh and it is invalid. Missing lines change
/// nothing.
pub open spec fn line_type_changed_view(
    v: AppStateView,
    li: int,
    title: Seq<char>,
    schema: ElementSchema,
    units: StrMap<Vec<String>>,
) -> AppStateView {
    let l = v.lists[v.active];
    if 0 <= li < l.lines.len() {
        AppStateView {
            lists: v.lists.update(
                v.active,
                ListView {
                    lines: l.lines.update(li, LineView { title, state: LineState::Invalid }),
                    key_data: l.key_data.update(li, fresh_row(schema, units)),
                },
            ),
            ..v
        }
    } else {
        v
    }
}

/// `v` without line `li` of the shown list, when that line exists.
pub open spec fn line_removed_view(v: AppStateView, li: int) -> AppStateView {
    let l = v.lists[v.active];
    if 0 <= li < l.lines.len() {
        AppStateView {
            lists: v.lists.update(
                v.active,
                ListView { lines: l.lines.remove(li), key_data: l.key_data.remove(li) },
            ),
            ..v
        }
    } else {
        v
    }
}

fn row_all_valid(row: &Vec<KeyData>) -> (r: bool)
    ensures
        r == row_valid(row_view(row@)),
{
    let mut k: usize = 0;
    while k < row.len()
        invariant
            k <= row.len(),
            forall|j: int| 0 <= j < k ==> #[trigger] row@[j].is_valid,
        decreases row.len() - k,
    {
        if !row[k].is_valid {
            assert(!row_view(row@)[k as int].is_valid);
            return false;
        }
        k += 1;
    }
    assert forall|j: int| 0 <= j < row_view(row@).len() implies #[trigger] row_view(row@)[j].is_valid by {
        assert(row@[j].is_valid);
    }
    true
}

impl AppState {
    /// Adds a line of the element `action.schema_name` to the shown list (see
    /// [`add_line_post`]).
    pub fn handle_add_line(&mut self, action: &Action) -> (effects: Vec<UiEffect>)
        requires
            old(self).wf(),
        ensures
            final(self).wf(),
            final(self).schemas == old(self).schemas,
            add_line_post(*old(self), *final(self), *action, effects@),
    {
        if action.schema_name.as_str().is_empty() {
            return Vec::new();
        }
        let ghost before = self@;
        let active = self.active_list_idx;
        match self.schemas.schema_for(action.schema_name.as_str()) {
            Some(schema) => {
                let row = fresh_row_of(schema, &self.schemas.units);
                let mut list = self.lists.remove(active);
                list.key_data.push(row);
                list.lines.push(LineItem { title: action.schema_name.clone(), state: LineState::Invalid });
                self.lists.insert(active, list);
                proof {
                    let want = with_line_added(before, action.schema_name@, row_view(row@));
                    assert(self@.lists[active as int].lines =~= want.lists[active as int].lines);
                    assert(self@.lists[active as int].key_data =~= want.lists[active as int].key_data);
                    assert(self@.lists =~= want.lists);
                    assert(list_wf(before.lists[active as int]));
                    assert forall|i: int| 0 <= i < self@.lists.len() implies list_wf(#[trigger] self@.lists[i]) by {
                        if i != active {
                            assert(list_wf(before.lists[i]));
                        }
                    }
                }
            },
            None => {},
        }
        let (_, effects) = self.validate_all_and_focus(false);
        effects
    }

    /// Sets the value of a field of the shown list and revalidates it and its line (see
    /// [`value_changed_view`]).
    pub fn handle_value_changed(&mut self, action: &Action) -> (effects: Vec<UiEffect>)
        requires
            old(self).wf(),
        ensures
            final(self).wf(),
            final(self).schemas == old(self).schemas,
            final(self)@ == value_changed_view(
                old(self)@,
                old(self).schemas,
                action.line_index as int,
                action.key_data_index as int,
                action.new_value@,
            ),
            effects@.len() == 0,
    {
        let ghost before = self@;
        let active = self.active_list_idx;
        if action.line_index < 0 {
            return Vec::new();
        }
        let li = action.line_index as usize;
        if li >= self.lists[active].key_data.len() {
            return Vec::new();
        }
        assert(list_wf(before.lists[active as int]));
        let schema = self.schemas.schema_for(self.lists[active].lines[li].title.as_str());
        let mut list = self.lists.remove(active);
        let mut row = list.key_data.remove(li);
        if action.key_data_index >= 0 && (action.key_data_index as usize) < row.len() {
            let pi = action.key_data_index as usize;
            let old_kd = row.remove(pi);
            let kd = KeyData {
                key: old_kd.key,
                value: action.new_value.clone(),
                unit: old_kd.unit,
                unit_options: old_kd.unit_options,
                is_valid: false,
            };
            let valid = field_validity(&kd, schema);
            row.insert(
                pi,
                KeyData { key: kd.key, value: kd.value, unit: kd.unit, unit_options: kd.unit_options, is_valid: valid },
            );
        }
        let all = row_all_valid(&row);
        list.key_data.insert(li, row);
        let line = list.lines.remove(li);
        let state = if all {
            LineState::Valid
        } else {
            LineState::Invalid
        };
        list.lines.insert(li, LineItem { title: line.title, state });
        self.lists.insert(active, list);
        proof {
            let want = value_changed_view(
                before,
                self.schemas,
                action.line_index as int,
                action.key_data_index as int,
                action.new_value@,
            );
            let l = before.lists[active as int];
            assert(row_view(row@) =~= want.lists[active as int].key_data[li as int]);
            assert(self@.lists[active as int].lines =~= want.lists[active as int].lines);
            assert(self@.lists[active as int].key_data =~= want.lists[active as int].key_data);
            assert(self@.lists =~= want.lists);
            assert forall|i: int| 0 <= i < self@.lists.len() implies list_wf(#[trigger] self@.lists[i]) by {
                assert(list_wf(before.lists[i]));
            }
        }
        Vec::new()
    }

    /// Sets the unit of a field of the shown list (see [`unit_changed_view`]).
    pub fn handle_unit_changed(&mut self, action: &Action) -> (effects: Vec<UiEffect>)
        requires
            old(self).wf(),
        ensures
            final(self).wf(),
            final(self).schemas == old(self).schemas,
            final(self)@ == unit_changed_view(
                old(self)@,
                action.line_index as int,
                action.key_data_index as int,
                action.new_value@,
            ),
            effects@.len() == 0,
    {
        let ghost before = self@;
        let active = self.active_list_idx;
        if action.line_index < 0 || action.key_data_index < 0 {
            return Vec::new();
        }
        let li = action.line_index as usize;
        let pi = action.key_data_index as usize;
        if li >= self.lists[active].key_data.len() || pi >= self.lists[active].key_data[li].len() {
            return Vec::new();
        }
        let mut list = self.lists.remove(active);
        let mut row = list.key_data.remove(li);
        let old_kd = row.remove(pi);
        row.insert(
            pi,
            KeyData {
                key: old_kd.key,
                value: old_kd.value,
                unit: action.new_value.clone(),
                unit_options: old_kd.unit_options,
                is_valid: old_kd.is_valid,
            },
        );
        list.key_data.insert(li, row);
        self.lists.insert(active, list);
        proof {
            let want = unit_changed_view(before, li as int, pi as int, action.new_value@);
            assert(row_view(row@) =~= want.lists[active as int].key_data[li as int]);
            assert(self@.lists[active as int].lines =~= want.lists[active as int].lines);
            assert(self@.lists[active as int].key_data =~= want.lists[active as int].key_data);
            assert(self@.lists =~= want.lists);
            assert forall|i: int| 0 <= i < self@.lists.len() implies list_wf(#[trigger] self@.lists[i]) by {
                assert(list_wf(before.lists[i]));
            }
        }
        Vec::new()
    }

    /// Starts the calculation of a line whose fields are all valid (see
    /// [`debounced_check_post`]).
    pub fn handle_debounced_field_check(&mut self, action: &Action) -> (effects: Vec<UiEffect>)
        requires
            old(self).wf(),
        ensures
            final(self).wf(),
            final(self).schemas == old(self).schemas,
            debounced_check_post(*old(self), *final(self), *action, effects@),
    {
        let active = self.active_list_idx;
        if action.line_index < 0 {
            return Vec::new();
        }
        let li = action.line_index as usize;
        if !self.line_is_fully_valid(active, li) {
            return Vec::new();
        }
        let ghost before = self@;
        assert(list_wf(before.lists[active as int]));
        self.set_line_calc_state(active, li, 1);
        let line = match self.snapshot_line_for_calc(active, li) {
            Some(line) => line,
            None => {
                return Vec::new();
            },
        };
        assert(self@.lists[active as int].key_data == before.lists[active as int].key_data);
        let request = LineCalculationRequest::new(active, self.list_names[active].clone(), li, 0, line);
        let mut effects: Vec<UiEffect> = Vec::new();
        effects.push(UiEffect::Calculate { request });
        effects
    }

    /// Turns a line of the shown list into a line of another element, with fresh fields
    /// (see [`line_type_changed_view`]); an element without a schema changes nothing.
    pub fn handle_line_type_changed(&mut self, action: &Action) -> (effects: Vec<UiEffect>)
        requires
            old(self).wf(),
        ensures
            final(self).wf(),
            final(self).schemas == old(self).schemas,
            final(self)@ == match old(self).schemas.elements.spec_get(action.schema_name@) {
                Some(s) => line_type_changed_view(
                    old(self)@,
                    action.line_index as int,
                    action.schema_name@,
                    s,
                    old(self).schemas.units,
                ),
                None => old(self)@,
            },
            effects@.len() == 0,
    {
        let ghost before = self@;
        let active = self.active_list_idx;
        if action.line_index < 0 {
            return Vec::new();
        }
        let li = action.line_index as usize;
        match self.schemas.schema_for(action.schema_name.as_str()) {
            Some(schema) => {
                if li >= self.lists[active].lines.len() {
                    return Vec::new();
                }
                assert(list_wf(before.lists[active as int]));
                let row = fresh_row_of(schema, &self.schemas.units);
                let mut list = self.lists.remove(active);
                list.key_data.remove(li);
                list.key_data.insert(li, row);
                list.lines.remove(li);
                list.lines.insert(li, LineItem { title: action.schema_name.clone(), state: LineState::Invalid });
                self.lists.insert(active, list);
                proof {
                    let want = line_type_changed_view(
                        before,
                        li as int,
                        action.schema_name@,
                        self.schemas.elements.spec_get(action.schema_name@)->0,
                        self.schemas.units,
                    );
                    assert(self@.lists[active as int].lines =~= want.lists[active as int].lines);
                    assert(self@.lists[active as int].key_data =~= want.lists[active as int].key_data);
                    assert(self@.lists =~= want.lists);
                    assert forall|i: int| 0 <= i < self@.lists.len() implies list_wf(#[trigger] self@.lists[i]) by {
                        assert(list_wf(before.lists[i]));
                    }
                }
            },
            None => {},
        }
        Vec::new()
    }

    /// Removes a line of the shown list (see [`line_removed_view`]).
    pub fn handle_remove_line(&mut self, action: &Action) -> (effects: Vec<UiEffect>)
        requires
            old(self).wf(),
        ensures
            final(self).wf(),
            final(self).schemas == old(self).schemas,
            final(self)@ == line_removed_view(old(self)@, action.line_index as int),
            effects@.len() == 0,
    {
        let ghost before = self@;
        let active = self.active_list_idx;
        if action.line_index < 0 {
            return Vec::new();
        }
        let li = action.line_index as usize;
        if li >= self.lists[active].lines.len() {
            return Vec::new();
        }
        assert(list_wf(before.lists[active as int]));
        let mut list = self.lists.remove(active);
        list.lines.remove(li);
        list.key_data.remove(li);
        self.lists.insert(active, list);
        proof {
            let want = line_removed_view(before, li as int);
            assert(self@.lists[active as int].lines =~= want.lists[active as int].lines);
            assert(self@.lists[active as int].key_data =~= want.lists[active as int].key_data);
            assert(self@.lists =~= want.lists);
            assert forall|i: int| 0 <= i < self@.lists.len() implies list_wf(#[trigger] self@.lists[i]) by {
                assert(list_wf(before.lists[i]));
            }
        }
        Vec::new()
    }
}

} // verus!
