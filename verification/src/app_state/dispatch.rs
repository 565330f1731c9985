use vstd::prelude::*;

use crate::app_state::editing::{
    add_line_post, debounced_check_post, line_removed_view, line_type_changed_view, unit_changed_view,
    value_changed_view, Action, ActionType,
};
use crate::app_state::navigation::{
    add_list_post, cycle_post, relative_focus_post, remove_list_post, switch_list_post,
};
use crate::app_state::{all_valid, document_of, first_invalid, validated_lists, AppState, UiEffect};

verus! {

/// Checking before saving: all fields are validated and the focus moves to the first
/// invalid one (switching to its list); then the save dialog opens when all are valid,
/// and the user is told of the failure otherwise.
pub open spec fn validate_before_save_post(old: AppState, new: AppState, effects: Seq<UiEffect>) -> bool {
    &&& new@.lists == validated_lists(old@.lists, old.schemas)
    &&& new@.names == old@.names
    &&& all_valid(new@.lists) ==> new@.active == old@.active && effects == seq![
        UiEffect::FocusField { target: None },
        UiEffect::OpenSaveDialog,
    ]
    &&& !all_valid(new@.lists) ==> exists|i: int, j: int, k: int| first_invalid(new@.lists, i, j, k)
    &&& forall|i: int, j: int, k: int|
        #[trigger] first_invalid(new@.lists, i, j, k) ==> if i != old@.active {
            &&& new@.active == i
            &&& effects == seq![
                UiEffect::ShowList { index: i as usize },
                UiEffect::FocusField { target: Some((j as usize, k as usize)) },
                UiEffect::ValidationError,
            ]
        } else {
            &&& new@.active == old@.active
            &&& effects == seq![
                UiEffect::FocusField { target: Some((j as usize, k as usize)) },
                UiEffect::ValidationError,
            ]
        }
}

/// Saving: with a path, the document of all lists is written there and marked saved;
/// without one nothing happens.
pub open spec fn save_list_post(old: AppState, new: AppState, action: Action, effects: Seq<UiEffect>) -> bool {
    &&& new@ == old@
    &&& if action.new_value@.len() == 0 {
        effects.len() == 0
    } else {
        &&& effects.len() == 2
        &&& effects[0] matches UiEffect::SaveFile { path, data } && path@ == action.new_value@ && data@
            == document_of(old@)
        &&& effects[1] == UiEffect::SetDirty { dirty: false }
    }
}

/// An action that only hands its path to the window: with a path, `effect` with that
/// path; without one, nothing.
pub open spec fn path_post(old: AppState, new: AppState, action: Action, effects: Seq<UiEffect>, load: bool) -> bool {
    &&& new@ == old@
    &&& if action.new_value@.len() == 0 {
        effects.len() == 0
    } else {
        &&& effects.len() == 1
        &&& if load {
            effects[0] matches UiEffect::LoadFile { path } && path@ == action.new_value@
        } else {
            effects[0] matches UiEffect::NavigateDir { path } && path@ == action.new_value@
        }
    }
}

/// Whether an action marks the document as changed.
pub open spec fn marks_dirty(t: ActionType) -> bool {
    !(t == ActionType::TabNextField || t == ActionType::TabPrevField || t == ActionType::DebouncedFieldCheck
        || t == ActionType::SwitchList || t == ActionType::CycleListNext || t == ActionType::CycleListPrev
        || t == ActionType::SaveList || t == ActionType::LoadList || t == ActionType::NavigateDir
        || t == ActionType::ValidateBeforeSave || t == ActionType::Exit)
}

/// What each action does to the editor and which effects it asks for.
pub open spec fn action_post(old: AppState, new: AppState, action: Action, effects: Seq<UiEffect>) -> bool {
    let li = action.line_index as int;
    let ki = action.key_data_index as int;
    match action.action_type {
        ActionType::AddLine => add_line_post(old, new, action, effects),
        ActionType::ValueChanged => new@ == value_changed_view(old@, old.schemas, li, ki, action.new_value@)
            && effects.len() == 0,
        ActionType::TabNextField => relative_focus_post(old, new, action, true, effects),
        ActionType::TabPrevField => relative_focus_post(old, new, action, false, effects),
        ActionType::DebouncedFieldCheck => debounced_check_post(old, new, action, effects),
        ActionType::UnitChanged => new@ == unit_changed_view(old@, li, ki, action.new_value@) && effects.len() == 0,
        ActionType::LineTypeChanged => new@ == match old.schemas.elements.spec_get(action.schema_name@) {
            Some(s) => line_type_changed_view(old@, li, action.schema_name@, s, old.schemas.units),
            None => old@,
        } && effects.len() == 0,
        ActionType::RemoveLine => new@ == line_removed_view(old@, li) && effects.len() == 0,
        ActionType::SwitchList => switch_list_post(old, new, action, effects),
        ActionType::CycleListNext => cycle_post(old, new, true, effects),
        ActionType::CycleListPrev => cycle_post(old, new, false, effects),
        ActionType::AddList => add_list_post(old, new, effects),
        ActionType::RemoveList => remove_list_post(old, new, action, effects),
        ActionType::SaveList => save_list_post(old, new, action, effects),
        ActionType::LoadList => path_post(old, new, action, effects, true),
        ActionType::NavigateDir => path_post(old, new, action, effects, false),
        ActionType::ValidateBeforeSave => validate_before_save_post(old, new, effects),
        ActionType::Exit => new@ == old@ && effects == seq![UiEffect::Hide],
    }
}

impl AppState {
    /// Validates everything before saving (see [`validate_before_save_post`]).
    pub fn handle_validate_before_save(&mut self) -> (effects: Vec<UiEffect>)
        requires
            old(self).wf(),
        ensures
            final(self).wf(),
            final(self).schemas == old(self).schemas,
            validate_before_save_post(*old(self), *final(self), effects@),
    {
        let ghost before = self@;
        let (ok, mut effects) = self.validate_all_and_focus(true);
        let ghost focus = effects@;
        if ok {
            effects.push(UiEffect::OpenSaveDialog);
        } else {
            effects.push(UiEffect::ValidationError);
        }
        proof {
            if ok {
                assert(effects@ =~= seq![UiEffect::FocusField { target: None }, UiEffect::OpenSaveDialog]);
            }
            assert forall|i: int, j: int, k: int| #[trigger] first_invalid(self@.lists, i, j, k) implies (if i
                != before.active {
                &&& self@.active == i
                &&& effects@ == seq![
                    UiEffect::ShowList { index: i as usize },
                    UiEffect::FocusField { target: Some((j as usize, k as usize)) },
                    UiEffect::ValidationError,
                ]
            } else {
                &&& self@.active == before.active
                &&& effects@ == seq![
                    UiEffect::FocusField { target: Some((j as usize, k as usize)) },
                    UiEffect::ValidationError,
                ]
            }) by {
                assert(!all_valid(self@.lists)) by {
                    assert(!self@.lists[i].key_data[j][k].is_valid);
                    if all_valid(self@.lists) {
                        assert(crate::app_state::list_valid(self@.lists[i]));
                        assert(crate::app_state::row_valid(self@.lists[i].key_data[j]));
                    }
                }
                if i != before.active {
                    assert(effects@ =~= seq![
                        UiEffect::ShowList { index: i as usize },
                        UiEffect::FocusField { target: Some((j as usize, k as usize)) },
                        UiEffect::ValidationError,
                    ]);
                } else {
                    assert(effects@ =~= seq![
                        UiEffect::FocusField { target: Some((j as usize, k as usize)) },
                        UiEffect::ValidationError,
                    ]);
                }
            }
        }
        effects
    }

    /// Asks for the document to be written to `action.new_value` (see [`save_list_post`]).
    pub fn handle_save_list(&self, action: &Action) -> (effects: Vec<UiEffect>)
        requires
            self.wf(),
        ensures
            save_list_post(*self, *self, *action, effects@),
    {
        let mut effects: Vec<UiEffect> = Vec::new();
        if action.new_value.as_str().is_empty() {
            return effects;
        }
        let data = self.to_item_data();
        effects.push(UiEffect::SaveFile { path: action.new_value.clone(), data });
        effects.push(UiEffect::SetDirty { dirty: false });
        effects
    }

    /// Asks for the file at `action.new_value` to be loaded (see [`path_post`]); the window
    /// hands what it read to [`AppState::apply_loaded`].
    pub fn handle_load_list(&self, action: &Action) -> (effects: Vec<UiEffect>)
        ensures
            path_post(*self, *self, *action, effects@, true),
    {
        let mut effects: Vec<UiEffect> = Vec::new();
        if !action.new_value.as_str().is_empty() {
            effects.push(UiEffect::LoadFile { path: action.new_value.clone() });
        }
        effects
    }

    /// Asks for the directory at `action.new_value` to be listed (see [`path_post`]).
    pub fn handle_navigate_dir(&self, action: &Action) -> (effects: Vec<UiEffect>)
        ensures
            path_post(*self, *self, *action, effects@, false),
    {
        let mut effects: Vec<UiEffect> = Vec::new();
        if !action.new_value.as_str().is_empty() {
            effects.push(UiEffect::NavigateDir { path: action.new_value.clone() });
        }
        effects
    }

    /// Asks for the window to close.
    pub fn handle_exit(&self) -> (effects: Vec<UiEffect>)
        ensures
            effects@ == seq![UiEffect::Hide],
    {
        let mut effects: Vec<UiEffect> = Vec::new();
        effects.push(UiEffect::Hide);
        assert(effects@ =~= seq![UiEffect::Hide]);
        effects
    }

    /// Runs an action (see [`action_post`]); an action that changes the document ends its
    /// effects by marking the document as changed.
    pub fn handle_dispatch(&mut self, action: Action) -> (effects: Vec<UiEffect>)
        requires
            old(self).wf(),
        ensures
            final(self).wf(),
            final(self).schemas == old(self).schemas,
            marks_dirty(action.action_type) ==> effects@.len() >= 1 && effects@.last() == (UiEffect::SetDirty {
                dirty: true,
            }) && action_post(*old(self), *final(self), action, effects@.drop_last()),
            !marks_dirty(action.action_type) ==> action_post(*old(self), *final(self), action, effects@),
    {
        let dirty = match action.action_type {
            ActionType::TabNextField | ActionType::TabPrevField | ActionType::DebouncedFieldCheck
            | ActionType::SwitchList | ActionType::CycleListNext | ActionType::CycleListPrev
            | ActionType::SaveList | ActionType::LoadList | ActionType::NavigateDir
            | ActionType::ValidateBeforeSave | ActionType::Exit => false,
            _ => true,
        };
        let mut effects = match action.action_type {
            ActionType::AddLine => self.handle_add_line(&action),
            ActionType::ValueChanged => self.handle_value_changed(&action),
            ActionType::TabNextField => self.focus_relative_field(&action, true),
            ActionType::TabPrevField => self.focus_relative_field(&action, false),
            ActionType::DebouncedFieldCheck => self.handle_debounced_field_check(&action),
            ActionType::UnitChanged => self.handle_unit_changed(&action),
            ActionType::LineTypeChanged => self.handle_line_type_changed(&action),
            ActionType::RemoveLine => self.handle_remove_line(&action),
            ActionType::SwitchList => self.handle_switch_list(&action),
            ActionType::CycleListNext => self.cycle_list(true),
            ActionType::CycleListPrev => self.cycle_list(false),
            ActionType::AddList => self.handle_add_list(),
            ActionType::RemoveList => self.handle_remove_list(&action),
            ActionType::SaveList => self.handle_save_list(&action),
            ActionType::LoadList => self.handle_load_list(&action),
            ActionType::NavigateDir => self.handle_navigate_dir(&action),
            ActionType::ValidateBeforeSave => self.handle_validate_before_save(),
            ActionType::Exit => self.handle_exit(),
        };
        let ghost inner = effects@;
        if dirty {
            effects.push(UiEffect::SetDirty { dirty: true });
            assert(effects@.drop_last() =~= inner);
        }
        effects
    }
}

} // verus!
