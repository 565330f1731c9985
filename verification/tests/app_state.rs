use domain::app_state::editing::{Action, ActionType};
use domain::app_state::{AppState, LineState, UiEffect};
use domain::models::elements::{ElementField, ElementSchema, FieldSpec, Schemas, ValueType};
use domain::models::model::{ItemData, ItemLine, ItemList, ItemSet};
use domain::str_map::StrMap;

fn schemas() -> Schemas {
    let mut units = StrMap::new();
    units.insert("length".to_string(), vec!["px".to_string(), "em".to_string()]);
    let mut elements = StrMap::new();
    elements.insert(
        "Button".to_string(),
        ElementSchema::new(
            true,
            vec![
                ElementField::new(
                    "width".to_string(),
                    FieldSpec { ty: ValueType::Float, unit: Some("length".to_string()) },
                ),
                ElementField::new("label".to_string(), FieldSpec { ty: ValueType::Str, unit: None }),
            ],
        ),
    );
    elements.insert(
        "Spacer".to_string(),
        ElementSchema::new(
            false,
            vec![ElementField::new("count".to_string(), FieldSpec { ty: ValueType::Int, unit: None })],
        ),
    );
    Schemas { units, elements }
}

fn action(t: ActionType, name: &str, line: i32, field: i32, value: &str) -> Action {
    Action {
        action_type: t,
        schema_name: name.to_string(),
        line_index: line,
        key_data_index: field,
        new_value: value.to_string(),
    }
}

fn target(effects: &[UiEffect]) -> Option<Option<(usize, usize)>> {
    effects.iter().find_map(|e| match e {
        UiEffect::FocusField { target } => Some(*target),
        _ => None,
    })
}

#[test]
fn starts_with_one_empty_list_called_own() {
    let state = AppState::new(schemas());
    assert_eq!(state.lists.len(), 1);
    assert_eq!(state.list_names, vec!["own".to_string()]);
    assert_eq!(state.active_list_idx, 0);
    assert!(state.lists[0].lines.is_empty());
}

#[test]
fn adding_a_line_appends_empty_fields_and_focuses_the_first_invalid() {
    let mut state = AppState::new(schemas());
    let effects = state.handle_add_line(&action(ActionType::AddLine, "Button", 0, 0, ""));
    let list = &state.lists[0];
    assert_eq!(list.lines.len(), 1);
    assert_eq!(list.lines[0].title, "Button");
    assert_eq!(list.lines[0].state, LineState::Invalid);
    let row = &list.key_data[0];
    assert_eq!(row.len(), 2);
    assert_eq!(row[0].key, "width");
    assert_eq!(row[0].unit, "px");
    assert_eq!(row[0].unit_options, vec!["px".to_string(), "em".to_string()]);
    assert_eq!(row[1].key, "label");
    assert_eq!(row[1].unit, "");
    assert!(!row[0].is_valid && !row[1].is_valid);
    assert_eq!(effects.len(), 1);
    assert_eq!(target(&effects), Some(Some((0, 0))));
}

#[test]
fn adding_a_line_without_name_does_nothing() {
    let mut state = AppState::new(schemas());
    let effects = state.handle_add_line(&action(ActionType::AddLine, "", 0, 0, ""));
    assert!(effects.is_empty());
    assert!(state.lists[0].lines.is_empty());
}

#[test]
fn adding_an_unknown_element_only_validates() {
    let mut state = AppState::new(schemas());
    let effects = state.handle_add_line(&action(ActionType::AddLine, "Slider", 0, 0, ""));
    assert!(state.lists[0].lines.is_empty());
    assert_eq!(target(&effects), Some(None));
}

#[test]
fn changing_values_revalidates_field_and_line() {
    let mut state = AppState::new(schemas());
    state.handle_add_line(&action(ActionType::AddLine, "Button", 0, 0, ""));
    state.handle_value_changed(&action(ActionType::ValueChanged, "", 0, 0, "abc"));
    assert_eq!(state.lists[0].key_data[0][0].value, "abc");
    assert!(!state.lists[0].key_data[0][0].is_valid);
    assert_eq!(state.lists[0].lines[0].state, LineState::Invalid);

    state.handle_value_changed(&action(ActionType::ValueChanged, "", 0, 0, "12.5"));
    assert!(state.lists[0].key_data[0][0].is_valid);
    assert_eq!(state.lists[0].lines[0].state, LineState::Invalid);

    state.handle_value_changed(&action(ActionType::ValueChanged, "", 0, 1, "OK"));
    assert!(state.lists[0].key_data[0][1].is_valid);
    assert_eq!(state.lists[0].lines[0].state, LineState::Valid);

    state.handle_value_changed(&action(ActionType::ValueChanged, "", 0, 1, ""));
    assert!(!state.lists[0].key_data[0][1].is_valid);
    assert_eq!(state.lists[0].lines[0].state, LineState::Invalid);
}

#[test]
fn changing_a_missing_line_does_nothing() {
    let mut state = AppState::new(schemas());
    state.handle_add_line(&action(ActionType::AddLine, "Button", 0, 0, ""));
    state.handle_value_changed(&action(ActionType::ValueChanged, "", 3, 0, "1"));
    state.handle_value_changed(&action(ActionType::ValueChanged, "", -1, 0, "1"));
    assert_eq!(state.lists[0].key_data[0][0].value, "");
}

#[test]
fn changing_units_sets_the_unit() {
    let mut state = AppState::new(schemas());
    state.handle_add_line(&action(ActionType::AddLine, "Button", 0, 0, ""));
    state.handle_unit_changed(&action(ActionType::UnitChanged, "", 0, 0, "em"));
    assert_eq!(state.lists[0].key_data[0][0].unit, "em");
    state.handle_unit_changed(&action(ActionType::UnitChanged, "", 0, 5, "rem"));
    assert_eq!(state.lists[0].key_data[0][0].unit, "em");
}

fn filled_button(state: &mut AppState) {
    state.handle_add_line(&action(ActionType::AddLine, "Button", 0, 0, ""));
    let li = (state.lists[state.active_list_idx].lines.len() - 1) as i32;
    state.handle_value_changed(&action(ActionType::ValueChanged, "", li, 0, "10"));
    state.handle_value_changed(&action(ActionType::ValueChanged, "", li, 1, "Go"));
}

#[test]
fn debounced_check_starts_calculation_of_a_valid_line() {
    let mut state = AppState::new(schemas());
    state.handle_add_line(&action(ActionType::AddLine, "Button", 0, 0, ""));
    let none = state.handle_debounced_field_check(&action(ActionType::DebouncedFieldCheck, "", 0, 0, ""));
    assert!(none.is_empty());
    assert_eq!(state.lists[0].lines[0].state, LineState::Invalid);

    state.handle_value_changed(&action(ActionType::ValueChanged, "", 0, 0, "10"));
    state.handle_value_changed(&action(ActionType::ValueChanged, "", 0, 1, "Go"));
    let effects = state.handle_debounced_field_check(&action(ActionType::DebouncedFieldCheck, "", 0, 0, ""));
    assert_eq!(state.lists[0].lines[0].state, LineState::Running);
    assert_eq!(effects.len(), 1);
    match &effects[0] {
        UiEffect::Calculate { request } => {
            assert_eq!(request.list_index, 0);
            assert_eq!(request.list_name, "own");
            assert_eq!(request.line_index, 0);
            assert_eq!(request.line.title, "Button");
            assert_eq!(request.line.data.len(), 2);
            assert_eq!(request.line.data[0].key, "width");
            assert_eq!(request.line.data[0].value, "10");
            assert_eq!(request.line.data[0].unit, "px");
        },
        _ => panic!("expected a calculation request"),
    }
    state.set_line_calc_state(0, 0, 2);
    assert_eq!(state.lists[0].lines[0].state, LineState::Done);
    state.set_line_calc_state(0, 0, 0);
    assert_eq!(state.lists[0].lines[0].state, LineState::Done);
    state.set_line_calc_state(0, 9, 1);
    assert_eq!(state.lists[0].lines[0].state, LineState::Done);
}

#[test]
fn changing_line_type_starts_the_line_afresh() {
    let mut state = AppState::new(schemas());
    filled_button(&mut state);
    state.handle_line_type_changed(&action(ActionType::LineTypeChanged, "Spacer", 0, 0, ""));
    assert_eq!(state.lists[0].lines[0].title, "Spacer");
    assert_eq!(state.lists[0].lines[0].state, LineState::Invalid);
    assert_eq!(state.lists[0].key_data[0].len(), 1);
    assert_eq!(state.lists[0].key_data[0][0].key, "count");

    state.handle_line_type_changed(&action(ActionType::LineTypeChanged, "Slider", 0, 0, ""));
    assert_eq!(state.lists[0].lines[0].title, "Spacer");
}

#[test]
fn removing_a_line_removes_its_fields() {
    let mut state = AppState::new(schemas());
    filled_button(&mut state);
    state.handle_add_line(&action(ActionType::AddLine, "Spacer", 0, 0, ""));
    state.handle_remove_line(&action(ActionType::RemoveLine, "", 0, 0, ""));
    assert_eq!(state.lists[0].lines.len(), 1);
    assert_eq!(state.lists[0].lines[0].title, "Spacer");
    assert_eq!(state.lists[0].key_data.len(), 1);
    state.handle_remove_line(&action(ActionType::RemoveLine, "", 4, 0, ""));
    assert_eq!(state.lists[0].lines.len(), 1);
}

#[test]
fn lists_are_added_switched_cycled_and_removed() {
    let mut state = AppState::new(schemas());
    let effects = state.handle_add_list();
    assert_eq!(state.list_names, vec!["own".to_string(), "list 1".to_string()]);
    assert_eq!(state.active_list_idx, 1);
    assert!(matches!(effects[0], UiEffect::ShowList { index: 1 }));
    assert!(matches!(effects[1], UiEffect::FocusToolbar));

    let effects = state.handle_switch_list(&action(ActionType::SwitchList, "", 0, 0, ""));
    assert_eq!(state.active_list_idx, 0);
    assert!(matches!(effects[0], UiEffect::ShowLines { index: 0 }));
    assert!(state.handle_switch_list(&action(ActionType::SwitchList, "", 7, 0, "")).is_empty());
    assert_eq!(state.active_list_idx, 0);

    filled_button(&mut state);
    let effects = state.cycle_list(true);
    assert_eq!(state.active_list_idx, 1);
    assert!(matches!(effects[1], UiEffect::FocusAddList));
    let effects = state.cycle_list(true);
    assert_eq!(state.active_list_idx, 0);
    assert!(matches!(effects[1], UiEffect::FocusField { target: Some((0, 1)) }));
    state.cycle_list(false);
    assert_eq!(state.active_list_idx, 1);

    assert!(state.handle_remove_list(&action(ActionType::RemoveList, "", 0, 0, "")).is_empty());
    let effects = state.handle_remove_list(&action(ActionType::RemoveList, "", 1, 0, ""));
    assert_eq!(state.list_names, vec!["own".to_string()]);
    assert_eq!(state.active_list_idx, 0);
    assert!(matches!(effects[0], UiEffect::ShowList { index: 0 }));
}

#[test]
fn add_then_remove_list_restores_lists() {
    let mut state = AppState::new(schemas());
    filled_button(&mut state);
    state.handle_add_list();
    state.handle_remove_list(&action(ActionType::RemoveList, "", 1, 0, ""));
    assert_eq!(state.list_names, vec!["own".to_string()]);
    assert_eq!(state.lists.len(), 1);
    assert_eq!(state.lists[0].lines.len(), 1);
}

#[test]
fn cycling_forward_then_back_returns_to_the_start() {
    let mut state = AppState::new(schemas());
    state.handle_add_list();
    state.handle_add_list();
    state.handle_switch_list(&action(ActionType::SwitchList, "", 2, 0, ""));
    state.cycle_list(true);
    assert_eq!(state.active_list_idx, 0);
    state.cycle_list(false);
    assert_eq!(state.active_list_idx, 2);
}

#[test]
fn tab_moves_between_fields_and_to_the_toolbar() {
    let mut state = AppState::new(schemas());
    let empty = state.focus_relative_field(&action(ActionType::TabNextField, "", 0, 0, ""), true);
    assert!(empty.is_empty());
    filled_button(&mut state);
    state.handle_add_line(&action(ActionType::AddLine, "Spacer", 0, 0, ""));
    let next = state.focus_relative_field(&action(ActionType::TabNextField, "", 0, 1, ""), true);
    assert_eq!(target(&next), Some(Some((1, 0))));
    let last = state.focus_relative_field(&action(ActionType::TabNextField, "", 1, 0, ""), true);
    assert!(matches!(last[0], UiEffect::FocusToolbar));
    let prev = state.focus_relative_field(&action(ActionType::TabPrevField, "", 0, 0, ""), false);
    assert_eq!(target(&prev), Some(Some((1, 0))));
    let back = state.focus_relative_field(&action(ActionType::TabPrevField, "", 1, 0, ""), false);
    assert_eq!(target(&back), Some(Some((0, 1))));
    let unknown = state.focus_relative_field(&action(ActionType::TabNextField, "", 9, 9, ""), true);
    assert_eq!(target(&unknown), Some(Some((0, 1))));
}

#[test]
fn validating_before_save_opens_dialog_or_reports() {
    let mut state = AppState::new(schemas());
    filled_button(&mut state);
    let ok = state.handle_validate_before_save();
    assert!(matches!(ok[0], UiEffect::FocusField { target: None }));
    assert!(matches!(ok[1], UiEffect::OpenSaveDialog));

    state.handle_add_list();
    state.handle_add_line(&action(ActionType::AddLine, "Spacer", 0, 0, ""));
    state.handle_switch_list(&action(ActionType::SwitchList, "", 0, 0, ""));
    let bad = state.handle_validate_before_save();
    assert_eq!(state.active_list_idx, 1);
    assert!(matches!(bad[0], UiEffect::ShowList { index: 1 }));
    assert!(matches!(bad[1], UiEffect::FocusField { target: Some((0, 0)) }));
    assert!(matches!(bad[2], UiEffect::ValidationError));
}

#[test]
fn validating_twice_changes_nothing_more() {
    let mut state = AppState::new(schemas());
    filled_button(&mut state);
    state.handle_add_line(&action(ActionType::AddLine, "Spacer", 0, 0, ""));
    state.validate_all_and_focus(false);
    let first: Vec<(LineState, Vec<bool>)> = (0..state.lists[0].lines.len())
        .map(|i| (state.lists[0].lines[i].state, state.lists[0].key_data[i].iter().map(|k| k.is_valid).collect()))
        .collect();
    state.validate_all_and_focus(false);
    let second: Vec<(LineState, Vec<bool>)> = (0..state.lists[0].lines.len())
        .map(|i| (state.lists[0].lines[i].state, state.lists[0].key_data[i].iter().map(|k| k.is_valid).collect()))
        .collect();
    assert_eq!(first, second);
    assert_eq!(first[0], (LineState::Valid, vec![true, true]));
    assert_eq!(first[1], (LineState::Invalid, vec![false]));
}

#[test]
fn saving_writes_the_document_of_all_lists() {
    let mut state = AppState::new(schemas());
    filled_button(&mut state);
    assert!(state.handle_save_list(&action(ActionType::SaveList, "", 0, 0, "")).is_empty());
    let effects = state.handle_save_list(&action(ActionType::SaveList, "", 0, 0, "out.json"));
    match &effects[0] {
        UiEffect::SaveFile { path, data } => {
            assert_eq!(path, "out.json");
            assert_eq!(data.lists.len(), 1);
            assert_eq!(data.lists[0].name, "own");
            assert_eq!(data.lists[0].lines[0].title, "Button");
            assert_eq!(data.lists[0].lines[0].data[1].value, "Go");
        },
        _ => panic!("expected a save"),
    }
    assert!(matches!(effects[1], UiEffect::SetDirty { dirty: false }));
}

fn set(key: &str, value: &str, unit: &str) -> ItemSet {
    ItemSet { key: key.to_string(), value: value.to_string(), unit: unit.to_string() }
}

#[test]
fn loading_orders_fields_by_schema_and_marks_them_valid() {
    let mut state = AppState::new(schemas());
    let data = ItemData {
        lists: vec![
            ItemList {
                name: "first".to_string(),
                lines: vec![ItemLine {
                    title: "Button".to_string(),
                    data: vec![set("extra", "1", ""), set("label", "Go", ""), set("width", "3", "em")],
                }],
            },
            ItemList { name: "second".to_string(), lines: vec![] },
        ],
    };
    let effects = state.apply_loaded(&data);
    assert_eq!(state.list_names, vec!["first".to_string(), "second".to_string()]);
    assert_eq!(state.active_list_idx, 0);
    let row = &state.lists[0].key_data[0];
    let keys: Vec<&str> = row.iter().map(|k| k.key.as_str()).collect();
    assert_eq!(keys, vec!["width", "label", "extra"]);
    assert_eq!(row[0].unit, "em");
    assert_eq!(row[0].unit_options, vec!["px".to_string(), "em".to_string()]);
    assert!(row[2].unit_options.is_empty());
    assert!(row.iter().all(|k| k.is_valid));
    assert_eq!(state.lists[0].lines[0].state, LineState::Valid);
    assert!(matches!(effects[0], UiEffect::ShowList { index: 0 }));
    assert!(matches!(effects[1], UiEffect::SetDirty { dirty: false }));

    let saved = state.to_item_data();
    let keys: Vec<&str> = saved.lists[0].lines[0].data.iter().map(|s| s.key.as_str()).collect();
    assert_eq!(keys, vec!["width", "label", "extra"]);

    let nothing = state.apply_loaded(&ItemData { lists: vec![] });
    assert!(nothing.is_empty());
    assert_eq!(state.list_names.len(), 2);
}

#[test]
fn dispatch_marks_edits_dirty() {
    let mut state = AppState::new(schemas());
    let effects = state.handle_dispatch(action(ActionType::AddLine, "Button", 0, 0, ""));
    assert!(matches!(effects.last(), Some(UiEffect::SetDirty { dirty: true })));
    let effects = state.handle_dispatch(action(ActionType::TabNextField, "", 0, 0, ""));
    assert!(!effects.iter().any(|e| matches!(e, UiEffect::SetDirty { .. })));
    let effects = state.handle_dispatch(action(ActionType::Exit, "", 0, 0, ""));
    assert!(matches!(effects[..], [UiEffect::Hide]));
    let effects = state.handle_dispatch(action(ActionType::LoadList, "", 0, 0, "in.json"));
    assert!(matches!(&effects[..], [UiEffect::LoadFile { path }] if path == "in.json"));
    let effects = state.handle_dispatch(action(ActionType::NavigateDir, "", 0, 0, "/tmp"));
    assert!(matches!(&effects[..], [UiEffect::NavigateDir { path }] if path == "/tmp"));
}

fn document_texts(state: &AppState) -> Vec<(String, Vec<(String, Vec<(String, String, String)>)>)> {
    let data = state.to_item_data();
    data.lists
        .iter()
        .map(|l| {
            (
                l.name.clone(),
                l.lines
                    .iter()
                    .map(|line| {
                        (
                            line.title.clone(),
                            line.data.iter().map(|s| (s.key.clone(), s.value.clone(), s.unit.clone())).collect(),
                        )
                    })
                    .collect(),
            )
        })
        .collect()
}

#[test]
fn calculation_state_does_not_change_the_document() {
    let mut state = AppState::new(schemas());
    filled_button(&mut state);
    let before = document_texts(&state);
    state.set_line_calc_state(0, 0, 1);
    assert_eq!(state.lists[0].lines[0].state, LineState::Running);
    assert_eq!(document_texts(&state), before);
}

#[test]
fn editing_a_value_changes_only_that_value_in_the_document() {
    let mut state = AppState::new(schemas());
    filled_button(&mut state);
    let mut expected = document_texts(&state);
    state.handle_value_changed(&action(ActionType::ValueChanged, "", 0, 1, "Stop"));
    expected[0].1[0].1[1].1 = "Stop".to_string();
    assert_eq!(document_texts(&state), expected);
}

#[test]
fn loading_right_after_saving_gives_the_lists_back() {
    let mut state = AppState::new(schemas());
    filled_button(&mut state);
    state.handle_add_line(&action(ActionType::AddLine, "Spacer", 0, 0, ""));
    state.handle_add_list();
    let saved = document_texts(&state);
    let data = state.to_item_data();
    let mut loaded = AppState::new(schemas());
    loaded.apply_loaded(&data);
    assert_eq!(document_texts(&loaded), saved);
    assert_eq!(loaded.active_list_idx, 0);
    assert!(loaded.lists.iter().all(|l| l.lines.iter().all(|line| line.state == LineState::Valid)));
}
