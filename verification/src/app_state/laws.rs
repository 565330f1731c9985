use vstd::prelude::*;

use crate::app_state::editing::{value_changed_view, Action};
use crate::app_state::navigation::{
    add_list_post, cycle_post, field_positions, first_index_of, focus_at, relative_focus_post,
    remove_list_post,
};
use crate::app_state::{
    KeyDataView, document_of, list_wf, loaded_row, loaded_view, ordered_sets, row_sets, validated_list,
    validated_lists, validated_row, with_line_state, AppState, ListView, LineState,
};
use crate::models::elements::Schemas;
use crate::models::model::{sets_view, ItemData, ItemLineView, ItemListView, ItemSetView};

verus! {

/// Validating twice is validating once: a second pass over validated lists changes no
/// field and no line.
pub proof fn law_validation_idempotent(lists: Seq<ListView>, schemas: Schemas)
    requires
        forall|i: int| 0 <= i < lists.len() ==> list_wf(#[trigger] lists[i]),
    ensures
        validated_lists(validated_lists(lists, schemas), schemas) == validated_lists(lists, schemas),
{
    let once = validated_lists(lists, schemas);
    assert forall|i: int| 0 <= i < lists.len() implies #[trigger] validated_list(once[i], schemas) == once[i] by {
        let l = lists[i];
        assert(list_wf(l));
        let v = once[i];
        assert forall|j: int| 0 <= j < l.key_data.len() implies #[trigger] validated_row(
            v.key_data[j],
            schemas.elements.spec_get(v.lines[j].title),
        ) == v.key_data[j] by {
            assert(validated_row(v.key_data[j], schemas.elements.spec_get(v.lines[j].title)) =~= v.key_data[j]);
        }
        assert(validated_list(v, schemas).key_data =~= v.key_data);
        assert(validated_list(v, schemas).lines =~= v.lines);
    }
    assert(validated_lists(once, schemas) =~= once);
}

/// A line's calculation state is not part of the document: setting it leaves what would
/// be saved unchanged.
pub proof fn law_calc_state_keeps_document(state: AppState, list: int, line: int, s: LineState)
    requires
        state.wf(),
        0 <= list < state@.lists.len(),
        0 <= line < state@.lists[list].lines.len(),
    ensures
        document_of(with_line_state(state@, list, line, s)) == document_of(state@),
{
    let v = state@;
    let w = with_line_state(v, list, line, s);
    assert forall|i: int| 0 <= i < v.lists.len() implies #[trigger] document_of(w)[i] == document_of(v)[i] by {
        if i == list {
            assert(document_of(w)[i].lines =~= document_of(v)[i].lines);
        }
    }
    assert(document_of(w) =~= document_of(v));
}

/// The document that loading `data` and saving at once writes: the same lists, names and
/// lines, each line's fields in display order.
pub open spec fn reordered_document(data: ItemData, schemas: Schemas) -> Seq<ItemListView> {
    Seq::new(
        data.lists@.len(),
        |i: int|
            ItemListView {
                name: data.lists@[i].name@,
                lines: Seq::new(
                    data.lists@[i].lines@.len(),
                    |j: int|
                        ItemLineView {
                            title: data.lists@[i].lines@[j].title@,
                            data: sets_view(
                                ordered_sets(
                                    schemas.elements.spec_get(data.lists@[i].lines@[j].title@),
                                    data.lists@[i].lines@[j].data@,
                                ),
                            ),
                        },
                ),
            },
    )
}

/// Saving right after loading writes the loaded lists back: same names, same lines, each
/// line's fields in display order; a document whose lines already list their fields in
/// that order comes back unchanged.
pub proof fn law_save_after_load(data: ItemData, schemas: Schemas)
    ensures
        document_of(loaded_view(data, schemas)) == reordered_document(data, schemas),
        (forall|i: int, j: int|
            0 <= i < data.lists@.len() && 0 <= j < data.lists@[i].lines@.len() ==> #[trigger] ordered_sets(
                schemas.elements.spec_get(data.lists@[i].lines@[j].title@),
                data.lists@[i].lines@[j].data@,
            ) == data.lists@[i].lines@[j].data@) ==> document_of(loaded_view(data, schemas)) == data@,
{
    let v = loaded_view(data, schemas);
    let want = reordered_document(data, schemas);
    assert forall|i: int| 0 <= i < data.lists@.len() implies #[trigger] document_of(v)[i] == want[i] by {
        let list = data.lists@[i];
        assert forall|j: int| 0 <= j < list.lines@.len() implies #[trigger] document_of(v)[i].lines[j]
            == want[i].lines[j] by {
            let line = list.lines@[j];
            let sets = ordered_sets(schemas.elements.spec_get(line.title@), line.data@);
            assert(row_sets(loaded_row(line, schemas)) =~= sets_view(sets));
        }
        assert(document_of(v)[i].lines =~= want[i].lines);
    }
    assert(document_of(v) =~= want);
    if forall|i: int, j: int|
        0 <= i < data.lists@.len() && 0 <= j < data.lists@[i].lines@.len() ==> #[trigger] ordered_sets(
            schemas.elements.spec_get(data.lists@[i].lines@[j].title@),
            data.lists@[i].lines@[j].data@,
        ) == data.lists@[i].lines@[j].data@ {
        assert forall|i: int| 0 <= i < data.lists@.len() implies #[trigger] want[i] == data@[i] by {
            assert forall|j: int| 0 <= j < data.lists@[i].lines@.len() implies #[trigger] want[i].lines[j]
                == data@[i].lines[j] by {
                assert(ordered_sets(
                    schemas.elements.spec_get(data.lists@[i].lines@[j].title@),
                    data.lists@[i].lines@[j].data@,
                ) == data.lists@[i].lines@[j].data@);
            }
            assert(want[i].lines =~= data@[i].lines);
        }
        assert(want =~= data@);
    }
}

/// Cycling to the next list and then back to the previous one returns to where it
/// started.
pub proof fn law_cycle_round_trip(
    start: AppState,
    mid: AppState,
    end: AppState,
    e1: Seq<crate::app_state::UiEffect>,
    e2: Seq<crate::app_state::UiEffect>,
)
    requires
        start.wf(),
        cycle_post(start, mid, true, e1),
        cycle_post(mid, end, false, e2),
    ensures
        end@ == start@,
{
    let n = start@.lists.len() as int;
    let a = start@.active;
    if a + 1 < n {
        assert((a + 1) % n == a + 1) by (nonlinear_arith)
            requires
                0 <= a + 1 < n,
        ;
    } else {
        assert((a + 1) % n == 0) by (nonlinear_arith)
            requires
                a + 1 == n,
                n >= 1,
        ;
    }
}

/// Cycling moves the shown list by one, forward or backward, wrapping from the last list
/// to the first and from the first to the last, and keeps the lists and their names.
pub proof fn law_cycle_moves_by_one(
    old: AppState,
    new: AppState,
    forward: bool,
    effects: Seq<crate::app_state::UiEffect>,
)
    requires
        old.wf(),
        cycle_post(old, new, forward, effects),
    ensures
        new@.lists == old@.lists,
        new@.names == old@.names,
        0 <= new@.active < new@.lists.len(),
        forward && old@.active + 1 < old@.lists.len() ==> new@.active == old@.active + 1,
        forward && old@.active + 1 == old@.lists.len() ==> new@.active == 0,
        !forward && old@.active > 0 ==> new@.active == old@.active - 1,
        !forward && old@.active == 0 ==> new@.active == old@.lists.len() - 1,
        effects.len() == 2,
        effects[0] == (crate::app_state::UiEffect::ShowList { index: new@.active as usize }),
{
    let n = old@.lists.len() as int;
    let a = old@.active;
    if forward {
        if a + 1 < n {
            assert((a + 1) % n == a + 1) by (nonlinear_arith)
                requires
                    0 <= a + 1 < n,
            ;
        } else {
            assert((a + 1) % n == 0) by (nonlinear_arith)
                requires
                    a + 1 == n,
                    n >= 1,
            ;
        }
    }
}

/// Adding a list appends one empty list after the others, keeps the others and their
/// names, names the new one `list ` followed by a number, and shows it.
pub proof fn law_add_list_shows_new_empty_list(
    old: AppState,
    new: AppState,
    effects: Seq<crate::app_state::UiEffect>,
)
    requires
        old.wf(),
        add_list_post(old, new, effects),
    ensures
        new@.lists.len() == old@.lists.len() + 1,
        new@.names.len() == old@.names.len() + 1,
        forall|i: int| 0 <= i < old@.lists.len() ==> new@.lists[i] == old@.lists[i] && new@.names[i] == old@.names[i],
        new@.active == old@.lists.len(),
        new@.lists[new@.active].lines.len() == 0,
        new@.lists[new@.active].key_data.len() == 0,
        new@.names[new@.active].take(5) == seq!['l', 'i', 's', 't', ' '],
        effects[0] == (crate::app_state::UiEffect::ShowList { index: new@.active as usize }),
{
    let nm = new@.names[new@.active];
    assert(nm.take(5) =~= seq!['l', 'i', 's', 't', ' ']);
}

/// The number of fields on the lines of `rows` before line `l`.
pub open spec fn fields_before(rows: Seq<Seq<KeyDataView>>, l: int) -> int
    decreases l,
{
    if l <= 0 {
        0
    } else {
        fields_before(rows, l - 1) + rows[l - 1].len()
    }
}

proof fn lemma_fields_before_prefix(rows: Seq<Seq<KeyDataView>>, init: Seq<Seq<KeyDataView>>, l: int)
    requires
        0 <= l <= init.len() <= rows.len(),
        forall|i: int| 0 <= i < init.len() ==> init[i] == rows[i],
    ensures
        fields_before(rows, l) == fields_before(init, l),
    decreases l,
{
    if l > 0 {
        lemma_fields_before_prefix(rows, init, l - 1);
    }
}

proof fn lemma_fields_before_monotone(rows: Seq<Seq<KeyDataView>>, a: int, b: int)
    requires
        0 <= a <= b <= rows.len(),
    ensures
        0 <= fields_before(rows, a) <= fields_before(rows, b),
    decreases b,
{
    if a < b {
        lemma_fields_before_monotone(rows, a, b - 1);
    } else if a > 0 {
        lemma_fields_before_monotone(rows, 0, a - 1);
    }
}

proof fn lemma_field_positions(rows: Seq<Seq<KeyDataView>>)
    ensures
        field_positions(rows).len() == fields_before(rows, rows.len() as int),
        forall|j: int|
            0 <= j < field_positions(rows).len() ==> {
                let p = #[trigger] field_positions(rows)[j];
                &&& 0 <= p.0 < rows.len()
                &&& 0 <= p.1 < rows[p.0].len()
                &&& j == fields_before(rows, p.0) + p.1
            },
        forall|l: int, g: int|
            0 <= l < rows.len() && 0 <= g < rows[l].len() ==> #[trigger] field_positions(rows)[fields_before(
                rows,
                l,
            ) + g] == (l, g),
    decreases rows.len(),
{
    if rows.len() > 0 {
        let n = rows.len() as int;
        let init = rows.drop_last();
        lemma_field_positions(init);
        assert forall|i: int| 0 <= i < init.len() implies init[i] == rows[i] by {}
        assert forall|l: int| 0 <= l <= init.len() implies fields_before(rows, l) == fields_before(init, l) by {
            lemma_fields_before_prefix(rows, init, l);
        }
        let ps = field_positions(rows);
        let pi = field_positions(init);
        let base = fields_before(init, n - 1);
        assert(pi.len() == base);
        assert(ps == pi + Seq::new(rows.last().len(), |k: int| (n - 1, k)));
        assert forall|j: int| 0 <= j < ps.len() implies {
            let p = #[trigger] ps[j];
            &&& 0 <= p.0 < rows.len()
            &&& 0 <= p.1 < rows[p.0].len()
            &&& j == fields_before(rows, p.0) + p.1
        } by {
            if j < pi.len() {
                assert(ps[j] == pi[j]);
                let p = pi[j];
                assert(0 <= p.0 < init.len());
                assert(rows[p.0] == init[p.0]);
            } else {
                assert(ps[j] == (n - 1, j - base));
            }
        }
        assert forall|l: int, g: int| 0 <= l < rows.len() && 0 <= g < rows[l].len() implies #[trigger] ps[fields_before(
            rows,
            l,
        ) + g] == (l, g) by {
            if l < n - 1 {
                assert(rows[l] == init[l]);
                lemma_fields_before_monotone(init, l + 1, n - 1);
                lemma_fields_before_monotone(init, l, l + 1);
                assert(fields_before(init, l + 1) == fields_before(init, l) + init[l].len());
                let x = fields_before(init, l) + g;
                assert(x < pi.len());
                assert(pi[x] == (l, g));
                let seg = Seq::new(rows.last().len(), |k: int| (n - 1, k));
                assert((pi + seg)[x] == pi[x]);
                assert(ps[x] == pi[x]);
            } else {
                assert(fields_before(rows, l) == base);
                assert(ps[base + g] == (n - 1, g));
            }
        }
    }
}

proof fn lemma_first_index_of(ps: Seq<(int, int)>, cur: (int, int), k: int)
    requires
        0 <= k < ps.len(),
        ps[k] == cur,
        forall|j: int| 0 <= j < k ==> ps[j] != cur,
    ensures
        first_index_of(ps, cur) == Some(k),
    decreases ps.len(),
{
    let init = ps.drop_last();
    if k < ps.len() - 1 {
        assert(init[k] == ps[k]);
        assert forall|j: int| 0 <= j < k implies init[j] != cur by {
            assert(init[j] == ps[j]);
        }
        lemma_first_index_of(init, cur, k);
    } else {
        if let Some(p) = first_index_of(init, cur) {
            lemma_first_index_of_found(init, cur);
            assert(init[p] == ps[p]);
        }
    }
}

proof fn lemma_first_index_of_found(ps: Seq<(int, int)>, cur: (int, int))
    ensures
        first_index_of(ps, cur) matches Some(p) ==> 0 <= p < ps.len() && ps[p] == cur,
    decreases ps.len(),
{
    if ps.len() > 0 {
        lemma_first_index_of_found(ps.drop_last(), cur);
        if let Some(p) = first_index_of(ps.drop_last(), cur) {
            assert(ps.drop_last()[p] == ps[p]);
        }
    }
}

/// Tabbing from a field of the shown list moves the focus to the next field on the same
/// line when there is one, and tabbing backward to the previous field on the same line;
/// the state stays as it was.
pub proof fn law_tab_moves_along_the_line(
    old: AppState,
    new: AppState,
    action: Action,
    forward: bool,
    effects: Seq<crate::app_state::UiEffect>,
)
    requires
        old.wf(),
        relative_focus_post(old, new, action, forward, effects),
        0 <= action.line_index < old@.lists[old@.active].key_data.len(),
        0 <= action.key_data_index < old@.lists[old@.active].key_data[action.line_index as int].len(),
    ensures
        new@ == old@,
        forward && action.key_data_index + 1 < old@.lists[old@.active].key_data[action.line_index as int].len()
            ==> effects == seq![focus_at((action.line_index as int, action.key_data_index + 1))],
        !forward && action.key_data_index > 0 ==> effects == seq![
            focus_at((action.line_index as int, action.key_data_index - 1)),
        ],
{
    let rows = old@.lists[old@.active].key_data;
    let l = action.line_index as int;
    let f = action.key_data_index as int;
    let ps = field_positions(rows);
    lemma_field_positions(rows);
    lemma_fields_before_monotone(rows, l + 1, rows.len() as int);
    lemma_fields_before_monotone(rows, l, l + 1);
    assert(fields_before(rows, l + 1) == fields_before(rows, l) + rows[l].len());
    let k = fields_before(rows, l) + f;
    assert(ps.len() == fields_before(rows, rows.len() as int));
    assert(fields_before(rows, l + 1) <= fields_before(rows, rows.len() as int));
    assert(k < ps.len());
    assert(ps[k] == (l, f));
    assert forall|j: int| 0 <= j < k implies ps[j] != (l, f) by {
        let p = ps[j];
        if p == (l, f) {
            assert(j == fields_before(rows, l) + f);
        }
    }
    lemma_first_index_of(ps, (l, f), k);
    if f + 1 < rows[l].len() {
        assert(ps[fields_before(rows, l) + (f + 1)] == (l, f + 1));
        assert(ps[k + 1] == (l, f + 1));
    }
    if f > 0 {
        assert(ps[fields_before(rows, l) + (f - 1)] == (l, f - 1));
    }
}

/// Adding a list and then removing it leaves the lists and their names as they were.
pub proof fn law_add_then_remove_list(
    start: AppState,
    mid: AppState,
    end: AppState,
    remove: Action,
    e1: Seq<crate::app_state::UiEffect>,
    e2: Seq<crate::app_state::UiEffect>,
)
    requires
        start.wf(),
        add_list_post(start, mid, e1),
        remove.line_index as int == start@.lists.len(),
        remove_list_post(mid, end, remove, e2),
    ensures
        end@.lists == start@.lists,
        end@.names == start@.names,
{
    let n = start@.lists.len() as int;
    assert(mid@.lists.remove(n) =~= start@.lists);
    assert(mid@.names.remove(n) =~= start@.names);
}

/// Removing a list other than the shown one keeps the same list (and name) shown, at its
/// new position; removing the shown list shows the one before it. Either way the window
/// is told to show the list that is shown afterwards.
pub proof fn law_remove_list_keeps_shown_list(
    old: AppState,
    new: AppState,
    remove: Action,
    effects: Seq<crate::app_state::UiEffect>,
)
    requires
        old.wf(),
        0 < remove.line_index as int,
        (remove.line_index as int) < old@.lists.len(),
        remove_list_post(old, new, remove, effects),
    ensures
        new@.lists.len() == old@.lists.len() - 1,
        0 <= new@.active < new@.lists.len(),
        remove.line_index as int != old@.active ==> new@.lists[new@.active] == old@.lists[old@.active]
            && new@.names[new@.active] == old@.names[old@.active],
        remove.line_index as int > old@.active ==> new@.active == old@.active,
        remove.line_index as int <= old@.active ==> new@.active == old@.active - 1,
        effects == seq![crate::app_state::UiEffect::ShowList { index: new@.active as usize }],
{
}

/// `doc` with the value of set `pi` of line `li` of list `list` replaced by `value`.
pub open spec fn with_saved_value(
    doc: Seq<ItemListView>,
    list: int,
    li: int,
    pi: int,
    value: Seq<char>,
) -> Seq<ItemListView> {
    let l = doc[list];
    let line = l.lines[li];
    let set = line.data[pi];
    doc.update(
        list,
        ItemListView {
            name: l.name,
            lines: l.lines.update(
                li,
                ItemLineView {
                    title: line.title,
                    data: line.data.update(pi, ItemSetView { key: set.key, value, unit: set.unit }),
                },
            ),
        },
    )
}

/// Editing a field changes, of the document that would be saved, exactly that field's
/// value.
pub proof fn law_edit_then_save(state: AppState, li: int, pi: int, value: Seq<char>)
    requires
        state.wf(),
        0 <= li < state@.lists[state@.active].key_data.len(),
        0 <= pi < state@.lists[state@.active].key_data[li].len(),
    ensures
        document_of(value_changed_view(state@, state.schemas, li, pi, value)) == with_saved_value(
            document_of(state@),
            state@.active,
            li,
            pi,
            value,
        ),
{
    let v = state@;
    let a = v.active;
    let w = value_changed_view(v, state.schemas, li, pi, value);
    let want = with_saved_value(document_of(v), a, li, pi, value);
    assert(list_wf(v.lists[a]));
    assert forall|i: int| 0 <= i < v.lists.len() implies #[trigger] document_of(w)[i] == want[i] by {
        if i == a {
            assert forall|j: int| 0 <= j < v.lists[a].key_data.len() implies #[trigger] document_of(w)[i].lines[j]
                == want[i].lines[j] by {
                if j == li {
                    assert(document_of(w)[i].lines[j].data =~= want[i].lines[j].data);
                }
            }
            assert(document_of(w)[i].lines =~= want[i].lines);
        }
    }
    assert(document_of(w) =~= want);
}

/// Loading right after saving gives the saved lists back: the same lists, names, line
/// titles and fields, every line valid and the first list shown, when each saved line
/// lists its fields in display order (as lines made by the editor do).
pub proof fn law_load_after_save(state: AppState, data: ItemData)
    requires
        data@ == document_of(state@),
        forall|i: int, j: int|
            0 <= i < data.lists@.len() && 0 <= j < data.lists@[i].lines@.len() ==> #[trigger] ordered_sets(
                state.schemas.elements.spec_get(data.lists@[i].lines@[j].title@),
                data.lists@[i].lines@[j].data@,
            ) == data.lists@[i].lines@[j].data@,
    ensures
        document_of(loaded_view(data, state.schemas)) == document_of(state@),
        loaded_view(data, state.schemas).lists.len() == state@.lists.len(),
        loaded_view(data, state.schemas).active == 0,
        forall|i: int, j: int|
            0 <= i < loaded_view(data, state.schemas).lists.len() && 0 <= j < loaded_view(
                data,
                state.schemas,
            ).lists[i].lines.len() ==> (#[trigger] loaded_view(data, state.schemas).lists[i].lines[j]).state
                == LineState::Valid,
{
    law_save_after_load(data, state.schemas);
    assert(data@.len() == data.lists@.len());
    assert(document_of(state@).len() == state@.lists.len());
}

} // verus!
