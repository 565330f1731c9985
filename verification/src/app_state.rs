use vstd::prelude::*;

pub mod dispatch;
pub mod editing;
pub mod laws;
pub mod navigation;

use crate::key_data::{build_unit_options, spec_unit_options, spec_validate_value_str, validate_value_str, KeyData};
use crate::models::elements::{ElementField, ElementSchema, Schemas};
use crate::models::model::{
    find_set_index, first_set_with_key, sets_view, ItemData, ItemLine, ItemLineView, ItemList, ItemListView, ItemSet,
    ItemSetView,
};
use crate::utility::calculation::LineCalculationRequest;

verus! {

/// The state a line of the editor is in.
#[derive(Debug, Clone, Copy, PartialEq, Eq, Structural)]
pub enum LineState {
    Invalid,
    Valid,
    Running,
    Done,
}

/// A line as the editor shows it: its element and its state.
pub struct LineItem {
    pub title: String,
    pub state: LineState,
}

/// One list of the editor: its lines and, line by line, their editable fields.
pub struct ListState {
    pub lines: Vec<LineItem>,
    pub key_data: Vec<Vec<KeyData>>,
}

/// The editor: the schemas, the lists with their names, and the list being shown.
pub struct AppState {
    pub schemas: Schemas,
    pub lists: Vec<ListState>,
    pub list_names: Vec<String>,
    pub active_list_idx: usize,
}

/// The texts of a [`KeyData`].
pub struct KeyDataView {
    pub key: Seq<char>,
    pub value: Seq<char>,
    pub unit: Seq<char>,
    pub unit_options: Seq<Seq<char>>,
    pub is_valid: bool,
}

impl View for KeyData {
    type V = KeyDataView;

    open spec fn view(&self) -> KeyDataView {
        KeyDataView {
            key: self.key@,
            value: self.value@,
            unit: self.unit@,
            unit_options: Seq::new(self.unit_options@.len(), |i: int| self.unit_options@[i]@),
            is_valid: self.is_valid,
        }
    }
}

/// The texts of a [`LineItem`].
pub struct LineView {
    pub title: Seq<char>,
    pub state: LineState,
}

impl View for LineItem {
    type V = LineView;

    open spec fn view(&self) -> LineView {
        LineView { title: self.title@, state: self.state }
    }
}

/// The texts of a [`ListState`].
pub struct ListView {
    pub lines: Seq<LineView>,
    pub key_data: Seq<Seq<KeyDataView>>,
}

/// The views of a row of fields.
pub open spec fn row_view(row: Seq<KeyData>) -> Seq<KeyDataView> {
    Seq::new(row.len(), |i: int| row[i]@)
}

impl View for ListState {
    type V = ListView;

    open spec fn view(&self) -> ListView {
        ListView {
            lines: Seq::new(self.lines@.len(), |i: int| self.lines@[i]@),
            key_data: Seq::new(self.key_data@.len(), |i: int| row_view(self.key_data@[i]@)),
        }
    }
}

/// The texts of an [`AppState`] apart from its schemas.
pub struct AppStateView {
    pub lists: Seq<ListView>,
    pub names: Seq<Seq<char>>,
    pub active: int,
}

impl View for AppState {
    type V = AppStateView;

    open spec fn view(&self) -> AppStateView {
        AppStateView {
            lists: Seq::new(self.lists@.len(), |i: int| self.lists@[i]@),
            names: Seq::new(self.list_names@.len(), |i: int| self.list_names@[i]@),
            active: self.active_list_idx as int,
        }
    }
}

/// A list whose lines and rows of fields correspond one to one.
pub open spec fn list_wf(l: ListView) -> bool {
    l.lines.len() == l.key_data.len()
}

/// The editor's invariant: at least one list, one name per list, the shown list exists,
/// and each list has one row of fields per line.
pub open spec fn state_wf(v: AppStateView) -> bool {
    &&& v.lists.len() >= 1
    &&& v.names.len() == v.lists.len()
    &&& 0 <= v.active < v.lists.len()
    &&& forall|i: int| 0 <= i < v.lists.len() ==> list_wf(#[trigger] v.lists[i])
}

impl AppState {
    /// The invariant holds.
    pub open spec fn wf(&self) -> bool {
        state_wf(self@)
    }
}

/// What the editor asks its window to do.
pub enum UiEffect {
    /// Make list `index` the active one and show its lines.
    ShowList { index: usize },
    /// Show the lines of list `index` (the active index shown is left as it is).
    ShowLines { index: usize },
    /// Move the focus to a field (`Some((line, field))`), or to no field.
    FocusField { target: Option<(usize, usize)> },
    /// Move the focus to the toolbar.
    FocusToolbar,
    /// Move the focus to the button that adds a list.
    FocusAddList,
    /// Tell the user that validation failed.
    ValidationError,
    /// Open the dialog that asks where to save.
    OpenSaveDialog,
    /// Mark the document as changed or saved.
    SetDirty { dirty: bool },
    /// Close the window.
    Hide,
    /// List the directory at `path`.
    NavigateDir { path: String },
    /// Write `data` to the file at `path`.
    SaveFile { path: String, data: ItemData },
    /// Read the file at `path` and hand its lists to [`AppState::apply_loaded`].
    LoadFile { path: String },
    /// Compute a line.
    Calculate { request: LineCalculationRequest },
}

impl AppState {
    /// The editor as it starts: one empty list called `own`, shown.
    pub fn new(schemas: Schemas) -> (r: AppState)
        ensures
            r.wf(),
            r.schemas == schemas,
            r@.lists == seq![ListView { lines: Seq::empty(), key_data: Seq::empty() }],
            r@.names == seq![seq!['o', 'w', 'n']],
            r@.active == 0,
    {
        let mut lists: Vec<ListState> = Vec::new();
        lists.push(ListState { lines: Vec::new(), key_data: Vec::new() });
        let mut list_names: Vec<String> = Vec::new();
        let mut name = String::new();
        crate::text::push_char(&mut name, 'o');
        crate::text::push_char(&mut name, 'w');
        crate::text::push_char(&mut name, 'n');
        list_names.push(name);
        let r = AppState { schemas, lists, list_names, active_list_idx: 0 };
        proof {
            assert(r@.lists[0].lines =~= Seq::<LineView>::empty());
            assert(r@.lists[0].key_data =~= Seq::<Seq<KeyDataView>>::empty());
            assert(r@.lists =~= seq![ListView { lines: Seq::empty(), key_data: Seq::empty() }]);
            assert(r@.names[0] =~= seq!['o', 'w', 'n']);
            assert(r@.names =~= seq![seq!['o', 'w', 'n']]);
        }
        r
    }
}

// ---------------------------------------------------------------------------
// Line states
// ---------------------------------------------------------------------------

/// The calculation state that a code stands for: 1 is running, 2 is done.
pub open spec fn calc_state_of(code: i32) -> Option<LineState> {
    if code == 1 {
        Some(LineState::Running)
    } else if code == 2 {
        Some(LineState::Done)
    } else {
        None
    }
}

/// `v` with line `line` of list `list` in state `state`.
pub open spec fn with_line_state(v: AppStateView, list: int, line: int, state: LineState) -> AppStateView {
    let l = v.lists[list];
    let lv = l.lines[line];
    AppStateView {
        lists: v.lists.update(
            list,
            ListView { lines: l.lines.update(line, LineView { title: lv.title, state }), ..l },
        ),
        ..v
    }
}

impl AppState {
    /// Puts line `line_idx` of list `list_idx` into the calculation state `calc_state`
    /// (1: running, 2: done); other codes and missing lines change nothing.
    pub fn set_line_calc_state(&mut self, list_idx: usize, line_idx: usize, calc_state: i32)
        requires
            old(self).wf(),
        ensures
            final(self).wf(),
            final(self).schemas == old(self).schemas,
            final(self)@ == (if list_idx < old(self)@.lists.len() && line_idx < old(
                self,
            )@.lists[list_idx as int].lines.len() && calc_state_of(calc_state) is Some {
                with_line_state(old(self)@, list_idx as int, line_idx as int, calc_state_of(calc_state)->0)
            } else {
                old(self)@
            }),
    {
        let new_state = if calc_state == 1 {
            LineState::Running
        } else if calc_state == 2 {
            LineState::Done
        } else {
            return;
        };
        if list_idx >= self.lists.len() || line_idx >= self.lists[list_idx].lines.len() {
            return;
        }
        let ghost before = self@;
        let mut list = self.lists.remove(list_idx);
        let mut line = list.lines.remove(line_idx);
        line.state = new_state;
        list.lines.insert(line_idx, line);
        self.lists.insert(list_idx, list);
        proof {
            let expected = with_line_state(before, list_idx as int, line_idx as int, new_state);
            assert(self@.lists[list_idx as int].lines =~= expected.lists[list_idx as int].lines);
            assert(self@.lists[list_idx as int].key_data =~= expected.lists[list_idx as int].key_data);
            assert(self@.lists =~= expected.lists);
            assert(self@.names =~= expected.names);
            assert(forall|i: int| 0 <= i < self@.lists.len() ==> list_wf(#[trigger] self@.lists[i]));
        }
    }

    /// Whether line `line_idx` of list `list_idx` exists, has fields, and all of them are
    /// valid.
    pub fn line_is_fully_valid(&self, list_idx: usize, line_idx: usize) -> (r: bool)
        requires
            self.wf(),
        ensures
            r == (list_idx < self@.lists.len() && line_idx < self@.lists[list_idx as int].key_data.len()
                && self@.lists[list_idx as int].key_data[line_idx as int].len() > 0 && forall|k: int|
                0 <= k < self@.lists[list_idx as int].key_data[line_idx as int].len()
                    ==> #[trigger] self@.lists[list_idx as int].key_data[line_idx as int][k].is_valid),
    {
        if list_idx >= self.lists.len() {
            return false;
        }
        let list = &self.lists[list_idx];
        if line_idx >= list.key_data.len() {
            return false;
        }
        let row = &list.key_data[line_idx];
        let ghost rv = self@.lists[list_idx as int].key_data[line_idx as int];
        assert(rv == row_view(row@));
        if row.len() == 0 {
            return false;
        }
        let mut k: usize = 0;
        while k < row.len()
            invariant
                k <= row.len(),
                rv == row_view(row@),
                list_idx < self@.lists.len(),
                line_idx < self@.lists[list_idx as int].key_data.len(),
                rv == self@.lists[list_idx as int].key_data[line_idx as int],
                forall|j: int| 0 <= j < k ==> #[trigger] rv[j].is_valid,
            decreases row.len() - k,
        {
            if !row[k].is_valid {
                assert(!rv[k as int].is_valid);
                return false;
            }
            k += 1;
        }
        true
    }
}

// ---------------------------------------------------------------------------
// From the editor to lines and back
// ---------------------------------------------------------------------------

/// The sets that a row of fields stands for.
pub open spec fn row_sets(row: Seq<KeyDataView>) -> Seq<ItemSetView> {
    Seq::new(row.len(), |i: int| ItemSetView { key: row[i].key, value: row[i].value, unit: row[i].unit })
}

/// The line that line `line` of list `l` stands for.
pub open spec fn line_snapshot(l: ListView, line: int) -> ItemLineView {
    ItemLineView { title: l.lines[line].title, data: row_sets(l.key_data[line]) }
}

/// The document that the editor's lists stand for.
pub open spec fn document_of(v: AppStateView) -> Seq<ItemListView> {
    Seq::new(
        v.lists.len(),
        |i: int|
            ItemListView {
                name: v.names[i],
                lines: Seq::new(v.lists[i].key_data.len(), |j: int| line_snapshot(v.lists[i], j)),
            },
    )
}

fn row_to_sets(row: &Vec<KeyData>) -> (r: Vec<ItemSet>)
    ensures
        sets_view(r@) == row_sets(row_view(row@)),
{
    let mut out: Vec<ItemSet> = Vec::new();
    let mut k: usize = 0;
    while k < row.len()
        invariant
            k <= row.len(),
            out@.len() == k,
            forall|j: int|
                0 <= j < k ==> #[trigger] out@[j]@ == (ItemSetView {
                    key: row@[j].key@,
                    value: row@[j].value@,
                    unit: row@[j].unit@,
                }),
        decreases row.len() - k,
    {
        let kd = &row[k];
        out.push(ItemSet { key: kd.key.clone(), value: kd.value.clone(), unit: kd.unit.clone() });
        k += 1;
    }
    assert(sets_view(out@) =~= row_sets(row_view(row@)));
    out
}

impl AppState {
    /// The line that line `line_idx` of list `list_idx` stands for, if that line exists.
    pub fn snapshot_line_for_calc(&self, list_idx: usize, line_idx: usize) -> (r: Option<ItemLine>)
        requires
            self.wf(),
        ensures
            match r {
                Some(line) => list_idx < self@.lists.len() && line_idx < self@.lists[list_idx as int].lines.len()
                    && line@ == line_snapshot(self@.lists[list_idx as int], line_idx as int),
                None => !(list_idx < self@.lists.len() && line_idx < self@.lists[list_idx as int].lines.len()),
            },
    {
        if list_idx >= self.lists.len() {
            return None;
        }
        let list = &self.lists[list_idx];
        assert(list_wf(self@.lists[list_idx as int]));
        if line_idx >= list.lines.len() || line_idx >= list.key_data.len() {
            return None;
        }
        let data = row_to_sets(&list.key_data[line_idx]);
        Some(ItemLine { title: list.lines[line_idx].title.clone(), data })
    }

    /// The document that the editor's lists stand for: each list with its name, and for
    /// each row of fields the line with its title and its sets.
    pub fn to_item_data(&self) -> (r: ItemData)
        requires
            self.wf(),
        ensures
            r@ == document_of(self@),
    {
        let mut lists: Vec<ItemList> = Vec::new();
        let mut i: usize = 0;
        while i < self.lists.len()
            invariant
                self.wf(),
                i <= self.lists.len(),
                lists@.len() == i,
                forall|j: int| 0 <= j < i ==> #[trigger] lists@[j]@ == document_of(self@)[j],
            decreases self.lists.len() - i,
        {
            let list = &self.lists[i];
            assert(list_wf(self@.lists[i as int]));
            let mut lines: Vec<ItemLine> = Vec::new();
            let mut j: usize = 0;
            while j < list.key_data.len()
                invariant
                    self.wf(),
                    i < self.lists.len(),
                    list == &self.lists@[i as int],
                    list_wf(self@.lists[i as int]),
                    j <= list.key_data.len(),
                    lines@.len() == j,
                    forall|k: int| 0 <= k < j ==> #[trigger] lines@[k]@ == line_snapshot(self@.lists[i as int], k),
                decreases list.key_data.len() - j,
            {
                let data = row_to_sets(&list.key_data[j]);
                lines.push(ItemLine { title: list.lines[j].title.clone(), data });
                j += 1;
            }
            let item_list = ItemList { name: self.list_names[i].clone(), lines };
            assert(item_list@.lines =~= document_of(self@)[i as int].lines);
            lists.push(item_list);
            i += 1;
        }
        let r = ItemData { lists };
        assert(r@ =~= document_of(self@));
        r
    }
}

// ---------------------------------------------------------------------------
// Loading a document
// ---------------------------------------------------------------------------

/// For each field of `fields` in order, the first set of `data` with its name, if any.
pub open spec fn schema_ordered_sets(fields: Seq<ElementField>, data: Seq<ItemSet>) -> Seq<ItemSet>
    decreases fields.len(),
{
    if fields.len() == 0 {
        Seq::empty()
    } else {
        let rest = schema_ordered_sets(fields.drop_last(), data);
        match first_set_with_key(data, fields.last().name@) {
            Some(i) => rest.push(data[i]),
            None => rest,
        }
    }
}

/// The sets of `data` whose key is no field of `schema`, in order.
pub open spec fn extra_sets(schema: ElementSchema, data: Seq<ItemSet>) -> Seq<ItemSet>
    decreases data.len(),
{
    if data.len() == 0 {
        Seq::empty()
    } else {
        let rest = extra_sets(schema, data.drop_last());
        if schema.spec_field(data.last().key@) is None {
            rest.push(data.last())
        } else {
            rest
        }
    }
}

/// The sets of a line in display order: with a schema, the schema's fields first (each
/// the first set with that key), then the sets the schema does not know; without one,
/// as they are.
pub open spec fn ordered_sets(schema: Option<ElementSchema>, data: Seq<ItemSet>) -> Seq<ItemSet> {
    match schema {
        None => data,
        Some(s) => schema_ordered_sets(s.spec_fields(), data) + extra_sets(s, data),
    }
}

/// The sets that a sequence of references points to.
pub open spec fn derefs(s: Seq<&ItemSet>) -> Seq<ItemSet> {
    Seq::new(s.len(), |i: int| *s[i])
}

/// The schema that an optional reference points to.
pub open spec fn opt_schema(s: Option<&ElementSchema>) -> Option<ElementSchema> {
    match s {
        Some(x) => Some(*x),
        None => None,
    }
}

fn push_schema_ordered<'a>(fields: &[ElementField], data: &'a Vec<ItemSet>, out: &mut Vec<&'a ItemSet>)
    ensures
        derefs(final(out)@) == derefs(old(out)@) + schema_ordered_sets(fields@, data@),
{
    let ghost start = derefs(out@);
    let mut k: usize = 0;
    while k < fields.len()
        invariant
            k <= fields.len(),
            derefs(out@) == start + schema_ordered_sets(fields@.take(k as int), data@),
        decreases fields.len() - k,
    {
        let ghost prefix = fields@.take(k + 1);
        assert(prefix.drop_last() =~= fields@.take(k as int));
        assert(prefix.last() == fields@[k as int]);
        let ghost before = derefs(out@);
        match find_set_index(data, fields[k].name.as_str()) {
            Some(i) => {
                out.push(&data[i]);
                assert(derefs(out@) =~= before.push(data@[i as int]));
            },
            None => {},
        }
        k += 1;
        assert(derefs(out@) =~= start + schema_ordered_sets(fields@.take(k as int), data@));
    }
    assert(fields@.take(k as int) =~= fields@);
}

fn push_extra_sets<'a>(schema: &ElementSchema, data: &'a Vec<ItemSet>, out: &mut Vec<&'a ItemSet>)
    ensures
        derefs(final(out)@) == derefs(old(out)@) + extra_sets(*schema, data@),
{
    let ghost start = derefs(out@);
    let mut i: usize = 0;
    while i < data.len()
        invariant
            i <= data.len(),
            derefs(out@) == start + extra_sets(*schema, data@.take(i as int)),
        decreases data.len() - i,
    {
        let ghost prefix = data@.take(i + 1);
        assert(prefix.drop_last() =~= data@.take(i as int));
        assert(prefix.last() == data@[i as int]);
        let ghost before = derefs(out@);
        if !schema.contains_field(data[i].key.as_str()) {
            out.push(&data[i]);
            assert(derefs(out@) =~= before.push(data@[i as int]));
        }
        i += 1;
        assert(derefs(out@) =~= start + extra_sets(*schema, data@.take(i as int)));
    }
    assert(data@.take(i as int) =~= data@);
}

/// The sets of a line in display order (see [`ordered_sets`]).
pub fn ordered_sets_for_schema<'a>(schema: Option<&ElementSchema>, data: &'a Vec<ItemSet>) -> (r: Vec<
    &'a ItemSet,
>)
    ensures
        derefs(r@) == ordered_sets(opt_schema(schema), data@),
{
    let mut out: Vec<&ItemSet> = Vec::new();
    match schema {
        None => {
            let mut i: usize = 0;
            while i < data.len()
                invariant
                    i <= data.len(),
                    derefs(out@) == data@.take(i as int),
                decreases data.len() - i,
            {
                let ghost before = derefs(out@);
                out.push(&data[i]);
                assert(derefs(out@) =~= before.push(data@[i as int]));
                assert(data@.take(i + 1) =~= data@.take(i as int).push(data@[i as int]));
                i += 1;
            }
            assert(data@.take(i as int) =~= data@);
        },
        Some(s) => {
            assert(derefs(out@) =~= Seq::<ItemSet>::empty());
            push_schema_ordered(s.fields(), data, &mut out);
            push_extra_sets(s, data, &mut out);
            assert(derefs(out@) =~= ordered_sets(opt_schema(schema), data@));
        },
    }
    out
}

/// The units that field `key` of a line with schema `schema` may take (none without a
/// schema or when the schema has no such field).
pub open spec fn loaded_unit_options(
    schema: Option<ElementSchema>,
    key: Seq<char>,
    units: crate::str_map::StrMap<Vec<String>>,
) -> Seq<Seq<char>> {
    match schema {
        Some(s) => match s.spec_field(key) {
            Some(spec) => spec_unit_options(spec, units),
            None => Seq::empty(),
        },
        None => Seq::empty(),
    }
}

/// The field that a loaded set becomes: its texts, its unit choices, and valid.
pub open spec fn loaded_field(
    set: ItemSet,
    schema: Option<ElementSchema>,
    units: crate::str_map::StrMap<Vec<String>>,
) -> KeyDataView {
    KeyDataView {
        key: set.key@,
        value: set.value@,
        unit: set.unit@,
        unit_options: loaded_unit_options(schema, set.key@, units),
        is_valid: true,
    }
}

/// The row of fields that a loaded line becomes: its sets in display order.
pub open spec fn loaded_row(line: ItemLine, schemas: Schemas) -> Seq<KeyDataView> {
    let schema = schemas.elements.spec_get(line.title@);
    let sets = ordered_sets(schema, line.data@);
    Seq::new(sets.len(), |k: int| loaded_field(sets[k], schema, schemas.units))
}

/// The list that a loaded list becomes: every line valid, with its row of fields.
pub open spec fn loaded_list(list: ItemList, schemas: Schemas) -> ListView {
    ListView {
        lines: Seq::new(
            list.lines@.len(),
            |j: int| LineView { title: list.lines@[j].title@, state: LineState::Valid },
        ),
        key_data: Seq::new(list.lines@.len(), |j: int| loaded_row(list.lines@[j], schemas)),
    }
}

/// The editor after loading `data`: its lists, their names, and the first list shown.
pub open spec fn loaded_view(data: ItemData, schemas: Schemas) -> AppStateView {
    AppStateView {
        lists: Seq::new(data.lists@.len(), |i: int| loaded_list(data.lists@[i], schemas)),
        names: Seq::new(data.lists@.len(), |i: int| data.lists@[i].name@),
        active: 0,
    }
}

fn loaded_row_of(line: &ItemLine, schemas: &Schemas) -> (r: Vec<KeyData>)
    ensures
        row_view(r@) == loaded_row(*line, *schemas),
{
    let schema = schemas.schema_for(line.title.as_str());
    let sets = ordered_sets_for_schema(schema, &line.data);
    let ghost sch = schemas.elements.spec_get(line.title@);
    assert(opt_schema(schema) == sch);
    let ghost want = ordered_sets(sch, line.data@);
    assert(derefs(sets@) == want);
    let mut out: Vec<KeyData> = Vec::new();
    let mut k: usize = 0;
    while k < sets.len()
        invariant
            k <= sets.len(),
            derefs(sets@) == want,
            opt_schema(schema) == sch,
            out@.len() == k,
            forall|j: int|
                0 <= j < k ==> #[trigger] out@[j]@ == loaded_field(want[j], sch, schemas.units),
        decreases sets.len() - k,
    {
        let p = sets[k];
        assert(*p == want[k as int]);
        let unit_options = match schema {
            Some(s) => match s.field(p.key.as_str()) {
                Some(spec) => build_unit_options(spec, &schemas.units),
                None => Vec::new(),
            },
            None => Vec::new(),
        };
        let kd = KeyData {
            key: p.key.clone(),
            value: p.value.clone(),
            unit: p.unit.clone(),
            unit_options,
            is_valid: true,
        };
        assert(kd@.unit_options =~= loaded_unit_options(sch, p.key@, schemas.units));
        out.push(kd);
        k += 1;
    }
    assert(row_view(out@) =~= loaded_row(*line, *schemas));
    out
}

fn loaded_list_of(list: &ItemList, schemas: &Schemas) -> (r: ListState)
    ensures
        r@ == loaded_list(*list, *schemas),
{
    let mut lines: Vec<LineItem> = Vec::new();
    let mut key_data: Vec<Vec<KeyData>> = Vec::new();
    let mut j: usize = 0;
    while j < list.lines.len()
        invariant
            j <= list.lines.len(),
            lines@.len() == j,
            key_data@.len() == j,
            forall|k: int|
                0 <= k < j ==> #[trigger] lines@[k]@ == (LineView {
                    title: list.lines@[k].title@,
                    state: LineState::Valid,
                }),
            forall|k: int| 0 <= k < j ==> row_view(#[trigger] key_data@[k]@) == loaded_row(list.lines@[k], *schemas),
        decreases list.lines.len() - j,
    {
        let line = &list.lines[j];
        key_data.push(loaded_row_of(line, schemas));
        lines.push(LineItem { title: line.title.clone(), state: LineState::Valid });
        j += 1;
    }
    let r = ListState { lines, key_data };
    assert(r@.lines =~= loaded_list(*list, *schemas).lines);
    assert(r@.key_data =~= loaded_list(*list, *schemas).key_data);
    r
}

impl AppState {
    /// Replaces the lists by those of a loaded document and shows the first one. Every
    /// line comes in valid, its fields in display order (see [`ordered_sets`]). A document
    /// without lists changes nothing.
    pub fn apply_loaded(&mut self, data: &ItemData) -> (effects: Vec<UiEffect>)
        requires
            old(self).wf(),
        ensures
            final(self).wf(),
            final(self).schemas == old(self).schemas,
            data.lists@.len() == 0 ==> final(self)@ == old(self)@ && effects@.len() == 0,
            data.lists@.len() > 0 ==> final(self)@ == loaded_view(*data, old(self).schemas) && effects@ == seq![
                UiEffect::ShowList { index: 0 },
                UiEffect::SetDirty { dirty: false },
            ],
    {
        if data.lists.len() == 0 {
            return Vec::new();
        }
        let mut lists: Vec<ListState> = Vec::new();
        let mut names: Vec<String> = Vec::new();
        let mut i: usize = 0;
        while i < data.lists.len()
            invariant
                i <= data.lists.len(),
                lists@.len() == i,
                names@.len() == i,
                forall|k: int| 0 <= k < i ==> #[trigger] lists@[k]@ == loaded_list(data.lists@[k], self.schemas),
                forall|k: int| 0 <= k < i ==> #[trigger] names@[k]@ == data.lists@[k].name@,
            decreases data.lists.len() - i,
        {
            lists.push(loaded_list_of(&data.lists[i], &self.schemas));
            names.push(data.lists[i].name.clone());
            i += 1;
        }
        self.lists = lists;
        self.list_names = names;
        self.active_list_idx = 0;
        proof {
            let want = loaded_view(*data, self.schemas);
            assert(self@.lists =~= want.lists);
            assert(self@.names =~= want.names);
            assert forall|k: int| 0 <= k < self@.lists.len() implies list_wf(#[trigger] self@.lists[k]) by {
                assert(self@.lists[k] == loaded_list(data.lists@[k], self.schemas));
            }
        }
        let mut effects: Vec<UiEffect> = Vec::new();
        effects.push(UiEffect::ShowList { index: 0 });
        effects.push(UiEffect::SetDirty { dirty: false });
        assert(effects@ =~= seq![UiEffect::ShowList { index: 0 }, UiEffect::SetDirty { dirty: false }]);
        effects
    }
}

// ---------------------------------------------------------------------------
// Validating all fields
// ---------------------------------------------------------------------------

/// Whether a field is valid for a line with schema `schema`: a field the schema knows
/// must hold a valid value of its type; any other field must not be empty.
pub open spec fn field_is_valid(kd: KeyDataView, schema: Option<ElementSchema>) -> bool {
    match schema {
        Some(s) => match s.spec_field(kd.key) {
            Some(spec) => spec_validate_value_str(kd.value, spec.ty),
            None => kd.value.len() > 0,
        },
        None => kd.value.len() > 0,
    }
}

/// A row with each field's validity recomputed.
pub open spec fn validated_row(row: Seq<KeyDataView>, schema: Option<ElementSchema>) -> Seq<KeyDataView> {
    Seq::new(row.len(), |k: int| KeyDataView { is_valid: field_is_valid(row[k], schema), ..row[k] })
}

/// Whether every field of a row is marked valid.
pub open spec fn row_valid(row: Seq<KeyDataView>) -> bool {
    forall|k: int| 0 <= k < row.len() ==> #[trigger] row[k].is_valid
}

/// A line after validation: a line that was invalid becomes valid when all its fields
/// are; a running, done or valid line keeps its state.
pub open spec fn validated_line(line: LineView, row: Seq<KeyDataView>, schema: Option<ElementSchema>) -> LineView {
    if line.state == LineState::Invalid {
        LineView {
            title: line.title,
            state: if row_valid(validated_row(row, schema)) {
                LineState::Valid
            } else {
                LineState::Invalid
            },
        }
    } else {
        line
    }
}

/// A list after validation, each line checked against the schema of its element.
pub open spec fn validated_list(l: ListView, schemas: Schemas) -> ListView {
    ListView {
        lines: Seq::new(
            l.lines.len(),
            |j: int| validated_line(l.lines[j], l.key_data[j], schemas.elements.spec_get(l.lines[j].title)),
        ),
        key_data: Seq::new(
            l.key_data.len(),
            |j: int| validated_row(l.key_data[j], schemas.elements.spec_get(l.lines[j].title)),
        ),
    }
}

/// All lists after validation.
pub open spec fn validated_lists(lists: Seq<ListView>, schemas: Schemas) -> Seq<ListView> {
    Seq::new(lists.len(), |i: int| validated_list(lists[i], schemas))
}

/// Whether every field of a list is marked valid.
pub open spec fn list_valid(l: ListView) -> bool {
    forall|j: int| 0 <= j < l.key_data.len() ==> row_valid(#[trigger] l.key_data[j])
}

/// Whether every field of every list is marked valid.
pub open spec fn all_valid(lists: Seq<ListView>) -> bool {
    forall|i: int| 0 <= i < lists.len() ==> list_valid(#[trigger] lists[i])
}

/// Whether field `field` of line `line` of list `list` is the first field marked invalid,
/// in list, line and field order.
pub open spec fn first_invalid(lists: Seq<ListView>, list: int, line: int, field: int) -> bool {
    &&& 0 <= list < lists.len()
    &&& 0 <= line < lists[list].key_data.len()
    &&& 0 <= field < lists[list].key_data[line].len()
    &&& !lists[list].key_data[line][field].is_valid
    &&& forall|i: int| 0 <= i < list ==> list_valid(#[trigger] lists[i])
    &&& forall|j: int| 0 <= j < line ==> row_valid(#[trigger] lists[list].key_data[j])
    &&& forall|k: int| 0 <= k < field ==> #[trigger] lists[list].key_data[line][k].is_valid
}

pub(crate) fn field_validity(kd: &KeyData, schema: Option<&ElementSchema>) -> (r: bool)
    ensures
        r == field_is_valid(kd@, opt_schema(schema)),
{
    match schema {
        Some(s) => match s.field(kd.key.as_str()) {
            Some(spec) => validate_value_str(kd.value.as_str(), spec.ty),
            None => !kd.value.as_str().is_empty(),
        },
        None => !kd.value.as_str().is_empty(),
    }
}

fn validate_row(row: &mut Vec<KeyData>, schema: Option<&ElementSchema>) -> (first: Option<usize>)
    ensures
        row_view(final(row)@) == validated_row(row_view(old(row)@), opt_schema(schema)),
        match first {
            Some(k) => k < final(row)@.len() && !final(row)@[k as int].is_valid && forall|j: int|
                0 <= j < k ==> #[trigger] final(row)@[j].is_valid,
            None => row_valid(row_view(final(row)@)),
        },
{
    let ghost orig = row_view(row@);
    let ghost sch = opt_schema(schema);
    let mut first: Option<usize> = None;
    let mut k: usize = 0;
    while k < row.len()
        invariant
            k <= row.len(),
            row@.len() == orig.len(),
            sch == opt_schema(schema),
            forall|j: int| 0 <= j < k ==> #[trigger] row@[j]@ == validated_row(orig, sch)[j],
            forall|j: int| k <= j < row@.len() ==> #[trigger] row@[j]@ == orig[j],
            match first {
                Some(f) => f < k && !row@[f as int].is_valid && forall|j: int|
                    0 <= j < f ==> #[trigger] row@[j].is_valid,
                None => forall|j: int| 0 <= j < k ==> #[trigger] row@[j].is_valid,
            },
        decreases row.len() - k,
    {
        let valid = field_validity(&row[k], schema);
        let old_kd = row.remove(k);
        row.insert(
            k,
            KeyData {
                key: old_kd.key,
                value: old_kd.value,
                unit: old_kd.unit,
                unit_options: old_kd.unit_options,
                is_valid: valid,
            },
        );
        if !valid && first.is_none() {
            first = Some(k);
        }
        k += 1;
    }
    assert(row_view(row@) =~= validated_row(orig, sch));
    first
}

fn validate_list(list: &mut ListState, schemas: &Schemas) -> (first: Option<(usize, usize)>)
    requires
        list_wf(old(list)@),
    ensures
        final(list)@ == validated_list(old(list)@, *schemas),
        list_wf(final(list)@),
        match first {
            Some((j, k)) => j < final(list)@.key_data.len() && k < final(list)@.key_data[j as int].len()
                && !final(list)@.key_data[j as int][k as int].is_valid && (forall|j2: int|
                0 <= j2 < j ==> row_valid(#[trigger] final(list)@.key_data[j2])) && (forall|k2: int|
                0 <= k2 < k ==> #[trigger] final(list)@.key_data[j as int][k2].is_valid),
            None => list_valid(final(list)@),
        },
{
    let ghost orig = list@;
    let ghost want = validated_list(orig, *schemas);
    let mut first: Option<(usize, usize)> = None;
    let mut j: usize = 0;
    while j < list.key_data.len()
        invariant
            list_wf(orig),
            j <= list.key_data.len(),
            list@.key_data.len() == orig.key_data.len(),
            list@.lines.len() == orig.lines.len(),
            want == validated_list(orig, *schemas),
            forall|i: int| 0 <= i < j ==> #[trigger] list@.key_data[i] == want.key_data[i],
            forall|i: int| 0 <= i < j ==> #[trigger] list@.lines[i] == want.lines[i],
            forall|i: int| j <= i < list@.key_data.len() ==> #[trigger] list@.key_data[i] == orig.key_data[i],
            forall|i: int| j <= i < list@.lines.len() ==> #[trigger] list@.lines[i] == orig.lines[i],
            match first {
                Some((f, g)) => f < j && g < list@.key_data[f as int].len() && !list@.key_data[f as int][g as int].is_valid
                    && (forall|j2: int| 0 <= j2 < f ==> row_valid(#[trigger] list@.key_data[j2])) && (forall|k2: int|
                    0 <= k2 < g ==> #[trigger] list@.key_data[f as int][k2].is_valid),
                None => forall|j2: int| 0 <= j2 < j ==> row_valid(#[trigger] list@.key_data[j2]),
            },
        decreases list.key_data.len() - j,
    {
        assert(list@.lines[j as int] == orig.lines[j as int]);
        assert(list@.key_data[j as int] == orig.key_data[j as int]);
        let ghost before_kd = list@.key_data;
        let ghost before_lines = list@.lines;
        let schema = schemas.schema_for(list.lines[j].title.as_str());
        let mut row = list.key_data.remove(j);
        let f = validate_row(&mut row, schema);
        let row_ok = f.is_none();
        list.key_data.insert(j, row);
        let line = list.lines.remove(j);
        let state = if line.state == LineState::Invalid {
            if row_ok {
                LineState::Valid
            } else {
                LineState::Invalid
            }
        } else {
            line.state
        };
        list.lines.insert(j, LineItem { title: line.title, state });
        proof {
            assert(list@.key_data[j as int] == want.key_data[j as int]);
            if f is Some {
                let k = f->0;
                assert(!row_valid(list@.key_data[j as int])) by {
                    assert(!list@.key_data[j as int][k as int].is_valid);
                }
            }
            assert(list@.lines[j as int] == want.lines[j as int]);
            assert forall|i: int| 0 <= i < list@.key_data.len() && i != j implies #[trigger] list@.key_data[i]
                == before_kd[i] by {}
            assert forall|i: int| 0 <= i < list@.lines.len() && i != j implies #[trigger] list@.lines[i]
                == before_lines[i] by {}
        }
        if first.is_none() {
            match f {
                Some(k) => {
                    first = Some((j, k));
                },
                None => {},
            }
        }
        j += 1;
    }
    proof {
        assert(list@.key_data =~= want.key_data);
        assert(list@.lines =~= want.lines);
    }
    first
}

impl AppState {
    fn validate_all(&mut self) -> (first: Option<(usize, usize, usize)>)
        requires
            old(self).wf(),
        ensures
            final(self).wf(),
            final(self).schemas == old(self).schemas,
            final(self)@ == (AppStateView {
                lists: validated_lists(old(self)@.lists, old(self).schemas),
                ..old(self)@
            }),
            match first {
                Some((i, j, k)) => first_invalid(final(self)@.lists, i as int, j as int, k as int),
                None => all_valid(final(self)@.lists),
            },
    {
        let ghost orig = self@;
        let ghost sch = self.schemas;
        let ghost want = validated_lists(orig.lists, self.schemas);
        let mut first: Option<(usize, usize, usize)> = None;
        let mut i: usize = 0;
        while i < self.lists.len()
            invariant
                state_wf(orig),
                self.schemas == sch,
                i <= self.lists.len(),
                self@.lists.len() == orig.lists.len(),
                self@.names == orig.names,
                self@.active == orig.active,
                want == validated_lists(orig.lists, self.schemas),
                forall|a: int| 0 <= a < i ==> #[trigger] self@.lists[a] == want[a],
                forall|a: int| i <= a < self@.lists.len() ==> #[trigger] self@.lists[a] == orig.lists[a],
                match first {
                    Some((a, b, c)) => a < i && first_invalid(self@.lists, a as int, b as int, c as int),
                    None => forall|a: int| 0 <= a < i ==> list_valid(#[trigger] self@.lists[a]),
                },
            decreases self.lists.len() - i,
        {
            assert(list_wf(orig.lists[i as int]));
            assert(self@.lists[i as int] == orig.lists[i as int]);
            let ghost before = self@.lists;
            let mut list = self.lists.remove(i);
            let f = validate_list(&mut list, &self.schemas);
            self.lists.insert(i, list);
            proof {
                assert(self@.lists[i as int] == want[i as int]);
                assert forall|a: int| 0 <= a < self@.lists.len() && a != i implies #[trigger] self@.lists[a]
                    == before[a] by {}
                if f is Some {
                    let (b, c) = f->0;
                    assert(!list_valid(self@.lists[i as int])) by {
                        assert(!row_valid(self@.lists[i as int].key_data[b as int])) by {
                            assert(!self@.lists[i as int].key_data[b as int][c as int].is_valid);
                        }
                    }
                }
                match first {
                    Some((a, b, c)) => {
                        assert(first_invalid(self@.lists, a as int, b as int, c as int)) by {
                            assert(self@.lists[a as int] == before[a as int]);
                            assert forall|x: int| 0 <= x < a implies list_valid(#[trigger] self@.lists[x]) by {
                                assert(self@.lists[x] == before[x]);
                            }
                        }
                    },
                    None => {},
                }
            }
            if first.is_none() {
                match f {
                    Some((j, k)) => {
                        first = Some((i, j, k));
                    },
                    None => {},
                }
            }
            i += 1;
        }
        proof {
            assert(self@.lists =~= want);
            assert forall|a: int| 0 <= a < self@.lists.len() implies list_wf(#[trigger] self@.lists[a]) by {
                assert(list_wf(orig.lists[a]));
            }
        }
        first
    }

    /// Checks every field of every list against its schema and marks it valid or not; a
    /// line marked invalid becomes valid when all its fields are. Returns whether all
    /// fields are valid, and the effects that move the focus to the first invalid field
    /// (first switching to its list when `allow_list_switch` is set and it is another
    /// list), or to no field when all are valid.
    pub fn validate_all_and_focus(&mut self, allow_list_switch: bool) -> (r: (bool, Vec<UiEffect>))
        requires
            old(self).wf(),
        ensures
            final(self).wf(),
            final(self).schemas == old(self).schemas,
            final(self)@.lists == validated_lists(old(self)@.lists, old(self).schemas),
            final(self)@.names == old(self)@.names,
            r.0 == all_valid(final(self)@.lists),
            r.0 ==> final(self)@.active == old(self)@.active && r.1@ == seq![UiEffect::FocusField { target: None }],
            !r.0 ==> exists|i: int, j: int, k: int| first_invalid(final(self)@.lists, i, j, k),
            forall|i: int, j: int, k: int|
                #[trigger] first_invalid(final(self)@.lists, i, j, k) ==> if allow_list_switch && i != old(
                    self,
                )@.active {
                    &&& final(self)@.active == i
                    &&& r.1@ == seq![
                        UiEffect::ShowList { index: i as usize },
                        UiEffect::FocusField { target: Some((j as usize, k as usize)) },
                    ]
                } else {
                    &&& final(self)@.active == old(self)@.active
                    &&& r.1@ == seq![UiEffect::FocusField { target: Some((j as usize, k as usize)) }]
                },
    {
        let ghost before = self@;
        let first = self.validate_all();
        let mut effects: Vec<UiEffect> = Vec::new();
        match first {
            None => {
                effects.push(UiEffect::FocusField { target: None });
                assert(effects@ =~= seq![UiEffect::FocusField { target: None }]);
                proof {
                    assert forall|i: int, j: int, k: int| !first_invalid(self@.lists, i, j, k) by {
                        if first_invalid(self@.lists, i, j, k) {
                            assert(list_valid(self@.lists[i]));
                            assert(row_valid(self@.lists[i].key_data[j]));
                        }
                    }
                }
                (true, effects)
            },
            Some((i, j, k)) => {
                proof {
                    lemma_first_invalid_unique(self@.lists, i as int, j as int, k as int);
                    assert(!all_valid(self@.lists)) by {
                        assert(!list_valid(self@.lists[i as int])) by {
                            assert(!row_valid(self@.lists[i as int].key_data[j as int])) by {
                                assert(!self@.lists[i as int].key_data[j as int][k as int].is_valid);
                            }
                        }
                    }
                }
                if allow_list_switch && i != self.active_list_idx {
                    self.active_list_idx = i;
                    effects.push(UiEffect::ShowList { index: i });
                }
                effects.push(UiEffect::FocusField { target: Some((j, k)) });
                proof {
                    if allow_list_switch && i != before.active {
                        assert(effects@ =~= seq![
                            UiEffect::ShowList { index: i },
                            UiEffect::FocusField { target: Some((j, k)) },
                        ]);
                    } else {
                        assert(effects@ =~= seq![UiEffect::FocusField { target: Some((j, k)) }]);
                    }
                }
                (false, effects)
            },
        }
    }
}

/// The first invalid field is unique.
pub proof fn lemma_first_invalid_unique(lists: Seq<ListView>, i: int, j: int, k: int)
    requires
        first_invalid(lists, i, j, k),
    ensures
        forall|a: int, b: int, c: int| #[trigger] first_invalid(lists, a, b, c) ==> a == i && b == j && c == k,
{
    assert forall|a: int, b: int, c: int| #[trigger] first_invalid(lists, a, b, c) implies a == i && b == j
        && c == k by {
        if a < i {
            assert(list_valid(lists[a]));
            assert(row_valid(lists[a].key_data[b]));
        } else if i < a {
            assert(list_valid(lists[i]));
            assert(row_valid(lists[i].key_data[j]));
        } else if b < j {
            assert(row_valid(lists[a].key_data[b]));
        } else if j < b {
            assert(row_valid(lists[a].key_data[j]));
        } else if c < k {
            assert(lists[a].key_data[b][c].is_valid);
        } else if k < c {
            assert(lists[a].key_data[b][k].is_valid);
        }
    }
}

} // verus!
