use vstd::prelude::*;

use crate::app_state::editing::Action;
use crate::app_state::{list_wf, row_view, AppState, AppStateView, KeyDataView, ListView, UiEffect};
use crate::text::{chars_of, decimal_digits, string_from_chars, usize_to_string};

verus! {

// ---------------------------------------------------------------------------
// Lists
// ---------------------------------------------------------------------------

/// Switching lists: a list that exists becomes the shown one; any other index changes
/// nothing.
pub open spec fn switch_list_post(old: AppState, new: AppState, action: Action, effects: Seq<UiEffect>) -> bool {
    let n = action.line_index as int;
    if 0 <= n < old@.lists.len() {
        new@ == AppStateView { active: n, ..old@ } && effects == seq![UiEffect::ShowLines { index: n as usize }]
    } else {
        new@ == old@ && effects.len() == 0
    }
}

/// The name of the list added when there are `count` lists: `list ` and the count.
pub open spec fn new_list_name(count: nat) -> Seq<char> {
    seq!['l', 'i', 's', 't', ' '] + decimal_digits(count)
}

/// An empty list.
pub open spec fn empty_list() -> ListView {
    ListView { lines: Seq::empty(), key_data: Seq::empty() }
}

/// Adding a list: an empty list named after the number of lists before it is appended and
/// shown, and the focus goes to the toolbar.
pub open spec fn add_list_post(old: AppState, new: AppState, effects: Seq<UiEffect>) -> bool {
    let count = old@.lists.len();
    &&& new@ == AppStateView {
        lists: old@.lists.push(empty_list()),
        names: old@.names.push(new_list_name(count)),
        active: count as int,
    }
    &&& effects == seq![UiEffect::ShowList { index: count as usize }, UiEffect::FocusToolbar]
}

/// The shown list after list `idx` is removed while list `current` is shown.
pub open spec fn active_after_removal(current: int, idx: int) -> int {
    if current >= idx && current > 0 {
        current - 1
    } else {
        current
    }
}

/// Removing a list: the first list stays, and so does any index that is no list;
/// otherwise the list and its name go, and the shown index moves down when it was at or
/// after the removed one.
pub open spec fn remove_list_post(old: AppState, new: AppState, action: Action, effects: Seq<UiEffect>) -> bool {
    let idx = action.line_index as int;
    if idx <= 0 || idx >= old@.lists.len() {
        new@ == old@ && effects.len() == 0
    } else {
        let a = active_after_removal(old@.active, idx);
        &&& new@ == AppStateView { lists: old@.lists.remove(idx), names: old@.names.remove(idx), active: a }
        &&& effects == seq![UiEffect::ShowList { index: a as usize }]
    }
}

/// The list shown after cycling forward or backward from `current` among `count` lists.
pub open spec fn cycled_index(current: int, count: int, forward: bool) -> int {
    if forward {
        (current + 1) % count
    } else if current == 0 {
        count - 1
    } else {
        current - 1
    }
}

/// The last row that has fields, if any.
pub open spec fn last_nonempty_row(rows: Seq<Seq<KeyDataView>>) -> Option<int>
    decreases rows.len(),
{
    if rows.len() == 0 {
        None
    } else if rows.last().len() > 0 {
        Some(rows.len() - 1)
    } else {
        last_nonempty_row(rows.drop_last())
    }
}

/// The effect that focuses the last field of a list, or the button that adds a list when
/// the list has no field.
pub open spec fn focus_last_effect(l: ListView) -> UiEffect {
    match last_nonempty_row(l.key_data) {
        Some(li) => UiEffect::FocusField {
            target: Some((li as usize, (l.key_data[li].len() - 1) as usize)),
        },
        None => UiEffect::FocusAddList,
    }
}

/// Cycling lists: the next (or previous, wrapping around) list is shown and its last
/// field focused.
pub open spec fn cycle_post(old: AppState, new: AppState, forward: bool, effects: Seq<UiEffect>) -> bool {
    let next = cycled_index(old@.active, old@.lists.len() as int, forward);
    &&& new@ == AppStateView { active: next, ..old@ }
    &&& effects == seq![UiEffect::ShowList { index: next as usize }, focus_last_effect(old@.lists[next])]
}

// ---------------------------------------------------------------------------
// Moving between fields
// ---------------------------------------------------------------------------

/// The (line, field) positions of the fields of `rows`, line by line.
pub open spec fn field_positions(rows: Seq<Seq<KeyDataView>>) -> Seq<(int, int)>
    decreases rows.len(),
{
    if rows.len() == 0 {
        Seq::empty()
    } else {
        field_positions(rows.drop_last()) + Seq::new(rows.last().len(), |k: int| ((rows.len() - 1) as int, k))
    }
}

/// The first index of `cur` in `ps`, if it occurs.
pub open spec fn first_index_of(ps: Seq<(int, int)>, cur: (int, int)) -> Option<int>
    decreases ps.len(),
{
    if ps.len() == 0 {
        None
    } else {
        match first_index_of(ps.drop_last(), cur) {
            Some(p) => Some(p),
            None => if ps.last() == cur {
                Some(ps.len() - 1)
            } else {
                None
            },
        }
    }
}

/// The focus effect for a position.
pub open spec fn focus_at(p: (int, int)) -> UiEffect {
    UiEffect::FocusField { target: Some((p.0 as usize, p.1 as usize)) }
}

/// Moving the focus from the field (`line`, `field`) of the shown list to the next (or
/// previous) field; a field that is not there counts as the first. Past the last field
/// the focus goes to the toolbar; before the first it wraps to the last. A list without
/// fields changes nothing.
pub open spec fn relative_focus_post(
    old: AppState,
    new: AppState,
    action: Action,
    forward: bool,
    effects: Seq<UiEffect>,
) -> bool {
    let ps = field_positions(old@.lists[old@.active].key_data);
    let cur = (action.line_index as int, action.key_data_index as int);
    let ci = match first_index_of(ps, cur) {
        Some(p) => p,
        None => 0,
    };
    &&& new@ == old@
    &&& if ps.len() == 0 {
        effects.len() == 0
    } else if forward {
        if ci + 1 >= ps.len() {
            effects == seq![UiEffect::FocusToolbar]
        } else {
            effects == seq![focus_at(ps[ci + 1])]
        }
    } else if ci == 0 {
        effects == seq![focus_at(ps[ps.len() - 1])]
    } else {
        effects == seq![focus_at(ps[ci - 1])]
    }
}

/// The positions of a sequence of index pairs.
pub open spec fn pairs_view(s: Seq<(usize, usize)>) -> Seq<(int, int)> {
    Seq::new(s.len(), |i: int| (s[i].0 as int, s[i].1 as int))
}

proof fn lemma_field_positions_step(rows: Seq<Seq<KeyDataView>>, j: int)
    requires
        0 <= j < rows.len(),
    ensures
        field_positions(rows.take(j + 1)) == field_positions(rows.take(j)) + Seq::new(
            rows[j].len(),
            |k: int| (j, k),
        ),
{
    let t = rows.take(j + 1);
    assert(t.drop_last() =~= rows.take(j));
    assert(t.last() == rows[j]);
    assert(Seq::new(t.last().len(), |k: int| ((t.len() - 1) as int, k)) =~= Seq::new(
        rows[j].len(),
        |k: int| (j, k),
    ));
}

proof fn lemma_first_index_of_step(ps: Seq<(int, int)>, cur: (int, int), p: int)
    requires
        0 <= p < ps.len(),
    ensures
        first_index_of(ps.take(p + 1), cur) == match first_index_of(ps.take(p), cur) {
            Some(q) => Some(q),
            None => if ps[p] == cur {
                Some(p)
            } else {
                None
            },
        },
{
    let t = ps.take(p + 1);
    assert(t.drop_last() =~= ps.take(p));
}

impl AppState {
    fn positions_of_shown(&self) -> (r: Vec<(usize, usize)>)
        requires
            self.wf(),
        ensures
            pairs_view(r@) == field_positions(self@.lists[self@.active].key_data),
    {
        let ghost rows = self@.lists[self@.active].key_data;
        let list = &self.lists[self.active_list_idx];
        assert(rows == Seq::new(list.key_data@.len(), |i: int| row_view(list.key_data@[i]@)));
        let mut out: Vec<(usize, usize)> = Vec::new();
        let mut j: usize = 0;
        while j < list.key_data.len()
            invariant
                j <= list.key_data.len(),
                rows.len() == list.key_data@.len(),
                forall|i: int| 0 <= i < rows.len() ==> #[trigger] rows[i].len() == list.key_data@[i]@.len(),
                pairs_view(out@) == field_positions(rows.take(j as int)),
            decreases list.key_data.len() - j,
        {
            let ghost start = pairs_view(out@);
            let n = list.key_data[j].len();
            assert(rows[j as int].len() == n);
            let mut k: usize = 0;
            while k < n
                invariant
                    k <= n,
                    pairs_view(out@) == start + Seq::new(k as nat, |x: int| (j as int, x)),
                decreases n - k,
            {
                let ghost prev = pairs_view(out@);
                out.push((j, k));
                assert(pairs_view(out@) =~= prev.push((j as int, k as int)));
                k += 1;
                assert(pairs_view(out@) =~= start + Seq::new(k as nat, |x: int| (j as int, x)));
            }
            proof {
                lemma_field_positions_step(rows, j as int);
            }
            j += 1;
            assert(pairs_view(out@) =~= field_positions(rows.take(j as int)));
        }
        assert(rows.take(j as int) =~= rows);
        out
    }

    /// Moves the focus to the next (`forward`) or previous field of the shown list (see
    /// [`relative_focus_post`]).
    pub fn focus_relative_field(&self, action: &Action, forward: bool) -> (effects: Vec<UiEffect>)
        requires
            self.wf(),
        ensures
            relative_focus_post(*self, *self, *action, forward, effects@),
    {
        let positions = self.positions_of_shown();
        let ghost ps = pairs_view(positions@);
        let ghost cur = (action.line_index as int, action.key_data_index as int);
        let mut effects: Vec<UiEffect> = Vec::new();
        if positions.len() == 0 {
            return effects;
        }
        let mut found: Option<usize> = None;
        let mut p: usize = 0;
        while p < positions.len()
            invariant
                p <= positions.len(),
                ps == pairs_view(positions@),
                cur == (action.line_index as int, action.key_data_index as int),
                match found {
                    Some(q) => q < p && first_index_of(ps, cur) == Some(q as int),
                    None => first_index_of(ps.take(p as int), cur) is None,
                },
            decreases positions.len() - p,
        {
            if found.is_none() {
                let (l, k) = positions[p];
                assert(ps[p as int] == (l as int, k as int));
                proof {
                    lemma_first_index_of_step(ps, cur, p as int);
                }
                if action.line_index >= 0 && action.key_data_index >= 0 && l == action.line_index as usize && k
                    == action.key_data_index as usize {
                    found = Some(p);
                    proof {
                        assert(ps[p as int] == cur);
                        lemma_first_index_of_prefix(ps, cur, (p + 1) as int);
                    }
                } else {
                    assert(ps[p as int] != cur);
                }
            }
            p += 1;
        }
        proof {
            if found is None {
                assert(ps.take(p as int) =~= ps);
            }
        }
        let ci: usize = match found {
            Some(q) => q,
            None => 0,
        };
        if forward {
            if ci + 1 >= positions.len() {
                effects.push(UiEffect::FocusToolbar);
            } else {
                let (l, k) = positions[ci + 1];
                effects.push(UiEffect::FocusField { target: Some((l, k)) });
            }
        } else if ci == 0 {
            let (l, k) = positions[positions.len() - 1];
            effects.push(UiEffect::FocusField { target: Some((l, k)) });
        } else {
            let (l, k) = positions[ci - 1];
            effects.push(UiEffect::FocusField { target: Some((l, k)) });
        }
        effects
    }

    fn focus_last_field_in_list(&self, list_idx: usize) -> (effect: UiEffect)
        requires
            self.wf(),
            list_idx < self@.lists.len(),
        ensures
            effect == focus_last_effect(self@.lists[list_idx as int]),
    {
        let ghost rows = self@.lists[list_idx as int].key_data;
        let list = &self.lists[list_idx];
        let mut j: usize = list.key_data.len();
        assert(rows.take(j as int) =~= rows);
        while j > 0
            invariant
                j <= list.key_data.len(),
                list_idx < self@.lists.len(),
                rows == self@.lists[list_idx as int].key_data,
                rows == Seq::new(list.key_data@.len(), |i: int| row_view(list.key_data@[i]@)),
                last_nonempty_row(rows) == last_nonempty_row(rows.take(j as int)),
            decreases j,
        {
            let ghost t = rows.take(j as int);
            assert(t.last() == rows[j - 1]);
            if list.key_data[j - 1].len() > 0 {
                let n = list.key_data[j - 1].len();
                assert(rows[j - 1].len() == n);
                return UiEffect::FocusField { target: Some((j - 1, n - 1)) };
            }
            assert(t.drop_last() =~= rows.take(j - 1));
            j -= 1;
        }
        UiEffect::FocusAddList
    }
}

proof fn lemma_first_index_of_prefix(ps: Seq<(int, int)>, cur: (int, int), n: int)
    requires
        0 <= n <= ps.len(),
        first_index_of(ps.take(n), cur) is Some,
    ensures
        first_index_of(ps, cur) == first_index_of(ps.take(n), cur),
    decreases ps.len() - n,
{
    if n < ps.len() {
        lemma_first_index_of_step(ps, cur, n);
        lemma_first_index_of_prefix(ps, cur, n + 1);
    } else {
        assert(ps.take(n) =~= ps);
    }
}

/// The text of the name of the list added when there are `count` lists.
fn list_name(count: usize) -> (r: String)
    ensures
        r@ == new_list_name(count as nat),
{
    let digits = usize_to_string(count);
    let mut chars: Vec<char> = vec!['l', 'i', 's', 't', ' '];
    let ds = chars_of(digits.as_str());
    let mut i: usize = 0;
    while i < ds.len()
        invariant
            i <= ds.len(),
            chars@ == seq!['l', 'i', 's', 't', ' '] + ds@.take(i as int),
        decreases ds.len() - i,
    {
        chars.push(ds[i]);
        i += 1;
        assert(chars@ =~= seq!['l', 'i', 's', 't', ' '] + ds@.take(i as int));
    }
    assert(ds@.take(i as int) =~= ds@);
    let n = chars.len();
    let r = string_from_chars(&chars, 0, n);
    assert(chars@.subrange(0, n as int) =~= chars@);
    r
}

impl AppState {
    /// Shows another list (see [`switch_list_post`]).
    pub fn handle_switch_list(&mut self, action: &Action) -> (effects: Vec<UiEffect>)
        requires
            old(self).wf(),
        ensures
            final(self).wf(),
            final(self).schemas == old(self).schemas,
            switch_list_post(*old(self), *final(self), *action, effects@),
    {
        let mut effects: Vec<UiEffect> = Vec::new();
        if action.line_index >= 0 && (action.line_index as usize) < self.lists.len() {
            let n = action.line_index as usize;
            self.active_list_idx = n;
            effects.push(UiEffect::ShowLines { index: n });
            assert(effects@ =~= seq![UiEffect::ShowLines { index: n }]);
        }
        effects
    }

    /// Adds an empty list and shows it (see [`add_list_post`]).
    pub fn handle_add_list(&mut self) -> (effects: Vec<UiEffect>)
        requires
            old(self).wf(),
        ensures
            final(self).wf(),
            final(self).schemas == old(self).schemas,
            add_list_post(*old(self), *final(self), effects@),
    {
        let ghost before = self@;
        let count = self.lists.len();
        let name = list_name(count);
        self.lists.push(crate::app_state::ListState { lines: Vec::new(), key_data: Vec::new() });
        self.list_names.push(name);
        self.active_list_idx = count;
        proof {
            let want = AppStateView {
                lists: before.lists.push(empty_list()),
                names: before.names.push(new_list_name(count as nat)),
                active: count as int,
            };
            assert(self@.lists[count as int].lines =~= empty_list().lines);
            assert(self@.lists[count as int].key_data =~= empty_list().key_data);
            assert(self@.lists =~= want.lists);
            assert(self@.names =~= want.names);
            assert forall|i: int| 0 <= i < self@.lists.len() implies list_wf(#[trigger] self@.lists[i]) by {
                if i < count {
                    assert(list_wf(before.lists[i]));
                }
            }
        }
        let mut effects: Vec<UiEffect> = Vec::new();
        effects.push(UiEffect::ShowList { index: count });
        effects.push(UiEffect::FocusToolbar);
        assert(effects@ =~= seq![UiEffect::ShowList { index: count }, UiEffect::FocusToolbar]);
        effects
    }

    /// Removes a list other than the first (see [`remove_list_post`]).
    pub fn handle_remove_list(&mut self, action: &Action) -> (effects: Vec<UiEffect>)
        requires
            old(self).wf(),
        ensures
            final(self).wf(),
            final(self).schemas == old(self).schemas,
            remove_list_post(*old(self), *final(self), *action, effects@),
    {
        let ghost before = self@;
        let mut effects: Vec<UiEffect> = Vec::new();
        if action.line_index <= 0 || (action.line_index as usize) >= self.lists.len() {
            return effects;
        }
        let idx = action.line_index as usize;
        self.lists.remove(idx);
        self.list_names.remove(idx);
        let current = self.active_list_idx;
        let new_active = if current >= idx && current > 0 {
            current - 1
        } else {
            current
        };
        self.active_list_idx = new_active;
        proof {
            assert(self@.lists =~= before.lists.remove(idx as int));
            assert(self@.names =~= before.names.remove(idx as int));
            assert forall|i: int| 0 <= i < self@.lists.len() implies list_wf(#[trigger] self@.lists[i]) by {
                if i < idx {
                    assert(list_wf(before.lists[i]));
                } else {
                    assert(list_wf(before.lists[i + 1]));
                }
            }
        }
        effects.push(UiEffect::ShowList { index: new_active });
        assert(effects@ =~= seq![UiEffect::ShowList { index: new_active }]);
        effects
    }

    /// Shows the next (`forward`) or previous list, wrapping around, and focuses its last
    /// field (see [`cycle_post`]).
    pub fn cycle_list(&mut self, forward: bool) -> (effects: Vec<UiEffect>)
        requires
            old(self).wf(),
        ensures
            final(self).wf(),
            final(self).schemas == old(self).schemas,
            cycle_post(*old(self), *final(self), forward, effects@),
    {
        let count = self.lists.len();
        let current = self.active_list_idx;
        let next = if forward {
            (current + 1) % count
        } else if current == 0 {
            count - 1
        } else {
            current - 1
        };
        self.active_list_idx = next;
        let focus = self.focus_last_field_in_list(next);
        let mut effects: Vec<UiEffect> = Vec::new();
        effects.push(UiEffect::ShowList { index: next });
        effects.push(focus);
        assert(effects@ =~= seq![UiEffect::ShowList { index: next }, focus]);
        effects
    }
}

} // verus!
