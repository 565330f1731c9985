use vstd::prelude::*;

verus! {

/// One field of a line: its key, its value as text, and its unit (empty when it has none).
pub struct ItemSet {
    pub key: String,
    pub value: String,
    pub unit: String,
}

/// One line of a list: the element it describes and its fields.
pub struct ItemLine {
    pub title: String,
    pub data: Vec<ItemSet>,
}

/// A named list of lines.
pub struct ItemList {
    pub name: String,
    pub lines: Vec<ItemLine>,
}

/// All lists of a document.
pub struct ItemData {
    pub lists: Vec<ItemList>,
}

/// The texts of an [`ItemSet`].
pub struct ItemSetView {
    pub key: Seq<char>,
    pub value: Seq<char>,
    pub unit: Seq<char>,
}

/// The texts of an [`ItemLine`].
pub struct ItemLineView {
    pub title: Seq<char>,
    pub data: Seq<ItemSetView>,
}

/// The texts of an [`ItemList`].
pub struct ItemListView {
    pub name: Seq<char>,
    pub lines: Seq<ItemLineView>,
}

impl View for ItemSet {
    type V = ItemSetView;

    open spec fn view(&self) -> ItemSetView {
        ItemSetView { key: self.key@, value: self.value@, unit: self.unit@ }
    }
}

/// The views of a sequence of sets.
pub open spec fn sets_view(s: Seq<ItemSet>) -> Seq<ItemSetView> {
    s.map_values(|x: ItemSet| x@)
}

impl View for ItemLine {
    type V = ItemLineView;

    open spec fn view(&self) -> ItemLineView {
        ItemLineView { title: self.title@, data: sets_view(self.data@) }
    }
}

/// The views of a sequence of lines.
pub open spec fn lines_view(s: Seq<ItemLine>) -> Seq<ItemLineView> {
    s.map_values(|x: ItemLine| x@)
}

impl View for ItemList {
    type V = ItemListView;

    open spec fn view(&self) -> ItemListView {
        ItemListView { name: self.name@, lines: lines_view(self.lines@) }
    }
}

/// The views of a sequence of lists.
pub open spec fn lists_view(s: Seq<ItemList>) -> Seq<ItemListView> {
    s.map_values(|x: ItemList| x@)
}

impl View for ItemData {
    type V = Seq<ItemListView>;

    open spec fn view(&self) -> Seq<ItemListView> {
        lists_view(self.lists@)
    }
}

/// The position of the first set of `data` whose key is `key`, if any.
pub open spec fn first_set_with_key(data: Seq<ItemSet>, key: Seq<char>) -> Option<int> {
    if exists|i: int| 0 <= i < data.len() && data[i].key@ == key {
        Some(
            choose|i: int|
                0 <= i < data.len() && data[i].key@ == key && forall|j: int|
                    0 <= j < i ==> data[j].key@ != key,
        )
    } else {
        None
    }
}

/// The position of the first set of `data` whose key is `key`.
pub fn find_set_index(data: &Vec<ItemSet>, key: &str) -> (r: Option<usize>)
    ensures
        match r {
            Some(i) => i < data.len() && data@[i as int].key@ == key@ && first_set_with_key(data@, key@)
                == Some(i as int),
            None => first_set_with_key(data@, key@) is None,
        },
{
    let mut i: usize = 0;
    while i < data.len()
        invariant
            i <= data.len(),
            forall|j: int| 0 <= j < i ==> data@[j].key@ != key@,
        decreases data.len() - i,
    {
        if crate::text::str_eq(data[i].key.as_str(), key) {
            proof {
                assert(exists|k: int| 0 <= k < data@.len() && data@[k].key@ == key@) by {
                    assert(data@[i as int].key@ == key@);
                }
                let k = choose|k: int|
                    0 <= k < data@.len() && data@[k].key@ == key@ && forall|j: int|
                        0 <= j < k ==> data@[j].key@ != key@;
                assert(data@[i as int].key@ == key@);
                if k < i {
                    assert(data@[k].key@ != key@);
                }
                if k > i {
                    assert(data@[i as int].key@ != key@);
                }
                assert(k == i);
            }
            return Some(i);
        }
        i += 1;
    }
    assert(!exists|k: int| 0 <= k < data@.len() && data@[k].key@ == key@);
    None
}

/// Finds the first set of `line` whose key is `key`.
pub fn find_set<'a>(line: &'a ItemLine, key: &str) -> (r: Option<&'a ItemSet>)
    ensures
        match first_set_with_key(line.data@, key@) {
            Some(i) => r == Some(&line.data@[i]),
            None => r is None,
        },
{
    match find_set_index(&line.data, key) {
        Some(i) => Some(&line.data[i]),
        None => None,
    }
}

} // verus!
