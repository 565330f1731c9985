use vstd::prelude::*;

use crate::models::model::{
    lines_view, lists_view, sets_view, ItemData, ItemLine, ItemLineView, ItemList, ItemListView,
    ItemSet, ItemSetView,
};

verus! {

/// The title written into every saved lists file.
pub const DEFAULT_LISTS_TITLE: &'static str = "Lists";

/// The description written into every saved lists file.
pub const DEFAULT_LISTS_DESCRIPTION: &'static str = "Saved lists data";

/// A lists file: a title, a description and the lists under `properties`.
pub struct ListsFileDto {
    pub title: String,
    pub description: String,
    pub properties: ListsFilePropertiesDto,
}

/// The payload of a lists file.
pub struct ListsFilePropertiesDto {
    pub lists: Vec<ItemListDto>,
}

/// A list as stored in a file.
pub struct ItemListDto {
    pub name: String,
    pub lines: Vec<ItemLineDto>,
}

/// A line as stored in a file: the element it describes and its fields.
pub struct ItemLineDto {
    pub element: String,
    pub data: Vec<ItemSetDto>,
}

/// A field as stored in a file.
pub struct ItemSetDto {
    pub key: String,
    pub value: String,
    pub unit: String,
}

impl View for ItemSetDto {
    type V = ItemSetView;

    open spec fn view(&self) -> ItemSetView {
        ItemSetView { key: self.key@, value: self.value@, unit: self.unit@ }
    }
}

/// The views of a sequence of stored sets.
pub open spec fn set_dtos_view(s: Seq<ItemSetDto>) -> Seq<ItemSetView> {
    s.map_values(|x: ItemSetDto| x@)
}

impl View for ItemLineDto {
    type V = ItemLineView;

    open spec fn view(&self) -> ItemLineView {
        ItemLineView { title: self.element@, data: set_dtos_view(self.data@) }
    }
}

/// The views of a sequence of stored lines.
pub open spec fn line_dtos_view(s: Seq<ItemLineDto>) -> Seq<ItemLineView> {
    s.map_values(|x: ItemLineDto| x@)
}

impl View for ItemListDto {
    type V = ItemListView;

    open spec fn view(&self) -> ItemListView {
        ItemListView { name: self.name@, lines: line_dtos_view(self.lines@) }
    }
}

/// The views of a sequence of stored lists.
pub open spec fn list_dtos_view(s: Seq<ItemListDto>) -> Seq<ItemListView> {
    s.map_values(|x: ItemListDto| x@)
}

impl View for ListsFilePropertiesDto {
    type V = Seq<ItemListView>;

    open spec fn view(&self) -> Seq<ItemListView> {
        list_dtos_view(self.lists@)
    }
}

impl ItemSet {
    /// The set stored as `value`.
    pub fn from_dto(value: &ItemSetDto) -> (r: ItemSet)
        ensures
            r@ == value@,
    {
        ItemSet { key: value.key.clone(), value: value.value.clone(), unit: value.unit.clone() }
    }
}

impl ItemSetDto {
    /// `value` as stored in a file.
    pub fn from_set(value: &ItemSet) -> (r: ItemSetDto)
        ensures
            r@ == value@,
    {
        ItemSetDto { key: value.key.clone(), value: value.value.clone(), unit: value.unit.clone() }
    }
}

impl ItemLine {
    /// The line stored as `value`.
    pub fn from_dto(value: &ItemLineDto) -> (r: ItemLine)
        ensures
            r@ == value@,
    {
        let mut data: Vec<ItemSet> = Vec::new();
        let mut i: usize = 0;
        while i < value.data.len()
            invariant
                i <= value.data.len(),
                data@.len() == i,
                forall|k: int| 0 <= k < i ==> #[trigger] data@[k]@ == value.data@[k]@,
            decreases value.data.len() - i,
        {
            data.push(ItemSet::from_dto(&value.data[i]));
            i += 1;
        }
        assert(sets_view(data@) =~= set_dtos_view(value.data@));
        ItemLine { title: value.element.clone(), data }
    }
}

impl ItemLineDto {
    /// `value` as stored in a file.
    pub fn from_line(value: &ItemLine) -> (r: ItemLineDto)
        ensures
            r@ == value@,
    {
        let mut data: Vec<ItemSetDto> = Vec::new();
        let mut i: usize = 0;
        while i < value.data.len()
            invariant
                i <= value.data.len(),
                data@.len() == i,
                forall|k: int| 0 <= k < i ==> #[trigger] data@[k]@ == value.data@[k]@,
            decreases value.data.len() - i,
        {
            data.push(ItemSetDto::from_set(&value.data[i]));
            i += 1;
        }
        assert(set_dtos_view(data@) =~= sets_view(value.data@));
        ItemLineDto { element: value.title.clone(), data }
    }
}

impl ItemList {
    /// The list stored as `value`.
    pub fn from_dto(value: &ItemListDto) -> (r: ItemList)
        ensures
            r@ == value@,
    {
        let mut lines: Vec<ItemLine> = Vec::new();
        let mut i: usize = 0;
        while i < value.lines.len()
            invariant
                i <= value.lines.len(),
                lines@.len() == i,
                forall|k: int| 0 <= k < i ==> #[trigger] lines@[k]@ == value.lines@[k]@,
            decreases value.lines.len() - i,
        {
            lines.push(ItemLine::from_dto(&value.lines[i]));
            i += 1;
        }
        assert(lines_view(lines@) =~= line_dtos_view(value.lines@));
        ItemList { name: value.name.clone(), lines }
    }
}

impl ItemListDto {
    /// `value` as stored in a file.
    pub fn from_list(value: &ItemList) -> (r: ItemListDto)
        ensures
            r@ == value@,
    {
        let mut lines: Vec<ItemLineDto> = Vec::new();
        let mut i: usize = 0;
        while i < value.lines.len()
            invariant
                i <= value.lines.len(),
                lines@.len() == i,
                forall|k: int| 0 <= k < i ==> #[trigger] lines@[k]@ == value.lines@[k]@,
            decreases value.lines.len() - i,
        {
            lines.push(ItemLineDto::from_line(&value.lines[i]));
            i += 1;
        }
        assert(line_dtos_view(lines@) =~= lines_view(value.lines@));
        ItemListDto { name: value.name.clone(), lines }
    }
}

impl ItemData {
    /// The lists of a lists file; its title and description are not kept.
    pub fn from_lists_file(value: &ListsFileDto) -> (r: ItemData)
        ensures
            r@ == value.properties@,
    {
        let src = &value.properties.lists;
        let mut lists: Vec<ItemList> = Vec::new();
        let mut i: usize = 0;
        while i < src.len()
            invariant
                i <= src.len(),
                lists@.len() == i,
                forall|k: int| 0 <= k < i ==> #[trigger] lists@[k]@ == src@[k]@,
            decreases src.len() - i,
        {
            lists.push(ItemList::from_dto(&src[i]));
            i += 1;
        }
        assert(lists_view(lists@) =~= list_dtos_view(src@));
        ItemData { lists }
    }
}

impl ListsFileDto {
    /// The lists file for `value`: the default title and description, and the lists.
    pub fn from_item_data(value: &ItemData) -> (r: ListsFileDto)
        ensures
            r.title@ == DEFAULT_LISTS_TITLE@,
            r.description@ == DEFAULT_LISTS_DESCRIPTION@,
            r.properties@ == value@,
    {
        let mut lists: Vec<ItemListDto> = Vec::new();
        let mut i: usize = 0;
        while i < value.lists.len()
            invariant
                i <= value.lists.len(),
                lists@.len() == i,
                forall|k: int| 0 <= k < i ==> #[trigger] lists@[k]@ == value.lists@[k]@,
            decreases value.lists.len() - i,
        {
            lists.push(ItemListDto::from_list(&value.lists[i]));
            i += 1;
        }
        assert(list_dtos_view(lists@) =~= lists_view(value.lists@));
        ListsFileDto {
            title: DEFAULT_LISTS_TITLE.to_owned(),
            description: DEFAULT_LISTS_DESCRIPTION.to_owned(),
            properties: ListsFilePropertiesDto { lists },
        }
    }
}

/// Saving a document and reading it back gives the same lists.
pub proof fn law_lists_file_round_trip(data: ItemData, file: ListsFileDto, back: ItemData)
    requires
        file.properties@ == data@,
        back@ == file.properties@,
    ensures
        back@ == data@,
{
}

impl From<ListsFileDto> for ItemData {
    fn from(value: ListsFileDto) -> (r: Self)
        ensures
            r@ == value.properties@,
    {
        ItemData::from_lists_file(&value)
    }
}

impl vstd::std_specs::convert::FromSpecImpl<ListsFileDto> for ItemData {
    open spec fn obeys_from_spec() -> bool {
        false
    }

    open spec fn from_spec(v: ListsFileDto) -> Self {
        vstd::pervasive::arbitrary()
    }
}

impl From<&ItemData> for ListsFileDto {
    fn from(value: &ItemData) -> (r: Self)
        ensures
            r.title@ == DEFAULT_LISTS_TITLE@,
            r.description@ == DEFAULT_LISTS_DESCRIPTION@,
            r.properties@ == value@,
    {
        ListsFileDto::from_item_data(value)
    }
}

impl vstd::std_specs::convert::FromSpecImpl<&ItemData> for ListsFileDto {
    open spec fn obeys_from_spec() -> bool {
        false
    }

    open spec fn from_spec(v: &ItemData) -> Self {
        vstd::pervasive::arbitrary()
    }
}

} // verus!
