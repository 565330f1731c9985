use domain::dto::lists::{
    ItemLineDto, ItemListDto, ItemSetDto, ListsFileDto, ListsFilePropertiesDto,
    DEFAULT_LISTS_DESCRIPTION, DEFAULT_LISTS_TITLE,
};
use domain::models::model::{ItemData, ItemLine, ItemList, ItemSet};

#[test]
fn maps_wrapped_lists_file_to_domain() {
    let dto = ListsFileDto {
        title: DEFAULT_LISTS_TITLE.into(),
        description: DEFAULT_LISTS_DESCRIPTION.into(),
        properties: ListsFilePropertiesDto {
            lists: vec![ItemListDto {
                name: "own".into(),
                lines: vec![ItemLineDto {
                    element: "Button".into(),
                    data: vec![ItemSetDto {
                        key: "label".into(),
                        value: "ok".into(),
                        unit: String::new(),
                    }],
                }],
            }],
        },
    };

    let data: ItemData = dto.into();
    assert_eq!(data.lists.len(), 1);
    assert_eq!(data.lists[0].lines[0].title, "Button");
}

#[test]
fn maps_domain_to_wrapped_lists_file() {
    let data = ItemData {
        lists: vec![ItemList {
            name: "own".into(),
            lines: vec![ItemLine {
                title: "Container".into(),
                data: vec![ItemSet {
                    key: "width".into(),
                    value: "2".into(),
                    unit: "px".into(),
                }],
            }],
        }],
    };

    let dto = ListsFileDto::from(&data);
    assert_eq!(dto.title, DEFAULT_LISTS_TITLE);
    assert_eq!(dto.properties.lists[0].lines[0].data[0].unit, "px");
}

#[test]
fn lists_file_round_trip_keeps_every_field() {
    let data = ItemData {
        lists: vec![
            ItemList {
                name: "own".into(),
                lines: vec![
                    ItemLine {
                        title: "Container".into(),
                        data: vec![
                            ItemSet { key: "width".into(), value: "2".into(), unit: "px".into() },
                            ItemSet { key: "height".into(), value: "3.5".into(), unit: "em".into() },
                        ],
                    },
                    ItemLine { title: "Button".into(), data: vec![] },
                ],
            },
            ItemList { name: "second".into(), lines: vec![] },
        ],
    };
    let dto = ListsFileDto::from(&data);
    assert_eq!(dto.description, DEFAULT_LISTS_DESCRIPTION);
    assert_eq!(dto.properties.lists[0].lines[0].element, "Container");
    let back: ItemData = dto.into();
    assert_eq!(back.lists.len(), 2);
    assert_eq!(back.lists[0].name, "own");
    assert_eq!(back.lists[1].name, "second");
    assert_eq!(back.lists[0].lines.len(), 2);
    assert_eq!(back.lists[0].lines[0].data[1].key, "height");
    assert_eq!(back.lists[0].lines[0].data[1].value, "3.5");
    assert_eq!(back.lists[0].lines[0].data[1].unit, "em");
    assert_eq!(back.lists[0].lines[1].title, "Button");
}
