use domain::file_browser::{sort_entries, FileEntry};

fn entry(name: &str, is_dir: bool) -> FileEntry {
    FileEntry { name: name.to_string(), is_dir }
}

#[test]
fn lists_directories_first_then_files_by_name() {
    let entries = vec![
        entry("b.json", false),
        entry("src", true),
        entry("a.json", false),
        entry("Zeta", true),
        entry("assets", true),
        entry("B.json", false),
    ];
    let sorted = sort_entries(entries);
    let names: Vec<(&str, bool)> = sorted.iter().map(|e| (e.name.as_str(), e.is_dir)).collect();
    assert_eq!(
        names,
        vec![
            ("Zeta", true),
            ("assets", true),
            ("src", true),
            ("B.json", false),
            ("a.json", false),
            ("b.json", false),
        ]
    );
    assert!(sort_entries(Vec::new()).is_empty());
}
