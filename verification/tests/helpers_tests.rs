use mew_desktop::file_tree::{
    collect_file_tree_rows, file_tree_row_count, file_tree_rows_in_range, DirEntry, DirListing,
};

#[test]
fn file_tree_visible_ranges_match_flattened_rows() {
    let entries = vec![
        DirListing {
            dir: String::new(),
            entries: vec![
                DirEntry {
                    name: "src".into(),
                    is_dir: true,
                    size: None,
                },
                DirEntry {
                    name: "README.md".into(),
                    is_dir: false,
                    size: Some(1),
                },
            ],
        },
        DirListing {
            dir: "src".into(),
            entries: vec![DirEntry {
                name: "main.rs".into(),
                is_dir: false,
                size: Some(2),
            }],
        },
    ];
    let expanded = vec!["src".to_owned()];
    let flattened = collect_file_tree_rows(&entries, &expanded);

    assert_eq!(file_tree_row_count(&entries, &expanded), flattened.len());
    assert_eq!(
        file_tree_rows_in_range(&entries, &expanded, 1..3),
        flattened[1..3].to_vec()
    );
    assert!(file_tree_rows_in_range(&entries, &expanded, 3..5).is_empty());
}

#[test]
fn file_tree_row_count_of_a_small_tree() {
    let entry = |name: &str, is_dir: bool| DirEntry { name: name.into(), is_dir, size: None };
    let entries = vec![
        DirListing { dir: String::new(), entries: vec![entry("src", true), entry("README.md", false)] },
        DirListing { dir: "src".into(), entries: vec![entry("main.rs", false)] },
    ];
    assert_eq!(file_tree_row_count(&entries, &vec!["src".to_owned()]), 3);
    assert_eq!(collect_file_tree_rows(&entries, &vec!["src".to_owned()]).len(), 3);
    assert_eq!(file_tree_row_count(&entries, &Vec::new()), 2);
}
