use contextpad::dialog::dialog_filters;

#[test]
fn filter_table_has_the_fixed_groups_in_order() {
    let filters = dialog_filters();
    let names: Vec<String> = filters.iter().map(|f| f.name.clone()).collect();
    assert_eq!(
        names,
        vec![
            "All Files".to_string(),
            "Markdown".to_string(),
            "Text".to_string(),
            "JSON".to_string(),
            "YAML".to_string(),
            "CSV".to_string(),
            "JavaScript".to_string(),
            "TypeScript".to_string(),
            "Python".to_string(),
            "Rust".to_string(),
            "HTML".to_string(),
            "CSS".to_string(),
        ]
    );
}

#[test]
fn filter_extension_sets_match_their_groups() {
    let filters = dialog_filters();
    assert_eq!(filters[0].extensions, vec!["*".to_string()]);
    assert_eq!(filters[1].extensions, vec!["md".to_string()]);
    assert_eq!(filters[4].extensions, vec!["yaml".to_string(), "yml".to_string()]);
    assert_eq!(filters[6].extensions, vec!["js".to_string(), "jsx".to_string()]);
    assert_eq!(filters[7].extensions, vec!["ts".to_string(), "tsx".to_string()]);
    assert_eq!(filters[10].extensions, vec!["html".to_string(), "htm".to_string()]);
    assert_eq!(
        filters[11].extensions,
        vec!["css".to_string(), "scss".to_string(), "sass".to_string()]
    );
}
