use beatcraft_editor::menu::pad_menu_text;

#[test]
fn menu_labels_padded_to_widest() {
    let mut items = vec![
        ("File".to_string(), None),
        ("Save".to_string(), Some("Ctrl+S".to_string())),
        ("Export all".to_string(), None),
    ];
    pad_menu_text(&mut items);
    assert_eq!(items[0].0, "File       \u{2502}");
    assert_eq!(items[1].0, "Save       \u{2502} [Ctrl+S]");
    assert_eq!(items[2].0, "Export all \u{2502}");
    assert_eq!(items[1].1.as_deref(), Some("Ctrl+S"));
}

#[test]
fn menu_width_counts_bytes() {
    let mut items = vec![("Über".to_string(), None), ("abc".to_string(), None)];
    pad_menu_text(&mut items);
    assert_eq!(items[0].0, "Über  \u{2502}");
    assert_eq!(items[1].0, "abc   \u{2502}");
}

#[test]
fn menu_empty_list() {
    let mut items: Vec<(String, Option<String>)> = Vec::new();
    pad_menu_text(&mut items);
    assert!(items.is_empty());
}
