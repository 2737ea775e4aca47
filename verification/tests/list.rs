use vpxtool_gui::input::wrap_around;
use vpxtool_gui::list::{
    capitalize_first_letter, display_table_line, generate_table_indices, selection_row_texts,
    SelectedItem,
};
use vpxtool_gui::table::TableEntry;

fn entry(stem: &str, name: Option<&str>, description: Option<&str>) -> TableEntry {
    TableEntry {
        file_stem: Some(stem.to_string()),
        table_name: name.map(|s| s.to_string()),
        table_description: description.map(|s| s.to_string()),
        table_rules: None,
    }
}

#[test]
fn test_lookup_table_indices() {
    assert_eq!(
        generate_table_indices(10, 0),
        [0, 1, 2, 3, 4, 5, 6, 7, 8, 9, 0, 1, 2, 3, 4, 5, 6, 7, 8, 9, 0,]
    );
    assert_eq!(
        generate_table_indices(50, 8),
        [48, 49, 0, 1, 2, 3, 4, 5, 6, 7, 8, 9, 10, 11, 12, 13, 14, 15, 16, 17, 18]
    );
}

#[test]
fn test_wrap() {
    assert_eq!(wrap_around(0, 0), 0);
    assert_eq!(wrap_around(0, 10), 0);
    assert_eq!(wrap_around(10, 0), 0);
    assert_eq!(wrap_around(10, 10), 0);
    assert_eq!(wrap_around(11, 10), 1);
    assert_eq!(wrap_around(-1, 10), 9);
    assert_eq!(wrap_around(-10, 10), 0);
    assert_eq!(wrap_around(-11, 10), 9);
    assert_eq!(wrap_around(-123, 3), 0);
    assert_eq!(wrap_around(91, 9), 1);
}

#[test]
fn window_is_centred_on_the_selection() {
    let indices = generate_table_indices(3, 1);
    assert_eq!(indices[10], 1);
    assert_eq!(indices[9], 0);
    assert_eq!(indices[8], 2);
    assert_eq!(indices[11], 2);
    assert_eq!(indices[12], 0);
}

#[test]
fn window_over_no_tables_is_all_zero() {
    assert_eq!(generate_table_indices(0, 5), [0; 21]);
}

#[test]
fn window_with_one_table_repeats_it() {
    assert_eq!(generate_table_indices(1, 0), [0; 21]);
}

#[test]
fn list_capitalizes_the_first_letter() {
    assert_eq!(capitalize_first_letter("hello"), "Hello");
    assert_eq!(capitalize_first_letter("Hello"), "Hello");
    assert_eq!(capitalize_first_letter("1up"), "1up");
    assert_eq!(capitalize_first_letter("x"), "X");
    assert_eq!(capitalize_first_letter("zé"), "Zé");
    assert_eq!(capitalize_first_letter("élan"), "Élan");
    assert_eq!(capitalize_first_letter("ßa"), "SSa");
}

#[test]
fn list_line_prefers_the_table_name() {
    let table = entry("attack_from_mars", Some("attack from mars"), None);
    assert_eq!(display_table_line(&table), "Attack from mars");
}

#[test]
fn list_line_falls_back_to_the_raw_file_stem() {
    let blank = entry("attack_from_mars", Some("  \t"), None);
    assert_eq!(display_table_line(&blank), "attack_from_mars");
    let missing = entry("medieval", None, None);
    assert_eq!(display_table_line(&missing), "medieval");
}

#[test]
fn list_line_capitalizes_a_non_ascii_name() {
    let table = entry("x", Some("élan vital"), None);
    assert_eq!(display_table_line(&table), "Élan vital");
}

#[test]
fn list_line_keeps_an_empty_stem() {
    let table = entry("", None, None);
    assert_eq!(display_table_line(&table), "");
}

#[test]
fn list_line_keeps_leading_space_of_a_name() {
    let table = entry("x", Some(" spaced"), None);
    assert_eq!(display_table_line(&table), " spaced");
}

#[test]
fn rows_are_empty_without_tables() {
    let rows = selection_row_texts(&Vec::new(), &SelectedItem { index: Some(3) });
    assert_eq!(rows.len(), 21);
    assert!(rows.iter().all(|(a, b)| a.is_empty() && b.is_empty()));
}

#[test]
fn rows_show_the_window_around_the_selection() {
    let tables = vec![
        entry("alpha", Some("alpha"), Some("first")),
        entry("beta", None, None),
        entry("gamma", Some("gamma"), Some("third")),
    ];
    let rows = selection_row_texts(&tables, &SelectedItem { index: Some(0) });
    assert_eq!(rows.len(), 21);
    assert_eq!(rows[10], ("Alpha".to_string(), "first".to_string()));
    assert_eq!(rows[11], ("beta".to_string(), "Description missing".to_string()));
    assert_eq!(rows[9], ("Gamma".to_string(), "third".to_string()));
    let none_selected = selection_row_texts(&tables, &SelectedItem::default());
    assert_eq!(none_selected, rows);
}
