use vpxtool_gui::mediascroller::{
    capitalize_first_letter, circular_signed, display_table_line, slot_table_index,
    try_display_table_line, SelectedItem,
};
use vpxtool_gui::table::TableEntry;

fn entry(stem: &str, name: Option<&str>) -> TableEntry {
    TableEntry {
        file_stem: Some(stem.to_string()),
        table_name: name.map(|s| s.to_string()),
        table_description: None,
        table_rules: None,
    }
}

#[test]
fn circular_steps_take_the_short_way() {
    assert_eq!(circular_signed(0, 9, 10), -1);
    assert_eq!(circular_signed(9, 0, 10), 1);
    assert_eq!(circular_signed(0, 3, 5), -2);
    assert_eq!(circular_signed(3, 0, 5), 2);
    assert_eq!(circular_signed(1, 2, 5), 1);
    assert_eq!(circular_signed(4, 4, 5), 0);
    assert_eq!(circular_signed(0, 0, 1), 0);
}

#[test]
fn circular_half_way_follows_the_direction() {
    assert_eq!(circular_signed(0, 2, 4), 2);
    assert_eq!(circular_signed(2, 0, 4), -2);
    assert_eq!(circular_signed(1, 0, 2), -1);
    assert_eq!(circular_signed(0, 1, 2), 1);
}

#[test]
fn circular_steps_land_on_the_target() {
    for count in 1..12usize {
        for from in 0..count {
            for to in 0..count {
                let d = circular_signed(from, to, count);
                assert!(d.abs() as usize <= count / 2);
                let landed = (from as i64 + d).rem_euclid(count as i64) as usize;
                assert_eq!(landed, to);
            }
        }
    }
}

#[test]
fn slots_show_their_position_modulo_the_count() {
    assert_eq!(slot_table_index(-1, 5), 4);
    assert_eq!(slot_table_index(7, 5), 2);
    assert_eq!(slot_table_index(-10, 5), 0);
    assert_eq!(slot_table_index(0, 3), 0);
    assert_eq!(slot_table_index(i64::MIN, 3), (i64::MIN).rem_euclid(3) as usize);
}

#[test]
fn scroller_name_capitalizes_name_or_stem() {
    assert_eq!(display_table_line(&entry("afm", Some("attack from mars"))), "Attack from mars");
    assert_eq!(display_table_line(&entry("afm", Some("   "))), "Afm");
    assert_eq!(display_table_line(&entry("afm", None)), "Afm");
    assert_eq!(display_table_line(&entry("afm", Some(""))), "Afm");
}

#[test]
fn scroller_name_of_a_non_ascii_name() {
    assert_eq!(display_table_line(&entry("x", Some("élan"))), "Élan");
    assert_eq!(display_table_line(&entry("ödland", None)), "Ödland");
}

#[test]
fn scroller_name_is_refused_only_where_it_cannot_be_written() {
    assert_eq!(try_display_table_line(&entry("", Some(" "))), None);
    assert_eq!(try_display_table_line(&entry("", None)), None);
    assert_eq!(
        try_display_table_line(&entry("", Some("name"))),
        Some("Name".to_string())
    );
    let no_stem = TableEntry {
        file_stem: None,
        table_name: Some("name".to_string()),
        table_description: None,
        table_rules: None,
    };
    assert_eq!(try_display_table_line(&no_stem), None);
    assert_eq!(try_display_table_line(&entry("afm", None)), Some("Afm".to_string()));
}

#[test]
fn scroller_capitalizes_the_first_letter() {
    assert_eq!(capitalize_first_letter("abc"), "Abc");
    assert_eq!(capitalize_first_letter("ABC"), "ABC");
    assert_eq!(capitalize_first_letter("_a"), "_a");
    assert_eq!(capitalize_first_letter("ñandú"), "Ñandú");
}

#[test]
fn scroller_starts_without_selection() {
    assert_eq!(SelectedItem::default().index, None);
}
