use vpxtool_gui::table::blank;

#[test]
fn blank_texts_hold_only_white_space() {
    assert!(blank(""));
    assert!(blank(" \t\n"));
    assert!(blank("\u{3000}\u{85}\u{a0}"));
    assert!(!blank(" a "));
    assert!(!blank("x"));
    assert!(!blank("\u{200b}"));
}
