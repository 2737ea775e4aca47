use vpxtool_gui::input::{apply_selection_change, wrap_around};
use vpxtool_gui::list::SelectedItem;

#[test]
fn wrap_is_reduction_modulo_the_count() {
    for max in 1..40usize {
        for n in -200i16..200 {
            let expected = (n as i64).rem_euclid(max as i64) as usize;
            assert_eq!(wrap_around(n, max), expected);
        }
    }
}

#[test]
fn wrap_repeats_with_the_count() {
    assert_eq!(wrap_around(3, 7), wrap_around(10, 7));
    assert_eq!(wrap_around(-4, 7), wrap_around(3, 7));
}

#[test]
fn wrap_works_for_counts_beyond_i16() {
    assert_eq!(wrap_around(5, 40000), 5);
    assert_eq!(wrap_around(-1, 40000), 39999);
    assert_eq!(wrap_around(-1, 65536), 65535);
    assert_eq!(wrap_around(i16::MIN, 65536), 65536 - 32768);
    assert_eq!(wrap_around(32767, 32767), 0);
    assert_eq!(wrap_around(-1, usize::MAX), usize::MAX - 1);
}

#[test]
fn first_change_selects_and_notifies() {
    let mut selected = SelectedItem::default();
    let event = apply_selection_change(&mut selected, 0, 5);
    assert_eq!(selected.index, Some(0));
    assert_eq!(event.map(|e| e._selected_index), Some(0));
    let again = apply_selection_change(&mut selected, 0, 5);
    assert!(again.is_none());
    assert_eq!(selected.index, Some(0));
}

#[test]
fn stepping_wraps_both_ways() {
    let mut selected = SelectedItem { index: Some(0) };
    let event = apply_selection_change(&mut selected, -1, 5);
    assert_eq!(selected.index, Some(4));
    assert_eq!(event.map(|e| e._selected_index), Some(4));
    let event = apply_selection_change(&mut selected, 1, 5);
    assert_eq!(selected.index, Some(0));
    assert_eq!(event.map(|e| e._selected_index), Some(0));
}

#[test]
fn a_step_and_its_opposite_cancel() {
    for start in 0..12usize {
        for delta in -30i16..30 {
            let mut selected = SelectedItem { index: Some(start) };
            apply_selection_change(&mut selected, delta, 12);
            apply_selection_change(&mut selected, -delta, 12);
            assert_eq!(selected.index, Some(start));
        }
    }
}

#[test]
fn large_steps_move_several_tables() {
    let mut selected = SelectedItem { index: Some(2) };
    apply_selection_change(&mut selected, 7, 10);
    assert_eq!(selected.index, Some(9));
}

#[test]
fn no_tables_keeps_the_selection_at_zero() {
    let mut selected = SelectedItem { index: Some(0) };
    let event = apply_selection_change(&mut selected, 3, 0);
    assert_eq!(selected.index, Some(0));
    assert!(event.is_none());
}

#[test]
fn stepping_below_zero_wraps_to_the_last_of_many_tables() {
    let mut selected = SelectedItem { index: Some(0) };
    apply_selection_change(&mut selected, -1, 40000);
    assert_eq!(selected.index, Some(39999));
}
