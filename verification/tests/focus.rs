use oosc::ui::components_container::{bounded_index, FocusContextResult, FocusCursor, Key};

/// Components identified by their positions.
fn ids(len: usize) -> Vec<usize> {
    (0..len).collect()
}

#[test]
fn bounded_index_wraps_both_ways() {
    assert_eq!(bounded_index(3, 0), 0);
    assert_eq!(bounded_index(3, 3), 0);
    assert_eq!(bounded_index(3, 4), 1);
    assert_eq!(bounded_index(3, -1), 2);
    assert_eq!(bounded_index(3, -3), 0);
    assert_eq!(bounded_index(3, -4), 2);
    assert_eq!(bounded_index(1, i32::MIN), 0);
    assert_eq!(bounded_index(5, i32::MAX), i32::MAX % 5);
}

#[test]
fn next_then_previous_returns() {
    let mut cursor = FocusCursor::new();
    assert_eq!(
        cursor.focus_current(3, &ids(3)),
        FocusContextResult::Focused { previous: None, current: 0 }
    );
    assert_eq!(
        cursor.focus_previous(3, &ids(3)),
        FocusContextResult::Focused { previous: Some(0), current: 2 }
    );
    assert_eq!(cursor.current(), 2);
    assert_eq!(
        cursor.focus_next(3, &ids(3)),
        FocusContextResult::Focused { previous: Some(2), current: 0 }
    );
    assert_eq!(cursor.current(), 0);
}

#[test]
fn focusing_the_focused_component_is_noticed() {
    let mut cursor = FocusCursor::new();
    cursor.focus_on(4, &ids(4), 6);
    assert_eq!(cursor.current(), 2);
    assert_eq!(cursor.focus_on(4, &ids(4), -2), FocusContextResult::AlreadyFocused(2));
    assert_eq!(cursor.focus_to(1), FocusContextResult::Focused { previous: Some(2), current: 1 });
    assert_eq!(cursor.last_focus(), Some(1));
}

#[test]
fn unfocus_last_forgets_only_a_released_focus() {
    let mut cursor = FocusCursor::new();
    assert_eq!(cursor.unfocus_last(false), None);
    cursor.focus_to(1);
    assert_eq!(cursor.unfocus_last(true), None);
    assert_eq!(cursor.last_focus(), Some(1));
    assert_eq!(cursor.unfocus_last(false), Some(1));
    assert_eq!(cursor.last_focus(), None);
}

#[test]
fn container_keys_move_the_focus() {
    let mut cursor = FocusCursor::new();
    let own = Some(Key::Char('a'));
    let next = Some(Key::Char('k'));
    let previous = Some(Key::Char('j'));
    let r = cursor.handle_container_key(3, &ids(3), &own, &next, &previous, &Key::Char('k'));
    assert!(!r.focus_container);
    assert_eq!(r.next, Some(FocusContextResult::Focused { previous: None, current: 1 }));
    assert_eq!(r.previous, None);
    assert_eq!(cursor.current(), 1);
    let r = cursor.handle_container_key(3, &ids(3), &own, &next, &previous, &Key::Char('j'));
    assert_eq!(r.next, None);
    assert_eq!(r.previous, Some(FocusContextResult::Focused { previous: Some(1), current: 0 }));
    assert_eq!(cursor.current(), 0);
    let r = cursor.handle_container_key(3, &ids(3), &own, &next, &previous, &Key::Char('a'));
    assert!(r.focus_container);
    assert_eq!(r.next, None);
    assert_eq!(r.previous, None);
    assert_eq!(cursor.last_focus(), Some(0));
    let r = cursor.handle_container_key(3, &ids(3), &own, &next, &previous, &Key::Char('x'));
    assert!(!r.focus_container && r.next.is_none() && r.previous.is_none());
}

#[test]
fn same_key_for_both_directions_returns() {
    let mut cursor = FocusCursor::new();
    let r = cursor.handle_container_key(4, &ids(4), &None, &Some(Key::Char('n')), &Some(Key::Char('n')), &Key::Char('n'));
    assert_eq!(r.next, Some(FocusContextResult::Focused { previous: None, current: 1 }));
    assert_eq!(r.previous, Some(FocusContextResult::Focused { previous: Some(1), current: 0 }));
    assert_eq!(cursor.current(), 0);
    assert_eq!(cursor.last_focus(), Some(0));
}

#[test]
fn a_component_held_twice_is_one_component() {
    let mut cursor = FocusCursor::new();
    let held = vec![5, 9, 5];
    assert_eq!(
        cursor.focus_on(3, &held, 0),
        FocusContextResult::Focused { previous: None, current: 5 }
    );
    assert_eq!(cursor.focus_on(3, &held, 2), FocusContextResult::AlreadyFocused(5));
    assert_eq!(cursor.current(), 2);
    assert_eq!(
        cursor.focus_previous(3, &held),
        FocusContextResult::Focused { previous: Some(5), current: 9 }
    );
    assert_eq!(
        cursor.focus_next(3, &held),
        FocusContextResult::Focused { previous: Some(9), current: 5 }
    );
}

#[test]
fn focus_if_key_takes_the_first_match() {
    let mut cursor = FocusCursor::new();
    let keymaps = vec![None, Some(Key::Char('p')), Some(Key::Char('p'))];
    let held = vec![10, 11, 12];
    assert_eq!(
        cursor.focus_if_key(&keymaps, &held, &Key::Char('p')),
        Some(FocusContextResult::Focused { previous: None, current: 11 })
    );
    assert_eq!(cursor.focus_if_key(&keymaps, &held, &Key::Char('p')), Some(FocusContextResult::AlreadyFocused(11)));
    assert_eq!(cursor.focus_if_key(&keymaps, &held, &Key::Char('q')), None);
    assert_eq!(cursor.last_focus(), Some(11));
    assert_eq!(cursor.current(), 0);
}

#[test]
fn keys_of_different_kinds_differ() {
    let mut cursor = FocusCursor::new();
    let keymaps = vec![Some(Key::Function(1)), Some(Key::Named(1)), Some(Key::Char('1'))];
    let held = ids(3);
    assert_eq!(
        cursor.focus_if_key(&keymaps, &held, &Key::Named(1)),
        Some(FocusContextResult::Focused { previous: None, current: 1 })
    );
    assert_eq!(
        cursor.focus_if_key(&keymaps, &held, &Key::Char('1')),
        Some(FocusContextResult::Focused { previous: Some(1), current: 2 })
    );
    assert_eq!(cursor.focus_if_key(&keymaps, &held, &Key::Function(2)), None);
}
