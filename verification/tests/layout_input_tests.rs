use textual_widgets::style::{BoxSizing, DockEdge, Scalar};
use textual_widgets::layout::dock_item_style;
use textual_widgets::event::Action;
use textual_widgets::input::{is_allowed_char, InputChrome, InputType};
use textual_widgets::layout::{dock_child_at, even_split, grid_track_sizes, next_focus, row_child_at_x, DockBand, DockKind};

#[test]
fn even_split_gives_the_remainder_to_the_first_parts() {
    assert_eq!(even_split(10, 3), vec![4, 3, 3]);
    assert_eq!(even_split(2, 4), vec![1, 1, 0, 0]);
    assert_eq!(even_split(10, 3).iter().sum::<usize>(), 10);
}

#[test]
fn grid_tracks_use_given_sizes_or_split_the_room_left_by_gaps() {
    assert_eq!(grid_track_sizes(&None, 10, 1, 3), vec![3, 3, 2]);
    assert_eq!(grid_track_sizes(&Some(vec![2, 5]), 10, 1, 2), vec![2, 5]);
    assert_eq!(grid_track_sizes(&None, 2, 5, 2), vec![1, 0]);
}

#[test]
fn row_hit_testing_splits_the_width_evenly() {
    assert_eq!(row_child_at_x(3, 9, 4), Some((1, 1)));
    assert_eq!(row_child_at_x(0, 9, 4), None);
    assert_eq!(row_child_at_x(2, 3, 10), Some((1, 4)));
    assert_eq!(row_child_at_x(3, 9, 0), Some((0, 0)));
}

#[test]
fn focus_cycles_through_focusable_children() {
    let flags = vec![true, false, true];
    assert_eq!(next_focus(&flags, Some(0), Action::FocusNext), Some(2));
    assert_eq!(next_focus(&flags, Some(2), Action::FocusNext), Some(0));
    assert_eq!(next_focus(&flags, None, Action::FocusPrevious), Some(2));
    assert_eq!(next_focus(&flags, Some(0), Action::FocusPrevious), Some(2));
    assert_eq!(next_focus(&flags, None, Action::FocusNext), Some(0));
    assert_eq!(next_focus(&vec![false, true], Some(1), Action::FocusNext), None);
    assert_eq!(next_focus(&vec![false, false], None, Action::FocusNext), None);
    assert_eq!(next_focus(&flags, Some(0), Action::ScrollDown), None);
}

#[test]
fn dock_hit_testing_takes_bands_off_the_free_area() {
    let bands = vec![
        DockBand { kind: DockKind::Top, size: Some(1) },
        DockBand { kind: DockKind::Left, size: Some(2) },
        DockBand { kind: DockKind::Fill, size: None },
        DockBand { kind: DockKind::Bottom, size: Some(1) },
    ];
    assert_eq!(dock_child_at(&bands, 10, 5, 3, 0), Some((0, 3, 0, 10, 1)));
    assert_eq!(dock_child_at(&bands, 10, 5, 1, 2), Some((1, 1, 1, 2, 4)));
    assert_eq!(dock_child_at(&bands, 10, 5, 5, 4), Some((3, 3, 0, 8, 1)));
    assert_eq!(dock_child_at(&bands, 10, 5, 5, 3), Some((2, 3, 2, 8, 4)));
    assert_eq!(dock_child_at(&bands, 10, 5, 12, 3), None);
}

#[test]
fn input_chrome_blinks_only_while_focused_in_an_active_app() {
    let mut c = InputChrome::new();
    assert!(!c.handle_tick(10_000));
    c.set_focus(true, 1000);
    assert!(c.cursor_visible());
    assert_eq!(c.cursor_blink_next_at, Some(1500));
    assert!(!c.handle_tick(1200));
    assert!(c.handle_tick(1500));
    assert!(!c.cursor_visible());
    assert_eq!(c.cursor_blink_next_at, Some(2000));
    c.handle_app_focus(false, 2100);
    assert!(!c.cursor_visible());
    assert!(!c.handle_tick(5000));
    c.handle_app_focus(true, 6000);
    assert!(c.cursor_visible());
    c.set_mouse_down(true);
    assert!(c.is_active());
    c.set_focus(false, 7000);
    assert!(!c.is_mouse_down());
    assert!(!c.cursor_visible());
    c.set_focus(true, u64::MAX);
    assert_eq!(c.cursor_blink_next_at, Some(u64::MAX));
}

#[test]
fn typed_characters_follow_the_input_type() {
    assert!(is_allowed_char(InputType::Text, "abc", 1, '#'));
    assert!(is_allowed_char(InputType::Integer, "", 0, '5'));
    assert!(is_allowed_char(InputType::Integer, "12", 0, '-'));
    assert!(!is_allowed_char(InputType::Integer, "-12", 0, '+'));
    assert!(!is_allowed_char(InputType::Integer, "12", 1, '-'));
    assert!(!is_allowed_char(InputType::Integer, "12", 2, '.'));
    assert!(is_allowed_char(InputType::Number, "12", 2, '.'));
    assert!(!is_allowed_char(InputType::Number, "1.5", 3, '.'));
    assert!(!is_allowed_char(InputType::Number, "1E3", 3, 'e'));
    assert!(is_allowed_char(InputType::Number, "13", 2, 'E'));
    assert!(!is_allowed_char(InputType::Number, "13", 2, 'x'));
}

#[test]
fn sized_dock_bands_count_their_chrome() {
    let top = dock_item_style(DockKind::Top, Some(3)).unwrap();
    assert_eq!(top.dock, Some(DockEdge::Top));
    assert_eq!(top.height, Some(Scalar::Cells(3)));
    assert_eq!(top.box_sizing, Some(BoxSizing::BorderBox));
    let left = dock_item_style(DockKind::Left, None).unwrap();
    assert_eq!(left.width, None);
    assert_eq!(left.box_sizing, None);
    assert!(dock_item_style(DockKind::Fill, Some(2)).is_none());
}
