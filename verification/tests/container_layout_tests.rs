use textual_widgets::layout::{
    clamp_with_constraints, compose_dock_lines, compose_grid_lines, grid_track_sizes, compose_row_lines, dock_layout, row_child_render_size,
    row_child_target_height, row_child_widths, DockKind, DockSlot, RowAlign,
};
use textual_widgets::widget_core::LayoutConstraints;

fn unbounded() -> LayoutConstraints {
    LayoutConstraints { min_width: None, max_width: None, min_height: None, max_height: None }
}

fn strings(lines: &[&str]) -> Vec<String> {
    lines.iter().map(|s| s.to_string()).collect()
}

#[test]
fn flexible_children_share_what_fixed_children_leave() {
    let fixed = vec![Some(3), None, None];
    assert_eq!(row_child_widths(&fixed, &vec![(0, 0); 3], 10), vec![3, 4, 3]);
    assert_eq!(row_child_widths(&fixed, &vec![(0, 0); 3], 10).iter().sum::<usize>(), 10);
    assert_eq!(row_child_widths(&fixed, &vec![(1, 1), (0, 0), (0, 0)], 10), vec![5, 3, 2]);
}

#[test]
fn a_row_without_children_is_one_flexible_child() {
    assert_eq!(row_child_widths(&vec![], &vec![], 10), vec![10]);
    assert_eq!(row_child_widths(&vec![], &vec![], 0), vec![1]);
}

#[test]
fn every_child_gets_at_least_one_cell() {
    assert_eq!(row_child_widths(&vec![Some(8), None], &vec![(0, 0); 2], 5), vec![8, 1]);
}

#[test]
fn clamping_raises_lowers_and_limits() {
    assert_eq!(clamp_with_constraints(0, Some(3), None, 10), 3);
    assert_eq!(clamp_with_constraints(20, None, Some(8), 5), 5);
    assert_eq!(clamp_with_constraints(4, Some(2), Some(6), 0), 1);
    assert_eq!(clamp_with_constraints(7, None, None, 9), 7);
}

#[test]
fn a_child_renders_inside_its_margins_and_bounds() {
    let c = LayoutConstraints { max_width: Some(5), ..unbounded() };
    assert_eq!(row_child_render_size(10, (1, 1, 0, 0), c, 4, Some(2)), (5, 2));
    assert_eq!(row_child_render_size(10, (2, 2, 1, 1), unbounded(), 4, None), (6, 2));
}

#[test]
fn a_child_is_shaped_to_the_height_it_asks_for() {
    assert_eq!(row_child_target_height(None, 0, unbounded(), 3), 1);
    assert_eq!(row_child_target_height(None, 7, unbounded(), 3), 3);
    let c = LayoutConstraints { min_height: Some(3), ..unbounded() };
    assert_eq!(row_child_target_height(Some(2), 7, c, 10), 3);
}

#[test]
fn row_lines_place_children_side_by_side() {
    let children = vec![strings(&["ab"]), strings(&["x", "y"])];
    let widths = vec![3, 4];
    assert_eq!(compose_row_lines(&children, &widths, RowAlign::Top, 5, 7), strings(&["ab x   ", "   y   "]));
    assert_eq!(compose_row_lines(&children, &widths, RowAlign::Bottom, 5, 7), strings(&["   x   ", "ab y   "]));
    assert_eq!(compose_row_lines(&children, &widths, RowAlign::Top, 1, 7), strings(&["ab x   "]));
}

#[test]
fn dock_bands_take_from_what_is_left() {
    let kinds = vec![DockKind::Top, DockKind::Left, DockKind::Fill];
    let (slots, rw, rh) = dock_layout(&kinds, &vec![None, Some(2), None], &vec![Some(1), None, None], 6, 3);
    assert_eq!(
        slots,
        vec![DockSlot { band: 1, across: 6 }, DockSlot { band: 2, across: 2 }, DockSlot { band: 0, across: 0 }]
    );
    assert_eq!((rw, rh), (4, 2));
    assert_eq!(slots[0].band + rh, 3);
    assert_eq!(slots[1].band + rw, 6);
}

#[test]
fn an_oversized_band_is_cut_to_the_room_left() {
    let kinds = vec![DockKind::Bottom, DockKind::Top];
    let (slots, rw, rh) = dock_layout(&kinds, &vec![Some(5), None], &vec![None, None], 4, 3);
    assert_eq!(slots, vec![DockSlot { band: 3, across: 4 }, DockSlot { band: 0, across: 4 }]);
    assert_eq!((rw, rh), (4, 0));
}

#[test]
fn dock_lines_stack_bands_around_the_middle() {
    let kinds = vec![DockKind::Top, DockKind::Left, DockKind::Fill];
    let (slots, rw, rh) = dock_layout(&kinds, &vec![None, Some(2), None], &vec![Some(1), None, None], 6, 3);
    let lines = vec![strings(&["HEAD"]), strings(&["L1", "L2"]), strings(&["body"])];
    assert_eq!(compose_dock_lines(&kinds, &lines, &slots, rw, rh), strings(&["HEAD  ", "L1body", "L2    "]));
}

#[test]
fn grid_lines_join_cells_with_gaps() {
    let cells = vec![strings(&["ab"]), strings(&["x"]), vec![], strings(&["p", "q"])];
    assert_eq!(
        compose_grid_lines(&cells, &vec![3, 2], &vec![1, 2], 1, 1, 6),
        strings(&["ab  x ", "      ", "    p ", "    q "])
    );
}

#[test]
fn grid_tracks_feed_the_grid_lines() {
    let widths = grid_track_sizes(&None, 5, 1, 2);
    let heights = grid_track_sizes(&None, 2, 0, 2);
    assert_eq!(widths, vec![2, 2]);
    let cells = vec![strings(&["a"]), strings(&["b"]), strings(&["c"]), strings(&["d"])];
    assert_eq!(compose_grid_lines(&cells, &widths, &heights, 1, 0, 5), strings(&["a  b ", "c  d "]));
}
