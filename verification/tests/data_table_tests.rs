use textual_widgets::event::{ReactiveChange, ReactiveField, ReactiveValue};
use textual_widgets::data_table::{CellJustify, CellPaint, CursorType, DataTable};
use textual_widgets::event::{
    Action, Event, EventCtx, KeyCode, KeyEvent, Message, MessageEvent, MouseDownEvent, NodeId, ParsedAction, ReactiveCtx,
    ScrollbarAxis,
};
use textual_widgets::widget_core::NodeState;

fn strings(items: &[&str]) -> Vec<String> {
    items.iter().map(|s| s.to_string()).collect()
}

fn click(x: u16, y: u16) -> Event {
    Event::MouseDown(MouseDownEvent { target: NodeId::default(), screen_x: x, screen_y: y, x, y })
}

fn hovered_state() -> NodeState {
    NodeState { hovered: true, ..Default::default() }
}

#[test]
fn header_click_does_not_change_selected_row() {
    let mut table = DataTable::new(strings(&["A", "B"]), vec![strings(&["r0", "c0"]), strings(&["r1", "c1"])]);
    table.selected = 1;
    let mut ctx = EventCtx::default();
    table.on_event(&click(0, 0), &mut ctx);
    assert!(ctx.handled());
    assert_eq!(table.selected, 1);
    assert_eq!(table.cursor_column, 0);
}

#[test]
fn mouse_move_sets_hover_coordinate_for_header_and_cells() {
    let mut table = DataTable::new(strings(&["ABC", "D"]), vec![strings(&["row0", "x"]), strings(&["row1", "y"])]);
    table.on_layout(20, 4);

    table.on_mouse_move(0, 0);
    assert_eq!(table.hover_coordinate, Some((usize::MAX, 0)));

    table.on_mouse_move(5, 0);
    assert_eq!(table.hover_coordinate, Some((usize::MAX, 1)));

    table.on_mouse_move(0, 1);
    assert_eq!(table.hover_coordinate, Some((0, 0)));

    table.on_mouse_move(5, 2);
    assert_eq!(table.hover_coordinate, Some((1, 1)));
}

#[test]
fn clearing_hover_resets_hover_coordinate() {
    let mut table = DataTable::new(strings(&["A"]), vec![strings(&["row0"]), strings(&["row1"])]);
    table.on_layout(20, 4);
    table.on_mouse_move(0, 1);
    assert_eq!(table.hover_coordinate, Some((0, 0)));

    table.on_node_state_changed(hovered_state(), NodeState::default());
    assert_eq!(table.hover_coordinate, None);
}

#[test]
fn mouse_move_column_mapping_uses_cell_width_for_wide_graphemes() {
    let mut table = DataTable::new(
        vec!["\u{1f469}\u{200d}\u{1f680}".to_string(), "B".to_string()],
        vec![strings(&["x", "y"])],
    );
    table.on_mouse_move(0, 0);
    assert_eq!(table.hover_coordinate, Some((usize::MAX, 0)));
    table.on_mouse_move(2, 0);
    assert_eq!(table.hover_coordinate, Some((usize::MAX, 0)));
    table.on_mouse_move(4, 0);
    assert_eq!(table.hover_coordinate, Some((usize::MAX, 1)));
}

#[test]
fn column_widths_use_combining_cluster_cell_width() {
    let table = DataTable::new(vec!["e\u{0301}e\u{0301}e\u{0301}e\u{0301}".to_string()], vec![strings(&["x"])]);
    assert_eq!(table.column_widths[0], 4);
}

#[test]
fn mouse_move_column_mapping_uses_cell_width_for_wide_cjk_headers() {
    let mut table = DataTable::new(vec!["\u{4e2d}\u{4e2d}".to_string(), "B".to_string()], vec![strings(&["x", "y"])]);
    table.on_mouse_move(0, 0);
    assert_eq!(table.hover_coordinate, Some((usize::MAX, 0)));
    table.on_mouse_move(4, 0);
    assert_eq!(table.hover_coordinate, Some((usize::MAX, 0)));
    table.on_mouse_move(5, 0);
    assert_eq!(table.hover_coordinate, Some((usize::MAX, 1)));
}

#[test]
fn supports_keyed_rows_and_columns_lookup() {
    let mut table = DataTable::empty();
    let col = table.add_column_with_key("lane", "Lane".to_string()).expect("new column key");
    assert_eq!(table.add_column_with_key("lane", "Lane 2".to_string()), None);
    let row = table.add_row_with_key("heat-1", strings(&["1"])).expect("new row key");
    assert_eq!(table.add_row_with_key("heat-1", strings(&["2"])), None);

    assert_eq!(table.column_index_of(&col), Some(0));
    assert_eq!(table.row_index_of(&row), Some(0));
    assert_eq!(table.cell_key_at(0, 0), Some((row, col)));
}

#[test]
fn fixed_rows_are_mapped_before_scrolled_rows() {
    let mut table = DataTable::new(strings(&["A"]), (0..5).map(|n| vec![format!("row{n}")]).collect());
    let mut rctx = ReactiveCtx::new(NodeId::default());
    table.set_fixed_rows(1, &mut rctx);
    table.content_height = 3;
    table.set_selected(4, &mut rctx);

    assert_eq!(table.row_index_from_y(1, table.visible_rows()), Some(0));
    assert_eq!(table.row_index_from_y(2, table.visible_rows()), Some(4));
}

fn four_column_table() -> DataTable {
    DataTable::new(strings(&["C0", "C1", "C2", "C3"]), vec![strings(&["r0", "r1", "r2", "r3"])])
}

#[test]
fn header_click_uses_shifted_horizontal_column_mapping() {
    let mut table = four_column_table();
    let mut rctx = ReactiveCtx::new(NodeId::default());
    table.set_fixed_columns(1, &mut rctx);
    table.on_layout(12, 3);
    table.set_cursor(0, 3, &mut rctx);
    let mut ctx = EventCtx::default();

    table.on_event(&click(4, 0), &mut ctx);

    let messages = ctx.take_messages();
    assert_eq!(messages.len(), 1);
    assert!(matches!(messages[0].message, Message::DataTableHeaderSelected { column: 2 }));
}

#[test]
fn clicking_fixed_header_reanchors_horizontal_offset() {
    let mut table = four_column_table();
    let mut rctx = ReactiveCtx::new(NodeId::default());
    table.set_fixed_columns(1, &mut rctx);
    table.on_layout(12, 3);
    table.set_cursor(0, 3, &mut rctx);
    assert!(table.horizontal_offset > 0);

    let mut ctx = EventCtx::default();
    table.on_event(&click(0, 0), &mut ctx);

    assert_eq!(table.cursor_column, 0);
    assert_eq!(table.horizontal_offset, 0);
}

#[test]
fn horizontal_offset_stays_stable_when_fixed_columns_fill_viewport() {
    let mut table =
        DataTable::new(strings(&["WIDE_FIXED", "C1", "C2", "C3"]), vec![strings(&["row", "1", "2", "3"])]);
    let mut rctx = ReactiveCtx::new(NodeId::default());
    table.set_fixed_columns(1, &mut rctx);
    table.on_layout(4, 3);
    table.set_cursor(0, 3, &mut rctx);

    assert_eq!(table.horizontal_offset, 0);
}

#[test]
fn header_click_posts_header_selected_message() {
    let mut table = DataTable::new(strings(&["A", "B"]), vec![strings(&["r0", "c0"])]);
    let mut ctx = EventCtx::default();

    table.on_event(&click(4, 0), &mut ctx);

    assert!(ctx.handled());
    let messages = ctx.take_messages();
    assert_eq!(messages.len(), 1);
    assert!(matches!(messages[0].message, Message::DataTableHeaderSelected { column: 1 }));
}

#[test]
fn data_table_bindings_are_declared() {
    let table = DataTable::new(strings(&["Name", "Value"]), vec![strings(&["Alice", "100"])]);
    let bindings = table.bindings();
    assert!(!bindings.is_empty());
    assert!(bindings.iter().any(|b| b.action == "cursor_up"));
    assert!(bindings.iter().any(|b| b.action == "cursor_down"));
    assert!(bindings.iter().any(|b| b.action == "select_cursor"));
}

#[test]
fn execute_action_handles_cursor_down() {
    let mut table =
        DataTable::new(strings(&["Name", "Value"]), vec![strings(&["Alice", "100"]), strings(&["Bob", "200"])]);
    table.on_layout(40, 10);
    let mut ctx = EventCtx::default();
    let action = ParsedAction { namespace: None, name: "cursor_down".to_string(), arguments: vec![] };
    assert!(table.execute_action(&action, &mut ctx));
    assert_eq!(table.selected, 1);
}

#[test]
fn home_end_keys_move_the_column_cursor_when_focused() {
    let mut table = DataTable::new(
        strings(&["A", "B", "C"]),
        (0..5).map(|n| vec![format!("row{n}"), "x".to_string(), "y".to_string()]).collect(),
    );
    table.content_height = 4;
    let mut rctx = ReactiveCtx::new(NodeId::default());
    table.set_cursor(3, 2, &mut rctx);
    let focused = NodeState { focused: true, ..Default::default() };
    let mut ctx = EventCtx::new(NodeId::default(), focused);

    table.on_event(&Event::Key(KeyEvent::plain(KeyCode::Home)), &mut ctx);
    assert_eq!(table.cursor(), (3, 0));
    table.on_event(&Event::Key(KeyEvent::plain(KeyCode::End)), &mut ctx);
    assert_eq!(table.cursor(), (3, 2));
    table.on_event(&Event::Key(KeyEvent::with_control(KeyCode::Home)), &mut ctx);
    assert_eq!(table.cursor(), (0, 2));
    table.on_event(&Event::Key(KeyEvent::with_control(KeyCode::End)), &mut ctx);
    assert_eq!(table.cursor(), (4, 2));
}

#[test]
fn added_rows_get_fresh_keys_and_can_be_removed_again() {
    let mut table = DataTable::new(strings(&["A"]), vec![]);
    let k0 = table.add_row(strings(&["x"]));
    let k1 = table.add_row(strings(&["y"]));
    assert_ne!(k0, k1);
    assert_eq!(k0.as_str(), "row-0");
    assert_eq!(k1.as_str(), "row-1");
    assert_eq!(table.row_index_of(&k1), Some(1));
    assert_eq!(table.remove_row(&k0), Some(strings(&["x"])));
    assert_eq!(table.row_index_of(&k0), None);
    assert_eq!(table.row_count(), 1);
    assert_eq!(table.get_cell(0, 0), Some("y"));
}

#[test]
fn generated_keys_skip_explicitly_taken_ones() {
    let mut table = DataTable::empty();
    table.add_column_with_key("column-0", "Taken".to_string()).expect("fresh");
    let generated = table.add_column("Next".to_string());
    assert_eq!(generated.as_str(), "column-1");
}

#[test]
fn sort_orders_rows_by_column_and_keeps_ties_stable() {
    let mut table = DataTable::new(
        strings(&["Name", "Group"]),
        vec![strings(&["c", "1"]), strings(&["a", "2"]), strings(&["b", "1"]), strings(&["d", "2"])],
    );
    table.sort(1, false);
    let names: Vec<&str> = (0..4).map(|r| table.get_cell(r, 0).unwrap()).collect();
    assert_eq!(names, vec!["c", "b", "a", "d"]);
    table.sort(0, true);
    let names: Vec<&str> = (0..4).map(|r| table.get_cell(r, 0).unwrap()).collect();
    assert_eq!(names, vec!["d", "c", "b", "a"]);
}

#[test]
fn cell_justify_pads_text_to_width() {
    assert_eq!(CellJustify::Left.render("ab", 4), "ab  ");
    assert_eq!(CellJustify::Right.render("ab", 4), "  ab");
    assert_eq!(CellJustify::Center.render("ab", 5), " ab  ");
}

#[test]
fn update_cell_and_out_of_range_updates() {
    let mut table = DataTable::new(strings(&["A", "B"]), vec![strings(&["1", "2"])]);
    assert!(table.update_cell(0, 1, "9".to_string()));
    assert_eq!(table.get_cell(0, 1), Some("9"));
    assert!(!table.update_cell(3, 0, "x".to_string()));
}

#[test]
fn layout_height_counts_header_and_rows() {
    let table = DataTable::new(strings(&["A"]), vec![strings(&["1"]), strings(&["2"]), strings(&["3"])]);
    assert_eq!(table.layout_height(), Some(4));
}

#[test]
fn render_lines_draw_header_and_rows_in_columns() {
    let table = DataTable::new(strings(&["A", "B"]), vec![strings(&["r0", "c0"]), strings(&["r1", "c1"])]);
    let lines = table.render_lines(10, 3);
    assert_eq!(lines, vec![" A   B    ".to_string(), " r0  c0   ".to_string(), " r1  c1   ".to_string()]);
    let short = table.render_lines(10, 2);
    assert_eq!(short.len(), 2);
    assert_eq!(table.cell_paint(0, 0, true), CellPaint::Cursor);
    assert_eq!(table.cell_paint(0, 0, false), CellPaint::Normal);
    assert_eq!(table.cell_paint(1, 1, true), CellPaint::Normal);
    assert_eq!(table.header_paint(0, true), CellPaint::Normal);
}

fn focused_ctx() -> EventCtx {
    EventCtx::new(NodeId::default(), NodeState { focused: true, ..Default::default() })
}

fn wide_table() -> DataTable {
    DataTable::new(strings(&["First", "Second", "Third", "Fourth"]), vec![strings(&["a", "b", "c", "d"])])
}

#[test]
fn fixed_column_stays_visible_when_cursor_moves_to_far_columns() {
    let mut table = four_column_table();
    let mut rctx = ReactiveCtx::new(NodeId::default());
    table.set_fixed_columns(1, &mut rctx);
    table.on_layout(12, 3);
    table.set_cursor(0, 3, &mut rctx);
    let lines = table.render_lines(12, 3);
    let header = &lines[0];
    assert!(header.contains("C0"));
    assert!(header.contains("C3"));
    assert!(!header.contains("C1"));
}

#[test]
fn home_end_navigation_matches_cursor_and_control_semantics() {
    let mut table = DataTable::new(
        strings(&["A", "B", "C"]),
        (0..5).map(|n| vec![format!("row{n}"), "x".to_string(), "y".to_string()]).collect(),
    );
    table.content_height = 4;
    let mut rctx = ReactiveCtx::new(NodeId::default());
    table.set_cursor(3, 2, &mut rctx);
    let mut ctx = focused_ctx();

    table.on_event(&Event::Key(KeyEvent::plain(KeyCode::Home)), &mut ctx);
    assert_eq!(table.cursor(), (3, 0));
    table.on_event(&Event::Key(KeyEvent::plain(KeyCode::End)), &mut ctx);
    assert_eq!(table.cursor(), (3, 2));
    table.on_event(&Event::Key(KeyEvent::with_control(KeyCode::Home)), &mut ctx);
    assert_eq!(table.cursor(), (0, 2));
    table.on_event(&Event::Key(KeyEvent::with_control(KeyCode::End)), &mut ctx);
    assert_eq!(table.cursor(), (4, 2));
}

#[test]
fn scroll_home_end_actions_follow_column_cursor_navigation() {
    let mut table = four_column_table();
    let mut rctx = ReactiveCtx::new(NodeId::default());
    table.set_fixed_columns(1, &mut rctx);
    table.on_layout(12, 3);
    table.set_cursor(0, 3, &mut rctx);
    let offset_at_end = table.horizontal_offset;
    assert!(offset_at_end > 0);

    let mut ctx = focused_ctx();
    table.on_event(&Event::Action(Action::ScrollHome), &mut ctx);
    assert!(ctx.handled());
    assert_eq!(table.cursor_column, 0);
    assert_eq!(table.horizontal_offset, 0);

    let mut ctx = focused_ctx();
    table.on_event(&Event::Action(Action::ScrollEnd), &mut ctx);
    assert!(ctx.handled());
    assert_eq!(table.cursor_column, 3);
    assert_eq!(table.horizontal_offset, offset_at_end);
}

#[test]
fn keyboard_navigation_posts_cursor_moved_message() {
    let mut table = DataTable::new(strings(&["A", "B"]), vec![strings(&["r0", "c0"]), strings(&["r1", "c1"])]);
    let mut ctx = focused_ctx();

    table.on_event(&Event::Key(KeyEvent::plain(KeyCode::Down)), &mut ctx);

    assert!(ctx.handled());
    let messages = ctx.take_messages();
    assert_eq!(messages.len(), 1);
    assert!(matches!(messages[0].message, Message::DataTableCursorMoved { row: 1, column: 0 }));
}

#[test]
fn enter_posts_cell_activated_message() {
    let mut table = DataTable::new(strings(&["A", "B"]), vec![strings(&["r0", "c0"]), strings(&["r1", "c1"])]);
    let mut rctx = ReactiveCtx::new(NodeId::default());
    table.set_cursor(1, 1, &mut rctx);
    let mut ctx = focused_ctx();

    table.on_event(&Event::Key(KeyEvent::plain(KeyCode::Enter)), &mut ctx);

    assert!(ctx.handled());
    let messages = ctx.take_messages();
    assert_eq!(messages.len(), 1);
    assert!(matches!(messages[0].message, Message::DataTableCellActivated { row: 1, column: 1 }));
}

#[test]
fn renders_horizontal_scrollbar_when_columns_overflow() {
    let table = wide_table();
    assert!(table.horizontal_scrollbar_state(12).is_some());
    let lines = table.render_lines(12, 4);
    assert_eq!(lines.len(), 2);
}

fn scroll_to(offset: usize) -> MessageEvent {
    MessageEvent::new(NodeId::default(), Message::ScrollbarScrollTo { axis: ScrollbarAxis::Horizontal, offset })
}

#[test]
fn horizontal_scrollbar_track_click_pages_viewport() {
    let mut table = wide_table();
    table.on_layout(12, 4);
    let _ = table.take_composed_children();
    assert_eq!(table.horizontal_offset, 0);

    let mut ctx = EventCtx::default();
    table.on_message(&scroll_to(999), &mut ctx);

    assert!(ctx.handled());
    assert!(table.horizontal_offset > 0);
}

#[test]
fn row_cursor_scroll_right_action_moves_horizontal_viewport() {
    let mut table = wide_table();
    let mut rctx = ReactiveCtx::new(NodeId::default());
    table.set_cursor_type(CursorType::Row, &mut rctx);
    table.on_layout(12, 4);
    assert_eq!(table.horizontal_offset, 0);

    let mut ctx = focused_ctx();
    table.on_event(&Event::Action(Action::ScrollRight), &mut ctx);
    assert!(ctx.handled());
    assert!(table.horizontal_offset > 0);
}

#[test]
fn dragging_horizontal_scrollbar_thumb_updates_offset() {
    let mut table = wide_table();
    table.on_layout(12, 4);
    let _ = table.take_composed_children();

    let mut ctx = EventCtx::default();
    table.on_message(&scroll_to(3), &mut ctx);
    assert!(ctx.handled());
    let after_first = table.horizontal_offset;

    let mut ctx2 = EventCtx::default();
    table.on_message(&scroll_to(10), &mut ctx2);
    assert!(ctx2.handled());
    assert!(ctx2.repaint_requested());
    assert!(table.horizontal_offset >= after_first);
    assert!(table.horizontal_offset > 0);
}

#[test]
fn data_table_tree_mode_extracts_dedicated_scrollbar_child() {
    let mut table = wide_table();
    let children = table.take_composed_children();
    assert_eq!(children.len(), 1);
    assert_eq!(children[0].css_id.as_deref(), Some("__data_table_hscrollbar"));
    assert!(table.take_composed_children().is_empty());
}

#[test]
fn scrollbar_message_updates_horizontal_offset_in_tree_mode() {
    let mut table = wide_table();
    table.on_layout(12, 4);
    let _ = table.take_composed_children();

    let mut ctx = EventCtx::default();
    table.on_message(&scroll_to(999), &mut ctx);

    assert!(ctx.handled());
    assert!(table.horizontal_offset > 0);
}

#[test]
fn content_width_counts_columns_gaps_pad_and_chrome() {
    let mut table = DataTable::new(strings(&["A", "B"]), vec![strings(&["r0", "c0"])]);
    assert_eq!(table.content_width(), Some(7));
    table.seed.styles.style.padding = Some(textual_widgets::style::Spacing { top: 0, right: 1, bottom: 0, left: 1 });
    table.seed.styles.style.border_left = Some(textual_widgets::style::BorderKind::Solid);
    assert_eq!(table.content_width(), Some(10));
}

#[test]
fn set_cursor_records_exactly_the_moves_with_their_values() {
    let mut table = DataTable::new(
        strings(&["A", "B", "C"]),
        (0..4).map(|n| vec![format!("a{n}"), format!("b{n}"), format!("c{n}")]).collect(),
    );
    let mut rctx = ReactiveCtx::new(NodeId::default());
    table.set_cursor(2, 1, &mut rctx);
    assert_eq!(
        rctx.changes,
        vec![
            ReactiveChange {
                field: ReactiveField::Selected,
                layout: false,
                previous: ReactiveValue::Count(0),
                current: ReactiveValue::Count(2),
            },
            ReactiveChange {
                field: ReactiveField::CursorColumn,
                layout: false,
                previous: ReactiveValue::Count(0),
                current: ReactiveValue::Count(1),
            },
        ]
    );
    let mut rctx = ReactiveCtx::new(NodeId::default());
    table.set_cursor(9, 1, &mut rctx);
    assert_eq!(
        rctx.changes,
        vec![ReactiveChange {
            field: ReactiveField::Selected,
            layout: false,
            previous: ReactiveValue::Count(2),
            current: ReactiveValue::Count(3),
        }]
    );
    let mut rctx = ReactiveCtx::new(NodeId::default());
    table.set_cursor(3, 1, &mut rctx);
    assert!(rctx.changes.is_empty());
}

#[test]
fn add_rows_and_columns_generate_keys_in_order() {
    let mut table = DataTable::new(strings(&["A"]), vec![strings(&["x"])]);
    table.add_columns(strings(&["B", "C"]));
    table.add_rows(vec![strings(&["y", "1", "2"]), strings(&["z", "3", "4"])]);
    assert_eq!(table.column_count(), 3);
    assert_eq!(table.row_count(), 3);
    let keys: Vec<String> = (0..3).map(|i| table.row_key_at(i).unwrap().as_str().to_string()).collect();
    assert_eq!(keys, vec!["row-0", "row-1", "row-2"]);
}

#[test]
fn the_key_counter_saturates_at_the_largest_number() {
    let mut table = DataTable::new(strings(&["A"]), vec![]);
    table.next_row_key = usize::MAX - 1;
    table.add_row_with_key(&format!("row-{}", usize::MAX - 1), strings(&["taken"])).expect("fresh");
    let key = table.add_row(strings(&["last"]));
    assert_eq!(key.as_str(), format!("row-{}", usize::MAX));
    assert_eq!(table.next_row_key, usize::MAX);
    assert_eq!(table.row_count(), 2);
}

#[test]
fn a_labeled_row_takes_the_key_a_plain_row_would() {
    let mut plain = DataTable::new(strings(&["A"]), vec![strings(&["x"])]);
    let mut labeled = DataTable::new(strings(&["A"]), vec![strings(&["x"])]);
    let k_plain = plain.add_row(strings(&["y"]));
    let k_labeled = labeled.add_row_labeled(strings(&["y"]), "L");
    assert_eq!(k_plain, k_labeled);
    assert_eq!(plain.next_row_key, labeled.next_row_key);
    assert_eq!(labeled.get_row(1), plain.get_row(1));
    assert_eq!(labeled.column_count(), 1);
}
