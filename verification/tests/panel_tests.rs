use textual_widgets::event::{Action, BindingHint, Event, EventCtx, Message, MessageEvent, NodeId, ScrollbarAxis};
use textual_widgets::footer::FooterBinding;
use textual_widgets::help_panel::HelpPanel;
use textual_widgets::key_panel::{format_binding_key_display, wrap_text_for_width, BindingsTable, KeyPanel};

#[test]
fn bindings_changed_posts_bindings_updated_message() {
    let mut panel = KeyPanel::new();
    let mut ctx = EventCtx::default();
    panel.on_event(&Event::BindingsChanged(vec![BindingHint::new("ctrl+p", "Palette")]), &mut ctx);
    let messages = ctx.take_messages();
    assert!(messages.iter().any(|m| matches!(m.message, Message::KeyPanelBindingsUpdated { count: 1 })));
}

fn row_keys(panel: &KeyPanel) -> Vec<(String, String)> {
    panel.table.bindings.iter().map(|b| (b.key.clone(), b.description.clone())).collect()
}

#[test]
fn binding_hints_filter_system_entries_only() {
    let mut panel = KeyPanel::new();
    let hints = vec![
        BindingHint::new("ctrl+p", "Palette").hidden(true).with_system(true),
        BindingHint::new("j", "Jessica"),
        BindingHint::new("j", "Jessica"),
        BindingHint::new("p", "Paul").with_system(true),
        BindingHint::new("l", "Leto"),
        BindingHint::new("tab", "Focus Next").hidden(true),
    ];
    panel.set_binding_hints(&hints);
    assert_eq!(
        row_keys(&panel),
        vec![
            ("j".to_string(), "Jessica".to_string()),
            ("l".to_string(), "Leto".to_string()),
            ("tab".to_string(), "Focus Next".to_string()),
        ]
    );
    assert!(panel.table.bindings.iter().all(|b| b.action_key.is_none() && b.enabled == Some(true)));
}

#[test]
fn key_display_formats_each_alternative() {
    assert_eq!(format_binding_key_display("ctrl+p"), "^p");
    assert_eq!(format_binding_key_display(" j , down ,"), "j down");
    assert_eq!(format_binding_key_display("tab,shift+tab"), "tab shift+tab");
}

#[test]
fn same_key_in_another_namespace_is_listed_again() {
    let mut panel = KeyPanel::new();
    panel.set_binding_hints(&vec![
        BindingHint::new("q", "Quit").with_namespace("app"),
        BindingHint::new("q", "Quit").with_namespace("screen"),
        BindingHint::new("q", "Quit").with_namespace("app"),
    ]);
    assert_eq!(panel.table.bindings.len(), 2);
    assert_eq!(panel.table.bindings[1].group.as_deref(), Some("screen"));
}

fn scrollable_panel() -> KeyPanel {
    let bindings = (1..=16).map(|i| FooterBinding::new(&format!("k{i:02}"), &format!("item {i:02}"))).collect();
    let mut panel = KeyPanel::new().with_bindings(bindings);
    panel.content_height = 16;
    panel.viewport_height = 6;
    panel
}

#[test]
fn scroll_action_moves_offset_and_announces_it() {
    let mut panel = scrollable_panel();
    let mut ctx = EventCtx::default();
    panel.on_event(&Event::Action(Action::ScrollDown), &mut ctx);
    assert_eq!(panel.offset_y, 1);
    assert!(ctx.handled());
    let messages = ctx.take_messages();
    assert!(matches!(messages[0].message, Message::KeyPanelScrolled { offset: 1, max_offset: 10 }));

    let mut ctx = EventCtx::default();
    panel.on_event(&Event::Action(Action::ScrollPageDown), &mut ctx);
    assert_eq!(panel.offset_y, 7);
    let mut ctx = EventCtx::default();
    panel.on_event(&Event::Action(Action::ScrollPageDown), &mut ctx);
    assert_eq!(panel.offset_y, 10);
    let mut ctx = EventCtx::default();
    panel.on_event(&Event::Action(Action::ScrollPageDown), &mut ctx);
    assert!(!ctx.handled());
    assert!(ctx.take_messages().is_empty());
}

#[test]
fn scrollbar_drag_scrolls_to_clamped_offset() {
    let mut panel = scrollable_panel();
    let mut ctx = EventCtx::default();
    panel.on_message(
        &MessageEvent::new(NodeId::default(), Message::ScrollbarScrollTo { axis: ScrollbarAxis::Vertical, offset: 2 }),
        &mut ctx,
    );
    assert!(ctx.handled());
    assert!(ctx.repaint_requested());
    assert_eq!(panel.offset_y, 2);
    let mut ctx = EventCtx::default();
    panel.on_message(
        &MessageEvent::new(NodeId::default(), Message::ScrollbarScrollTo { axis: ScrollbarAxis::Vertical, offset: 99 }),
        &mut ctx,
    );
    assert_eq!(panel.offset_y, 10);
}

#[test]
fn wheel_scroll_moves_by_steps() {
    let mut panel = scrollable_panel().scroll_step(3);
    let mut ctx = EventCtx::default();
    panel.on_mouse_scroll(0, 2, &mut ctx);
    assert_eq!(panel.offset_y, 6);
    let mut ctx = EventCtx::default();
    panel.on_mouse_scroll(0, -5, &mut ctx);
    assert_eq!(panel.offset_y, 0);
}

#[test]
fn key_panel_scrollbar_child_is_extracted_once() {
    let mut panel = KeyPanel::new();
    let children = panel.take_composed_children();
    assert_eq!(children.len(), 1);
    assert_eq!(children[0].css_id.as_deref(), Some("__key_panel_vscrollbar"));
    assert!(panel.take_composed_children().is_empty());
}

#[test]
fn help_panel_toggles_show_help_state() {
    let mut panel = HelpPanel::new();
    assert!(!panel.showing_help());
    panel.set_help("# Help\nSome text");
    assert!(panel.showing_help());
}

#[test]
fn help_panel_with_help_sets_show_help_seed_class() {
    let panel = HelpPanel::new().with_help("## Help\nbody");
    assert!(panel.showing_help());
    assert!(panel.seed.classes.iter().any(|c| c == "-show-help"));
}

#[test]
fn help_panel_clear_help_removes_show_help_state() {
    let mut panel = HelpPanel::new().with_help("## Help\nbody");
    assert!(panel.showing_help());
    panel.clear_help();
    assert!(!panel.showing_help());
}

#[test]
fn help_panel_split_caps_help_to_half_height() {
    let panel = HelpPanel::new().with_help("line1\nline2\nline3\nline4");
    let (help_height, keys_height) = panel.split_heights(40, 6);
    assert_eq!(help_height, 3);
    assert_eq!(keys_height, 3);
}

#[test]
fn help_panel_split_keeps_key_panel_visible_in_short_heights() {
    let panel = HelpPanel::new().with_help("line1\nline2");
    let (help_height, keys_height) = panel.split_heights(40, 2);
    assert_eq!(help_height, 1);
    assert_eq!(keys_height, 1);
}

#[test]
fn help_panel_auto_discovers_focused_help_via_message() {
    let mut panel = HelpPanel::new();
    assert!(!panel.showing_help());
    let mut ctx = EventCtx::default();
    let msg = MessageEvent::new(
        NodeId::default(),
        Message::HelpPanelFocusedHelpChanged {
            source: NodeId::default(),
            markup: "## Widget Help\nPress Enter to confirm.".to_string(),
        },
    );
    panel.on_message(&msg, &mut ctx);
    assert!(panel.showing_help());
    assert_eq!(panel.help(), "## Widget Help\nPress Enter to confirm.");
    assert!(ctx.repaint_requested());
}

#[test]
fn help_panel_auto_clears_on_focused_help_cleared_message() {
    let mut panel = HelpPanel::new().with_help("## Some help");
    assert!(panel.showing_help());
    let mut ctx = EventCtx::default();
    let msg = MessageEvent::new(NodeId::default(), Message::HelpPanelFocusedHelpCleared);
    panel.on_message(&msg, &mut ctx);
    assert!(!panel.showing_help());
    assert!(ctx.repaint_requested());
}

#[test]
fn help_panel_auto_updates_bindings_on_event() {
    let mut panel = HelpPanel::new();
    let hints = vec![BindingHint::new("ctrl+s", "Save"), BindingHint::new("ctrl+q", "Quit")];
    let mut ctx = EventCtx::default();
    panel.on_event(&Event::BindingsChanged(hints), &mut ctx);
    assert!(ctx.repaint_requested());
    assert_eq!(panel.key_panel.table.bindings.len(), 2);
    assert_eq!(panel.key_panel.table.bindings[0].key, "^s");
}

#[test]
fn help_panel_hides_help_while_app_unfocused() {
    let mut panel = HelpPanel::new().with_help("a\nb\nc\nd");
    let mut ctx = EventCtx::default();
    panel.on_event(&Event::AppFocus(false), &mut ctx);
    assert_eq!(ctx.class_changes, vec![("-show-help".to_string(), false)]);
    assert_eq!(panel.split_heights(40, 10), (0, 10));
    let mut ctx = EventCtx::default();
    panel.on_event(&Event::AppFocus(true), &mut ctx);
    assert_eq!(ctx.class_changes, vec![("-show-help".to_string(), true)]);
    assert_eq!(panel.split_heights(40, 10), (4, 6));
}

#[test]
fn help_messages_for_another_panel_are_ignored() {
    let mut panel = HelpPanel::new();
    let mut ctx = EventCtx::new(NodeId(7), Default::default());
    let msg = MessageEvent::new(NodeId(1), Message::HelpPanelSetHelp { panel: NodeId(8), markup: "x".to_string() });
    panel.on_message(&msg, &mut ctx);
    assert!(!panel.showing_help());
    let msg = MessageEvent::new(NodeId(1), Message::HelpPanelSetHelp { panel: NodeId(7), markup: "x".to_string() });
    panel.on_message(&msg, &mut ctx);
    assert!(panel.showing_help());
    assert!(ctx.handled());
}

#[test]
fn scroll_action_posts_scrolled_message() {
    let mut panel = KeyPanel::new().with_bindings(vec![
        FooterBinding::new("a", "one"),
        FooterBinding::new("b", "two"),
        FooterBinding::new("c", "three"),
        FooterBinding::new("d", "four"),
        FooterBinding::new("e", "five"),
        FooterBinding::new("f", "six"),
        FooterBinding::new("g", "seven"),
    ]);
    let _ = panel.render_lines(32, 4);
    let mut ctx = EventCtx::default();
    panel.on_event(&Event::Action(Action::ScrollDown), &mut ctx);
    let messages = ctx.take_messages();
    assert!(messages.iter().any(|m| matches!(m.message, Message::KeyPanelScrolled { .. })));
}

#[test]
fn mouse_up_after_thumb_drag_requests_repaint() {
    let bindings = (1..=16).map(|i| FooterBinding::new(&format!("k{i:02}"), &format!("item {i:02}"))).collect();
    let mut panel = KeyPanel::new().with_bindings(bindings);
    let _ = panel.take_composed_children();
    let _ = panel.render_lines(32, 6);
    assert_eq!(panel.offset_y, 0);
    let mut ctx = EventCtx::default();
    panel.on_message(
        &MessageEvent::new(NodeId::default(), Message::ScrollbarScrollTo { axis: ScrollbarAxis::Vertical, offset: 2 }),
        &mut ctx,
    );
    assert!(ctx.handled());
    assert!(ctx.repaint_requested());
    assert!(panel.offset_y > 0);
}

#[test]
fn key_panel_tree_mode_extracts_dedicated_scrollbar_child() {
    let mut panel = KeyPanel::new();
    let children = panel.take_composed_children();
    assert_eq!(children.len(), 1);
    assert_eq!(children[0].css_id.as_deref(), Some("__key_panel_vscrollbar"));
}

#[test]
fn scrollbar_message_updates_offset_in_tree_mode() {
    let bindings = (1..=8).map(|i| FooterBinding::new(&format!("k{i}"), &format!("item {i}"))).collect();
    let mut panel = KeyPanel::new().with_bindings(bindings);
    let _ = panel.take_composed_children();
    let _ = panel.render_lines(32, 4);
    let mut ctx = EventCtx::default();
    panel.on_message(
        &MessageEvent::new(NodeId::default(), Message::ScrollbarScrollTo { axis: ScrollbarAxis::Vertical, offset: 2 }),
        &mut ctx,
    );
    assert!(ctx.handled());
    assert_eq!(panel.offset_y, 2);
}

#[test]
fn wrap_breaks_words_at_width_and_keeps_blank_paragraphs() {
    assert_eq!(wrap_text_for_width("alpha beta gamma", 10), vec!["alpha beta", "gamma"]);
    assert_eq!(wrap_text_for_width("one\n\ntwo", 10), vec!["one", "", "two"]);
    assert_eq!(wrap_text_for_width("anything", 0), vec![""]);
    assert_eq!(wrap_text_for_width("", 5), vec![""]);
    assert_eq!(wrap_text_for_width("averyveryverylongword x", 4), vec!["averyveryverylongword", "x"]);
}

#[test]
fn bindings_table_lines_align_keys_and_separate_groups() {
    let table = BindingsTable::new().with_bindings(vec![
        FooterBinding::new("q", "Quit").with_group("app"),
        FooterBinding::new("ctrl+s", "Save the file").with_group("app").with_tooltip("Writes to disk"),
        FooterBinding::new("f1", "Help").with_group("screen"),
    ]);
    let lines = table.lines(20);
    assert_eq!(
        lines,
        vec![
            "     q  Quit        ",
            "ctrl+s  Save the    ",
            "        file        ",
            "        Writes to   ",
            "        disk        ",
            "                    ",
            "    f1  Help        ",
        ]
    );
    assert_eq!(BindingsTable::new().lines(15), vec!["(no bindings)  "]);
}

#[test]
fn key_panel_render_shows_scrolled_window_and_fills_viewport() {
    let mut panel = KeyPanel::new().with_bindings(vec![
        FooterBinding::new("a", "one"),
        FooterBinding::new("b", "two"),
        FooterBinding::new("c", "three"),
    ]);
    panel.offset_y = 1;
    let lines = panel.render_lines(10, 2);
    assert_eq!(lines, vec!["  b  two  ", "  c  three"]);
    assert_eq!(panel.content_height, 3);
    assert_eq!(panel.viewport_height, 2);
    let tall = panel.render_lines(10, 5);
    assert_eq!(tall, vec!["  a  one  ", "  b  two  ", "  c  three", "          ", "          "]);
}
