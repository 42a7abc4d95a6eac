use textual_widgets::event::{ReactiveField, ReactiveValue};
use textual_widgets::event::{
    BindingHint, Event, EventCtx, Message, MessageEvent, MouseDownEvent, MouseUpEvent, NodeId, ReactiveCtx,
};
use textual_widgets::header::{Header, HeaderChild, HeaderClock, HeaderIcon, HeaderTitle};

fn down(x: u16, target: NodeId) -> Event {
    Event::MouseDown(MouseDownEvent { x, y: 0, screen_x: x, screen_y: 0, target })
}

fn up(x: u16, target: Option<NodeId>) -> Event {
    Event::MouseUp(MouseUpEvent { x, y: 0, screen_x: x, screen_y: 0, target })
}

#[test]
fn header_body_click_toggles_tall_and_emits_message() {
    let mut header = Header::new();
    let id = NodeId::default();
    let mut down_ctx = EventCtx::default();
    header.on_event(&down(9, id), &mut down_ctx);
    assert!(down_ctx.handled());

    let mut ctx = EventCtx::default();
    header.on_event(&up(9, Some(id)), &mut ctx);
    assert!(ctx.handled());
    assert!(ctx.repaint_requested());
    assert!(ctx.layout_requested(), "tall toggle should request layout invalidation for immediate relayout");
    let messages = ctx.take_messages();
    assert_eq!(messages.len(), 1);
    assert_eq!(messages[0].sender, id);
    assert!(matches!(messages[0].message, Message::HeaderToggled { tall: true }));
    assert_eq!(ctx.class_changes, vec![("-tall".to_string(), true)]);
}

#[test]
fn header_icon_click_emits_command_palette_action() {
    let mut icon = HeaderIcon::new("\u{2b58}");
    let id = NodeId::default();
    let mut down_ctx = EventCtx::default();
    icon.on_event(&down(0, id), &mut down_ctx);
    assert!(down_ctx.handled());

    let mut up_ctx = EventCtx::default();
    icon.on_event(&up(0, Some(id)), &mut up_ctx);
    let messages = up_ctx.take_messages();
    assert_eq!(messages.len(), 2);
    assert!(matches!(messages[0].message, Message::HeaderIconPressed));
    assert!(matches!(messages[1].message, Message::AppCommandPalette));
}

#[test]
fn header_tree_mode_toggles_from_child_target_click() {
    let mut header = Header::new();
    let _ = header.compose();
    let child_id = NodeId::default();

    let mut down_ctx = EventCtx::default();
    header.on_event(&down(4, child_id), &mut down_ctx);
    assert!(down_ctx.handled());

    let mut up_ctx = EventCtx::default();
    header.on_event(&up(4, Some(child_id)), &mut up_ctx);
    assert!(up_ctx.handled());
    assert!(up_ctx.layout_requested());
    let messages = up_ctx.take_messages();
    assert_eq!(messages.len(), 1);
    assert!(matches!(messages[0].message, Message::HeaderToggled { tall: true }));
}

#[test]
fn header_tree_mode_mouse_up_without_press_is_noop() {
    let mut header = Header::new();
    let _ = header.compose();
    let mut up_ctx = EventCtx::default();
    header.on_event(&up(4, Some(NodeId::default())), &mut up_ctx);
    assert!(!up_ctx.handled());
    assert!(up_ctx.take_messages().is_empty());
    assert!(!header.tall);
}

#[test]
fn header_icon_bindings_update_palette_tooltip_and_action_key() {
    let mut icon = HeaderIcon::new("\u{2b58}");
    let mut ctx = EventCtx::default();
    icon.on_event(
        &Event::BindingsChanged(vec![
            BindingHint::new("f1", "Help"),
            BindingHint::new("ctrl+k", "palette").with_group("command_palette").with_tooltip("Open command palette"),
        ]),
        &mut ctx,
    );
    assert!(ctx.repaint_requested());
    assert_eq!(icon.command_palette_action_key.as_deref(), Some("ctrl+k"));
    assert_eq!(icon.command_palette_tooltip.as_deref(), Some("Open command palette"));
}

#[test]
fn header_icon_tooltip_anchor_tracks_layout_bottom_row() {
    let mut icon = HeaderIcon::new("\u{2b58}");
    icon.on_layout(8, 1);
    assert_eq!(icon.tooltip_anchor(), Some((4, 0)));
    icon.on_layout(8, 3);
    assert_eq!(icon.tooltip_anchor(), Some((4, 2)));
}

#[test]
fn header_icon_click_without_palette_binding_emits_no_palette_action() {
    let mut icon = HeaderIcon::new("\u{2b58}");
    let mut bindings_ctx = EventCtx::default();
    icon.on_event(&Event::BindingsChanged(vec![BindingHint::new("f1", "Help")]), &mut bindings_ctx);

    let id = NodeId::default();
    let mut down_ctx = EventCtx::default();
    icon.on_event(&down(0, id), &mut down_ctx);
    assert!(down_ctx.handled());

    let mut up_ctx = EventCtx::default();
    icon.on_event(&up(0, Some(id)), &mut up_ctx);
    let messages = up_ctx.take_messages();
    assert_eq!(messages.len(), 1);
    assert!(matches!(messages[0].message, Message::HeaderIconPressed));
}

#[test]
fn header_mouse_release_outside_target_is_noop() {
    let mut header = Header::new();
    let id = NodeId::default();
    let mut down_ctx = EventCtx::default();
    header.on_event(&down(0, id), &mut down_ctx);
    assert!(down_ctx.handled());

    let mut up_ctx = EventCtx::default();
    header.on_event(&up(12, None), &mut up_ctx);
    assert!(!up_ctx.handled());
    assert!(up_ctx.take_messages().is_empty());
}

#[test]
fn set_title_overrides_display() {
    let mut header = Header::new().title("My App");
    let mut ctx = ReactiveCtx::new(NodeId::default());
    assert_eq!(header.title, "My App");
    assert_eq!(header.default_title, "My App");
    header.set_title(Some("Settings"), &mut ctx);
    assert_eq!(header.title, "Settings");
    assert_eq!(header.default_title, "My App");
}

#[test]
fn set_title_none_reverts_to_default() {
    let mut header = Header::new().title("My App");
    let mut ctx = ReactiveCtx::new(NodeId::default());
    header.set_title(Some("Settings"), &mut ctx);
    assert_eq!(header.title, "Settings");
    header.set_title(None, &mut ctx);
    assert_eq!(header.title, "My App");
}

#[test]
fn set_subtitle_overrides_display() {
    let mut header = Header::new().subtitle("v1");
    let mut ctx = ReactiveCtx::new(NodeId::default());
    assert_eq!(header.subtitle, Some("v1".to_string()));
    header.set_subtitle(Some("v2"), &mut ctx);
    assert_eq!(header.subtitle, Some("v2".to_string()));
    assert_eq!(header.default_subtitle, Some("v1".to_string()));
}

#[test]
fn set_subtitle_none_reverts_to_default() {
    let mut header = Header::new().subtitle("v1");
    let mut ctx = ReactiveCtx::new(NodeId::default());
    header.set_subtitle(Some("v2"), &mut ctx);
    header.set_subtitle(None, &mut ctx);
    assert_eq!(header.subtitle, Some("v1".to_string()));
}

#[test]
fn on_message_screen_title_changed_updates_title() {
    let mut header = Header::new().title("App").subtitle("Sub");
    let msg = MessageEvent::new(
        NodeId(0),
        Message::ScreenTitleChanged { title: Some("Screen Title".to_string()), sub_title: Some("Screen Sub".to_string()) },
    );
    let mut ctx = EventCtx::default();
    header.on_message(&msg, &mut ctx);
    assert_eq!(header.title, "Screen Title");
    assert_eq!(header.subtitle, Some("Screen Sub".to_string()));
    assert!(ctx.repaint_requested());
}

#[test]
fn on_message_screen_title_none_reverts() {
    let mut header = Header::new().title("App").subtitle("Sub");
    let msg = MessageEvent::new(NodeId(0), Message::ScreenTitleChanged { title: Some("Screen".to_string()), sub_title: None });
    let mut ctx = EventCtx::default();
    header.on_message(&msg, &mut ctx);
    assert_eq!(header.title, "Screen");
    assert_eq!(header.subtitle, Some("Sub".to_string()));

    let msg2 = MessageEvent::new(NodeId(0), Message::ScreenTitleChanged { title: None, sub_title: None });
    let mut ctx2 = EventCtx::default();
    header.on_message(&msg2, &mut ctx2);
    assert_eq!(header.title, "App");
}

#[test]
fn header_compose_uses_python_widget_structure() {
    let mut header = Header::new().title("ModalApp").show_clock(true);
    let children = header.compose();
    assert_eq!(children.len(), 3);
    assert!(matches!(children[0], HeaderChild::Icon(_)));
    assert!(matches!(children[1], HeaderChild::Title(_)));
    assert!(matches!(children[2], HeaderChild::Clock(_)));
    assert!(header.compose().is_empty());
}

#[test]
fn header_compose_uses_clock_space_when_clock_disabled() {
    let mut header = Header::new().title("ModalApp").show_clock(false);
    let children = header.compose();
    assert!(matches!(children[2], HeaderChild::ClockSpace(_)));
}

#[test]
fn header_clock_formats_time_of_day() {
    let clock = HeaderClock::new("%X");
    assert_eq!(clock.format_clock(3_661), "01:01:01");
    assert_eq!(clock.format_clock(86_400 + 45), "00:00:45");
    let custom = HeaderClock::new("%H-%M");
    assert_eq!(custom.format_clock(13 * 3_600 + 5 * 60 + 9), "13-05");
    let plain = HeaderClock::new("time");
    assert_eq!(plain.format_clock(59), "00:00:59");
    let mut ticking = HeaderClock::new("%T");
    assert!(ticking.is_active_at(10));
    assert_eq!(ticking.render_at(10), "00:00:10");
    assert!(!ticking.is_active_at(10));
}

#[test]
fn header_title_renders_subtitle_after_dash() {
    let title = HeaderTitle::new("App", None, "App", Some("Sub".to_string()));
    assert_eq!(title.render_text(), "App \u{2014} Sub");
    let bare = HeaderTitle::new("App", None, "App", Some(String::new()));
    assert_eq!(bare.render_text(), "App");
}

#[test]
fn tall_header_is_three_rows_and_seeds_tall_class() {
    let mut header = Header::new().tall(true);
    assert_eq!(header.layout_height(), Some(3));
    let seed = header.take_node_seed();
    assert_eq!(seed.classes, vec!["-tall".to_string()]);
    assert!(header.seed.classes.is_empty());
}

#[test]
fn header_icon_tooltip_is_trimmed() {
    let mut icon = HeaderIcon::new("\u{2b58}");
    let mut ctx = EventCtx::default();
    icon.on_event(
        &Event::BindingsChanged(vec![BindingHint::new("ctrl+p", "palette").with_group("command_palette").with_tooltip("  Palette  ")]),
        &mut ctx,
    );
    assert_eq!(icon.tooltip().as_deref(), Some("Palette"));
    let mut ctx = EventCtx::default();
    icon.on_event(
        &Event::BindingsChanged(vec![BindingHint::new("ctrl+p", "palette").with_group("command_palette").with_tooltip("   ")]),
        &mut ctx,
    );
    assert_eq!(icon.tooltip(), None);
}

#[test]
fn title_change_records_old_and_new_titles() {
    let mut header = Header::new().title("My App");
    let mut ctx = ReactiveCtx::new(NodeId::default());
    header.set_title(Some("Settings"), &mut ctx);
    assert_eq!(ctx.changes.len(), 1);
    assert_eq!(ctx.changes[0].field, ReactiveField::Title);
    assert_eq!(ctx.changes[0].previous, ReactiveValue::Text("My App".to_string()));
    assert_eq!(ctx.changes[0].current, ReactiveValue::Text("Settings".to_string()));
}
