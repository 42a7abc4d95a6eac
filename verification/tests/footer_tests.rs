use textual_widgets::event::{BindingHint, Event, EventCtx, Message, MouseDownEvent, NodeId};
use textual_widgets::footer::{Footer, FooterBinding, FooterKey, HoveredFooterItem, LeftBindingItem};

fn count_updates(messages: &[textual_widgets::event::MessageEvent], count: usize) -> bool {
    messages.iter().any(|m| matches!(m.message, Message::FooterBindingsUpdated { count: c } if c == count))
}

fn click(x: u16) -> Event {
    Event::MouseDown(MouseDownEvent { target: NodeId::default(), screen_x: x, screen_y: 0, x, y: 0 })
}

fn simulated_key(messages: &[textual_widgets::event::MessageEvent]) -> Option<String> {
    messages.iter().find_map(|m| match &m.message {
        Message::AppSimulateKey { key } => Some(key.clone()),
        _ => None,
    })
}

#[test]
fn bindings_changed_posts_footer_bindings_updated_message() {
    let mut footer = Footer::new();
    let mut ctx = EventCtx::default();
    footer.on_event(&Event::BindingsChanged(vec![BindingHint::new("ctrl+p", "Palette")]), &mut ctx);
    let messages = ctx.take_messages();
    assert!(count_updates(&messages, 1));
}

#[test]
fn identical_bindings_changed_is_noop() {
    let mut footer = Footer::new();
    let mut first_ctx = EventCtx::default();
    let hints = vec![BindingHint::new("ctrl+p", "Palette")];
    footer.on_event(&Event::BindingsChanged(hints.clone()), &mut first_ctx);
    assert!(!first_ctx.take_messages().is_empty());

    let mut second_ctx = EventCtx::default();
    footer.on_event(&Event::BindingsChanged(hints), &mut second_ctx);
    assert!(second_ctx.take_messages().is_empty());
}

#[test]
fn bindings_changed_defers_while_app_unfocused() {
    let mut footer = Footer::new();
    let mut unfocus_ctx = EventCtx::default();
    footer.on_event(&Event::AppFocus(false), &mut unfocus_ctx);
    assert!(unfocus_ctx.take_messages().is_empty());
    assert!(!unfocus_ctx.repaint_requested());

    let mut bindings_ctx = EventCtx::default();
    footer.on_event(&Event::BindingsChanged(vec![BindingHint::new("ctrl+p", "Palette")]), &mut bindings_ctx);
    assert!(bindings_ctx.take_messages().is_empty());
    assert!(!bindings_ctx.repaint_requested());
}

#[test]
fn focus_gain_applies_latest_deferred_bindings_once() {
    let mut footer = Footer::new();
    let mut unfocus_ctx = EventCtx::default();
    footer.on_event(&Event::AppFocus(false), &mut unfocus_ctx);

    let mut first_ctx = EventCtx::default();
    footer.on_event(&Event::BindingsChanged(vec![BindingHint::new("a", "alpha")]), &mut first_ctx);
    assert!(first_ctx.take_messages().is_empty());

    let mut second_ctx = EventCtx::default();
    footer.on_event(
        &Event::BindingsChanged(vec![BindingHint::new("a", "alpha"), BindingHint::new("b", "bravo")]),
        &mut second_ctx,
    );
    assert!(second_ctx.take_messages().is_empty());

    let mut focus_ctx = EventCtx::default();
    footer.on_event(&Event::AppFocus(true), &mut focus_ctx);
    let messages = focus_ctx.take_messages();
    assert_eq!(messages.len(), 1);
    assert!(matches!(messages[0].message, Message::FooterBindingsUpdated { count: 2 }));
    assert!(focus_ctx.repaint_requested());
}

#[test]
fn repeated_focus_loss_does_not_drop_deferred_bindings() {
    let mut footer = Footer::new();
    let mut ctx = EventCtx::default();
    footer.on_event(&Event::AppFocus(false), &mut ctx);
    footer.on_event(&Event::BindingsChanged(vec![BindingHint::new("ctrl+p", "Palette")]), &mut ctx);
    footer.on_event(&Event::AppFocus(false), &mut ctx);

    let mut focus_ctx = EventCtx::default();
    footer.on_event(&Event::AppFocus(true), &mut focus_ctx);
    let messages = focus_ctx.take_messages();
    assert_eq!(messages.len(), 1);
    assert!(matches!(messages[0].message, Message::FooterBindingsUpdated { count: 1 }));
}

#[test]
fn unmount_resets_focus_tracking_state() {
    let mut footer = Footer::new();
    let mut unfocus_ctx = EventCtx::default();
    footer.on_event(&Event::AppFocus(false), &mut unfocus_ctx);
    footer.on_unmount();

    let mut ctx = EventCtx::default();
    footer.on_event(&Event::BindingsChanged(vec![BindingHint::new("ctrl+p", "Palette")]), &mut ctx);
    let messages = ctx.take_messages();
    assert_eq!(messages.len(), 1);
    assert!(matches!(messages[0].message, Message::FooterBindingsUpdated { count: 1 }));
}

#[test]
fn bindings_from_hints_stores_action_key() {
    let mut footer = Footer::new();
    let mut ctx = EventCtx::default();
    let hints = vec![BindingHint::new("ctrl+s", "Save").with_key_display("^s")];
    footer.on_event(&Event::BindingsChanged(hints), &mut ctx);
    assert_eq!(footer.bindings[0].key, "^s");
    assert_eq!(footer.bindings[0].action_key.as_deref(), Some("ctrl+s"));
}

#[test]
fn binding_index_at_x_finds_first_binding() {
    let footer = Footer::new().with_binding("^q", "Quit").with_binding("^s", "Save");
    assert_eq!(footer.binding_index_at_x(0), Some(0));
}

#[test]
fn binding_index_at_x_finds_second_binding() {
    let footer = Footer::new().with_binding("^q", "Quit").with_binding("^s", "Save");
    assert_eq!(footer.binding_index_at_x(11), Some(1));
}

#[test]
fn binding_index_at_x_returns_none_past_bindings() {
    let footer = Footer::new().with_binding("^q", "Quit");
    assert_eq!(footer.binding_index_at_x(50), None);
}

#[test]
fn click_on_binding_is_handled() {
    let mut footer = Footer::new().with_binding("^q", "Quit").with_binding("^s", "Save");
    let mut ctx = EventCtx::default();
    footer.on_event(&click(0), &mut ctx);
    assert!(ctx.handled());
    assert!(ctx.repaint_requested());
    let messages = ctx.take_messages();
    assert_eq!(messages.len(), 1);
    assert!(matches!(&messages[0].message, Message::AppSimulateKey { key } if key == "^q"));
}

#[test]
fn click_distinguishes_each_binding_key() {
    let mut footer = Footer::new().with_binding("l", "Leto").with_binding("j", "Jessica").with_binding("p", "Paul");
    let regions = footer.left_binding_regions();
    let clicks: Vec<(usize, usize)> = regions.iter().take(3).map(|r| ((r.start + r.end) / 2, r.index)).collect();
    assert_eq!(clicks.len(), 3);
    for (x, idx) in clicks {
        let expected_key = match idx {
            0 => "l",
            1 => "j",
            2 => "p",
            _ => panic!("unexpected binding index {idx}"),
        };
        let mut ctx = EventCtx::default();
        footer.on_event(&click(x as u16), &mut ctx);
        assert_eq!(simulated_key(&ctx.take_messages()).as_deref(), Some(expected_key));
    }
}

#[test]
fn click_grouped_binding_targets_specific_key() {
    let mut footer = Footer::new();
    let mut setup_ctx = EventCtx::default();
    footer.on_event(
        &Event::BindingsChanged(vec![
            BindingHint::new("a", "left").with_group("Move"),
            BindingHint::new("b", "right").with_group("Move"),
        ]),
        &mut setup_ctx,
    );
    let second = footer.left_binding_regions().into_iter().find(|r| r.index == 1).expect("second region");
    let x = ((second.start + second.end) / 2) as u16;
    let mut ctx = EventCtx::default();
    footer.on_event(&click(x), &mut ctx);
    assert_eq!(simulated_key(&ctx.take_messages()).as_deref(), Some("b"));
}

#[test]
fn click_command_palette_binding_is_handled() {
    let mut footer = Footer::new();
    let mut setup_ctx = EventCtx::default();
    footer.on_event(
        &Event::BindingsChanged(vec![
            BindingHint::new("j", "Jessica"),
            BindingHint::new("ctrl+p", "palette").with_key_display("^p").with_group("command_palette"),
        ]),
        &mut setup_ctx,
    );
    footer.on_layout(64, 1);
    let (start, end) = footer.command_palette_region(64).expect("palette region should exist");
    let x = ((start + end) / 2) as u16;
    let mut ctx = EventCtx::default();
    footer.on_event(&click(x), &mut ctx);
    assert_eq!(simulated_key(&ctx.take_messages()).as_deref(), Some("ctrl+p"));
}

#[test]
fn click_binding_uses_raw_action_key_when_display_differs() {
    let mut footer = Footer::new();
    let mut setup_ctx = EventCtx::default();
    footer.on_event(
        &Event::BindingsChanged(vec![BindingHint::new("ctrl+p", "Palette").with_key_display("^p")]),
        &mut setup_ctx,
    );
    let mut ctx = EventCtx::default();
    footer.on_event(&click(0), &mut ctx);
    let messages = ctx.take_messages();
    assert_eq!(messages.len(), 1);
    assert!(matches!(&messages[0].message, Message::AppSimulateKey { key } if key == "ctrl+p"));
}

#[test]
fn click_past_bindings_is_not_handled() {
    let mut footer = Footer::new().with_binding("^q", "Quit");
    let mut ctx = EventCtx::default();
    footer.on_event(&click(50), &mut ctx);
    assert!(!ctx.handled());
}

#[test]
fn footer_binding_with_action_key_builder() {
    let binding = FooterBinding::new("^s", "Save").with_action_key("ctrl+s");
    assert_eq!(binding.action_key.as_deref(), Some("ctrl+s"));
}

#[test]
fn binding_index_at_x_compact_mode() {
    let footer = Footer::new().compact(true).with_binding("^q", "Quit").with_binding("^s", "Save");
    let regions = footer.left_binding_regions();
    let first = regions.iter().find(|r| r.index == 0).expect("first binding region");
    let second = regions.iter().find(|r| r.index == 1).expect("second binding region");
    let first_mid = ((first.start + first.end) / 2) as u16;
    let second_mid = ((second.start + second.end) / 2) as u16;
    assert_eq!(footer.binding_index_at_x(first_mid), Some(0));
    assert_eq!(footer.binding_index_at_x(second_mid), Some(1));
}

#[test]
fn tooltip_anchor_uses_hovered_left_binding_region_center() {
    let mut footer = Footer::new();
    let mut setup_ctx = EventCtx::default();
    footer.on_event(
        &Event::BindingsChanged(vec![
            BindingHint::new("q", "Quit").with_tooltip("Quit the app"),
            BindingHint::new("h", "Help"),
        ]),
        &mut setup_ctx,
    );
    footer.on_layout(80, 1);
    let first = footer.left_binding_regions().into_iter().find(|r| r.index == 0).expect("first region");
    let hover_x = ((first.start + first.end) / 2) as u16;
    assert!(footer.on_mouse_move(hover_x, 0));
    let anchor = footer.tooltip_anchor().expect("hovered binding should expose tooltip anchor");
    let expected_x = (first.start + first.end.saturating_sub(1)) / 2;
    assert_eq!(anchor, (expected_x as u16, 0));
    assert_eq!(footer.tooltip().as_deref(), Some("Quit the app"));
}

#[test]
fn tooltip_anchor_uses_hovered_command_palette_region_center() {
    let mut footer = Footer::new();
    let mut setup_ctx = EventCtx::default();
    footer.on_event(
        &Event::BindingsChanged(vec![
            BindingHint::new("j", "Jessica"),
            BindingHint::new("ctrl+p", "palette")
                .with_key_display("^p")
                .with_group("command_palette")
                .with_tooltip("Open command palette"),
        ]),
        &mut setup_ctx,
    );
    footer.on_layout(80, 1);
    let (start, end) = footer.command_palette_region(80).expect("command palette region should exist");
    let hover_x = ((start + end) / 2) as u16;
    assert!(footer.on_mouse_move(hover_x, 0));
    let anchor = footer.tooltip_anchor().expect("hovered command palette should expose tooltip anchor");
    let expected_x = (start + end.saturating_sub(1)) / 2;
    assert_eq!(anchor, (expected_x as u16, 0));
}

#[test]
fn check_action_none_dims_binding() {
    let mut footer = Footer::new();
    let mut ctx = EventCtx::default();
    let mut hint = BindingHint::new("b", "Back");
    hint.enabled = None;
    footer.on_event(&Event::BindingsChanged(vec![hint]), &mut ctx);
    assert_eq!(footer.bindings.len(), 1);
    assert!(footer.bindings[0].enabled.is_none());
}

#[test]
fn check_action_false_hides_binding() {
    let mut footer = Footer::new();
    let mut ctx = EventCtx::default();
    let mut hint = BindingHint::new("x", "Hidden");
    hint.enabled = Some(false);
    footer.on_event(&Event::BindingsChanged(vec![hint]), &mut ctx);
    assert!(footer.bindings.is_empty(), "binding with enabled=Some(false) should be hidden");
}

#[test]
fn check_action_default_shows_binding_normally() {
    let mut footer = Footer::new();
    let mut ctx = EventCtx::default();
    let hint = BindingHint::new("q", "Quit");
    footer.on_event(&Event::BindingsChanged(vec![hint]), &mut ctx);
    assert_eq!(footer.bindings.len(), 1);
    assert_eq!(footer.bindings[0].enabled, Some(true));
}

#[test]
fn default_key_layout_pads_key_and_description() {
    let key = FooterKey::new("^q", "Quit");
    let (k, d) = key.render_spans();
    assert_eq!(k, " ^q ");
    assert_eq!(d, "Quit ");
    assert_eq!(key.render_width(), 9);
    let compact = FooterKey::new("^q", "Quit").with_compact(true);
    assert_eq!(compact.render_spans(), ("^q".to_string(), " Quit".to_string()));
    let palette = FooterKey::new("^p", "palette").with_command_palette(true);
    assert_eq!(palette.render_spans().0, "^p ");
    let bare = FooterKey::new("^q", "Quit").key_only();
    assert_eq!(bare.render_width(), 2);
}

#[test]
fn regions_follow_key_widths_and_group_labels() {
    let mut footer = Footer::new();
    let mut ctx = EventCtx::default();
    footer.on_event(
        &Event::BindingsChanged(vec![
            BindingHint::new("a", "left").with_group("Move"),
            BindingHint::new("b", "right").with_group("Move"),
            BindingHint::new("q", "Quit"),
        ]),
        &mut ctx,
    );
    let regions: Vec<(usize, usize, usize)> =
        footer.left_binding_regions().iter().map(|r| (r.start, r.end, r.index)).collect();
    assert_eq!(regions, vec![(0, 1, 0), (1, 2, 1), (7, 15, 2)]);
    assert_eq!(footer.left_line_width(), 15);
}

#[test]
fn split_bindings_groups_runs_and_finds_palette() {
    let mut footer = Footer::new();
    let mut ctx = EventCtx::default();
    footer.on_event(
        &Event::BindingsChanged(vec![
            BindingHint::new("a", "left").with_group("Move"),
            BindingHint::new("b", "right").with_group("Move"),
            BindingHint::new("c", "solo").with_group("Other"),
            BindingHint::new("ctrl+p", "palette").with_group("command_palette"),
            BindingHint::new("q", "Quit"),
        ]),
        &mut ctx,
    );
    let (items, palette) = footer.split_bindings();
    assert_eq!(items.len(), 3);
    assert!(matches!(&items[0], LeftBindingItem::Grouped { label, bindings } if label == "Move" && bindings.len() == 2));
    assert!(matches!(&items[1], LeftBindingItem::Single(b) if b.key == "c"));
    assert!(matches!(&items[2], LeftBindingItem::Single(b) if b.key == "q"));
    assert_eq!(palette.map(|p| p.key), Some("ctrl+p".to_string()));
}

#[test]
fn leaving_clears_hover_and_repaints() {
    let mut footer = Footer::new().with_binding("^q", "Quit");
    assert!(footer.on_mouse_move(1, 0));
    assert_eq!(footer.hovered_item, Some(HoveredFooterItem::Binding(0)));
    let mut ctx = EventCtx::default();
    footer.on_event(&Event::Leave, &mut ctx);
    assert_eq!(footer.hovered_item, None);
    assert!(ctx.repaint_requested());
    assert!(!footer.on_mouse_move(1, 1));
}

#[test]
fn non_compact_footer_binding_spacing_matches_python_pattern() {
    let mut footer = Footer::new();
    let mut setup_ctx = EventCtx::default();
    footer.on_event(
        &Event::BindingsChanged(vec![
            BindingHint::new("l", "Leto"),
            BindingHint::new("j", "Jessica"),
            BindingHint::new("p", "Paul"),
        ]),
        &mut setup_ctx,
    );
    let line = footer.render_text(64);
    assert_eq!(line.chars().count(), 64);
    assert!(line.trim_end().contains("l Leto  j Jessica  p Paul"), "got: {line:?}");
}

#[test]
fn command_palette_separator_hugs_key_hint() {
    let mut footer = Footer::new();
    let mut setup_ctx = EventCtx::default();
    footer.on_event(
        &Event::BindingsChanged(vec![
            BindingHint::new("j", "Jessica"),
            BindingHint::new("ctrl+p", "palette").with_key_display("^p").with_group("command_palette"),
        ]),
        &mut setup_ctx,
    );
    let line = footer.render_text(64);
    let chars: Vec<char> = line.chars().collect();
    assert_eq!(chars.len(), 64);
    let separator_idx = chars.iter().position(|ch| *ch == '\u{258f}').expect("expected command palette separator");
    let caret_idx = chars.iter().position(|ch| *ch == '^').expect("expected command palette key hint");
    assert_eq!(caret_idx, separator_idx + 1);
    assert!(line.ends_with("\u{258f}^p palette "));
    let (start, _end) = footer.command_palette_region(64).expect("region");
    assert_eq!(start, separator_idx);
}

#[test]
fn command_palette_hover_applies_to_separator_cell() {
    let mut footer = Footer::new();
    let mut setup_ctx = EventCtx::default();
    footer.on_event(
        &Event::BindingsChanged(vec![
            BindingHint::new("j", "Jessica"),
            BindingHint::new("ctrl+p", "palette").with_key_display("^p").with_group("command_palette"),
        ]),
        &mut setup_ctx,
    );
    footer.on_layout(64, 1);
    let range = footer.command_palette_region(64).expect("command palette region should exist");
    let sep_x = range.0 as u16;
    let key_x = (range.0 + 1) as u16;
    assert!(footer.on_mouse_move(key_x, 0), "hover should update state");
    assert_eq!(footer.hovered_item, Some(HoveredFooterItem::CommandPalette));
    let hovered = footer.hovered_region().expect("hovered region");
    assert_eq!(hovered, range);
    assert!(hovered.0 <= sep_x as usize && (sep_x as usize) < hovered.1);
    let chars: Vec<char> = footer.render_text(64).chars().collect();
    assert_eq!(chars[sep_x as usize], '\u{258f}');
}
