use textual_widgets::digits::Digits;
use textual_widgets::event::{Action, Event, EventCtx, KeyCode, KeyEvent, Message, MouseDownEvent, NodeId};
use textual_widgets::helpers::{parse_windows_safe_borders_mode, WindowsSafeBordersMode};
use textual_widgets::input::{SuggestFromList, Suggester};
use textual_widgets::link::Link;
use textual_widgets::list_item::{ListChild, ListItem};
use textual_widgets::style::TextAlign;
use textual_widgets::widget_core::NodeState;

fn rows(a: &str, b: &str, c: &str) -> [String; 3] {
    [a.to_string(), b.to_string(), c.to_string()]
}

#[test]
fn content_width_empty_is_at_least_1() {
    let d = Digits::new("");
    assert_eq!(d.content_width(), Some(1));
}

#[test]
fn layout_height_is_3() {
    let d = Digits::new("0");
    assert_eq!(d.layout_height(), Some(3));
}

#[test]
fn style_type_is_digits() {
    let d = Digits::new("0");
    assert_eq!(d.style_type(), "Digits");
}

#[test]
fn set_value_changes_content() {
    let mut d = Digits::new("0");
    d.set_value("99");
    assert_eq!(d.value(), "99");
}

#[test]
fn update_alias_changes_content() {
    let mut d = Digits::new("0");
    d.update("42");
    assert_eq!(d.value(), "42");
}

#[test]
fn align_rows_left_no_change_when_exact_fit() {
    let r = rows("abc", "def", "ghi");
    let aligned = Digits::align_rows(r.clone(), 3, 3, TextAlign::Left);
    assert_eq!(aligned, r);
}

#[test]
fn align_rows_left_pads_right() {
    let aligned = Digits::align_rows(rows("ab", "cd", "ef"), 2, 6, TextAlign::Left);
    assert_eq!(aligned, rows("ab    ", "cd    ", "ef    "));
}

#[test]
fn align_rows_right_pads_left() {
    let aligned = Digits::align_rows(rows("ab", "cd", "ef"), 2, 6, TextAlign::Right);
    assert_eq!(aligned, rows("    ab", "    cd", "    ef"));
}

#[test]
fn align_rows_center_pads_both() {
    let aligned = Digits::align_rows(rows("ab", "cd", "ef"), 2, 6, TextAlign::Center);
    assert_eq!(aligned, rows("  ab  ", "  cd  ", "  ef  "));
}

#[test]
fn align_rows_center_odd_pad() {
    let aligned = Digits::align_rows(rows("ab", "cd", "ef"), 2, 5, TextAlign::Center);
    assert_eq!(aligned, rows(" ab  ", " cd  ", " ef  "));
}

#[test]
fn align_rows_justify_treated_as_left() {
    let aligned = Digits::align_rows(rows("ab", "cd", "ef"), 2, 6, TextAlign::Justify);
    assert_eq!(aligned, rows("ab    ", "cd    ", "ef    "));
}

#[test]
fn alignment_defaults_to_left_without_css() {
    let aligned = Digits::align_rows(rows("ab", "cd", "ef"), 2, 6, TextAlign::Left);
    assert_eq!(aligned[0], "ab    ");
    let d = Digits::new("1");
    assert_eq!(d.render_lines(5)[0], "\u{2576}\u{256e}   ");
}

#[test]
fn get_width_counts_font_and_other_characters() {
    assert_eq!(Digits::get_width("0123456789"), 30);
    assert_eq!(Digits::get_width("(0)"), 9);
    assert_eq!(Digits::get_width("0z"), 4);
    assert_eq!(Digits::get_width(""), 0);
    assert_eq!(Digits::get_width("\u{a3}\u{20ac}$"), 9);
}

#[test]
fn render_rows_draw_glyphs_and_fallbacks() {
    let zero = Digits::new("0").render_rows(false);
    assert_eq!(zero, rows("\u{256d}\u{2500}\u{256e}", "\u{2502} \u{2502}", "\u{2570}\u{2500}\u{256f}"));
    let bold = Digits::new("0").render_rows(true);
    assert_eq!(bold, rows("\u{250f}\u{2501}\u{2513}", "\u{2503} \u{2503}", "\u{2517}\u{2501}\u{251b}"));
    let unknown = Digits::new("z").render_rows(false);
    assert_eq!(unknown, rows(" ", " ", "z"));
    let dotted = Digits::new("1.0").render_rows(false);
    assert!(dotted[2].contains('\u{2022}'));
}

#[test]
fn windows_safe_borders_mode_parses_on_values() {
    for value in ["1", "true", "TRUE", "yes", "on"] {
        assert_eq!(parse_windows_safe_borders_mode(Some(value)), WindowsSafeBordersMode::On);
    }
}

#[test]
fn windows_safe_borders_mode_parses_off_values() {
    for value in ["0", "false", "FALSE", "no", "off"] {
        assert_eq!(parse_windows_safe_borders_mode(Some(value)), WindowsSafeBordersMode::Off);
    }
}

#[test]
fn windows_safe_borders_mode_defaults_to_auto() {
    assert_eq!(parse_windows_safe_borders_mode(None), WindowsSafeBordersMode::Auto);
    assert_eq!(parse_windows_safe_borders_mode(Some("auto")), WindowsSafeBordersMode::Auto);
    assert_eq!(parse_windows_safe_borders_mode(Some("unexpected")), WindowsSafeBordersMode::Auto);
    assert_eq!(parse_windows_safe_borders_mode(Some("  On ")), WindowsSafeBordersMode::On);
}

fn list(items: &[&str]) -> Vec<String> {
    items.iter().map(|s| s.to_string()).collect()
}

#[test]
fn suggest_from_list_case_insensitive_prefix() {
    let suggester = SuggestFromList::new(list(&["Portugal", "Poland", "Spain"]), false);
    assert_eq!(suggester.suggest("por"), Some("Portugal".to_string()));
    assert_eq!(suggester.suggest("POR"), Some("Portugal".to_string()));
    assert_eq!(suggester.suggest("pol"), Some("Poland".to_string()));
    assert_eq!(suggester.suggest("sp"), Some("Spain".to_string()));
    assert_eq!(suggester.suggest("x"), None);
    assert_eq!(suggester.suggest(""), None);
}

#[test]
fn suggest_from_list_case_sensitive() {
    let suggester = SuggestFromList::new(list(&["Portugal", "portal"]), true);
    assert_eq!(suggester.suggest("Por"), Some("Portugal".to_string()));
    assert_eq!(suggester.suggest("por"), Some("portal".to_string()));
    assert_eq!(suggester.suggest("POR"), None);
}

#[test]
fn suggest_from_list_returns_first_match() {
    let suggester = SuggestFromList::new(list(&["Apple", "Apricot", "Avocado"]), false);
    assert_eq!(suggester.suggest("ap"), Some("Apple".to_string()));
    assert_eq!(suggester.suggest("apr"), Some("Apricot".to_string()));
}

#[test]
fn default_url_equals_text() {
    let link = Link::new("https://example.com");
    assert_eq!(link.text(), "https://example.com");
    assert_eq!(link.url(), "https://example.com");
}

#[test]
fn with_url_overrides() {
    let link = Link::new("Click here").with_url("https://example.com");
    assert_eq!(link.text(), "Click here");
    assert_eq!(link.url(), "https://example.com");
}

#[test]
fn set_text_and_url() {
    let mut link = Link::new("initial");
    link.set_text("new text");
    link.set_url("https://new.url");
    assert_eq!(link.text(), "new text");
    assert_eq!(link.url(), "https://new.url");
}

#[test]
fn tooltip_default_is_none() {
    let link = Link::new("text");
    assert_eq!(link.tooltip(), None);
}

#[test]
fn with_tooltip_builder() {
    let link = Link::new("text").with_tooltip("hover me");
    assert_eq!(link.tooltip(), Some("hover me"));
}

#[test]
fn set_tooltip() {
    let mut link = Link::new("text");
    link.set_tooltip(Some("tip"));
    assert_eq!(link.tooltip(), Some("tip"));
    link.set_tooltip(None);
    assert_eq!(link.tooltip(), None);
}

#[test]
fn focusable() {
    let link = Link::new("text");
    assert!(link.focusable());
}

#[test]
fn content_width_matches_text() {
    let link = Link::new("hello");
    assert_eq!(link.content_width(), Some(5));
}

#[test]
fn content_width_min_1() {
    let link = Link::new("");
    assert_eq!(link.content_width(), Some(1));
}

#[test]
fn layout_height_is_1() {
    let link = Link::new("text");
    assert_eq!(link.layout_height(), Some(1));
}

#[test]
fn style_type_is_link() {
    let link = Link::new("text");
    assert_eq!(link.style_type(), "Link");
}

#[test]
fn activate_posts_link_clicked() {
    let mut link = Link::new("text").with_url("https://example.com");
    let mut ctx = EventCtx::default();
    let open = link.activate(&mut ctx);
    assert_eq!(open.as_deref(), Some("https://example.com"));
    assert!(ctx.handled());
    let messages = ctx.take_messages();
    assert_eq!(messages.len(), 1);
    assert!(matches!(&messages[0].message, Message::LinkClicked { url } if url == "https://example.com"));
}

#[test]
fn activate_empty_url_no_message() {
    let mut link = Link::new("text");
    link.set_url("");
    let mut ctx = EventCtx::default();
    assert_eq!(link.activate(&mut ctx), None);
    assert!(ctx.take_messages().is_empty());
}

#[test]
fn key_enter_activates_only_when_focused() {
    let mut link = Link::new("text").with_url("https://example.com");
    let mut ctx = EventCtx::default();
    assert_eq!(link.on_event(&Event::Key(KeyEvent::plain(KeyCode::Enter)), &mut ctx), None);
    assert!(!ctx.handled());
    let mut focused = EventCtx::new(NodeId::default(), NodeState { focused: true, ..Default::default() });
    let open = link.on_event(&Event::Key(KeyEvent::plain(KeyCode::Char(' '))), &mut focused);
    assert_eq!(open.as_deref(), Some("https://example.com"));
    assert!(focused.handled());
    let mut toggled = EventCtx::new(NodeId::default(), NodeState { focused: true, ..Default::default() });
    assert!(link.on_event(&Event::Action(Action::Toggle), &mut toggled).is_some());
}

#[test]
fn link_renders_fitted_text_with_target() {
    let link = Link::new("Click here").with_url("https://example.com");
    let (line, target) = link.render_line(12);
    assert_eq!(line, "Click here  ");
    assert_eq!(target.as_deref(), Some("https://example.com"));
}

#[test]
fn new_recovers_label_text() {
    let item = ListItem::new(ListChild::label("Hello"));
    assert_eq!(item.text(), "Hello");
}

#[test]
fn from_text_wraps_in_label() {
    let item = ListItem::from_text("World");
    assert_eq!(item.text(), "World");
    assert_eq!(item.children().len(), 1);
}

#[test]
fn style_type_is_list_item() {
    let item = ListItem::from_text("x");
    assert_eq!(item.style_type(), "ListItem");
}

#[test]
fn list_item_is_not_focusable() {
    let item = ListItem::from_text("x");
    assert!(!item.focusable());
}

#[test]
fn compose_drains_children() {
    let mut item = ListItem::new(ListChild::label("a")).with_child(ListChild::label("b"));
    let kids = item.compose();
    assert_eq!(kids.len(), 2);
    assert!(item.compose().is_empty());
}

#[test]
fn ordinal_round_trips() {
    let mut item = ListItem::from_text("x");
    item.set_ordinal(3);
    assert_eq!(item.ordinal(), 3);
}

fn press(target: NodeId) -> Event {
    Event::MouseDown(MouseDownEvent { target, screen_x: 0, screen_y: 0, x: 0, y: 0 })
}

#[test]
fn click_posts_child_clicked_with_ordinal() {
    let mut item = ListItem::from_text("two");
    item.set_ordinal(1);
    let mut ctx = EventCtx::new(NodeId(5), NodeState::default());
    item.on_event(&press(NodeId(5)), &mut ctx);
    let messages = ctx.take_messages();
    assert_eq!(messages.len(), 1);
    assert!(matches!(&messages[0].message, Message::ListItemChildClicked { ordinal: 1, item } if item == "two"));
}

#[test]
fn disabled_click_is_ignored() {
    let mut item = ListItem::from_text("x").disabled(true);
    let mut ctx = EventCtx::new(NodeId(5), NodeState::default());
    item.on_event(&press(NodeId(5)), &mut ctx);
    assert!(ctx.take_messages().is_empty());
}

#[test]
fn list_item_size_stacks_children() {
    let item = ListItem::new(ListChild::label("abc")).with_child(ListChild::widget(Some(2), Some(7)));
    assert_eq!(item.layout_height(), Some(3));
    assert_eq!(item.content_width(), Some(7));
    let unknown = ListItem::new(ListChild::label("abc")).with_child(ListChild::widget(None, None));
    assert_eq!(unknown.layout_height(), None);
    assert_eq!(unknown.content_width(), Some(3));
    assert_eq!(ListItem::empty().layout_height(), None);
}

#[test]
fn get_width_digits() {
    assert_eq!(Digits::get_width("0"), 3);
    assert_eq!(Digits::get_width("12"), 6);
    assert_eq!(Digits::get_width("0123456789"), 30);
}

#[test]
fn get_width_hex() {
    assert_eq!(Digits::get_width("A"), 3);
    assert_eq!(Digits::get_width("ABCDEF"), 18);
}

#[test]
fn get_width_operators() {
    assert_eq!(Digits::get_width("+"), 3);
    assert_eq!(Digits::get_width("-"), 3);
    assert_eq!(Digits::get_width("^"), 3);
    assert_eq!(Digits::get_width("x"), 3);
    assert_eq!(Digits::get_width(":"), 3);
}

#[test]
fn get_width_currency() {
    assert_eq!(Digits::get_width("$"), 3);
    assert_eq!(Digits::get_width("\u{a3}"), 3);
    assert_eq!(Digits::get_width("\u{20ac}"), 3);
}

#[test]
fn get_width_parens() {
    assert_eq!(Digits::get_width("("), 3);
    assert_eq!(Digits::get_width(")"), 3);
    assert_eq!(Digits::get_width("(0)"), 9);
}

#[test]
fn get_width_unknown_char() {
    assert_eq!(Digits::get_width("z"), 1);
    assert_eq!(Digits::get_width("0z"), 4);
}

#[test]
fn get_width_empty() {
    assert_eq!(Digits::get_width(""), 0);
}

#[test]
fn get_width_space() {
    assert_eq!(Digits::get_width(" "), 3);
}

#[test]
fn render_rows_digit_zero() {
    let d = Digits::new("0");
    let rows = d.render_rows(false);
    assert_eq!(rows[0], "\u{256d}\u{2500}\u{256e}");
    assert_eq!(rows[1], "\u{2502} \u{2502}");
    assert_eq!(rows[2], "\u{2570}\u{2500}\u{256f}");
}

#[test]
fn render_rows_bold_zero() {
    let d = Digits::new("0");
    let rows = d.render_rows(true);
    assert_eq!(rows[0], "\u{250f}\u{2501}\u{2513}");
    assert_eq!(rows[1], "\u{2503} \u{2503}");
    assert_eq!(rows[2], "\u{2517}\u{2501}\u{251b}");
}

#[test]
fn render_rows_unknown_char_fallback() {
    let d = Digits::new("z");
    let rows = d.render_rows(false);
    assert_eq!(rows[0], " ");
    assert_eq!(rows[1], " ");
    assert_eq!(rows[2], "z");
}

#[test]
fn render_rows_dot_replaced_with_bullet() {
    let d = Digits::new("1.0");
    let rows = d.render_rows(false);
    assert!(rows[2].contains('\u{2022}'));
}

#[test]
fn render_rows_multiple_digits() {
    let d = Digits::new("12");
    let rows = d.render_rows(false);
    assert_eq!(rich_rs::cell_len(&rows[0]), 6);
    assert_eq!(rich_rs::cell_len(&rows[1]), 6);
    assert_eq!(rich_rs::cell_len(&rows[2]), 6);
}

#[test]
fn content_width_matches_get_width() {
    let d = Digits::new("42");
    assert_eq!(d.content_width(), Some(Digits::get_width("42")));
}

#[test]
fn focus_state() {
    let link = Link::new("text");
    let ctx = EventCtx::default();
    assert!(!ctx.state.focused);
    assert!(!link.is_active(ctx.state));
}

#[test]
fn hover_state() {
    let link = Link::new("text");
    let ctx = EventCtx::default();
    assert!(!ctx.state.hovered);
    assert!(!link.is_active(ctx.state));
}

#[test]
fn render_sets_hyperlink_meta_without_explicit_link_id() {
    let link = Link::new("Click here").with_url("https://example.com");
    let (line, target) = link.render_line(20);
    assert_eq!(line, "Click here          ");
    assert_eq!(target.as_deref(), Some("https://example.com"));
}

#[test]
fn key_enter_activates_when_focused() {
    let mut link = Link::new("text").with_url("https://example.com");
    let mut ctx = EventCtx::default();
    let event = Event::Key(KeyEvent::plain(KeyCode::Enter));
    assert_eq!(link.on_event(&event, &mut ctx), None);
    assert!(!ctx.handled());
}

#[test]
fn key_enter_ignored_when_unfocused() {
    let mut link = Link::new("text").with_url("https://example.com");
    let mut ctx = EventCtx::default();
    let event = Event::Key(KeyEvent::plain(KeyCode::Enter));
    link.on_event(&event, &mut ctx);
    assert!(!ctx.handled());
}

#[test]
fn decimal_text_writes_digits_as_display_does() {
    for n in [0usize, 7, 10, 99, 1234, 1_000_000, usize::MAX] {
        assert_eq!(textual_widgets::text::decimal_text(n), n.to_string());
    }
}

#[test]
fn whitespace_is_the_unicode_white_space_property() {
    for c in (0u32..0x3100).filter_map(char::from_u32) {
        assert_eq!(textual_widgets::text::is_whitespace(c), c.is_whitespace(), "{:?}", c);
    }
    assert!(!textual_widgets::text::is_whitespace('\u{180E}'));
    assert!(!textual_widgets::text::is_whitespace('\u{FEFF}'));
}
