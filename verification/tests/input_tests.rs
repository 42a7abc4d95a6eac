use textual_widgets::event::{
    Event, EventCtx, KeyCode, KeyEvent, KeyModifiers, Message, MessageEvent, MouseDownEvent, NodeId, ParsedAction,
};
use textual_widgets::input::{Input, InputType, Selection, SuggestFromList};
use textual_widgets::input_render::InputRole;
use textual_widgets::validation::{ValidationResult, Validator};
use textual_widgets::text_edit::{
    edit_command_from_key, first_clipboard_line, next_word_boundary, prev_grapheme_boundary, prev_word_boundary,
    EditCommand, MoveUnit,
};

fn plain(code: KeyCode) -> Event {
    Event::Key(KeyEvent::new(code, KeyModifiers::default()))
}

fn ctrl(code: KeyCode) -> Event {
    Event::Key(KeyEvent::new(code, KeyModifiers { control: true, shift: false, alt: false, ..KeyModifiers::default() }))
}

fn shift(code: KeyCode) -> Event {
    Event::Key(KeyEvent::new(code, KeyModifiers { control: false, shift: true, alt: false, ..KeyModifiers::default() }))
}

fn mouse_down(x: u16) -> Event {
    Event::MouseDown(MouseDownEvent { target: NodeId::default(), screen_x: 0, screen_y: 0, x, y: 0 })
}

fn suggester(items: &[&str]) -> SuggestFromList {
    SuggestFromList::new(items.iter().map(|s| s.to_string()).collect(), false)
}

fn chars(s: &str) -> Vec<char> {
    s.chars().collect()
}

#[test]
fn mouse_click_positions_cursor_in_text() {
    let mut input = Input::new();
    input.set_text("hello");
    input.set_focus(true, 0);
    let mut ctx = EventCtx::default();

    input.on_event(&mouse_down(0), 0, &mut ctx);
    assert!(ctx.handled());
    assert_eq!(input.cursor, 0);

    let mut ctx = EventCtx::default();
    input.on_event(&mouse_down(5), 0, &mut ctx);
    assert_eq!(input.cursor, input.text.len());
}

#[test]
fn mouse_drag_updates_selection_end() {
    let mut input = Input::new();
    input.set_text("hello");
    input.set_focus(true, 0);
    let mut ctx = EventCtx::default();
    input.on_event(&mouse_down(1), 0, &mut ctx);
    assert!(input.is_active());
    let changed = input.on_mouse_move(4, 0);
    assert!(changed);
    let (a, b) = input.selection.normalized();
    assert_eq!((a, b), (1, 4));
}

#[test]
fn typing_emits_input_changed_message() {
    let mut input = Input::new();
    input.set_focus(true, 0);
    let mut ctx = EventCtx::default();
    input.on_event(&plain(KeyCode::Char('a')), 0, &mut ctx);
    let messages = ctx.take_messages();
    assert_eq!(messages.len(), 1);
    assert!(matches!(
        messages[0].message,
        Message::InputChanged { ref value, .. } if value == "a"
    ));
}

#[test]
fn enter_emits_input_submitted_message() {
    let mut input = Input::new();
    input.set_focus(true, 0);
    input.set_text("done");
    let mut ctx = EventCtx::default();
    input.on_event(&plain(KeyCode::Enter), 0, &mut ctx);
    let messages = ctx.take_messages();
    assert_eq!(messages.len(), 1);
    assert!(matches!(
        messages[0].message,
        Message::InputSubmitted { ref value } if value == "done"
    ));
}

#[test]
fn left_and_backspace_respect_grapheme_clusters() {
    let mut input = Input::new();
    input.set_focus(true, 0);
    input.set_text("a\u{0301}👩‍🚀z");
    input.cursor = input.text.len();
    input.selection = Selection::cursor(input.cursor);

    let mut ctx = EventCtx::default();
    input.on_event(&plain(KeyCode::Left), 0, &mut ctx);
    let cursor_after_left = input.cursor;
    let rest: String = input.text[cursor_after_left..].iter().collect();
    assert_eq!(rest, "z");

    let mut ctx = EventCtx::default();
    input.on_event(&plain(KeyCode::Backspace), 0, &mut ctx);
    assert_eq!(input.text(), "a\u{0301}z");
}

#[test]
fn shift_navigation_expands_selection_and_backspace_deletes_it() {
    let mut input = Input::new();
    input.set_focus(true, 0);
    input.set_text("hello world");
    input.cursor = 5;
    input.selection = Selection::cursor(5);

    let mut ctx = EventCtx::default();
    input.on_event(&shift(KeyCode::Right), 0, &mut ctx);
    assert_eq!(input.selection.normalized(), (5, 6));

    let mut ctx = EventCtx::default();
    input.on_event(&plain(KeyCode::Backspace), 0, &mut ctx);
    assert_eq!(input.text(), "helloworld");
    assert_eq!(input.cursor, 5);
}

#[test]
fn ctrl_backspace_deletes_previous_word() {
    let mut input = Input::new();
    input.set_focus(true, 0);
    input.set_text("alpha beta");
    input.cursor = input.text.len();
    input.selection = Selection::cursor(input.cursor);

    let mut ctx = EventCtx::default();
    input.on_event(&ctrl(KeyCode::Backspace), 0, &mut ctx);

    assert_eq!(input.text(), "alpha ");
}

#[test]
fn copy_and_cut_emit_clipboard_messages() {
    let mut input = Input::new();
    input.set_focus(true, 0);
    input.set_text("hello world");
    input.cursor = 5;
    input.selection = Selection { start: 0, end: 5 };

    let mut ctx = EventCtx::default();
    input.on_event(&ctrl(KeyCode::Char('c')), 0, &mut ctx);
    let copy_messages = ctx.take_messages();
    assert!(matches!(
        copy_messages.first().map(|m| &m.message),
        Some(Message::TextEditClipboardCopyRequested { text, cut }) if text == "hello" && !cut
    ));

    let mut ctx = EventCtx::default();
    input.on_event(&ctrl(KeyCode::Char('x')), 0, &mut ctx);
    let cut_messages = ctx.take_messages();
    assert!(cut_messages.iter().any(|m| {
        matches!(
            m.message,
            Message::TextEditClipboardCopyRequested { ref text, cut: true } if text == "hello"
        )
    }));
    assert_eq!(input.text(), " world");
}

#[test]
fn paste_request_and_message_updates_input_value() {
    let mut input = Input::new();
    input.set_focus(true, 0);
    input.set_text("abc");
    input.cursor = 1;
    input.selection = Selection::cursor(1);

    let mut ctx = EventCtx::default();
    input.on_event(&ctrl(KeyCode::Char('v')), 0, &mut ctx);
    let messages = ctx.take_messages();
    assert!(matches!(
        messages.first().map(|m| &m.message),
        Some(Message::TextEditClipboardPasteRequested { target }) if *target == NodeId::default()
    ));

    let mut ctx = EventCtx::default();
    input.on_message(
        &MessageEvent {
            sender: NodeId::default(),
            message: Message::TextEditClipboardPaste { target: NodeId::default(), text: "XYZ".to_string() },
        },
        0,
        &mut ctx,
    );
    assert_eq!(input.text(), "aXYZbc");
    assert!(ctx.handled());
}

#[test]
fn paste_message_uses_first_clipboard_line_only() {
    let mut input = Input::new();
    input.set_focus(true, 0);
    input.set_text("abc");
    input.cursor = 1;
    input.selection = Selection::cursor(1);

    let mut ctx = EventCtx::default();
    input.on_message(
        &MessageEvent {
            sender: NodeId::default(),
            message: Message::TextEditClipboardPaste { target: NodeId::default(), text: "XYZ\r\n123".to_string() },
        },
        0,
        &mut ctx,
    );
    assert_eq!(input.text(), "aXYZbc");
    assert!(ctx.handled());
}

#[test]
fn input_bindings_are_declared() {
    let input = Input::new();
    let bindings = input.bindings();
    assert!(!bindings.is_empty());
    assert!(bindings.iter().any(|b| b.action == "submit"));
}

#[test]
fn execute_action_handles_submit() {
    let mut input = Input::new();
    input.set_focus(true, 0);
    input.set_text("hello");
    let mut ctx = EventCtx::default();
    let action = ParsedAction { namespace: None, name: "submit".to_string(), arguments: vec![] };
    assert!(input.execute_action(&action, &mut ctx));
    let messages = ctx.take_messages();
    assert!(messages.iter().any(|m| matches!(
        &m.message,
        Message::InputSubmitted { value } if value == "hello"
    )));
}

#[test]
fn typing_updates_suggestion() {
    let mut input = Input::new().with_suggester(suggester(&["Portugal", "Spain"]));
    input.set_focus(true, 0);

    let mut ctx = EventCtx::default();
    input.on_event(&plain(KeyCode::Char('p')), 0, &mut ctx);
    assert_eq!(input.text(), "p");
    assert_eq!(input.suggestion(), "Portugal");
}

#[test]
fn typing_clears_stale_suggestion() {
    let mut input = Input::new().with_suggester(suggester(&["Portugal"]));
    input.set_focus(true, 0);

    let mut ctx = EventCtx::default();
    input.on_event(&plain(KeyCode::Char('p')), 0, &mut ctx);
    assert_eq!(input.suggestion(), "Portugal");

    let mut ctx = EventCtx::default();
    input.on_event(&plain(KeyCode::Char('x')), 0, &mut ctx);
    assert_eq!(input.text(), "px");
    assert!(input.suggestion.is_empty());
}

#[test]
fn tab_accepts_suggestion() {
    let mut input = Input::new().with_suggester(suggester(&["Portugal"]));
    input.set_focus(true, 0);

    let mut ctx = EventCtx::default();
    input.on_event(&plain(KeyCode::Char('p')), 0, &mut ctx);
    assert_eq!(input.suggestion(), "Portugal");

    let mut ctx = EventCtx::default();
    input.on_event(&plain(KeyCode::Tab), 0, &mut ctx);
    assert_eq!(input.text(), "Portugal");
    assert!(input.suggestion.is_empty());
    assert!(ctx.handled());
}

#[test]
fn tab_without_suggestion_is_not_handled() {
    let mut input = Input::new();
    input.set_focus(true, 0);
    input.set_text("hello");
    input.cursor = input.text.len();
    input.selection = Selection::cursor(input.cursor);

    let mut ctx = EventCtx::default();
    input.on_event(&plain(KeyCode::Tab), 0, &mut ctx);
    assert!(!ctx.handled());
    assert_eq!(input.text(), "hello");
}

#[test]
fn right_arrow_at_end_accepts_suggestion() {
    let mut input = Input::new().with_suggester(suggester(&["Spain"]));
    input.set_focus(true, 0);

    let mut ctx = EventCtx::default();
    input.on_event(&plain(KeyCode::Char('s')), 0, &mut ctx);
    assert_eq!(input.suggestion(), "Spain");
    assert!(input.cursor_at_end());

    let mut ctx = EventCtx::default();
    input.on_event(&plain(KeyCode::Right), 0, &mut ctx);
    assert_eq!(input.text(), "Spain");
    assert!(input.suggestion.is_empty());
}

#[test]
fn right_arrow_not_at_end_does_not_accept_suggestion() {
    let mut input = Input::new().with_suggester(suggester(&["Portugal"]));
    input.set_focus(true, 0);
    input.set_text("po");
    input.cursor = 0;
    input.selection = Selection::cursor(0);
    input.suggestion = chars("Portugal");

    let mut ctx = EventCtx::default();
    input.on_event(&plain(KeyCode::Right), 0, &mut ctx);
    assert_eq!(input.text(), "po");
    assert_eq!(input.cursor, 1);
}

#[test]
fn set_text_clears_suggestion() {
    let mut input = Input::new().with_suggester(suggester(&["Portugal"]));
    input.suggestion = chars("Portugal");
    input.set_text("new value");
    assert!(input.suggestion.is_empty());
}

#[test]
fn clear_clears_suggestion() {
    let mut input = Input::new().with_suggester(suggester(&["Portugal"]));
    input.set_text("po");
    input.suggestion = chars("Portugal");
    input.clear();
    assert!(input.suggestion.is_empty());
}

#[test]
fn focus_change_clears_suggestion() {
    let mut input = Input::new().with_suggester(suggester(&["Portugal"]));
    input.set_focus(true, 0);
    input.suggestion = chars("Portugal");
    input.set_focus(false, 0);
    assert!(input.suggestion.is_empty());
}

#[test]
fn suggestion_not_shown_when_matches_value_exactly() {
    let mut input = Input::new().with_suggester(suggester(&["abc"]));
    input.set_focus(true, 0);
    for ch in ['a', 'b', 'c'] {
        let mut ctx = EventCtx::default();
        input.on_event(&plain(KeyCode::Char(ch)), 0, &mut ctx);
    }
    assert!(input.suggestion.is_empty());
}

#[test]
fn tab_accept_emits_input_changed() {
    let mut input = Input::new().with_suggester(suggester(&["Portugal"]));
    input.set_focus(true, 0);

    let mut ctx = EventCtx::default();
    input.on_event(&plain(KeyCode::Char('p')), 0, &mut ctx);
    let _ = ctx.take_messages();

    let mut ctx = EventCtx::default();
    input.on_event(&plain(KeyCode::Tab), 0, &mut ctx);
    let messages = ctx.take_messages();
    assert_eq!(messages.len(), 1);
    assert!(matches!(
        messages[0].message,
        Message::InputChanged { ref value, .. } if value == "Portugal"
    ));
}

// ---------------------------------------------------------------------------
// Further cases: limits, restriction, kinds, blur, keys and boundaries.
// ---------------------------------------------------------------------------

#[test]
fn max_length_counts_bytes_and_stops_typing() {
    let mut input = Input::new().with_max_length(3);
    input.insert_text_at_cursor("abcdef");
    assert_eq!(input.text(), "abc");
    input.clear();
    // 'é' takes two bytes: after "ab", it no longer fits.
    input.insert_text_at_cursor("abé");
    assert_eq!(input.text(), "ab");
}

#[test]
fn restriction_skips_characters_the_pattern_refuses() {
    let mut input = Input::new().with_restrict("^[0-9]*$");
    assert!(input.restrict.is_some());
    input.insert_text_at_cursor("1a2b3");
    assert_eq!(input.text(), "123");
    let bad = Input::new().with_restrict("(");
    assert!(bad.restrict.is_none());
}

#[test]
fn integer_input_takes_one_leading_sign_and_digits() {
    let mut input = Input::new().with_type(InputType::Integer);
    input.set_focus(true, 0);
    for ch in ['-', '1', 'x', '2', '-'] {
        let mut ctx = EventCtx::default();
        input.on_event(&plain(KeyCode::Char(ch)), 0, &mut ctx);
    }
    assert_eq!(input.text(), "-12");
}

#[test]
fn losing_focus_reports_blur_at_the_next_tick() {
    let mut input = Input::new();
    input.set_focus(true, 0);
    input.set_text("x");
    input.set_focus(false, 10);
    assert!(input.pending_blur);
    let mut ctx = EventCtx::default();
    input.on_event(&Event::Tick, 20, &mut ctx);
    let messages = ctx.take_messages();
    assert_eq!(messages.len(), 1);
    assert!(matches!(messages[0].message, Message::InputBlurred { ref value } if value == "x"));
    assert!(!input.pending_blur);
}

#[test]
fn unfocused_input_ignores_keys() {
    let mut input = Input::new();
    let mut ctx = EventCtx::default();
    input.on_event(&plain(KeyCode::Char('a')), 0, &mut ctx);
    assert_eq!(input.text(), "");
    assert!(!ctx.handled());
}

#[test]
fn select_all_then_delete_empties_the_value() {
    let mut input = Input::new();
    input.set_text("hello");
    input.select_all();
    assert_eq!(input.selected_text(), Some("hello".to_string()));
    input.delete();
    assert_eq!(input.text(), "");
    assert_eq!(input.cursor, 0);
}

#[test]
fn delete_to_start_and_end() {
    let mut input = Input::new();
    input.set_focus(true, 0);
    input.set_text("hello world");
    input.cursor = 6;
    input.selection = Selection::cursor(6);
    let mut ctx = EventCtx::default();
    input.on_event(&ctrl(KeyCode::Char('k')), 0, &mut ctx);
    assert_eq!(input.text(), "hello ");
    let mut ctx = EventCtx::default();
    input.on_event(&ctrl(KeyCode::Char('u')), 0, &mut ctx);
    assert_eq!(input.text(), "");
}

#[test]
fn home_and_end_move_the_cursor() {
    let mut input = Input::new();
    input.set_focus(true, 0);
    input.set_text("abc");
    let mut ctx = EventCtx::default();
    input.on_event(&plain(KeyCode::Home), 0, &mut ctx);
    assert_eq!(input.cursor, 0);
    let mut ctx = EventCtx::default();
    input.on_event(&shift(KeyCode::End), 0, &mut ctx);
    assert_eq!(input.cursor, 3);
    assert_eq!(input.selection.normalized(), (0, 3));
}

#[test]
fn replace_types_over_the_selection() {
    let mut input = Input::new();
    input.set_text("hello world");
    input.cursor = 5;
    input.selection = Selection { start: 0, end: 5 };
    input.replace("HEY");
    assert_eq!(input.text(), "HEY world");
    assert_eq!(input.cursor, 3);
}

#[test]
fn key_map_decodes_editing_keys() {
    assert_eq!(
        edit_command_from_key(&KeyEvent::new(KeyCode::Char('q'), KeyModifiers::default())),
        Some(EditCommand::InsertChar('q'))
    );
    assert_eq!(
        edit_command_from_key(&KeyEvent::new(KeyCode::Left, KeyModifiers { control: true, shift: true, alt: false, ..KeyModifiers::default() })),
        Some(EditCommand::MoveLeft { select: true, unit: MoveUnit::Word })
    );
    assert_eq!(edit_command_from_key(&KeyEvent::new(KeyCode::Tab, KeyModifiers::default())), None);
    assert_eq!(
        edit_command_from_key(&KeyEvent::new(KeyCode::Char('a'), KeyModifiers { control: false, shift: false, alt: true, ..KeyModifiers::default() })),
        None
    );
}

#[test]
fn boundaries_over_clusters_and_words() {
    let t = chars("a\u{0301}b");
    assert_eq!(prev_grapheme_boundary(&t, 3), 2);
    assert_eq!(prev_grapheme_boundary(&t, 2), 0);
    let w = chars("one two  three");
    assert_eq!(prev_word_boundary(&w, 14), 9);
    assert_eq!(next_word_boundary(&w, 3), 7);
    assert_eq!(first_clipboard_line("first\nsecond").iter().collect::<String>(), "first");
}

fn runs(input: &Input<SuggestFromList>, width: usize) -> Vec<(String, InputRole)> {
    input.render_runs(width).into_iter().map(|r| (r.text, r.role)).collect()
}

fn run(text: &str, role: InputRole) -> (String, InputRole) {
    (text.to_string(), role)
}

#[test]
fn empty_input_shows_the_placeholder_fitted_to_the_width() {
    let input = Input::new().with_placeholder("Type");
    assert_eq!(runs(&input, 6), vec![run("Type  ", InputRole::Placeholder)]);
}

#[test]
fn focused_empty_input_puts_the_cursor_over_the_placeholder() {
    let mut input = Input::new().with_placeholder("ab");
    input.set_focus(true, 0);
    assert_eq!(runs(&input, 4), vec![run("a", InputRole::Cursor), run("b  ", InputRole::Placeholder)]);
}

#[test]
fn cursor_at_the_end_takes_a_cell_after_the_value() {
    let mut input = Input::new();
    input.set_focus(true, 0);
    input.set_text("hello");
    input.cursor = 5;
    input.selection = Selection::cursor(5);
    assert_eq!(
        runs(&input, 8),
        vec![run("hello", InputRole::Plain), run(" ", InputRole::Cursor), run("  ", InputRole::Plain)]
    );
}

#[test]
fn password_shows_bullets() {
    let mut input = Input::new().with_password(true);
    input.set_text("abc");
    assert_eq!(runs(&input, 5), vec![run("\u{2022}\u{2022}\u{2022}", InputRole::Plain), run("  ", InputRole::Plain)]);
}

#[test]
fn selection_and_cursor_are_marked() {
    let mut input = Input::new();
    input.set_focus(true, 0);
    input.set_text("hello world");
    input.cursor = 5;
    input.selection = Selection { start: 0, end: 5 };
    assert_eq!(
        runs(&input, 11),
        vec![run("hello", InputRole::Selection), run(" ", InputRole::Cursor), run("world", InputRole::Plain)]
    );
}

#[test]
fn suggestion_shows_as_ghost_text_after_the_value() {
    let mut input = Input::new().with_suggester(suggester(&["Portugal"]));
    input.set_focus(true, 0);
    let mut ctx = EventCtx::default();
    input.on_event(&plain(KeyCode::Char('p')), 0, &mut ctx);
    let shown: Vec<(String, InputRole)> = input.render_runs(10).into_iter().map(|r| (r.text, r.role)).collect();
    assert_eq!(
        shown,
        vec![
            run("p", InputRole::Plain),
            run("o", InputRole::Cursor),
            run("rtugal", InputRole::Suggestion),
            run("  ", InputRole::Plain),
        ]
    );
}

#[test]
fn value_wider_than_the_line_is_cut() {
    let mut input = Input::new();
    input.set_text("hello");
    assert_eq!(runs(&input, 3), vec![run("hel", InputRole::Plain)]);
}

struct DigitsOnly;

impl Validator for DigitsOnly {
    fn validate(&self, value: &str) -> ValidationResult {
        if value.chars().all(|c| c.is_ascii_digit()) {
            ValidationResult::success()
        } else {
            ValidationResult { is_valid: false, failure_descriptions: vec!["not a number".to_string()] }
        }
    }
}

struct ShortOnly;

impl Validator for ShortOnly {
    fn validate(&self, value: &str) -> ValidationResult {
        if value.chars().count() <= 2 {
            ValidationResult::success()
        } else {
            ValidationResult { is_valid: false, failure_descriptions: vec!["too long".to_string()] }
        }
    }
}

fn has_class(input: &Input<SuggestFromList>, class: &str) -> bool {
    input.style_classes().iter().any(|c| c == class)
}

#[test]
fn validators_mark_the_value_and_report_failures() {
    let validators: Vec<Box<dyn Validator>> = vec![Box::new(DigitsOnly), Box::new(ShortOnly)];
    let mut input = Input::new().class("field").with_validators(validators);
    input.set_focus(true, 0);
    assert!(input.validation_result().is_valid);
    assert!(!has_class(&input, "-valid") && !has_class(&input, "-invalid"));

    let mut ctx = EventCtx::default();
    input.on_event(&plain(KeyCode::Char('1')), 0, &mut ctx);
    assert!(input.validation_result().is_valid);
    assert!(has_class(&input, "-valid") && !has_class(&input, "-invalid"));

    for ch in ['a', 'b'] {
        let mut ctx = EventCtx::default();
        input.on_event(&plain(KeyCode::Char(ch)), 0, &mut ctx);
    }
    let result = input.validation_result();
    assert!(!result.is_valid);
    assert_eq!(result.failure_descriptions, vec!["not a number".to_string(), "too long".to_string()]);
    assert!(has_class(&input, "-invalid") && !has_class(&input, "-valid"));
    assert!(has_class(&input, "field"));

    input.clear();
    assert!(!has_class(&input, "-valid") && !has_class(&input, "-invalid"));
    assert!(has_class(&input, "field"));
}

#[test]
fn change_reports_carry_the_validation() {
    let validators: Vec<Box<dyn Validator>> = vec![Box::new(DigitsOnly)];
    let mut input = Input::new().with_validators(validators);
    input.set_focus(true, 0);
    let mut ctx = EventCtx::default();
    input.on_event(&plain(KeyCode::Char('x')), 0, &mut ctx);
    let messages = ctx.take_messages();
    assert_eq!(messages.len(), 1);
    assert!(matches!(
        messages[0].message,
        Message::InputChanged { ref value, ref validation } if value == "x" && !validation.is_valid
    ));
}

#[test]
fn tab_with_any_modifier_does_not_accept_a_suggestion() {
    let mut input = Input::new().with_suggester(suggester(&["Portugal"]));
    input.set_focus(true, 0);
    let mut ctx = EventCtx::default();
    input.on_event(&plain(KeyCode::Char('p')), 0, &mut ctx);
    let mut ctx = EventCtx::default();
    let held = KeyModifiers { super_key: true, ..KeyModifiers::default() };
    input.on_event(&Event::Key(KeyEvent::new(KeyCode::Tab, held)), 0, &mut ctx);
    assert_eq!(input.text(), "p");
    assert!(!ctx.handled());
}
