//! A single-line text input: its value, cursor and selection, the typing
//! rules (input kind, length limit in bytes, restriction pattern), editing
//! commands and their messages, clipboard paste, focus and cursor blink,
//! validation, and completion. A suggester proposes the full value for what
//! has been typed so far; the built-in one takes the first entry of a list
//! that starts with it, by default ignoring case.

use vstd::prelude::*;
use crate::text::{has_prefix, starts_with, text_of, blank, is_blank};
use crate::widget_core::{texts, BindingDecl, set_class_flag, lemma_class_flag_contains};
use crate::validation::{ValidationResult, Validator, outcome, combine_results, combined};
use crate::event::{EventCtx, Message, MessageEvent, NodeId, Event, KeyCode, KeyModifiers, ParsedAction};
use crate::text_edit::{
    byte_len, char_byte_len, chars_of, clamp_grapheme, clamp_grapheme_boundary, edit_command_from_key,
    first_clipboard_line, first_line, grapheme_clusters, index_from_cell_x, key_command, lemma_byte_len_bound,
    next_grapheme, next_grapheme_boundary, next_word, next_word_boundary, position_at_cell, prev_grapheme,
    prev_grapheme_boundary, prev_word, prev_word_boundary, slice_of, splice, spliced, string_of, text_byte_len,
    utf8_len, EditCommand, MoveUnit,
};

verus! {

/// Lower-case form of a text, as `str::to_lowercase` computes it (Unicode
/// case mapping).
pub uninterp spec fn lowercase(s: Seq<char>) -> Seq<char>;

/// Calls `str::to_lowercase`. The result is named: it depends on the text alone.
#[verifier::external_body]
pub(crate) fn to_lowercase(s: &str) -> (r: String)
    ensures
        r@ == lowercase(s@),
{
    s.to_lowercase()
}

/// Provides completion suggestions for an input: the full value proposed for
/// what has been typed, if any.
pub trait Suggester {
    fn suggest(&self, value: &str) -> Option<String>;
}

/// What a value is compared as: itself, or its lower-case form.
pub open spec fn folded_text(s: Seq<char>, case_sensitive: bool) -> Seq<char> {
    if case_sensitive {
        s
    } else {
        lowercase(s)
    }
}

/// The index of the first entry starting with `needle`.
pub open spec fn first_prefixed(entries: Seq<Seq<char>>, needle: Seq<char>) -> Option<int>
    decreases entries.len(),
{
    if entries.len() == 0 {
        None
    } else if has_prefix(entries[0], needle) {
        Some(0)
    } else {
        match first_prefixed(entries.drop_first(), needle) {
            Some(i) => Some(i + 1),
            None => None,
        }
    }
}

/// Suggests the first listed value that starts with what was typed.
#[derive(Debug, Clone)]
pub struct SuggestFromList {
    pub suggestions: Vec<String>,
    /// The suggestions as compared: folded to lower case unless case-sensitive.
    pub folded: Vec<String>,
    pub case_sensitive: bool,
}

impl SuggestFromList {
    /// The list's well-formedness: one folded entry per suggestion.
    pub open spec fn wf(&self) -> bool {
        &&& self.folded@.len() == self.suggestions@.len()
        &&& forall|i: int|
            0 <= i < self.folded@.len() ==> (#[trigger] self.folded@[i])@ == folded_text(
                self.suggestions@[i]@,
                self.case_sensitive,
            )
    }

    /// A suggester over `suggestions`, in priority order.
    pub fn new(suggestions: Vec<String>, case_sensitive: bool) -> (s: SuggestFromList)
        ensures
            s.wf(),
            s.suggestions@ == suggestions@,
            s.case_sensitive == case_sensitive,
    {
        let mut folded: Vec<String> = Vec::new();
        let mut i: usize = 0;
        while i < suggestions.len()
            invariant
                i <= suggestions@.len(),
                folded@.len() == i,
                forall|j: int|
                    0 <= j < i ==> (#[trigger] folded@[j])@ == folded_text(suggestions@[j]@, case_sensitive),
            decreases suggestions@.len() - i,
        {
            let f = if case_sensitive {
                suggestions[i].clone()
            } else {
                to_lowercase(suggestions[i].as_str())
            };
            folded.push(f);
            i = i + 1;
        }
        SuggestFromList { suggestions, folded, case_sensitive }
    }

    /// The suggestion for a value: none for an empty value; else the first
    /// suggestion whose compared form starts with the value's compared form.
    pub open spec fn suggestion_for(&self, value: Seq<char>) -> Option<Seq<char>> {
        if value.len() == 0 {
            None
        } else {
            match first_prefixed(texts(self.folded@), folded_text(value, self.case_sensitive)) {
                Some(i) => Some(self.suggestions@[i]@),
                None => None,
            }
        }
    }
}

impl Suggester for SuggestFromList {
    fn suggest(&self, value: &str) -> (r: Option<String>)
        ensures
            self.wf() ==> match r {
                Some(s) => self.suggestion_for(value@) == Some(s@),
                None => self.suggestion_for(value@) is None,
            },
    {
        if value.unicode_len() == 0 {
            return None;
        }
        let needle = if self.case_sensitive {
            text_of(value)
        } else {
            to_lowercase(value)
        };
        let ghost all = texts(self.folded@);
        assert(all.subrange(0, all.len() as int) =~= all);
        let mut idx: usize = 0;
        while idx < self.folded.len()
            invariant
                all == texts(self.folded@),
                needle@ == folded_text(value@, self.case_sensitive),
                value@.len() > 0,
                idx <= all.len(),
                first_prefixed(all, needle@) == match first_prefixed(all.subrange(idx as int, all.len() as int), needle@) {
                    Some(i) => Some(i + idx),
                    None => None,
                },
            decreases all.len() - idx,
        {
            let ghost rest = all.subrange(idx as int, all.len() as int);
            assert(rest[0] == self.folded@[idx as int]@);
            if starts_with(self.folded[idx].as_str(), needle.as_str()) {
                if idx < self.suggestions.len() {
                    return Some(self.suggestions[idx].clone());
                } else {
                    return None;
                }
            }
            assert(rest.drop_first() =~= all.subrange(idx as int + 1, all.len() as int));
            idx = idx + 1;
        }
        None
    }
}

/// The kind of value an input accepts.
#[derive(Debug, Clone, Copy, PartialEq, Eq, Structural)]
pub enum InputType {
    Text,
    Integer,
    Number,
}


/// Whether a typed character is accepted by an input of `input_type` whose
/// text is `text`, with the cursor at the start or not: any character in a
/// text input; digits in a numeric one, a sign only at the start and only
/// where the text has none; and, in a number input, one `.` and one
/// exponent marker.
pub open spec fn char_allowed(input_type: InputType, text: Seq<char>, cursor_at_start: bool, ch: char) -> bool {
    let digit = '0' <= ch && ch <= '9';
    let sign = ch == '-' || ch == '+';
    let signed = text.len() > 0 && (text[0] == '-' || text[0] == '+');
    match input_type {
        InputType::Text => true,
        InputType::Integer => digit || (sign && cursor_at_start && !signed),
        InputType::Number => {
            ||| digit
            ||| (sign && cursor_at_start && !signed)
            ||| (ch == '.' && !text.contains('.'))
            ||| ((ch == 'e' || ch == 'E') && !text.contains('e') && !text.contains('E'))
        },
    }
}

/// The typing rules of the input types: a text input takes every
/// character; an integer or number input takes every digit, and a sign only
/// with the cursor at the start of a text that has no sign yet; an integer
/// input takes nothing else; a number input also takes one `.` and one
/// exponent marker (`e` or `E`).
pub proof fn law_typing_rules(input_type: InputType, text: Seq<char>, cursor: usize, ch: char)
    ensures
        ({
            let ok = char_allowed(input_type, text, cursor == 0, ch);
            let digit = '0' <= ch && ch <= '9';
            let sign = ch == '-' || ch == '+';
            let signed = text.len() > 0 && (text[0] == '-' || text[0] == '+');
            &&& input_type == InputType::Text ==> ok
            &&& input_type != InputType::Text && digit ==> ok
            &&& input_type != InputType::Text && sign && cursor != 0 ==> !ok
            &&& input_type != InputType::Text && sign && cursor == 0 ==> ok == !signed
            &&& input_type == InputType::Integer && !digit && !sign ==> !ok
            &&& input_type == InputType::Number && ch == '.' ==> ok == !text.contains('.')
            &&& input_type == InputType::Number && (ch == 'e' || ch == 'E') ==> ok == (!text.contains('e') && !text.contains('E'))
            &&& input_type == InputType::Number && !digit && !sign && ch != '.' && ch != 'e' && ch != 'E' ==> !ok
        }),
{
}

/// Whether `text` holds `c`.
fn has_char(text: &str, c: char) -> (r: bool)
    ensures
        r == text@.contains(c),
{
    let n = text.unicode_len();
    let mut i: usize = 0;
    while i < n
        invariant
            n == text@.len(),
            i <= n,
            forall|t: int| 0 <= t < i ==> text@[t] != c,
        decreases n - i,
    {
        if text.get_char(i) == c {
            return true;
        }
        i = i + 1;
    }
    false
}

/// Whether a typed character is accepted, as [`char_allowed`] states.
pub fn is_allowed_char(input_type: InputType, text: &str, cursor: usize, ch: char) -> (r: bool)
    ensures
        r == char_allowed(input_type, text@, cursor == 0, ch),
{
    let digit = '0' <= ch && ch <= '9';
    let sign = ch == '-' || ch == '+';
    let signed = text.unicode_len() > 0 && (text.get_char(0) == '-' || text.get_char(0) == '+');
    match input_type {
        InputType::Text => true,
        InputType::Integer => digit || (sign && cursor == 0 && !signed),
        InputType::Number => {
            if digit {
                return true;
            }
            if sign && cursor == 0 {
                return !signed;
            }
            if ch == '.' {
                return !has_char(text, '.');
            }
            if ch == 'e' || ch == 'E' {
                return !(has_char(text, 'e') || has_char(text, 'E'));
            }
            false
        },
    }
}

/// The cursor's blink period, in milliseconds.
pub open spec fn blink_period() -> u64 {
    500
}

/// `now` plus the blink period, or `now` where that overflows.
pub open spec fn blink_deadline(now: u64) -> u64 {
    if now + blink_period() <= u64::MAX { (now + blink_period()) as u64 } else { now }
}

/// The focus, pointer and cursor-blink state of an input's chrome. Times
/// are milliseconds on the app's monotonic clock.
#[derive(Debug, Clone, Copy, PartialEq, Eq, Structural)]
pub struct InputChrome {
    pub focused: bool,
    pub mouse_down: bool,
    pub cursor_visible: bool,
    pub cursor_blink_next_at: Option<u64>,
    pub app_active: bool,
}

/// The chrome after a blink restart at `now`: the cursor shows and the next
/// flip is a period away, while focused in an active app.
pub open spec fn blink_restarted(c: InputChrome, now: u64) -> InputChrome {
    if c.focused && c.app_active {
        InputChrome { cursor_visible: true, cursor_blink_next_at: Some(blink_deadline(now)), ..c }
    } else {
        c
    }
}

/// The chrome after focus is gained or lost at `now`.
pub open spec fn focus_set(c: InputChrome, focused: bool, now: u64) -> InputChrome {
    if focused {
        blink_restarted(InputChrome { focused: true, ..c }, now)
    } else {
        InputChrome { focused: false, mouse_down: false, cursor_visible: false, cursor_blink_next_at: None, ..c }
    }
}

/// The chrome after the app gains or loses focus at `now`.
pub open spec fn app_focus_set(c: InputChrome, active: bool, now: u64) -> InputChrome {
    if active {
        blink_restarted(InputChrome { app_active: true, ..c }, now)
    } else {
        InputChrome { app_active: false, cursor_visible: false, cursor_blink_next_at: None, ..c }
    }
}

impl InputChrome {
    /// The cursor shows only while the input is focused and the app active.
    pub open spec fn wf(&self) -> bool {
        self.cursor_visible ==> self.focused && self.app_active
    }

    /// Unfocused, pointer up, cursor hidden, no blink scheduled, app active.
    pub fn new() -> (c: InputChrome)
        ensures
            c == (InputChrome { focused: false, mouse_down: false, cursor_visible: false, cursor_blink_next_at: None, app_active: true }),
            c.wf(),
    {
        InputChrome { focused: false, mouse_down: false, cursor_visible: false, cursor_blink_next_at: None, app_active: true }
    }

    fn next_blink_deadline(now: u64) -> (d: u64)
        ensures
            d == blink_deadline(now),
    {
        match now.checked_add(500) {
            Some(d) => d,
            None => now,
        }
    }

    /// Show the cursor and restart the blink, while focused in an active app.
    pub fn reset_blink(&mut self, now: u64)
        requires
            old(self).wf(),
        ensures
            final(self).wf(),
            *final(self) == blink_restarted(*old(self), now),
            !old(self).focused || !old(self).app_active ==> *final(self) == *old(self),
            old(self).focused && old(self).app_active ==> *final(self) == (InputChrome {
                cursor_visible: true,
                cursor_blink_next_at: Some(blink_deadline(now)),
                ..*old(self)
            }),
    {
        if !self.focused || !self.app_active {
            return;
        }
        self.cursor_visible = true;
        self.cursor_blink_next_at = Some(InputChrome::next_blink_deadline(now));
    }

    /// Gaining focus restarts the blink; losing it releases the pointer and
    /// hides the cursor.
    pub fn set_focus(&mut self, focused: bool, now: u64)
        requires
            old(self).wf(),
        ensures
            final(self).wf(),
            *final(self) == focus_set(*old(self), focused, now),
            !focused ==> *final(self) == (InputChrome {
                focused: false,
                mouse_down: false,
                cursor_visible: false,
                cursor_blink_next_at: None,
                ..*old(self)
            }),
            focused && old(self).app_active ==> *final(self) == (InputChrome {
                focused: true,
                cursor_visible: true,
                cursor_blink_next_at: Some(blink_deadline(now)),
                ..*old(self)
            }),
            focused && !old(self).app_active ==> *final(self) == (InputChrome { focused: true, ..*old(self) }),
    {
        self.focused = focused;
        if !focused {
            self.mouse_down = false;
            self.cursor_visible = false;
            self.cursor_blink_next_at = None;
            return;
        }
        self.reset_blink(now);
    }

    pub fn set_mouse_down(&mut self, down: bool)
        ensures
            *final(self) == (InputChrome { mouse_down: down, ..*old(self) }),
    {
        self.mouse_down = down;
    }

    pub fn is_mouse_down(&self) -> (b: bool)
        ensures
            b == self.mouse_down,
    {
        self.mouse_down
    }

    /// The input shows as active while the pointer is down on it.
    pub fn is_active(&self) -> (b: bool)
        ensures
            b == self.mouse_down,
    {
        self.mouse_down
    }

    pub fn cursor_visible(&self) -> (b: bool)
        ensures
            b == self.cursor_visible,
    {
        self.cursor_visible
    }

    /// The app gaining focus restarts the blink (where the input is
    /// focused); losing it hides the cursor and stops the blink.
    pub fn handle_app_focus(&mut self, active: bool, now: u64)
        requires
            old(self).wf(),
        ensures
            final(self).wf(),
            *final(self) == app_focus_set(*old(self), active, now),
            !active ==> *final(self) == (InputChrome {
                app_active: false,
                cursor_visible: false,
                cursor_blink_next_at: None,
                ..*old(self)
            }),
            active && old(self).focused ==> *final(self) == (InputChrome {
                app_active: true,
                cursor_visible: true,
                cursor_blink_next_at: Some(blink_deadline(now)),
                ..*old(self)
            }),
            active && !old(self).focused ==> *final(self) == (InputChrome { app_active: true, ..*old(self) }),
    {
        self.app_active = active;
        if !active {
            self.cursor_visible = false;
            self.cursor_blink_next_at = None;
            return;
        }
        self.reset_blink(now);
    }

    /// At or past the blink deadline, while focused in an active app, the
    /// cursor flips and the next deadline is set; returns whether it flipped.
    pub fn handle_tick(&mut self, now: u64) -> (flipped: bool)
        requires
            old(self).wf(),
        ensures
            final(self).wf(),
            (*final(self), flipped) == ticked(*old(self), now),
    {
        if !self.focused || !self.app_active {
            return false;
        }
        let next_at = match self.cursor_blink_next_at {
            Some(t) => t,
            None => {
                return false;
            },
        };
        if now < next_at {
            return false;
        }
        self.cursor_visible = !self.cursor_visible;
        self.cursor_blink_next_at = Some(InputChrome::next_blink_deadline(now));
        true
    }
}

/// The chrome after a tick at `now`, and whether the cursor flipped: it
/// flips at or past the blink deadline while focused in an active app, and
/// the next deadline is set a period later.
pub open spec fn ticked(c: InputChrome, now: u64) -> (InputChrome, bool) {
    if c.focused && c.app_active && c.cursor_blink_next_at is Some && now >= c.cursor_blink_next_at->0 {
        (InputChrome { cursor_visible: !c.cursor_visible, cursor_blink_next_at: Some(blink_deadline(now)), ..c }, true)
    } else {
        (c, false)
    }
}

/// Two ticks, each at or past its deadline, bring the cursor back to how it
/// was; a tick keeps the chrome well formed.
pub proof fn law_two_blinks_restore_cursor(c0: InputChrome, t1: u64, t2: u64)
    requires
        c0.wf(),
        c0.focused,
        c0.app_active,
        c0.cursor_blink_next_at is Some,
        t1 >= c0.cursor_blink_next_at->0,
        t2 >= blink_deadline(t1),
    ensures
        ticked(c0, t1).1,
        ticked(ticked(c0, t1).0, t2).1,
        ticked(ticked(c0, t1).0, t2).0.cursor_visible == c0.cursor_visible,
        ticked(c0, t1).0.wf(),
{
}

#[verifier::external_type_specification]
#[verifier::external_body]
pub struct ExRegex(regex::Regex);

/// Whether `regex` compiles a pattern (a valid pattern within the crate's
/// default size limit).
pub uninterp spec fn pattern_compiles(pattern: Seq<char>) -> bool;

/// Whether the regex compiled from `pattern` matches somewhere in `text`.
pub uninterp spec fn pattern_matches(pattern: Seq<char>, text: Seq<char>) -> bool;

/// A compiled restriction pattern, together with the pattern it came from.
/// Only [`Restrict::compile`] builds one, so the two always agree.
pub struct Restrict {
    pattern: String,
    regex: regex::Regex,
}

impl Restrict {
    /// The pattern this restriction was compiled from.
    pub closed spec fn source(&self) -> Seq<char> {
        self.pattern@
    }

    /// Calls `Regex::new`. Whether it succeeds is named: it depends on the
    /// pattern alone (its syntax and the default size limit). On success the
    /// restriction keeps a copy of the pattern.
    #[verifier::external_body]
    pub(crate) fn compile(pattern: &str) -> (r: Option<Restrict>)
        ensures
            r is Some == pattern_compiles(pattern@),
            r matches Some(re) ==> re.source() == pattern@,
    {
        match regex::Regex::new(pattern) {
            Ok(regex) => Some(Restrict { pattern: pattern.to_string(), regex }),
            Err(_) => None,
        }
    }

    /// Calls `Regex::is_match` on the compiled pattern. The result is named:
    /// it depends on the pattern and the text alone.
    #[verifier::external_body]
    pub(crate) fn is_match(&self, text: &str) -> (b: bool)
        ensures
            b == pattern_matches(self.source(), text@),
    {
        self.regex.is_match(text)
    }
}

/// The source of an optional restriction.
pub open spec fn restrict_source(r: Option<Restrict>) -> Option<Seq<char>> {
    match r {
        Some(re) => Some(re.source()),
        None => None,
    }
}

/// A selection: where it was anchored (`start`) and where the cursor took
/// it (`end`), as character positions. Empty when the two agree.
#[derive(Debug, Clone, Copy, Default, PartialEq, Eq, Structural)]
pub struct Selection {
    pub start: usize,
    pub end: usize,
}

impl Selection {
    /// The empty selection at `pos`.
    pub fn cursor(pos: usize) -> (s: Selection)
        ensures
            s == (Selection { start: pos, end: pos }),
    {
        Selection { start: pos, end: pos }
    }

    /// The selection's bounds, lower first.
    pub fn normalized(self) -> (r: (usize, usize))
        ensures
            r == sel_bounds(self),
    {
        if self.start <= self.end {
            (self.start, self.end)
        } else {
            (self.end, self.start)
        }
    }
}

/// A selection's bounds, lower first.
pub open spec fn sel_bounds(s: Selection) -> (usize, usize) {
    if s.start <= s.end {
        (s.start, s.end)
    } else {
        (s.end, s.start)
    }
}

/// Whether a value passes an input's limits: no longer than `max_length`
/// bytes, and matched by the restriction pattern where there is one.
pub open spec fn value_allowed(max_length: Option<usize>, restrict: Option<Seq<char>>, value: Seq<char>) -> bool {
    &&& (max_length matches Some(max) ==> byte_len(value) <= max)
    &&& (restrict matches Some(p) ==> pattern_matches(p, value))
}

/// The suggestion kept for a value from what a suggester proposed: the
/// proposal where the value is non-empty and the proposal longer (in bytes)
/// than it; otherwise nothing.
pub open spec fn kept_suggestion(value: Seq<char>, proposed: Option<Seq<char>>) -> Seq<char> {
    match proposed {
        Some(s) => if value.len() > 0 && byte_len(s) > byte_len(value) { s } else { Seq::empty() },
        None => Seq::empty(),
    }
}

/// The editable part of an input's state: the value, the cursor and the
/// selection's two ends, as character positions.
pub struct EditState {
    pub text: Seq<char>,
    pub cursor: int,
    pub sel_start: int,
    pub sel_end: int,
}

impl EditState {
    pub open spec fn has_selection(self) -> bool {
        self.sel_start != self.sel_end
    }

    pub open spec fn sel_lo(self) -> int {
        if self.sel_start <= self.sel_end { self.sel_start } else { self.sel_end }
    }

    pub open spec fn sel_hi(self) -> int {
        if self.sel_start <= self.sel_end { self.sel_end } else { self.sel_start }
    }

    /// The state with the cursor at `pos` and the selection collapsed onto it.
    pub open spec fn at(text: Seq<char>, pos: int) -> EditState {
        EditState { text, cursor: pos, sel_start: pos, sel_end: pos }
    }

    /// The state once the selected text (if any) is removed, the cursor where
    /// the selection started.
    pub open spec fn without_selection(self) -> EditState {
        if self.has_selection() {
            EditState::at(spliced(self.text, self.sel_lo(), self.sel_hi(), Seq::empty()), self.sel_lo())
        } else {
            self
        }
    }

    /// The state after `chars` is inserted at the cursor, the cursor after
    /// it (taken back to a grapheme boundary), the selection collapsed.
    pub open spec fn with_inserted(self, chars: Seq<char>) -> EditState {
        let t = spliced(self.text, self.cursor, self.cursor, chars);
        EditState::at(t, clamp_grapheme(t, self.cursor + chars.len()))
    }

    /// The state after the cursor moves to `next`, taken back to a grapheme
    /// boundary, and whether the cursor or selection changed. With `select`,
    /// an empty selection is anchored at the cursor and its end follows the
    /// cursor; otherwise the selection collapses onto the cursor.
    pub open spec fn moved(self, next: int, select: bool) -> (EditState, bool) {
        let to = clamp_grapheme(self.text, next);
        let anchor = if self.has_selection() { self.sel_start } else { self.cursor };
        if select {
            if to == self.cursor {
                (EditState { sel_start: anchor, ..self }, false)
            } else {
                (EditState { cursor: to, sel_start: anchor, sel_end: to, ..self }, true)
            }
        } else if to == self.cursor && !self.has_selection() {
            (self, false)
        } else {
            (EditState::at(self.text, to), true)
        }
    }
}

/// Where a move back from `i` by `unit` goes.
pub open spec fn back_from(text: Seq<char>, i: int, unit: MoveUnit) -> int {
    match unit {
        MoveUnit::Grapheme => prev_grapheme(text, i),
        MoveUnit::Word => prev_word(text, i),
    }
}

/// Where a move forward from `i` by `unit` goes.
pub open spec fn forward_from(text: Seq<char>, i: int, unit: MoveUnit) -> int {
    match unit {
        MoveUnit::Grapheme => next_grapheme(text, i),
        MoveUnit::Word => next_word(text, i),
    }
}

/// A message an input posts, by content.
pub enum Posted {
    /// A changed value, with how it validated.
    Changed(Seq<char>, (bool, Seq<Seq<char>>)),
    Submitted(Seq<char>),
    Blurred(Seq<char>),
    CopyRequested(Seq<char>, bool),
    PasteRequested(NodeId),
}

/// Whether a posted message is `p`, sent by `sender`.
pub open spec fn posted_as(m: MessageEvent, sender: NodeId, p: Posted) -> bool {
    &&& m.sender == sender
    &&& match p {
        Posted::Changed(v, o) => m.message matches Message::InputChanged { value, validation } && value@ == v && outcome(validation) == o,
        Posted::Submitted(v) => m.message matches Message::InputSubmitted { value } && value@ == v,
        Posted::Blurred(v) => m.message matches Message::InputBlurred { value } && value@ == v,
        Posted::CopyRequested(t, c) => m.message matches Message::TextEditClipboardCopyRequested { text, cut } && text@ == t && cut == c,
        Posted::PasteRequested(n) => m.message == Message::TextEditClipboardPasteRequested { target: n },
    }
}

/// Whether `after` is `before` with messages posted by `sender` as `ps`
/// describes, in order.
pub open spec fn posts_appended(before: Seq<MessageEvent>, after: Seq<MessageEvent>, sender: NodeId, ps: Seq<Posted>) -> bool {
    &&& after.len() == before.len() + ps.len()
    &&& after.take(before.len() as int) == before
    &&& forall|i: int| 0 <= i < ps.len() ==> posted_as(#[trigger] after[before.len() + i], sender, ps[i])
}

/// The characters of `chars`, from index `i` on, that typing keeps after
/// those already kept (`acc`), for an input of `input_type` whose value is
/// `text` with the cursor at `cursor`: a character the kind refuses is
/// skipped; one that would take the value past `max_length` bytes ends the
/// typing; one whose insertion the restriction pattern does not match is
/// skipped.
pub open spec fn typed_from(
    input_type: InputType,
    max_length: Option<usize>,
    restrict: Option<Seq<char>>,
    text: Seq<char>,
    cursor: int,
    chars: Seq<char>,
    i: int,
    acc: Seq<char>,
) -> Seq<char>
    decreases chars.len() - i,
{
    if i < 0 || i >= chars.len() {
        acc
    } else {
        let ch = chars[i];
        if !char_allowed(input_type, text, cursor == 0, ch) {
            typed_from(input_type, max_length, restrict, text, cursor, chars, i + 1, acc)
        } else if max_length matches Some(m) && byte_len(text) + byte_len(acc) + utf8_len(ch) > m {
            acc
        } else if restrict matches Some(p) && !pattern_matches(p, spliced(text, cursor, cursor, acc.push(ch))) {
            typed_from(input_type, max_length, restrict, text, cursor, chars, i + 1, acc)
        } else {
            typed_from(input_type, max_length, restrict, text, cursor, chars, i + 1, acc.push(ch))
        }
    }
}

/// The characters of `chars` that an input of `input_type` whose value is
/// `text` accepts one by one, with the cursor at the start or not.
pub open spec fn kept_chars(input_type: InputType, text: Seq<char>, at_start: bool, chars: Seq<char>) -> Seq<char>
    decreases chars.len(),
{
    if chars.len() == 0 {
        Seq::empty()
    } else {
        let rest = kept_chars(input_type, text, at_start, chars.drop_last());
        if char_allowed(input_type, text, at_start, chars.last()) {
            rest.push(chars.last())
        } else {
            rest
        }
    }
}

/// The class of a validated, valid non-blank value.
pub open spec fn valid_class() -> Seq<char> {
    seq!['-', 'v', 'a', 'l', 'i', 'd']
}

/// The class of a validated, invalid non-blank value.
pub open spec fn invalid_class() -> Seq<char> {
    seq!['-', 'i', 'n', 'v', 'a', 'l', 'i', 'd']
}

/// A single-line text input: its value as characters, the cursor and the
/// selection as character positions, the typing rules (kind, length limit
/// in bytes, restriction pattern), focus and blink state, and completion.
pub struct Input<S = SuggestFromList> {
    pub text: Vec<char>,
    pub cursor: usize,
    pub selection: Selection,
    pub placeholder: Option<String>,
    pub input_type: InputType,
    pub password: bool,
    pub restrict: Option<Restrict>,
    pub max_length: Option<usize>,
    /// A blur is to be reported at the next tick.
    pub pending_blur: bool,
    pub chrome: InputChrome,
    pub suggester: Option<S>,
    /// The suggested full value shown as ghost text; empty for none.
    pub suggestion: Vec<char>,
    pub validators: Vec<Box<dyn Validator>>,
    /// How the value last validated.
    pub validation_result: ValidationResult,
    /// The input's CSS classes: those given by its user, and `-valid` or
    /// `-invalid` after validation.
    pub classes: Vec<String>,
}

impl Input<SuggestFromList> {
    /// An empty text input: cursor at 0, no limits, no suggester.
    pub fn new() -> (i: Input<SuggestFromList>)
        ensures
            i.wf(),
            i.text@.len() == 0,
            i.cursor == 0,
            i.selection == Selection::cursor_spec(0),
            i.placeholder is None,
            i.input_type == InputType::Text,
            !i.password,
            i.restrict is None,
            i.max_length is None,
            !i.pending_blur,
            i.chrome == (InputChrome { focused: false, mouse_down: false, cursor_visible: false, cursor_blink_next_at: None, app_active: true }),
            i.suggester is None,
            i.suggestion@.len() == 0,
            i.validators@.len() == 0,
            outcome(i.validation_result) == (true, Seq::<Seq<char>>::empty()),
            i.classes@.len() == 0,
    {
        Input {
            text: Vec::new(),
            cursor: 0,
            selection: Selection::cursor(0),
            placeholder: None,
            input_type: InputType::Text,
            password: false,
            restrict: None,
            max_length: None,
            pending_blur: false,
            chrome: InputChrome::new(),
            suggester: None,
            suggestion: Vec::new(),
            validators: Vec::new(),
            validation_result: ValidationResult::success(),
            classes: Vec::new(),
        }
    }
}

impl Selection {
    pub open spec fn cursor_spec(pos: usize) -> Selection {
        Selection { start: pos, end: pos }
    }
}

impl<S: Suggester> Input<S> {
    /// Positions stay within the text, and the chrome is well formed.
    pub open spec fn wf(&self) -> bool {
        &&& self.cursor <= self.text@.len()
        &&& self.selection.start <= self.text@.len()
        &&& self.selection.end <= self.text@.len()
        &&& self.chrome.wf()
    }

    /// Whether something is selected.
    pub open spec fn has_selection(&self) -> bool {
        self.selection.start != self.selection.end
    }

    pub open spec fn restrict_pattern(&self) -> Option<Seq<char>> {
        restrict_source(self.restrict)
    }

    pub fn with_placeholder(self, value: &str) -> (i: Input<S>)
        ensures
            i.placeholder matches Some(p) && p@ == value@,
            i.text == self.text && i.cursor == self.cursor && i.selection == self.selection,
            i.input_type == self.input_type && i.password == self.password,
            i.max_length == self.max_length && i.chrome == self.chrome,
            i.suggestion == self.suggestion && i.pending_blur == self.pending_blur,
            i.restrict == self.restrict,
            i.suggester == self.suggester,
    {
        let mut i = self;
        i.placeholder = Some(text_of(value));
        i
    }

    pub fn with_type(self, input_type: InputType) -> (i: Input<S>)
        ensures
            i.input_type == input_type,
            i.text == self.text && i.cursor == self.cursor && i.selection == self.selection,
            i.placeholder == self.placeholder && i.password == self.password,
            i.max_length == self.max_length && i.chrome == self.chrome,
            i.suggestion == self.suggestion && i.pending_blur == self.pending_blur,
            i.restrict == self.restrict,
            i.suggester == self.suggester,
    {
        let mut i = self;
        i.input_type = input_type;
        i
    }

    /// Show the value masked.
    pub fn with_password(self, password: bool) -> (i: Input<S>)
        ensures
            i.password == password,
            i.text == self.text && i.cursor == self.cursor && i.selection == self.selection,
            i.placeholder == self.placeholder && i.input_type == self.input_type,
            i.max_length == self.max_length && i.chrome == self.chrome,
            i.suggestion == self.suggestion && i.pending_blur == self.pending_blur,
            i.restrict == self.restrict,
            i.suggester == self.suggester,
    {
        let mut i = self;
        i.password = password;
        i
    }

    /// Accept only values the pattern matches; a pattern that does not
    /// compile sets no restriction.
    pub fn with_restrict(self, pattern: &str) -> (i: Input<S>)
        ensures
            i.restrict_pattern() == (if pattern_compiles(pattern@) { Some(pattern@) } else { None::<Seq<char>> }),
            i.text == self.text && i.cursor == self.cursor && i.selection == self.selection,
            i.placeholder == self.placeholder && i.input_type == self.input_type,
            i.password == self.password && i.max_length == self.max_length,
            i.chrome == self.chrome && i.suggestion == self.suggestion,
            i.pending_blur == self.pending_blur,
            i.suggester == self.suggester,
    {
        let mut i = self;
        i.restrict = Restrict::compile(pattern);
        i
    }

    /// Limit the value to `max_length` bytes.
    pub fn with_max_length(self, max_length: usize) -> (i: Input<S>)
        ensures
            i.max_length == Some(max_length),
            i.text == self.text && i.cursor == self.cursor && i.selection == self.selection,
            i.placeholder == self.placeholder && i.input_type == self.input_type,
            i.password == self.password && i.chrome == self.chrome,
            i.suggestion == self.suggestion && i.pending_blur == self.pending_blur,
            i.restrict == self.restrict,
            i.suggester == self.suggester,
    {
        let mut i = self;
        i.max_length = Some(max_length);
        i
    }

    /// Attach a suggester for completion ghost text.
    pub fn with_suggester<T: Suggester>(self, suggester: T) -> (i: Input<T>)
        ensures
            i.suggester == Some(suggester),
            i.text == self.text && i.cursor == self.cursor && i.selection == self.selection,
            i.placeholder == self.placeholder && i.input_type == self.input_type,
            i.password == self.password && i.max_length == self.max_length,
            i.restrict == self.restrict,
            i.chrome == self.chrome && i.suggestion == self.suggestion,
            i.pending_blur == self.pending_blur,
    {
        Input {
            text: self.text,
            cursor: self.cursor,
            selection: self.selection,
            placeholder: self.placeholder,
            input_type: self.input_type,
            password: self.password,
            restrict: self.restrict,
            max_length: self.max_length,
            pending_blur: self.pending_blur,
            chrome: self.chrome,
            suggester: Some(suggester),
            suggestion: self.suggestion,
            validators: self.validators,
            validation_result: self.validation_result,
            classes: self.classes,
        }
    }

    /// The current value.
    pub fn text(&self) -> (t: String)
        ensures
            t@ == self.text@,
    {
        string_of(&self.text)
    }

    /// The current suggestion (empty for none).
    pub fn suggestion(&self) -> (t: String)
        ensures
            t@ == self.suggestion@,
    {
        string_of(&self.suggestion)
    }

    /// Everything but the value, cursor, selection and suggestion agrees.
    pub open spec fn same_config(&self, other: &Input<S>) -> bool {
        &&& self.placeholder == other.placeholder
        &&& self.input_type == other.input_type
        &&& self.password == other.password
        &&& self.restrict == other.restrict
        &&& self.max_length == other.max_length
        &&& self.pending_blur == other.pending_blur
        &&& self.chrome == other.chrome
        &&& self.suggester == other.suggester
        &&& self.validators == other.validators
    }

    /// The validation outcome and the class list agree.
    pub open spec fn same_validation(&self, other: &Input<S>) -> bool {
        &&& self.validation_result == other.validation_result
        &&& self.classes == other.classes
    }

    /// The state after validating the value, starting from `before`'s
    /// classes: without validators the value is valid with no failures; an
    /// outcome is valid exactly when it lists no failure; a non-blank value
    /// has class `-valid` when valid and `-invalid` when not (a blank value,
    /// or one without validators, has neither); other classes are kept.
    pub open spec fn validation_refreshed(&self, before: &Input<S>) -> bool {
        let r = self.validation_result;
        let active = self.validators@.len() > 0 && !is_blank(self.text@);
        &&& (self.validators@.len() == 0 ==> outcome(r) == (true, Seq::<Seq<char>>::empty()))
        &&& (r.is_valid <==> r.failure_descriptions@.len() == 0)
        &&& texts(self.classes@).contains(valid_class()) == (active && r.is_valid)
        &&& texts(self.classes@).contains(invalid_class()) == (active && !r.is_valid)
        &&& forall|c: Seq<char>| c != valid_class() && c != invalid_class()
            ==> (#[trigger] texts(self.classes@).contains(c) <==> texts(before.classes@).contains(c))
    }

    /// Replace the value; the cursor stays where it was, within the new
    /// value and moved back to a grapheme boundary; the selection collapses
    /// onto it and the suggestion is dropped.
    pub fn set_text(&mut self, value: &str)
        requires
            old(self).wf(),
        ensures
            final(self).wf(),
            final(self).same_config(old(self)),
            final(self).text@ == value@,
            final(self).cursor as int == clamp_grapheme(value@, if old(self).cursor <= value@.len() { old(self).cursor as int } else { value@.len() as int }),
            final(self).selection == Selection::cursor_spec(final(self).cursor),
            final(self).suggestion@.len() == 0,
            final(self).validation_refreshed(old(self)),
    {
        self.text = chars_of(value);
        if self.cursor > self.text.len() {
            self.cursor = self.text.len();
        }
        self.cursor = clamp_grapheme_boundary(&self.text, self.cursor);
        self.selection = Selection::cursor(self.cursor);
        self.suggestion = Vec::new();
        self.revalidate();
    }

    /// Empty the value.
    pub fn clear(&mut self)
        requires
            old(self).wf(),
        ensures
            final(self).wf(),
            final(self).same_config(old(self)),
            final(self).text@.len() == 0,
            final(self).cursor == 0,
            final(self).selection == Selection::cursor_spec(0),
            final(self).suggestion@.len() == 0,
            final(self).validation_refreshed(old(self)),
    {
        self.text = Vec::new();
        self.cursor = 0;
        self.selection = Selection::cursor(0);
        self.suggestion = Vec::new();
        self.revalidate();
    }

    /// Select the whole value, with the cursor at its end; nothing happens
    /// to an empty value.
    pub fn select_all(&mut self)
        requires
            old(self).wf(),
        ensures
            final(self).wf(),
            old(self).text@.len() == 0 ==> *final(self) == *old(self),
            old(self).text@.len() > 0 ==> {
                &&& final(self).same_config(old(self))
                &&& final(self).text == old(self).text
                &&& final(self).suggestion == old(self).suggestion
                &&& final(self).selection == (Selection { start: 0, end: old(self).text@.len() as usize })
                &&& final(self).cursor == old(self).text@.len()
                &&& final(self).same_validation(old(self))
            },
    {
        if self.text.len() == 0 {
            return;
        }
        self.selection = Selection { start: 0, end: self.text.len() };
        self.cursor = self.text.len();
    }

    /// The selected text; none where the selection is empty.
    pub fn selected_text(&self) -> (r: Option<String>)
        requires
            self.wf(),
        ensures
            !self.has_selection() ==> r is None,
            self.has_selection() ==> (r matches Some(t) && t@ == self.text@.subrange(
                sel_bounds(self.selection).0 as int,
                sel_bounds(self.selection).1 as int,
            )),
    {
        if self.selection.start == self.selection.end {
            return None;
        }
        let (start, end) = self.selection.normalized();
        let part = slice_of(&self.text, start, end);
        Some(string_of(&part))
    }

    /// Remove the selected text, leaving the cursor where it started;
    /// `false`, changing nothing, where nothing is selected.
    pub fn delete_selection_if_any(&mut self) -> (deleted: bool)
        requires
            old(self).wf(),
        ensures
            final(self).wf(),
            deleted == old(self).has_selection(),
            !deleted ==> *final(self) == *old(self),
            deleted ==> {
                let (lo, hi) = sel_bounds(old(self).selection);
                &&& final(self).same_config(old(self))
                &&& final(self).text@ == spliced(old(self).text@, lo as int, hi as int, Seq::empty())
                &&& final(self).cursor == lo
                &&& final(self).selection == Selection::cursor_spec(lo)
                &&& final(self).suggestion == old(self).suggestion
                &&& final(self).same_validation(old(self))
            },
    {
        if self.selection.start == self.selection.end {
            return false;
        }
        let (start, end) = self.selection.normalized();
        let none: Vec<char> = Vec::new();
        self.text = splice(&self.text, start, end, &none);
        self.cursor = start;
        self.selection = Selection::cursor(start);
        true
    }

    /// Move the cursor to `next`, taken back to a grapheme boundary. With
    /// `select`, an empty selection is first anchored at the cursor and its
    /// end follows the cursor; otherwise the selection collapses onto it.
    /// Returns whether the cursor or the selection changed.
    pub fn move_cursor_to(&mut self, next: usize, select: bool) -> (changed: bool)
        requires
            old(self).wf(),
            next <= old(self).text@.len(),
        ensures
            final(self).wf(),
            final(self).same_config(old(self)),
            final(self).text == old(self).text,
            final(self).suggestion == old(self).suggestion,
            final(self).same_validation(old(self)),
            (final(self).edit_state(), changed) == old(self).edit_state().moved(next as int, select),
            ({
                let to = clamp_grapheme(old(self).text@, next as int);
                let anchored = if old(self).has_selection() { old(self).selection.start } else { old(self).cursor };
                if select {
                    if to == old(self).cursor {
                        &&& !changed
                        &&& final(self).cursor == old(self).cursor
                        &&& final(self).selection == (Selection { start: anchored, ..old(self).selection })
                    } else {
                        &&& changed
                        &&& final(self).cursor as int == to
                        &&& final(self).selection == (Selection { start: anchored, end: to as usize })
                    }
                } else if to == old(self).cursor && !old(self).has_selection() {
                    &&& !changed
                    &&& *final(self) == *old(self)
                } else {
                    &&& changed
                    &&& final(self).cursor as int == to
                    &&& final(self).selection == Selection::cursor_spec(to as usize)
                }
            }),
    {
        let next = clamp_grapheme_boundary(&self.text, next);
        if select {
            if self.selection.start == self.selection.end {
                self.selection.start = self.cursor;
            }
            if next == self.cursor {
                return false;
            }
            self.cursor = next;
            self.selection.end = next;
            return true;
        }
        if next == self.cursor && self.selection.start == self.selection.end {
            return false;
        }
        self.cursor = next;
        self.selection = Selection::cursor(next);
        true
    }

    /// Whether the cursor is at the end of the value.
    pub fn cursor_at_end(&self) -> (b: bool)
        ensures
            b == (self.cursor >= self.text@.len()),
    {
        self.cursor >= self.text.len()
    }

    /// Whether a value passes the length limit and the restriction, as
    /// [`value_allowed`] states.
    pub fn is_value_allowed(&self, value: &Vec<char>) -> (b: bool)
        ensures
            b == value_allowed(self.max_length, self.restrict_pattern(), value@),
    {
        match self.max_length {
            Some(max) => {
                if text_byte_len(value) > max as u128 {
                    return false;
                }
            },
            None => {},
        }
        match &self.restrict {
            Some(re) => {
                let v = string_of(value);
                re.is_match(v.as_str())
            },
            None => true,
        }
    }

    /// Whether a typed character is accepted here, as [`char_allowed`]
    /// states for the current value and cursor.
    pub fn is_allowed_char(&self, ch: char) -> (b: bool)
        ensures
            b == char_allowed(self.input_type, self.text@, self.cursor == 0, ch),
    {
        let t = string_of(&self.text);
        is_allowed_char(self.input_type, t.as_str(), self.cursor, ch)
    }

    /// The suggestion to keep for the current value from what the suggester
    /// proposed, as [`kept_suggestion`] states.
    pub fn suggestion_from(&self, proposed: Option<String>) -> (r: Vec<char>)
        ensures
            r@ == kept_suggestion(self.text@, match proposed { Some(p) => Some(p@), None => None }),
    {
        match proposed {
            Some(p) => {
                let pc = chars_of(p.as_str());
                if self.text.len() > 0 && text_byte_len(&pc) > text_byte_len(&self.text) {
                    pc
                } else {
                    Vec::new()
                }
            },
            None => Vec::new(),
        }
    }

    /// Ask the suggester (if any) for a completion of a non-empty value; the
    /// proposal is kept as [`suggestion_from`] decides. The suggester is the
    /// user's, so what it proposes is not known here: the suggestion ends up
    /// empty, or longer than the value.
    pub fn update_suggestion(&mut self)
        requires
            old(self).wf(),
        ensures
            final(self).wf(),
            final(self).same_config(old(self)),
            final(self).text == old(self).text,
            final(self).cursor == old(self).cursor,
            final(self).selection == old(self).selection,
            final(self).same_validation(old(self)),
            final(self).suggestion_refreshed(),
    {
        let proposed = match &self.suggester {
            Some(sg) => {
                if self.text.len() == 0 {
                    None
                } else {
                    let t = string_of(&self.text);
                    sg.suggest(t.as_str())
                }
            },
            None => None,
        };
        self.suggestion = self.suggestion_from(proposed);
    }

    /// The editable part of the state.
    pub open spec fn edit_state(&self) -> EditState {
        EditState {
            text: self.text@,
            cursor: self.cursor as int,
            sel_start: self.selection.start as int,
            sel_end: self.selection.end as int,
        }
    }

    /// What typing `chars` keeps, from the state once the selection is
    /// removed.
    pub open spec fn typed(&self, chars: Seq<char>) -> Seq<char> {
        let e = self.edit_state().without_selection();
        typed_from(self.input_type, self.max_length, self.restrict_pattern(), e.text, e.cursor, chars, 0, Seq::empty())
    }

    /// The suggestion is as the last refresh may leave it: empty without a
    /// suggester or value, and otherwise empty or longer than the value.
    pub open spec fn suggestion_refreshed(&self) -> bool {
        &&& (self.suggester is None || self.text@.len() == 0 ==> self.suggestion@.len() == 0)
        &&& (self.suggestion@.len() == 0 || byte_len(self.suggestion@) > byte_len(self.text@))
    }

    /// Take the suggestion as the value, cursor at the end, where there is
    /// one, the cursor is at the end and the suggestion passes the limits; a
    /// suggestion that does not pass is dropped. Returns whether it was taken.
    pub fn accept_suggestion(&mut self) -> (taken: bool)
        requires
            old(self).wf(),
        ensures
            final(self).wf(),
            final(self).same_config(old(self)),
            old(self).suggestion@.len() == 0 || old(self).cursor < old(self).text@.len() ==> !taken && *final(self) == *old(self),
            old(self).suggestion@.len() > 0 && old(self).cursor >= old(self).text@.len() ==> {
                if value_allowed(old(self).max_length, old(self).restrict_pattern(), old(self).suggestion@) {
                    &&& taken
                    &&& final(self).text@ == old(self).suggestion@
                    &&& final(self).cursor == old(self).suggestion@.len()
                    &&& final(self).selection == Selection::cursor_spec(final(self).cursor)
                    &&& final(self).suggestion@.len() == 0
                    &&& final(self).validation_refreshed(old(self))
                } else {
                    &&& !taken
                    &&& final(self).text == old(self).text
                    &&& final(self).cursor == old(self).cursor
                    &&& final(self).selection == old(self).selection
                    &&& final(self).suggestion@.len() == 0
                    &&& final(self).same_validation(old(self))
                }
            },
    {
        if self.suggestion.len() == 0 || !self.cursor_at_end() {
            return false;
        }
        if !self.is_value_allowed(&self.suggestion) {
            self.suggestion = Vec::new();
            return false;
        }
        let mut taken: Vec<char> = Vec::new();
        std::mem::swap(&mut taken, &mut self.suggestion);
        self.text = taken;
        self.cursor = self.text.len();
        self.selection = Selection::cursor(self.cursor);
        self.revalidate();
        true
    }
}

impl<S: Suggester> Input<S> {
    /// The characters of `chars` that typing keeps, as [`typed_from`] states.
    fn filter_typed(&self, chars: &Vec<char>) -> (f: Vec<char>)
        requires
            self.wf(),
        ensures
            f@ == typed_from(self.input_type, self.max_length, self.restrict_pattern(), self.text@, self.cursor as int, chars@, 0, Seq::empty()),
    {
        let tlen = text_byte_len(&self.text);
        let tn = self.text.len();
        let cn = chars.len();
        let mut flen: u128 = 0;
        let mut f: Vec<char> = Vec::new();
        let mut i: usize = 0;
        proof {
            lemma_byte_len_bound(self.text@);
        }
        while i < chars.len()
            invariant
                self.wf(),
                tn == self.text@.len(),
                cn == chars@.len(),
                i <= chars@.len(),
                tlen as int == byte_len(self.text@),
                tlen as int <= 4 * self.text@.len(),
                flen as int == byte_len(f@),
                f@.len() <= i,
                flen as int <= 4 * f@.len(),
                typed_from(self.input_type, self.max_length, self.restrict_pattern(), self.text@, self.cursor as int, chars@, 0, Seq::empty())
                    == typed_from(self.input_type, self.max_length, self.restrict_pattern(), self.text@, self.cursor as int, chars@, i as int, f@),
            ensures
                f@ == typed_from(self.input_type, self.max_length, self.restrict_pattern(), self.text@, self.cursor as int, chars@, 0, Seq::empty()),
            decreases chars@.len() - i,
        {
            let ch = chars[i];
            if !self.is_allowed_char(ch) {
                i = i + 1;
                continue;
            }
            let clen = char_byte_len(ch);
            match self.max_length {
                Some(max) => {
                    if tlen + flen + clen > max as u128 {
                        break;
                    }
                },
                None => {},
            }
            let mut with_ch = slice_of(&f, 0, f.len());
            proof {
                assert(f@.subrange(0, f@.len() as int) =~= f@);
            }
            with_ch.push(ch);
            match &self.restrict {
                Some(re) => {
                    let candidate = splice(&self.text, self.cursor, self.cursor, &with_ch);
                    let cs = string_of(&candidate);
                    if !re.is_match(cs.as_str()) {
                        i = i + 1;
                        continue;
                    }
                },
                None => {},
            }
            proof {
                assert(f@.push(ch).drop_last() =~= f@);
            }
            f.push(ch);
            flen = flen + clen;
            i = i + 1;
        }
        f
    }

    /// Type `value` at the cursor, replacing the selection: the characters
    /// the input keeps (see [`Input::typed`]) go in at the cursor, which ends
    /// after them; the suggestion is refreshed. An empty `value` changes
    /// nothing; where nothing is kept, only the selection is removed.
    pub fn insert_text_at_cursor(&mut self, value: &str)
        requires
            old(self).wf(),
        ensures
            final(self).wf(),
            final(self).same_config(old(self)),
            value@.len() == 0 ==> *final(self) == *old(self),
            value@.len() > 0 && old(self).typed(value@).len() == 0 ==> {
                &&& final(self).edit_state() == old(self).edit_state().without_selection()
                &&& final(self).suggestion == old(self).suggestion
                &&& final(self).same_validation(old(self))
            },
            value@.len() > 0 && old(self).typed(value@).len() > 0 ==> {
                &&& final(self).edit_state() == old(self).edit_state().without_selection().with_inserted(old(self).typed(value@))
                &&& final(self).suggestion_refreshed()
                &&& final(self).validation_refreshed(old(self))
            },
    {
        if value.unicode_len() == 0 {
            return;
        }
        let chars = chars_of(value);
        self.delete_selection_if_any();
        let f = self.filter_typed(&chars);
        if f.len() == 0 {
            return;
        }
        self.text = splice(&self.text, self.cursor, self.cursor, &f);
        // The new value holds the cursor's prefix and the typed characters,
        // so the position after them fits its length.
        let len = self.text.len();
        assert(self.cursor + f@.len() <= len);
        let c = clamp_grapheme_boundary(&self.text, self.cursor + f.len());
        self.cursor = c;
        self.selection = Selection::cursor(c);
        self.revalidate();
        self.update_suggestion();
    }

    /// Delete the selection, or else the grapheme after the cursor; the
    /// suggestion is refreshed where something was deleted.
    pub fn delete(&mut self)
        requires
            old(self).wf(),
        ensures
            final(self).wf(),
            final(self).same_config(old(self)),
            old(self).has_selection() ==> {
                &&& final(self).edit_state() == old(self).edit_state().without_selection()
                &&& final(self).suggestion_refreshed()
                &&& final(self).validation_refreshed(old(self))
            },
            !old(self).has_selection() && old(self).cursor < old(self).text@.len() ==> {
                &&& final(self).edit_state() == EditState::at(
                    spliced(old(self).text@, old(self).cursor as int, next_grapheme(old(self).text@, old(self).cursor as int), Seq::empty()),
                    old(self).cursor as int,
                )
                &&& final(self).suggestion_refreshed()
                &&& final(self).validation_refreshed(old(self))
            },
            !old(self).has_selection() && old(self).cursor >= old(self).text@.len() ==> *final(self) == *old(self),
    {
        if self.delete_selection_if_any() {
            self.revalidate();
            self.update_suggestion();
            return;
        }
        if self.cursor < self.text.len() {
            let end = next_grapheme_boundary(&self.text, self.cursor);
            let none: Vec<char> = Vec::new();
            self.text = splice(&self.text, self.cursor, end, &none);
            self.selection = Selection::cursor(self.cursor);
            self.revalidate();
            self.update_suggestion();
        }
    }

    /// Replace the selection by `value`, typed as [`Input::insert_text_at_cursor`]
    /// types it; with nothing selected, `value` is typed at the cursor.
    pub fn replace(&mut self, value: &str)
        requires
            old(self).wf(),
        ensures
            final(self).wf(),
            final(self).same_config(old(self)),
            value@.len() == 0 || old(self).typed(value@).len() == 0 ==> {
                &&& final(self).edit_state() == old(self).edit_state().without_selection()
                &&& final(self).suggestion == old(self).suggestion
                &&& final(self).same_validation(old(self))
            },
            value@.len() > 0 && old(self).typed(value@).len() > 0 ==> {
                &&& final(self).edit_state() == old(self).edit_state().without_selection().with_inserted(old(self).typed(value@))
                &&& final(self).suggestion_refreshed()
                &&& final(self).validation_refreshed(old(self))
            },
    {
        self.delete_selection_if_any();
        self.insert_text_at_cursor(value);
    }
}

impl<S: Suggester> Input<S> {
    /// The characters of the clipboard's first line that the input accepts.
    pub open spec fn paste_chars(&self, clip: Seq<char>) -> Seq<char> {
        kept_chars(self.input_type, self.text@, self.cursor == 0, first_line(clip))
    }

    /// What of `chars` fits the length limit once the selection is removed:
    /// nothing fits (`None`) where the value already has `max_length` bytes;
    /// otherwise as many characters as bytes remain.
    pub open spec fn paste_fitted(&self, chars: Seq<char>) -> Option<Seq<char>> {
        let e = self.edit_state().without_selection();
        match self.max_length {
            Some(m) => if byte_len(e.text) >= m {
                None
            } else {
                let room = m - byte_len(e.text);
                Some(if room < chars.len() { chars.take(room) } else { chars })
            },
            None => Some(chars),
        }
    }

    /// The characters of `chars` the input accepts, as [`kept_chars`] states.
    fn keep_allowed(&self, chars: &Vec<char>) -> (r: Vec<char>)
        ensures
            r@ == kept_chars(self.input_type, self.text@, self.cursor == 0, chars@),
    {
        let mut r: Vec<char> = Vec::new();
        let mut i: usize = 0;
        proof {
            assert(chars@.take(0) =~= Seq::<char>::empty());
        }
        while i < chars.len()
            invariant
                i <= chars@.len(),
                r@ == kept_chars(self.input_type, self.text@, self.cursor == 0, chars@.take(i as int)),
            decreases chars@.len() - i,
        {
            proof {
                assert(chars@.take(i as int + 1).drop_last() =~= chars@.take(i as int));
                assert(chars@.take(i as int + 1).last() == chars@[i as int]);
            }
            if self.is_allowed_char(chars[i]) {
                r.push(chars[i]);
            }
            i = i + 1;
        }
        proof {
            assert(chars@.take(chars@.len() as int) =~= chars@);
        }
        r
    }

    /// Insert the first line of a clipboard text at the cursor: the accepted
    /// characters (see [`Input::paste_chars`]) replace the selection, cut to
    /// the room the length limit leaves; the result must match the
    /// restriction. Returns whether anything was inserted. Where nothing is
    /// accepted, nothing changes; where it does not fit or match, the
    /// selection is still removed.
    pub fn insert_text_from_clipboard(&mut self, clip: &str) -> (inserted: bool)
        requires
            old(self).wf(),
        ensures
            final(self).wf(),
            final(self).same_config(old(self)),
            final(self).suggestion == old(self).suggestion,
            final(self).same_validation(old(self)),
            old(self).paste_chars(clip@).len() == 0 ==> !inserted && *final(self) == *old(self),
            old(self).paste_chars(clip@).len() > 0 ==> ({
                let e = old(self).edit_state().without_selection();
                match old(self).paste_fitted(old(self).paste_chars(clip@)) {
                    None => !inserted && final(self).edit_state() == e,
                    Some(chars) => {
                        let ok = old(self).restrict_pattern() matches Some(p) ==> pattern_matches(p, spliced(e.text, e.cursor, e.cursor, chars));
                        &&& inserted == ok
                        &&& final(self).edit_state() == (if ok { e.with_inserted(chars) } else { e })
                    },
                }
            }),
    {
        let line = first_clipboard_line(clip);
        let mut chars = self.keep_allowed(&line);
        if chars.len() == 0 {
            return false;
        }
        self.delete_selection_if_any();
        match self.max_length {
            Some(max) => {
                let used = text_byte_len(&self.text);
                if used >= max as u128 {
                    return false;
                }
                let room = (max as u128 - used) as usize;
                if room < chars.len() {
                    chars = slice_of(&chars, 0, room);
                }
            },
            None => {},
        }
        let proposed = splice(&self.text, self.cursor, self.cursor, &chars);
        match &self.restrict {
            Some(re) => {
                let ps = string_of(&proposed);
                if !re.is_match(ps.as_str()) {
                    return false;
                }
            },
            None => {},
        }
        self.text = proposed;
        let len = self.text.len();
        assert(self.cursor + chars@.len() <= len);
        let c = clamp_grapheme_boundary(&self.text, self.cursor + chars.len());
        self.cursor = c;
        self.selection = Selection::cursor(c);
        true
    }

    /// Gain or lose focus at `now`. Losing it schedules a blur report for
    /// the next tick; either way the suggestion is dropped.
    pub fn set_focus(&mut self, focused: bool, now: u64)
        requires
            old(self).wf(),
        ensures
            final(self).wf(),
            final(self).chrome == focus_set(old(self).chrome, focused, now),
            final(self).pending_blur == (old(self).pending_blur || (old(self).chrome.focused && !focused)),
            final(self).edit_state() == old(self).edit_state(),
            final(self).suggestion@.len() == 0,
            final(self).placeholder == old(self).placeholder,
            final(self).input_type == old(self).input_type,
            final(self).password == old(self).password,
            final(self).restrict == old(self).restrict,
            final(self).max_length == old(self).max_length,
            final(self).suggester == old(self).suggester,
            final(self).validators == old(self).validators,
            final(self).same_validation(old(self)),
    {
        let was_focused = self.chrome.focused;
        self.chrome.set_focus(focused, now);
        if was_focused && !focused {
            self.pending_blur = true;
        }
        self.suggestion = Vec::new();
    }

    pub fn has_focus(&self) -> (b: bool)
        ensures
            b == self.chrome.focused,
    {
        self.chrome.focused
    }

    /// The input shows as active while the pointer is down on it.
    pub fn is_active(&self) -> (b: bool)
        ensures
            b == self.chrome.mouse_down,
    {
        self.chrome.mouse_down
    }

    /// Inputs take focus.
    pub fn focusable(&self) -> (b: bool)
        ensures
            b,
    {
        true
    }

    /// The text position under content cell `x`.
    pub open spec fn position_under(&self, x: u16) -> int {
        position_at_cell(grapheme_clusters(self.text@), x as int)
    }

    /// While the pointer is down, dragging to cell `x` moves the cursor and
    /// the selection's end there. Returns whether either changed.
    pub fn on_mouse_move(&mut self, x: u16, _y: u16) -> (changed: bool)
        requires
            old(self).wf(),
        ensures
            final(self).wf(),
            ({
                let to = old(self).position_under(x);
                if !old(self).chrome.mouse_down || (to == old(self).selection.end && to == old(self).cursor) {
                    !changed && *final(self) == *old(self)
                } else {
                    &&& changed
                    &&& final(self).same_config(old(self))
                    &&& final(self).text == old(self).text
                    &&& final(self).suggestion == old(self).suggestion
                    &&& final(self).cursor as int == to
                    &&& final(self).selection == (Selection { end: to as usize, ..old(self).selection })
                    &&& final(self).same_validation(old(self))
                }
            }),
    {
        if !self.chrome.mouse_down {
            return false;
        }
        let next = index_from_cell_x(&self.text, x);
        if next == self.selection.end && next == self.cursor {
            return false;
        }
        self.selection.end = next;
        self.cursor = next;
        true
    }
}

impl<S: Suggester> Input<S> {
    /// What an editing command does to the value, cursor and selection, the
    /// suggestion it leaves (before any refresh), whether the cursor or
    /// selection changed, and whether the value changed.
    pub open spec fn command_effect(&self, cmd: EditCommand) -> (EditState, Seq<char>, bool, bool) {
        let e = self.edit_state();
        let sug = self.suggestion@;
        let len = e.text.len() as int;
        match cmd {
            EditCommand::InsertChar(ch) => {
                let d = e.without_selection();
                let proposed = spliced(d.text, d.cursor, d.cursor, seq![ch]);
                if char_allowed(self.input_type, e.text, e.cursor == 0, ch) && value_allowed(self.max_length, self.restrict_pattern(), proposed) {
                    (d.with_inserted(seq![ch]), sug, true, true)
                } else {
                    (e, sug, false, false)
                }
            },
            EditCommand::Cut => if e.has_selection() {
                (e.without_selection(), sug, true, true)
            } else {
                (e, sug, false, false)
            },
            EditCommand::Backspace { unit } => if e.has_selection() {
                (e.without_selection(), sug, true, true)
            } else if e.cursor > 0 {
                let start = back_from(e.text, e.cursor, unit);
                (EditState::at(spliced(e.text, start, e.cursor, Seq::empty()), start), sug, true, true)
            } else {
                (e, sug, false, false)
            },
            EditCommand::Delete { unit } => if e.has_selection() {
                (e.without_selection(), sug, true, true)
            } else if e.cursor < len {
                let end = forward_from(e.text, e.cursor, unit);
                (EditState::at(spliced(e.text, e.cursor, end, Seq::empty()), e.cursor), sug, true, true)
            } else {
                (e, sug, false, false)
            },
            EditCommand::DeleteToStart => if e.has_selection() {
                (e.without_selection(), sug, true, true)
            } else if e.cursor > 0 {
                (EditState::at(e.text.subrange(e.cursor, len), 0), sug, true, true)
            } else {
                (e, sug, false, false)
            },
            EditCommand::DeleteToEnd => if e.has_selection() {
                (e.without_selection(), sug, true, true)
            } else if e.cursor < len {
                (EditState::at(e.text.take(e.cursor), e.cursor), sug, true, true)
            } else {
                (e, sug, false, false)
            },
            EditCommand::MoveLeft { select, unit } => {
                let next = if e.has_selection() && !select { e.sel_lo() } else { back_from(e.text, e.cursor, unit) };
                let (m, c) = e.moved(next, select);
                (m, sug, c, false)
            },
            EditCommand::MoveRight { select, unit } => if !select && e.cursor >= len && !e.has_selection() && sug.len() > 0 {
                if value_allowed(self.max_length, self.restrict_pattern(), sug) {
                    (EditState::at(sug, sug.len() as int), Seq::empty(), true, true)
                } else {
                    (e, Seq::empty(), false, false)
                }
            } else {
                let next = if e.has_selection() && !select { e.sel_hi() } else { forward_from(e.text, e.cursor, unit) };
                let (m, c) = e.moved(next, select);
                (m, sug, c, false)
            },
            EditCommand::MoveHome { select } => {
                let (m, c) = e.moved(0, select);
                (m, sug, c, false)
            },
            EditCommand::MoveEnd { select } => {
                let (m, c) = e.moved(len, select);
                (m, sug, c, false)
            },
            EditCommand::SelectAll => if len > 0 {
                (EditState { text: e.text, cursor: len, sel_start: 0, sel_end: len }, sug, true, false)
            } else {
                (e, sug, false, false)
            },
            _ => (e, sug, false, false),
        }
    }

    /// The messages an editing command posts itself (before any report of a
    /// changed value): submit reports the value, copy and cut the selected
    /// text, paste asks for the clipboard.
    pub open spec fn command_posts(&self, cmd: EditCommand) -> Seq<Posted> {
        let e = self.edit_state();
        match cmd {
            EditCommand::Submit => seq![Posted::Submitted(e.text)],
            EditCommand::Copy => if e.has_selection() {
                seq![Posted::CopyRequested(e.text.subrange(e.sel_lo(), e.sel_hi()), false)]
            } else {
                Seq::empty()
            },
            EditCommand::Cut => if e.has_selection() {
                seq![Posted::CopyRequested(e.text.subrange(e.sel_lo(), e.sel_hi()), true)]
            } else {
                Seq::empty()
            },
            EditCommand::Paste => seq![Posted::PasteRequested(NodeId(0))],
            _ => Seq::empty(),
        }
    }

    /// Report the value as changed.
    fn post_changed(&self, ctx: &mut EventCtx)
        ensures
            posts_appended(old(ctx).messages@, final(ctx).messages@, old(ctx).node, seq![Posted::Changed(self.text@, outcome(self.validation_result))]),
            final(ctx).node == old(ctx).node,
            final(ctx).state == old(ctx).state,
            final(ctx).handled == old(ctx).handled,
            final(ctx).repaint == old(ctx).repaint,
            final(ctx).layout == old(ctx).layout,
            final(ctx).class_changes == old(ctx).class_changes,
    {
        let value = string_of(&self.text);
        let validation = self.validation_result.duplicate();
        ctx.post_message(Message::InputChanged { value, validation });
        assert(ctx.messages@.take(old(ctx).messages@.len() as int) =~= old(ctx).messages@);
    }
}

impl<S: Suggester> Input<S> {
    /// Post `m`, described as `p`.
    fn post(ctx: &mut EventCtx, m: Message, Ghost(p): Ghost<Posted>)
        requires
            posted_as(MessageEvent { sender: old(ctx).node, message: m }, old(ctx).node, p),
        ensures
            posts_appended(old(ctx).messages@, final(ctx).messages@, old(ctx).node, seq![p]),
            final(ctx).node == old(ctx).node,
            final(ctx).state == old(ctx).state,
            final(ctx).handled == old(ctx).handled,
            final(ctx).repaint == old(ctx).repaint,
            final(ctx).layout == old(ctx).layout,
            final(ctx).class_changes == old(ctx).class_changes,
    {
        ctx.post_message(m);
        assert(ctx.messages@.take(old(ctx).messages@.len() as int) =~= old(ctx).messages@);
    }

    /// The state part of [`Input::command_effect`] for the commands that post
    /// nothing: the effect holds and everything else stays.
    pub open spec fn effect_holds(&self, old_self: &Input<S>, cmd: EditCommand, changed: bool, value_changed: bool) -> bool {
        let (e1, sug1, c, vc) = old_self.command_effect(cmd);
        &&& self.wf()
        &&& self.edit_state() == e1
        &&& self.suggestion@ == sug1
        &&& changed == c
        &&& value_changed == vc
        &&& self.same_config(old_self)
        &&& (self.same_validation(old_self) || (value_changed && self.validation_refreshed(old_self)))
    }

    fn run_insert_char(&mut self, ch: char) -> (r: (bool, bool))
        requires
            old(self).wf(),
        ensures
            final(self).effect_holds(old(self), EditCommand::InsertChar(ch), r.0, r.1),
    {
        if !self.is_allowed_char(ch) {
            return (false, false);
        }
        let none: Vec<char> = Vec::new();
        let (base, pos) = if self.selection.start != self.selection.end {
            let (lo, hi) = self.selection.normalized();
            (splice(&self.text, lo, hi, &none), lo)
        } else {
            (slice_of(&self.text, 0, self.text.len()), self.cursor)
        };
        proof {
            assert(self.text@.subrange(0, self.text@.len() as int) =~= self.text@);
            assert(spliced(self.text@, self.cursor as int, self.cursor as int, Seq::empty()) =~= self.text@);
        }
        let mut one: Vec<char> = Vec::new();
        one.push(ch);
        proof {
            assert(one@ =~= seq![ch]);
        }
        let proposed = splice(&base, pos, pos, &one);
        if !self.is_value_allowed(&proposed) {
            return (false, false);
        }
        self.delete_selection_if_any();
        self.text = proposed;
        let len = self.text.len();
        assert(pos + 1 <= len);
        let c = clamp_grapheme_boundary(&self.text, pos + 1);
        self.cursor = c;
        self.selection = Selection::cursor(c);
        (true, true)
    }

    fn run_deletion(&mut self, cmd: EditCommand) -> (r: (bool, bool))
        requires
            old(self).wf(),
            cmd matches EditCommand::Backspace { .. } || cmd matches EditCommand::Delete { .. }
                || cmd == EditCommand::DeleteToStart || cmd == EditCommand::DeleteToEnd,
        ensures
            final(self).effect_holds(old(self), cmd, r.0, r.1),
    {
        if self.delete_selection_if_any() {
            return (true, true);
        }
        let none: Vec<char> = Vec::new();
        match cmd {
            EditCommand::Backspace { unit } => {
                if self.cursor == 0 {
                    return (false, false);
                }
                let start = match unit {
                    MoveUnit::Grapheme => prev_grapheme_boundary(&self.text, self.cursor),
                    MoveUnit::Word => prev_word_boundary(&self.text, self.cursor),
                };
                self.text = splice(&self.text, start, self.cursor, &none);
                self.cursor = start;
                self.selection = Selection::cursor(start);
            },
            EditCommand::Delete { unit } => {
                if self.cursor >= self.text.len() {
                    return (false, false);
                }
                let end = match unit {
                    MoveUnit::Grapheme => next_grapheme_boundary(&self.text, self.cursor),
                    MoveUnit::Word => next_word_boundary(&self.text, self.cursor),
                };
                self.text = splice(&self.text, self.cursor, end, &none);
                self.selection = Selection::cursor(self.cursor);
            },
            EditCommand::DeleteToStart => {
                if self.cursor == 0 {
                    return (false, false);
                }
                self.text = slice_of(&self.text, self.cursor, self.text.len());
                self.cursor = 0;
                self.selection = Selection::cursor(0);
            },
            _ => {
                if self.cursor >= self.text.len() {
                    return (false, false);
                }
                self.text = slice_of(&self.text, 0, self.cursor);
                self.selection = Selection::cursor(self.cursor);
            },
        }
        (true, true)
    }

    /// Where a move left goes: the selection's lower end where something is
    /// selected and the move does not extend it; else back by `unit`.
    fn left_target(&self, select: bool, unit: MoveUnit) -> (next: usize)
        requires
            self.wf(),
        ensures
            next <= self.text@.len(),
            next as int == (if self.edit_state().has_selection() && !select {
                self.edit_state().sel_lo()
            } else {
                back_from(self.text@, self.cursor as int, unit)
            }),
    {
        if self.selection.start != self.selection.end && !select {
            let (lo, _) = self.selection.normalized();
            lo
        } else {
            match unit {
                MoveUnit::Grapheme => prev_grapheme_boundary(&self.text, self.cursor),
                MoveUnit::Word => prev_word_boundary(&self.text, self.cursor),
            }
        }
    }

    fn run_move_left(&mut self, select: bool, unit: MoveUnit) -> (changed: bool)
        requires
            old(self).wf(),
        ensures
            final(self).effect_holds(old(self), EditCommand::MoveLeft { select, unit }, changed, false),
    {
        let next = self.left_target(select, unit);
        self.move_cursor_to(next, select)
    }

    fn run_movement(&mut self, cmd: EditCommand) -> (r: (bool, bool))
        requires
            old(self).wf(),
            cmd matches EditCommand::MoveLeft { .. } || cmd matches EditCommand::MoveRight { .. }
                || cmd matches EditCommand::MoveHome { .. } || cmd matches EditCommand::MoveEnd { .. }
                || cmd == EditCommand::SelectAll,
        ensures
            final(self).effect_holds(old(self), cmd, r.0, r.1),
    {
        match cmd {
            EditCommand::MoveLeft { select, unit } => (self.run_move_left(select, unit), false),
            EditCommand::MoveRight { select, unit } => {
                if !select && self.cursor_at_end() && self.selection.start == self.selection.end && self.suggestion.len() > 0 {
                    let taken = self.accept_suggestion();
                    assert(self.suggestion@ =~= Seq::<char>::empty());
                    (taken, taken)
                } else {
                    let next = if self.selection.start != self.selection.end && !select {
                        let (_, hi) = self.selection.normalized();
                        hi
                    } else {
                        match unit {
                            MoveUnit::Grapheme => next_grapheme_boundary(&self.text, self.cursor),
                            MoveUnit::Word => next_word_boundary(&self.text, self.cursor),
                        }
                    };
                    (self.move_cursor_to(next, select), false)
                }
            },
            EditCommand::MoveHome { select } => (self.move_cursor_to(0, select), false),
            EditCommand::MoveEnd { select } => {
                let n = self.text.len();
                (self.move_cursor_to(n, select), false)
            },
            _ => {
                if self.text.len() == 0 {
                    return (false, false);
                }
                self.selection = Selection { start: 0, end: self.text.len() };
                self.cursor = self.text.len();
                (true, false)
            },
        }
    }

    /// Submit, copy, cut and paste: the messages of [`Input::command_posts`],
    /// and for a cut the removal of the selection.
    fn run_clipboard(&mut self, cmd: EditCommand, ctx: &mut EventCtx) -> (r: (bool, bool))
        requires
            old(self).wf(),
            cmd == EditCommand::Submit || cmd == EditCommand::Copy || cmd == EditCommand::Cut || cmd == EditCommand::Paste,
        ensures
            final(self).effect_holds(old(self), cmd, r.0, r.1),
            posts_appended(old(ctx).messages@, final(ctx).messages@, old(ctx).node, old(self).command_posts(cmd)),
            final(ctx).node == old(ctx).node,
            final(ctx).state == old(ctx).state,
            final(ctx).handled == old(ctx).handled,
            final(ctx).repaint == old(ctx).repaint,
            final(ctx).layout == old(ctx).layout,
            final(ctx).class_changes == old(ctx).class_changes,
    {
        let ghost e = self.edit_state();
        match cmd {
            EditCommand::Submit => {
                let value = string_of(&self.text);
                Self::post(ctx, Message::InputSubmitted { value }, Ghost(Posted::Submitted(e.text)));
                (false, false)
            },
            EditCommand::Paste => {
                Self::post(ctx, Message::TextEditClipboardPasteRequested { target: NodeId(0) }, Ghost(Posted::PasteRequested(NodeId(0))));
                (false, false)
            },
            _ => {
                let cut = cmd == EditCommand::Cut;
                match self.selected_text() {
                    Some(text) => {
                        Self::post(ctx, Message::TextEditClipboardCopyRequested { text, cut },
                            Ghost(Posted::CopyRequested(e.text.subrange(e.sel_lo(), e.sel_hi()), cut)));
                        if cut {
                            self.delete_selection_if_any();
                            (true, true)
                        } else {
                            (false, false)
                        }
                    },
                    None => {
                        assert(ctx.messages@.take(old(ctx).messages@.len() as int) =~= old(ctx).messages@);
                        (false, false)
                    },
                }
            },
        }
    }

    /// The state changes and messages of a command, as
    /// [`Input::command_effect`] and [`Input::command_posts`] state.
    fn run_command(&mut self, cmd: EditCommand, ctx: &mut EventCtx) -> (r: (bool, bool))
        requires
            old(self).wf(),
        ensures
            final(self).effect_holds(old(self), cmd, r.0, r.1),
            posts_appended(old(ctx).messages@, final(ctx).messages@, old(ctx).node, old(self).command_posts(cmd)),
            final(ctx).node == old(ctx).node,
            final(ctx).state == old(ctx).state,
            final(ctx).handled == old(ctx).handled,
            final(ctx).repaint == old(ctx).repaint,
            final(ctx).layout == old(ctx).layout,
            final(ctx).class_changes == old(ctx).class_changes,
    {
        proof {
            assert(ctx.messages@.take(ctx.messages@.len() as int) =~= ctx.messages@);
        }
        match cmd {
            EditCommand::InsertChar(ch) => self.run_insert_char(ch),
            EditCommand::Submit | EditCommand::Copy | EditCommand::Cut | EditCommand::Paste => self.run_clipboard(cmd, ctx),
            EditCommand::Backspace { .. } | EditCommand::Delete { .. } | EditCommand::DeleteToStart | EditCommand::DeleteToEnd => self.run_deletion(cmd),
            EditCommand::MoveLeft { .. } | EditCommand::MoveRight { .. } | EditCommand::MoveHome { .. } | EditCommand::MoveEnd { .. }
                | EditCommand::SelectAll => self.run_movement(cmd),
            _ => (false, false),
        }
    }

    /// Carry out an editing command at `now`: the value, cursor and
    /// selection change as [`Input::command_effect`] states and the command's
    /// messages are posted ([`Input::command_posts`]); a changed value
    /// refreshes the suggestion and is reported; any change restarts the
    /// cursor blink and asks for a repaint. The event is handled.
    pub fn apply_command(&mut self, cmd: EditCommand, now: u64, ctx: &mut EventCtx)
        requires
            old(self).wf(),
        ensures
            final(self).wf(),
            command_applied(*old(self), *final(self), cmd, now, *old(ctx), *final(ctx)),
    {
        let ghost m0 = ctx.messages@;
        let (changed, value_changed) = self.run_command(cmd, ctx);
        let ghost m1 = ctx.messages@;
        let ghost mid = *self;
        if value_changed {
            self.revalidate();
            self.update_suggestion();
            self.post_changed(ctx);
            proof {
                lemma_refreshed_after(*old(self), mid, *self);
            }
        }
        if changed || value_changed {
            self.chrome.reset_blink(now);
            ctx.request_repaint();
        }
        ctx.set_handled();
        proof {
            let ps0 = old(self).command_posts(cmd);
            let ch = seq![Posted::Changed(self.text@, outcome(self.validation_result))];
            let ps = ps0 + (if value_changed { ch } else { Seq::empty() });
            if value_changed {
                lemma_posts_chain(m0, m1, ctx.messages@, old(ctx).node, ps0, ch);
            } else {
                assert(ps =~= ps0);
            }
        }
    }
}

/// Everything of a dispatch context but its messages, repaint and handled
/// flags agrees.
pub open spec fn ctx_rest_same(a: EventCtx, b: EventCtx) -> bool {
    &&& a.node == b.node
    &&& a.state == b.state
    &&& a.layout == b.layout
    &&& a.class_changes == b.class_changes
}

/// The input's configuration (all but value, cursor, selection, suggestion,
/// chrome and pending blur) agrees.
pub open spec fn config_same<S>(a: Input<S>, b: Input<S>) -> bool {
    &&& a.placeholder == b.placeholder
    &&& a.input_type == b.input_type
    &&& a.password == b.password
    &&& a.restrict == b.restrict
    &&& a.max_length == b.max_length
    &&& a.suggester == b.suggester
    &&& a.validators == b.validators
}

/// Applying `cmd` at `now` took the input from `a` to `b` and the context
/// from `ca` to `cb`: the value, cursor and selection change as
/// [`Input::command_effect`] states, the command's messages are posted and
/// then, where the value changed, a change report; the suggestion is
/// refreshed where the value changed; any change restarts the blink and
/// asks for a repaint; the event is handled.
pub open spec fn command_applied<S: Suggester>(a: Input<S>, b: Input<S>, cmd: EditCommand, now: u64, ca: EventCtx, cb: EventCtx) -> bool {
    let (e1, sug1, changed, value_changed) = a.command_effect(cmd);
    let ps = a.command_posts(cmd) + (if value_changed { seq![Posted::Changed(e1.text, outcome(b.validation_result))] } else { Seq::empty() });
    &&& b.edit_state() == e1
    &&& (value_changed ==> b.validation_refreshed(&a))
    &&& (!value_changed ==> b.same_validation(&a))
    &&& (!value_changed ==> b.suggestion@ == sug1)
    &&& (value_changed ==> b.suggestion_refreshed())
    &&& b.chrome == (if changed || value_changed { blink_restarted(a.chrome, now) } else { a.chrome })
    &&& b.pending_blur == a.pending_blur
    &&& config_same(a, b)
    &&& posts_appended(ca.messages@, cb.messages@, ca.node, ps)
    &&& cb.repaint == (ca.repaint || changed || value_changed)
    &&& cb.handled
    &&& ctx_rest_same(ca, cb)
}

/// Validating again keeps the state validated from the first state: the
/// classes other than the validity classes are still those it had.
pub proof fn lemma_refreshed_after<S: Suggester>(a: Input<S>, b: Input<S>, c: Input<S>)
    requires
        b.same_validation(&a) || b.validation_refreshed(&a),
        c.validation_refreshed(&b),
    ensures
        c.validation_refreshed(&a),
{
}

/// Posting `p` and then `q` posts `p + q`.
pub proof fn lemma_posts_chain(m0: Seq<MessageEvent>, m1: Seq<MessageEvent>, m2: Seq<MessageEvent>, sender: NodeId, p: Seq<Posted>, q: Seq<Posted>)
    requires
        posts_appended(m0, m1, sender, p),
        posts_appended(m1, m2, sender, q),
    ensures
        posts_appended(m0, m2, sender, p + q),
{
    assert(m2.take(m0.len() as int) =~= m0) by {
        assert(m2.take(m1.len() as int) == m1);
        assert forall|i: int| 0 <= i < m0.len() implies m2.take(m0.len() as int)[i] == m0[i] by {
            assert(m2[i] == m2.take(m1.len() as int)[i]);
            assert(m1[i] == m1.take(m0.len() as int)[i]);
        }
    }
    assert forall|i: int| 0 <= i < (p + q).len() implies posted_as(#[trigger] m2[m0.len() + i], sender, (p + q)[i]) by {
        if i < p.len() {
            assert(m2[m0.len() + i] == m2.take(m1.len() as int)[m0.len() + i]);
            assert(posted_as(m1[m0.len() + i], sender, p[i]));
        } else {
            let j = i - p.len();
            assert(posted_as(m2[m1.len() + j], sender, q[j]));
        }
    }
}

/// Whether a key is Tab with no modifier held.
pub open spec fn is_bare_tab(k: crate::event::KeyEvent) -> bool {
    k.code == KeyCode::Tab && k.modifiers == KeyModifiers::none_spec()
}

impl<S: Suggester> Input<S> {
    /// A bare Tab with a suggestion showing and the cursor at the end
    /// accepts the suggestion.
    pub open spec fn tab_accepts(&self, k: crate::event::KeyEvent) -> bool {
        is_bare_tab(k) && self.suggestion@.len() > 0 && self.cursor >= self.text@.len()
    }

    /// React to an event at `now`:
    /// - the app gaining or losing focus updates the blink and asks for a repaint;
    /// - a press on the input puts the cursor under the pointer (at 0 in an
    ///   empty input), collapses the selection, holds the pointer down,
    ///   restarts the blink, repaints and is handled;
    /// - a release lets the pointer go (repainting) where it was down;
    /// - a tick reports a pending blur and flips the cursor when due;
    /// - a key, while focused: a bare Tab accepts a showing suggestion with
    ///   the cursor at the end (reporting the change); otherwise the key's
    ///   editing command (see [`key_command`]) is applied.
    pub fn on_event(&mut self, event: &Event, now: u64, ctx: &mut EventCtx)
        requires
            old(self).wf(),
        ensures
            final(self).wf(),
            match *event {
                Event::AppFocus(active) => {
                    &&& *final(self) == Input { chrome: app_focus_set(old(self).chrome, active, now), ..*old(self) }
                    &&& *final(ctx) == EventCtx { repaint: true, ..*old(ctx) }
                },
                Event::MouseDown(m) => if m.target == NodeId(0) {
                    let pos = if old(self).text@.len() == 0 { 0 } else { old(self).position_under(m.x) };
                    &&& final(self).edit_state() == EditState::at(old(self).text@, pos)
                    &&& final(self).chrome == blink_restarted(InputChrome { mouse_down: true, ..old(self).chrome }, now)
                    &&& final(self).suggestion == old(self).suggestion
                    &&& final(self).pending_blur == old(self).pending_blur
                    &&& config_same(*old(self), *final(self))
                    &&& final(self).same_validation(old(self))
                    &&& *final(ctx) == EventCtx { repaint: true, handled: true, ..*old(ctx) }
                } else {
                    *final(self) == *old(self) && *final(ctx) == *old(ctx)
                },
                Event::MouseUp(_) => if old(self).chrome.mouse_down {
                    &&& *final(self) == Input { chrome: InputChrome { mouse_down: false, ..old(self).chrome }, ..*old(self) }
                    &&& *final(ctx) == EventCtx { repaint: true, ..*old(ctx) }
                } else {
                    *final(self) == *old(self) && *final(ctx) == *old(ctx)
                },
                Event::Tick => {
                    let (c1, flipped) = ticked(old(self).chrome, now);
                    let ps = if old(self).pending_blur { seq![Posted::Blurred(old(self).text@)] } else { Seq::<Posted>::empty() };
                    &&& *final(self) == Input { chrome: c1, pending_blur: false, ..*old(self) }
                    &&& posts_appended(old(ctx).messages@, final(ctx).messages@, old(ctx).node, ps)
                    &&& final(ctx).repaint == (old(ctx).repaint || flipped)
                    &&& final(ctx).handled == old(ctx).handled
                    &&& ctx_rest_same(*old(ctx), *final(ctx))
                },
                Event::Key(k) => if !old(self).chrome.focused {
                    *final(self) == *old(self) && *final(ctx) == *old(ctx)
                } else if old(self).tab_accepts(k) {
                    if value_allowed(old(self).max_length, old(self).restrict_pattern(), old(self).suggestion@) {
                        &&& final(self).edit_state() == EditState::at(old(self).suggestion@, old(self).suggestion@.len() as int)
                        &&& final(self).suggestion@.len() == 0
                        &&& final(self).chrome == blink_restarted(old(self).chrome, now)
                        &&& final(self).pending_blur == old(self).pending_blur
                        &&& config_same(*old(self), *final(self))
                        &&& final(self).validation_refreshed(old(self))
                        &&& posts_appended(old(ctx).messages@, final(ctx).messages@, old(ctx).node, seq![Posted::Changed(old(self).suggestion@, outcome(final(self).validation_result))])
                        &&& final(ctx).repaint
                        &&& final(ctx).handled
                        &&& ctx_rest_same(*old(ctx), *final(ctx))
                    } else {
                        &&& final(self).edit_state() == old(self).edit_state()
                        &&& final(self).suggestion@.len() == 0
                        &&& final(self).chrome == old(self).chrome
                        &&& final(self).pending_blur == old(self).pending_blur
                        &&& config_same(*old(self), *final(self))
                        &&& final(self).same_validation(old(self))
                        &&& *final(ctx) == *old(ctx)
                    }
                } else {
                    match key_command(k) {
                        None => *final(self) == *old(self) && *final(ctx) == *old(ctx),
                        Some(cmd) => command_applied(*old(self), *final(self), cmd, now, *old(ctx), *final(ctx)),
                    }
                },
                _ => *final(self) == *old(self) && *final(ctx) == *old(ctx),
            },
    {
        match event {
            Event::AppFocus(active) => {
                self.chrome.handle_app_focus(*active, now);
                ctx.request_repaint();
            },
            Event::MouseDown(m) => {
                if m.target == NodeId(0) {
                    if self.text.len() == 0 {
                        self.cursor = 0;
                    } else {
                        self.cursor = index_from_cell_x(&self.text, m.x);
                    }
                    self.selection = Selection::cursor(self.cursor);
                    self.chrome.set_mouse_down(true);
                    self.chrome.reset_blink(now);
                    ctx.request_repaint();
                    ctx.set_handled();
                }
            },
            Event::MouseUp(_) => {
                if self.chrome.mouse_down {
                    self.chrome.set_mouse_down(false);
                    ctx.request_repaint();
                }
            },
            Event::Tick => {
                if self.pending_blur {
                    self.pending_blur = false;
                    let value = string_of(&self.text);
                    Self::post(ctx, Message::InputBlurred { value }, Ghost(Posted::Blurred(self.text@)));
                } else {
                    assert(ctx.messages@.take(ctx.messages@.len() as int) =~= ctx.messages@);
                }
                if self.chrome.handle_tick(now) {
                    ctx.request_repaint();
                }
            },
            Event::Key(k) => {
                if !self.chrome.focused {
                    return;
                }
                if k.code == KeyCode::Tab && k.modifiers.is_none()
                    && self.suggestion.len() > 0 && self.cursor_at_end() {
                    if self.accept_suggestion() {
                        self.post_changed(ctx);
                        self.chrome.reset_blink(now);
                        ctx.request_repaint();
                        ctx.set_handled();
                    }
                    return;
                }
                match edit_command_from_key(k) {
                    Some(cmd) => self.apply_command(cmd, now, ctx),
                    None => {},
                }
            },
            _ => {},
        }
    }

    /// Take the clipboard's text delivered to this input (the null node):
    /// its first line is pasted as [`Input::insert_text_from_clipboard`]
    /// states; where something went in, the suggestion is refreshed, the
    /// change is reported, the blink restarts, and the message is handled
    /// with a repaint. Other messages are ignored.
    pub fn on_message(&mut self, message: &MessageEvent, now: u64, ctx: &mut EventCtx)
        requires
            old(self).wf(),
        ensures
            final(self).wf(),
            match message.message {
                Message::TextEditClipboardPaste { target, text } => if target != NodeId(0) {
                    *final(self) == *old(self) && *final(ctx) == *old(ctx)
                } else {
                    let chars = old(self).paste_chars(text@);
                    let e = old(self).edit_state().without_selection();
                    let fitted = old(self).paste_fitted(chars);
                    let inserted = chars.len() > 0 && fitted is Some && (old(self).restrict_pattern() matches Some(p)
                        ==> pattern_matches(p, spliced(e.text, e.cursor, e.cursor, fitted->0)));
                    &&& config_same(*old(self), *final(self))
                    &&& final(self).pending_blur == old(self).pending_blur
                    &&& (chars.len() == 0 ==> *final(self) == *old(self) && *final(ctx) == *old(ctx))
                    &&& (chars.len() > 0 && !inserted ==> {
                        &&& final(self).edit_state() == e
                        &&& final(self).suggestion == old(self).suggestion
                        &&& final(self).chrome == old(self).chrome
                        &&& final(self).same_validation(old(self))
                        &&& *final(ctx) == *old(ctx)
                    })
                    &&& (inserted ==> {
                        &&& final(self).edit_state() == e.with_inserted(fitted->0)
                        &&& final(self).suggestion_refreshed()
                        &&& final(self).validation_refreshed(old(self))
                        &&& final(self).chrome == blink_restarted(old(self).chrome, now)
                        &&& posts_appended(old(ctx).messages@, final(ctx).messages@, old(ctx).node, seq![Posted::Changed(final(self).text@, outcome(final(self).validation_result))])
                        &&& final(ctx).repaint
                        &&& final(ctx).handled
                        &&& ctx_rest_same(*old(ctx), *final(ctx))
                    })
                },
                _ => *final(self) == *old(self) && *final(ctx) == *old(ctx),
            },
    {
        match &message.message {
            Message::TextEditClipboardPaste { target, text } => {
                if *target != NodeId(0) {
                    return;
                }
                if self.insert_text_from_clipboard(text.as_str()) {
                    self.revalidate();
                    self.update_suggestion();
                    self.post_changed(ctx);
                    self.chrome.reset_blink(now);
                    ctx.request_repaint();
                    ctx.set_handled();
                }
            },
            _ => {},
        }
    }

    /// The action namespace of inputs.
    pub fn action_namespace(&self) -> (r: &'static str)
        ensures
            r@ == "input"@,
    {
        "input"
    }

    /// The input's one binding: Enter submits.
    pub fn bindings(&self) -> (b: Vec<BindingDecl>)
        ensures
            b@.len() == 1,
            b@[0].key@ == "enter"@,
            b@[0].action@ == "submit"@,
            b@[0].description@ == "Submit"@,
            b@[0].show,
    {
        let mut b: Vec<BindingDecl> = Vec::new();
        b.push(BindingDecl::new("enter", "submit", "Submit"));
        b
    }

    /// Run a named action: `submit` reports the value and is handled; any
    /// other name is not the input's.
    pub fn execute_action(&mut self, action: &ParsedAction, ctx: &mut EventCtx) -> (handled: bool)
        requires
            old(self).wf(),
        ensures
            *final(self) == *old(self),
            handled == (action.name@ == "submit"@),
            handled ==> {
                &&& posts_appended(old(ctx).messages@, final(ctx).messages@, old(ctx).node, seq![Posted::Submitted(old(self).text@)])
                &&& final(ctx).handled
                &&& final(ctx).repaint == old(ctx).repaint
                &&& ctx_rest_same(*old(ctx), *final(ctx))
            },
            !handled ==> *final(ctx) == *old(ctx),
    {
        if crate::text::text_eq(action.name.as_str(), "submit") {
            let value = string_of(&self.text);
            Self::post(ctx, Message::InputSubmitted { value }, Ghost(Posted::Submitted(self.text@)));
            ctx.set_handled();
            true
        } else {
            false
        }
    }
}

/// In a plain text input without limits and with nothing selected, typing
/// a character puts it at the cursor and changes the value.
pub proof fn law_typing_inserts_at_cursor<S: Suggester>(input: Input<S>, ch: char)
    requires
        input.wf(),
        input.input_type == InputType::Text,
        input.max_length is None,
        input.restrict is None,
        !input.has_selection(),
    ensures
        ({
            let (e1, _, changed, value_changed) = input.command_effect(EditCommand::InsertChar(ch));
            &&& e1.text == spliced(input.text@, input.cursor as int, input.cursor as int, seq![ch])
            &&& changed && value_changed
        }),
{
}

/// Selecting everything and then deleting leaves an empty value with the
/// cursor at 0.
pub proof fn law_select_all_then_delete_empties(text: Seq<char>)
    requires
        text.len() > 0,
    ensures
        ({
            let all = EditState { text, cursor: text.len() as int, sel_start: 0, sel_end: text.len() as int };
            &&& all.without_selection().text.len() == 0
            &&& all.without_selection().cursor == 0
        }),
{
    let all = EditState { text, cursor: text.len() as int, sel_start: 0, sel_end: text.len() as int };
    assert(all.without_selection().text =~= Seq::<char>::empty());
}

/// Cursor movements (left, home, end, select all, and right where no
/// suggestion is accepted) never change the value.
pub proof fn law_moves_keep_value<S: Suggester>(input: Input<S>, cmd: EditCommand)
    requires
        input.wf(),
        cmd matches EditCommand::MoveLeft { .. } || cmd matches EditCommand::MoveHome { .. }
            || cmd matches EditCommand::MoveEnd { .. } || cmd == EditCommand::SelectAll
            || (cmd matches EditCommand::MoveRight { .. } && input.suggestion@.len() == 0),
    ensures
        input.command_effect(cmd).0.text == input.text@,
        !input.command_effect(cmd).3,
        input.command_effect(cmd).1 == input.suggestion@,
{
}

/// What a cut reports is exactly the text it removes: the value after a
/// cut is the value with the reported text taken out at the selection.
pub proof fn law_cut_removes_what_it_reports<S: Suggester>(input: Input<S>)
    requires
        input.wf(),
        input.has_selection(),
    ensures
        ({
            let e = input.edit_state();
            let (e1, _, _, value_changed) = input.command_effect(EditCommand::Cut);
            &&& input.command_posts(EditCommand::Cut) == seq![Posted::CopyRequested(e.text.subrange(e.sel_lo(), e.sel_hi()), true)]
            &&& e1.text == e.text.subrange(0, e.sel_lo()) + e.text.subrange(e.sel_hi(), e.text.len() as int)
            &&& value_changed
        }),
{
    let e = input.edit_state();
    assert(spliced(e.text, e.sel_lo(), e.sel_hi(), Seq::empty()) =~= e.text.subrange(0, e.sel_lo()) + e.text.subrange(e.sel_hi(), e.text.len() as int));
}

/// A suggestion equal to (or no longer than) the typed value is never kept:
/// there is no ghost text to show.
pub proof fn law_exact_match_suggests_nothing(value: Seq<char>, proposed: Seq<char>)
    requires
        byte_len(proposed) <= byte_len(value),
    ensures
        kept_suggestion(value, Some(proposed)).len() == 0,
{
}

impl<S: Suggester> Input<S> {
    /// Switch the validity classes: `-valid` on exactly when `valid_on`,
    /// `-invalid` exactly when `invalid_on`, every other class kept.
    fn set_validity_classes(&mut self, valid_on: bool, invalid_on: bool)
        ensures
            texts(final(self).classes@).contains(valid_class()) == valid_on,
            texts(final(self).classes@).contains(invalid_class()) == invalid_on,
            forall|c: Seq<char>| c != valid_class() && c != invalid_class()
                ==> (#[trigger] texts(final(self).classes@).contains(c) <==> texts(old(self).classes@).contains(c)),
            *final(self) == (Input { classes: final(self).classes, ..*old(self) }),
    {
        proof {
            reveal_strlit("-valid");
            reveal_strlit("-invalid");
            assert("-valid"@ =~= valid_class());
            assert("-invalid"@ =~= invalid_class());
        }
        let ghost c0 = texts(self.classes@);
        set_class_flag(&mut self.classes, "-valid", valid_on);
        let ghost c1 = texts(self.classes@);
        set_class_flag(&mut self.classes, "-invalid", invalid_on);
        proof {
            let c2 = texts(self.classes@);
            lemma_class_flag_contains(c0, valid_class(), valid_on, valid_class());
            lemma_class_flag_contains(c1, invalid_class(), invalid_on, valid_class());
            lemma_class_flag_contains(c1, invalid_class(), invalid_on, invalid_class());
            assert forall|c: Seq<char>| c != valid_class() && c != invalid_class()
                implies (#[trigger] c2.contains(c) <==> c0.contains(c)) by {
                lemma_class_flag_contains(c0, valid_class(), valid_on, c);
                lemma_class_flag_contains(c1, invalid_class(), invalid_on, c);
            }
        }
    }

    /// Validate the value with every validator and combine the outcomes
    /// (see [`combined`]); set `-valid` or `-invalid` for a non-blank value.
    /// The validators are the user's, so their verdicts are not known here:
    /// the state ends up as [`Input::validation_refreshed`] states.
    pub fn revalidate(&mut self)
        requires
            old(self).wf(),
        ensures
            final(self).wf(),
            final(self).same_config(old(self)),
            final(self).edit_state() == old(self).edit_state(),
            final(self).text == old(self).text,
            final(self).suggestion == old(self).suggestion,
            final(self).validation_refreshed(old(self)),
    {
        if self.validators.len() == 0 {
            self.validation_result = ValidationResult::success();
            assert(texts(self.validation_result.failure_descriptions@).len() == self.validation_result.failure_descriptions@.len());
            self.set_validity_classes(false, false);
            return;
        }
        let value = string_of(&self.text);
        let mut results: Vec<ValidationResult> = Vec::new();
        let mut i: usize = 0;
        while i < self.validators.len()
            invariant
                i <= self.validators@.len(),
            decreases self.validators@.len() - i,
        {
            let r = self.validators[i].validate(value.as_str());
            results.push(r);
            i = i + 1;
        }
        let r = combine_results(&results);
        let valid = r.is_valid;
        proof {
            assert(valid <==> r.failure_descriptions@.len() == 0) by {
                assert(texts(r.failure_descriptions@).len() == r.failure_descriptions@.len());
            }
        }
        self.validation_result = r;
        if blank(value.as_str()) {
            self.set_validity_classes(false, false);
        } else if valid {
            self.set_validity_classes(true, false);
        } else {
            self.set_validity_classes(false, true);
        }
    }

    /// Validate with `validators` from now on; the value is validated at once.
    pub fn with_validators(self, validators: Vec<Box<dyn Validator>>) -> (i: Input<S>)
        requires
            self.wf(),
        ensures
            i.wf(),
            i.validators == validators,
            i.edit_state() == self.edit_state(),
            i.suggestion == self.suggestion,
            i.placeholder == self.placeholder,
            i.input_type == self.input_type,
            i.password == self.password,
            i.restrict == self.restrict,
            i.max_length == self.max_length,
            i.chrome == self.chrome,
            i.suggester == self.suggester,
            i.pending_blur == self.pending_blur,
            i.validation_refreshed(&self),
    {
        let mut i = self;
        i.validators = validators;
        let ghost mid = i;
        i.revalidate();
        proof {
            assert(mid.classes == self.classes);
        }
        i
    }

    /// How the value last validated.
    pub fn validation_result(&self) -> (r: ValidationResult)
        ensures
            outcome(r) == outcome(self.validation_result),
    {
        self.validation_result.duplicate()
    }

    /// Add a CSS class.
    pub fn class(self, class: &str) -> (i: Input<S>)
        ensures
            texts(i.classes@) == crate::widget_core::class_flag_set(texts(self.classes@), class@, true),
            i == (Input { classes: i.classes, ..self }),
    {
        let mut i = self;
        set_class_flag(&mut i.classes, class, true);
        i
    }

    /// Switch a CSS class on or off.
    pub fn set_class(&mut self, class: &str, enabled: bool)
        ensures
            texts(final(self).classes@) == crate::widget_core::class_flag_set(texts(old(self).classes@), class@, enabled),
            *final(self) == (Input { classes: final(self).classes, ..*old(self) }),
    {
        set_class_flag(&mut self.classes, class, enabled);
    }

    /// The input's CSS classes.
    pub fn style_classes(&self) -> (r: Vec<String>)
        ensures
            texts(r@) == texts(self.classes@),
    {
        let mut r: Vec<String> = Vec::new();
        let mut i: usize = 0;
        while i < self.classes.len()
            invariant
                i <= self.classes@.len(),
                texts(r@) == texts(self.classes@).take(i as int),
            decreases self.classes@.len() - i,
        {
            let ghost before = r@;
            let t = text_of(self.classes[i].as_str());
            r.push(t);
            assert(texts(r@) =~= texts(before).push(t@));
            assert(texts(self.classes@).take(i as int + 1) =~= texts(self.classes@).take(i as int).push(t@));
            i = i + 1;
        }
        assert(texts(self.classes@).take(i as int) =~= texts(self.classes@));
        r
    }
}

} // verus!
