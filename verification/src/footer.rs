//! The footer: a one-line strip of key bindings, with a command-palette hint
//! docked at the right. Its layout decides which binding a click or hover at
//! a column hits, and its focus tracking defers binding updates while the
//! application is in the background.

use vstd::prelude::*;
use crate::cells::{cell_len, cell_width};
use crate::event::{
    BindingHint, Event, EventCtx, Message, MessageEvent, ReactiveChange, ReactiveCtx, ReactiveField, ReactiveValue,
};
use crate::style::Color;
use crate::text::{blank, is_blank, opt_text_copy, space_string, spaces, text_eq, text_of};
use crate::widget_core::{
    at_least_one, class_flag_set, fixed_height, fixed_height_from_constraints, set_class_flag, texts,
    WidgetStyles,
};

verus! {

/// An optional text, by its characters.
pub open spec fn opt_text(o: Option<String>) -> Option<Seq<char>> {
    match o {
        Some(s) => Some(s@),
        None => None,
    }
}

/// Whether two optional texts hold the same characters.
pub fn opt_text_eq(a: &Option<String>, b: &Option<String>) -> (r: bool)
    ensures
        r == (opt_text(*a) == opt_text(*b)),
{
    match (a, b) {
        (Some(x), Some(y)) => text_eq(x.as_str(), y.as_str()),
        (None, None) => true,
        _ => false,
    }
}

/// One binding shown in the footer.
#[derive(Debug, Clone)]
pub struct FooterBinding {
    /// Key as displayed (e.g. `"^p"`).
    pub key: String,
    pub description: String,
    pub tooltip: Option<String>,
    pub group: Option<String>,
    /// Raw key spec (e.g. `"ctrl+p"`) that a click on the binding simulates.
    pub action_key: Option<String>,
    /// `Some(true)` enabled, `Some(false)` hidden, `None` shown dimmed.
    pub enabled: Option<bool>,
}

/// Two bindings agree on every field, texts compared by their characters.
pub open spec fn same_binding(a: FooterBinding, b: FooterBinding) -> bool {
    &&& a.key@ == b.key@
    &&& a.description@ == b.description@
    &&& opt_text(a.tooltip) == opt_text(b.tooltip)
    &&& opt_text(a.group) == opt_text(b.group)
    &&& opt_text(a.action_key) == opt_text(b.action_key)
    &&& a.enabled == b.enabled
}

/// Two binding lists agree entry by entry.
pub open spec fn same_bindings(a: Seq<FooterBinding>, b: Seq<FooterBinding>) -> bool {
    &&& a.len() == b.len()
    &&& forall|i: int| 0 <= i < a.len() ==> same_binding(#[trigger] a[i], b[i])
}

/// The group name that docks a binding at the right as the command-palette hint.
pub open spec fn palette_group() -> Seq<char> {
    "command_palette"@
}

/// A binding of the command-palette group.
pub open spec fn is_palette(b: FooterBinding) -> bool {
    opt_text(b.group) == Some(palette_group())
}

/// The predicate "not of the command-palette group".
pub open spec fn not_palette() -> spec_fn(FooterBinding) -> bool {
    |b: FooterBinding| !is_palette(b)
}

/// The bindings laid out from the left: all but the command-palette ones, in order.
pub open spec fn left_bindings(bs: Seq<FooterBinding>) -> Seq<FooterBinding> {
    bs.filter(not_palette())
}

impl FooterBinding {
    /// An enabled binding with no tooltip, group or action key.
    pub fn new(key: &str, description: &str) -> (b: FooterBinding)
        ensures
            b.key@ == key@,
            b.description@ == description@,
            b.tooltip is None,
            b.group is None,
            b.action_key is None,
            b.enabled == Some(true),
    {
        FooterBinding {
            key: text_of(key),
            description: text_of(description),
            tooltip: None,
            group: None,
            action_key: None,
            enabled: Some(true),
        }
    }

    pub fn with_group(self, group: &str) -> (b: FooterBinding)
        ensures
            b == (FooterBinding { group: b.group, ..self }),
            opt_text(b.group) == Some(group@),
    {
        FooterBinding { group: Some(text_of(group)), ..self }
    }

    pub fn with_action_key(self, action_key: &str) -> (b: FooterBinding)
        ensures
            b == (FooterBinding { action_key: b.action_key, ..self }),
            opt_text(b.action_key) == Some(action_key@),
    {
        FooterBinding { action_key: Some(text_of(action_key)), ..self }
    }

    pub fn with_tooltip(self, tooltip: &str) -> (b: FooterBinding)
        ensures
            b == (FooterBinding { tooltip: b.tooltip, ..self }),
            opt_text(b.tooltip) == Some(tooltip@),
    {
        FooterBinding { tooltip: Some(text_of(tooltip)), ..self }
    }

    /// A field-by-field copy.
    pub fn duplicate(&self) -> (b: FooterBinding)
        ensures
            b == *self,
    {
        FooterBinding {
            key: self.key.clone(),
            description: self.description.clone(),
            tooltip: opt_text_copy(&self.tooltip),
            group: opt_text_copy(&self.group),
            action_key: opt_text_copy(&self.action_key),
            enabled: self.enabled,
        }
    }

    /// Whether the binding belongs to the command-palette group.
    pub fn is_command_palette(&self) -> (r: bool)
        ensures
            r == is_palette(*self),
    {
        match &self.group {
            Some(g) => text_eq(g.as_str(), "command_palette"),
            None => false,
        }
    }

    /// Whether two bindings agree on every field.
    pub fn same_as(&self, other: &FooterBinding) -> (r: bool)
        ensures
            r == same_binding(*self, *other),
    {
        text_eq(self.key.as_str(), other.key.as_str()) && text_eq(
            self.description.as_str(),
            other.description.as_str(),
        ) && opt_text_eq(&self.tooltip, &other.tooltip) && opt_text_eq(&self.group, &other.group)
            && opt_text_eq(&self.action_key, &other.action_key) && self.enabled == other.enabled
    }
}

/// Whether two binding lists agree entry by entry.
pub fn bindings_same(a: &Vec<FooterBinding>, b: &Vec<FooterBinding>) -> (r: bool)
    ensures
        r == same_bindings(a@, b@),
{
    if a.len() != b.len() {
        return false;
    }
    let mut i: usize = 0;
    while i < a.len()
        invariant
            a@.len() == b@.len(),
            i <= a@.len(),
            forall|j: int| 0 <= j < i ==> same_binding(#[trigger] a@[j], b@[j]),
        decreases a@.len() - i,
    {
        if !a[i].same_as(&b[i]) {
            return false;
        }
        i = i + 1;
    }
    true
}

/// A copy of a binding list.
pub fn copy_bindings(bs: &Vec<FooterBinding>) -> (r: Vec<FooterBinding>)
    ensures
        r@ == bs@,
{
    let mut out: Vec<FooterBinding> = Vec::new();
    let mut i: usize = 0;
    while i < bs.len()
        invariant
            i <= bs@.len(),
            out@ == bs@.subrange(0, i as int),
        decreases bs@.len() - i,
    {
        out.push(bs[i].duplicate());
        assert(out@ =~= bs@.subrange(0, i as int + 1));
        i = i + 1;
    }
    out
}

// ── Rendering model of a single key ─────────────────────────────────────

/// Cells of padding left and right of the key glyph under the default footer
/// styles: one on each side, none in compact mode, and none on the left for
/// the command-palette hint (its separator meets the key glyph).
pub open spec fn key_padding(compact: bool, command_palette: bool) -> (usize, usize) {
    if compact {
        (0, 0)
    } else {
        (if command_palette { 0 } else { 1 }, 1)
    }
}

/// Cells of padding left and right of the description: one on the right, or
/// one on the left in compact mode.
pub open spec fn description_padding(compact: bool) -> (usize, usize) {
    if compact {
        (1, 0)
    } else {
        (0, 1)
    }
}

/// The key span: the bare key when there is no description, else the padded key.
pub open spec fn key_span(key: Seq<char>, description: Seq<char>, compact: bool, command_palette: bool) -> Seq<char> {
    if description.len() == 0 {
        key
    } else {
        spaces(key_padding(compact, command_palette).0 as nat) + key + spaces(
            key_padding(compact, command_palette).1 as nat,
        )
    }
}

/// The description span: empty without a description, else the padded description.
pub open spec fn description_span(description: Seq<char>, compact: bool) -> Seq<char> {
    if description.len() == 0 {
        seq![]
    } else {
        spaces(description_padding(compact).0 as nat) + description + spaces(
            description_padding(compact).1 as nat,
        )
    }
}

/// Cells a rendered key occupies: the widths of its two spans.
pub open spec fn key_cells(key: Seq<char>, description: Seq<char>, compact: bool, command_palette: bool) -> usize {
    cell_width(key_span(key, description, compact, command_palette)).saturating_add(
        cell_width(description_span(description, compact)),
    )
}

/// A single key binding as the footer renders it.
#[derive(Debug, Clone)]
pub struct FooterKey {
    pub key: String,
    pub description: String,
    pub compact: bool,
    pub hovered: bool,
    pub disabled: bool,
    /// Background of the row the key sits on.
    pub parent_bg: Color,
    pub classes: Vec<String>,
    pub styles: WidgetStyles,
}

/// Background assumed under a footer key until told otherwise.
pub open spec fn default_background() -> Color {
    Color { r: 0, g: 0, b: 0 }
}

impl FooterKey {
    pub fn new(key: &str, description: &str) -> (k: FooterKey)
        ensures
            k.key@ == key@,
            k.description@ == description@,
            !k.compact,
            !k.hovered,
            !k.disabled,
            k.parent_bg == default_background(),
            k.classes@.len() == 0,
            k.styles.style.is_unset(),
    {
        FooterKey {
            key: text_of(key),
            description: text_of(description),
            compact: false,
            hovered: false,
            disabled: false,
            parent_bg: Color::rgb(0, 0, 0),
            classes: Vec::new(),
            styles: WidgetStyles::new(),
        }
    }

    pub fn with_compact(self, compact: bool) -> (k: FooterKey)
        ensures
            k == (FooterKey { compact, classes: k.classes, ..self }),
            texts(k.classes@) == class_flag_set(texts(self.classes@), "-compact"@, compact),
    {
        let mut k = self;
        k.compact = compact;
        set_class_flag(&mut k.classes, "-compact", compact);
        k
    }

    pub fn with_grouped(self, grouped: bool) -> (k: FooterKey)
        ensures
            k == (FooterKey { classes: k.classes, ..self }),
            texts(k.classes@) == class_flag_set(texts(self.classes@), "-grouped"@, grouped),
    {
        let mut k = self;
        set_class_flag(&mut k.classes, "-grouped", grouped);
        k
    }

    pub fn with_command_palette(self, command_palette: bool) -> (k: FooterKey)
        ensures
            k == (FooterKey { classes: k.classes, ..self }),
            texts(k.classes@) == class_flag_set(texts(self.classes@), "-command-palette"@, command_palette),
    {
        let mut k = self;
        set_class_flag(&mut k.classes, "-command-palette", command_palette);
        k
    }

    pub fn with_hovered(self, hovered: bool) -> (k: FooterKey)
        ensures
            k == (FooterKey { hovered, ..self }),
    {
        FooterKey { hovered, ..self }
    }

    pub fn with_disabled(self, disabled: bool) -> (k: FooterKey)
        ensures
            k == (FooterKey { disabled, classes: k.classes, ..self }),
            texts(k.classes@) == class_flag_set(texts(self.classes@), "-disabled"@, disabled),
    {
        let mut k = self;
        k.disabled = disabled;
        set_class_flag(&mut k.classes, "-disabled", disabled);
        k
    }

    pub fn with_parent_bg(self, parent_bg: Color) -> (k: FooterKey)
        ensures
            k == (FooterKey { parent_bg, ..self }),
    {
        FooterKey { parent_bg, ..self }
    }

    /// Drop the description, so only the key glyph renders.
    pub fn key_only(self) -> (k: FooterKey)
        ensures
            k == (FooterKey { description: k.description, ..self }),
            k.description@.len() == 0,
    {
        FooterKey { description: String::new(), ..self }
    }

    /// Whether the key carries the command-palette class.
    pub fn is_command_palette(&self) -> (r: bool)
        ensures
            r == texts(self.classes@).contains("-command-palette"@),
    {
        let mut i: usize = 0;
        while i < self.classes.len()
            invariant
                i <= self.classes@.len(),
                forall|j: int| 0 <= j < i ==> self.classes@[j]@ != "-command-palette"@,
            decreases self.classes@.len() - i,
        {
            if text_eq(self.classes[i].as_str(), "-command-palette") {
                assert(texts(self.classes@)[i as int] == "-command-palette"@);
                return true;
            }
            i = i + 1;
        }
        assert(!texts(self.classes@).contains("-command-palette"@)) by {
            if texts(self.classes@).contains("-command-palette"@) {
                let j = choose|j: int|
                    0 <= j < texts(self.classes@).len() && texts(self.classes@)[j] == "-command-palette"@;
                assert(self.classes@[j]@ == "-command-palette"@);
            }
        }
        false
    }

    /// The key span and the description span, as rendered.
    pub fn render_spans(&self) -> (spans: (String, String))
        ensures
            spans.0@ == key_span(
                self.key@,
                self.description@,
                self.compact,
                texts(self.classes@).contains("-command-palette"@),
            ),
            spans.1@ == description_span(self.description@, self.compact),
    {
        if self.description.unicode_len() == 0 {
            return (self.key.clone(), String::new());
        }
        let palette = self.is_command_palette();
        let (kl, kr): (usize, usize) = if self.compact {
            (0, 0)
        } else {
            (if palette { 0 } else { 1 }, 1)
        };
        let (dl, dr): (usize, usize) = if self.compact {
            (1, 0)
        } else {
            (0, 1)
        };
        let mut key_text = space_string(kl);
        key_text.append(self.key.as_str());
        let right = space_string(kr);
        key_text.append(right.as_str());
        let mut description_text = space_string(dl);
        description_text.append(self.description.as_str());
        let right = space_string(dr);
        description_text.append(right.as_str());
        (key_text, description_text)
    }

    /// Cells the rendered key occupies.
    pub fn render_width(&self) -> (w: usize)
        ensures
            w == key_cells(
                self.key@,
                self.description@,
                self.compact,
                texts(self.classes@).contains("-command-palette"@),
            ),
    {
        let (k, d) = self.render_spans();
        cell_len(k.as_str()).saturating_add(cell_len(d.as_str()))
    }
}

/// The text a group label renders: a space, then the label.
pub open spec fn label_span(text: Seq<char>) -> Seq<char> {
    seq![' '] + text
}

/// The label closing a group of keys.
#[derive(Debug, Clone)]
pub struct FooterLabel {
    pub text: String,
    pub classes: Vec<String>,
    pub styles: WidgetStyles,
}

impl FooterLabel {
    pub fn new(text: &str) -> (l: FooterLabel)
        ensures
            l.text@ == text@,
            l.classes@.len() == 0,
            l.styles.style.is_unset(),
    {
        FooterLabel { text: text_of(text), classes: Vec::new(), styles: WidgetStyles::new() }
    }

    /// The rendered text.
    pub fn render_text(&self) -> (t: String)
        ensures
            t@ == label_span(self.text@),
    {
        let mut t = text_of(" ");
        t.append(self.text.as_str());
        proof {
            reveal_strlit(" ");
        }
        assert(t@ =~= label_span(self.text@));
        t
    }

    /// Cells the rendered label occupies.
    pub fn render_width(&self) -> (w: usize)
        ensures
            w == cell_width(label_span(self.text@)),
    {
        let t = self.render_text();
        cell_len(t.as_str())
    }
}

// ── Footer layout ───────────────────────────────────────────────────────

/// What the pointer hovers in the footer.
#[derive(Debug, Clone, Copy, PartialEq, Eq, Structural)]
pub enum HoveredFooterItem {
    /// A left binding, by its index among the left bindings.
    Binding(usize),
    /// The command-palette hint.
    CommandPalette,
}

/// The cells `[start, end)` a left binding occupies, and its index among the left bindings.
#[derive(Debug, Clone, Copy, PartialEq, Eq, Structural)]
pub struct BindingRegion {
    pub start: usize,
    pub end: usize,
    pub index: usize,
}

/// Two bindings sit in the same named group.
pub open spec fn same_group(a: FooterBinding, b: FooterBinding) -> bool {
    a.group is Some && opt_text(a.group) == opt_text(b.group)
}

/// The left binding at `j` belongs to a run of two or more consecutive bindings of
/// one group, which renders as keys only followed by the group's label.
pub open spec fn grouped_at(l: Seq<FooterBinding>, j: int) -> bool {
    ||| (j > 0 && same_group(l[j], l[j - 1]))
    ||| (j + 1 < l.len() && same_group(l[j], l[j + 1]))
}

/// The left binding at `j` is the last of such a run, so the group label follows it.
pub open spec fn closes_group_at(l: Seq<FooterBinding>, j: int) -> bool {
    grouped_at(l, j) && !(j + 1 < l.len() && same_group(l[j], l[j + 1]))
}

/// Cells between two neighbouring keys: one in compact mode, none otherwise.
pub open spec fn sep_width(compact: bool) -> usize {
    if compact {
        1
    } else {
        0
    }
}

/// Cells the left binding at `j` occupies: its key alone inside a group,
/// key and description otherwise.
pub open spec fn slot_width(l: Seq<FooterBinding>, j: int, compact: bool) -> usize {
    if grouped_at(l, j) {
        key_cells(l[j].key@, seq![], compact, false)
    } else {
        key_cells(l[j].key@, l[j].description@, compact, false)
    }
}

/// Cells of the group label after the left binding at `j` (none unless it closes a group).
pub open spec fn closing_width(l: Seq<FooterBinding>, j: int) -> usize {
    if closes_group_at(l, j) {
        cell_width(label_span(l[j].group->0@))
    } else {
        0
    }
}

/// The column after the first `k` left bindings (and any labels they close).
pub open spec fn layout_pos(l: Seq<FooterBinding>, compact: bool, k: nat) -> usize
    decreases k,
{
    if k == 0 {
        0
    } else {
        let j = (k - 1) as nat;
        let start: usize = if j == 0 {
            0
        } else {
            layout_pos(l, compact, j).saturating_add(sep_width(compact))
        };
        start.saturating_add(slot_width(l, j as int, compact)).saturating_add(closing_width(l, j as int))
    }
}

/// The column the left binding at `j` starts at.
pub open spec fn slot_start(l: Seq<FooterBinding>, compact: bool, j: nat) -> usize {
    if j == 0 {
        0
    } else {
        layout_pos(l, compact, j).saturating_add(sep_width(compact))
    }
}

/// The hit regions of the first `k` left bindings; a binding of no width has none.
pub open spec fn layout_regions(l: Seq<FooterBinding>, compact: bool, k: nat) -> Seq<BindingRegion>
    decreases k,
{
    if k == 0 {
        seq![]
    } else {
        let j = (k - 1) as nat;
        let prev = layout_regions(l, compact, j);
        let w = slot_width(l, j as int, compact);
        let s = slot_start(l, compact, j);
        if w > 0 {
            prev.push(BindingRegion { start: s, end: s.saturating_add(w), index: j as usize })
        } else {
            prev
        }
    }
}

/// The binding index of the first region containing column `x`.
pub open spec fn first_hit(rs: Seq<BindingRegion>, x: int) -> Option<usize>
    decreases rs.len(),
{
    if rs.len() == 0 {
        None
    } else if rs[0].start <= x < rs[0].end {
        Some(rs[0].index)
    } else {
        first_hit(rs.drop_first(), x)
    }
}

/// The cells of the first region of binding `index`.
pub open spec fn region_of(rs: Seq<BindingRegion>, index: usize) -> Option<(usize, usize)>
    decreases rs.len(),
{
    if rs.len() == 0 {
        None
    } else if rs[0].index == index {
        Some((rs[0].start, rs[0].end))
    } else {
        region_of(rs.drop_first(), index)
    }
}

/// The first command-palette binding.
pub open spec fn palette_binding(bs: Seq<FooterBinding>) -> Option<FooterBinding>
    decreases bs.len(),
{
    if bs.len() == 0 {
        None
    } else if is_palette(bs[0]) {
        Some(bs[0])
    } else {
        palette_binding(bs.drop_first())
    }
}

/// The separator drawn before the command-palette hint.
pub open spec fn palette_separator() -> Seq<char> {
    "\u{258f}"@
}

/// Whether two left bindings sit in the same named group.
fn same_group_exec(a: &FooterBinding, b: &FooterBinding) -> (r: bool)
    ensures
        r == same_group(*a, *b),
{
    match &a.group {
        Some(_) => opt_text_eq(&a.group, &b.group),
        None => false,
    }
}

/// Whether the binding at `j` belongs to a group run.
fn grouped_at_exec(l: &Vec<FooterBinding>, j: usize) -> (r: bool)
    requires
        j < l@.len(),
    ensures
        r == grouped_at(l@, j as int),
{
    (j > 0 && same_group_exec(&l[j], &l[j - 1])) || (j < l.len() - 1 && same_group_exec(&l[j], &l[j + 1]))
}

/// Whether the binding at `j` closes a group run.
fn closes_group_exec(l: &Vec<FooterBinding>, j: usize) -> (r: bool)
    requires
        j < l@.len(),
    ensures
        r == closes_group_at(l@, j as int),
{
    grouped_at_exec(l, j) && !(j < l.len() - 1 && same_group_exec(&l[j], &l[j + 1]))
}

/// The footer widget.
#[derive(Debug, Clone)]
pub struct Footer {
    pub bindings: Vec<FooterBinding>,
    pub compact: bool,
    pub hovered_item: Option<HoveredFooterItem>,
    /// Width of the last layout, at least 1.
    pub layout_width: usize,
    pub app_focused: bool,
    /// Bindings that arrived while the application was unfocused.
    pub deferred_bindings: Option<Vec<FooterBinding>>,
    pub classes: Vec<String>,
    pub styles: WidgetStyles,
}

impl Footer {
    /// No bindings, not compact, focused, laid out one cell wide.
    pub fn new() -> (f: Footer)
        ensures
            f.bindings@.len() == 0,
            !f.compact,
            f.hovered_item is None,
            f.layout_width == 1,
            f.app_focused,
            f.deferred_bindings is None,
            f.classes@.len() == 0,
            f.styles.style.is_unset(),
    {
        Footer {
            bindings: Vec::new(),
            compact: false,
            hovered_item: None,
            layout_width: 1,
            app_focused: true,
            deferred_bindings: None,
            classes: Vec::new(),
            styles: WidgetStyles::new(),
        }
    }

    /// Append a binding.
    pub fn with_binding(self, key: &str, description: &str) -> (f: Footer)
        ensures
            f == (Footer { bindings: f.bindings, ..self }),
            f.bindings@.len() == self.bindings@.len() + 1,
            f.bindings@.drop_last() == self.bindings@,
            f.bindings@.last().key@ == key@,
            f.bindings@.last().description@ == description@,
            f.bindings@.last().tooltip is None,
            f.bindings@.last().group is None,
            f.bindings@.last().action_key is None,
            f.bindings@.last().enabled == Some(true),
    {
        let mut f = self;
        f.bindings.push(FooterBinding::new(key, description));
        assert(f.bindings@.drop_last() =~= self.bindings@);
        f
    }

    pub fn set_bindings(&mut self, bindings: Vec<FooterBinding>)
        ensures
            *final(self) == (Footer { bindings, ..*old(self) }),
    {
        self.bindings = bindings;
    }

    pub fn clear_bindings(&mut self)
        ensures
            final(self).bindings@.len() == 0,
            *final(self) == (Footer { bindings: final(self).bindings, ..*old(self) }),
    {
        self.bindings = Vec::new();
    }

    /// Builder form of the compact flag; also switches the `-compact` class.
    pub fn compact(self, compact: bool) -> (f: Footer)
        ensures
            f == (Footer { compact, classes: f.classes, ..self }),
            texts(f.classes@) == class_flag_set(texts(self.classes@), "-compact"@, compact),
    {
        let mut f = self;
        f.compact = compact;
        set_class_flag(&mut f.classes, "-compact", compact);
        f
    }

    pub fn is_compact(&self) -> (r: bool)
        ensures
            r == self.compact,
    {
        self.compact
    }

    /// Reactive setter: a change of the flag switches the class and is recorded as
    /// a layout-affecting change; setting the current value does nothing.
    pub fn set_compact(&mut self, value: bool, ctx: &mut ReactiveCtx)
        ensures
            old(self).compact == value ==> *final(self) == *old(self) && *final(ctx) == *old(ctx),
            old(self).compact != value ==> {
                &&& *final(self) == (Footer { compact: value, classes: final(self).classes, ..*old(self) })
                &&& texts(final(self).classes@) == class_flag_set(texts(old(self).classes@), "-compact"@, value)
                &&& final(ctx).node == old(ctx).node
                &&& final(ctx).changes@ == old(ctx).changes@.push(
                    ReactiveChange {
                        field: ReactiveField::Compact,
                        layout: true,
                        previous: ReactiveValue::Flag(old(self).compact),
                        current: ReactiveValue::Flag(value),
                    },
                )
            },
    {
        if self.compact != value {
            self.compact = value;
            set_class_flag(&mut self.classes, "-compact", value);
            ctx.record_change(ReactiveField::Compact, true, ReactiveValue::Flag(!value), ReactiveValue::Flag(value));
        }
    }

    /// Watcher of `compact`: keeps the `-compact` class in step with the flag.
    fn watch_compact(&mut self)
        ensures
            *final(self) == (Footer { classes: final(self).classes, ..*old(self) }),
            texts(final(self).classes@) == class_flag_set(texts(old(self).classes@), "-compact"@, old(self).compact),
    {
        let c = self.compact;
        set_class_flag(&mut self.classes, "-compact", c);
    }

    /// Run the watchers of recorded changes, in order.
    pub fn reactive_dispatch(&mut self, changes: &Vec<ReactiveChange>)
        ensures
            *final(self) == (Footer { classes: final(self).classes, ..*old(self) }),
            (forall|i: int| 0 <= i < changes@.len() ==> (#[trigger] changes@[i]).field != ReactiveField::Compact)
                ==> final(self).classes == old(self).classes,
            (exists|i: int| 0 <= i < changes@.len() && (#[trigger] changes@[i]).field == ReactiveField::Compact)
                ==> texts(final(self).classes@) == class_flag_set(texts(old(self).classes@), "-compact"@, old(self).compact),
    {
        let mut i: usize = 0;
        let ghost mut seen = false;
        while i < changes.len()
            invariant
                i <= changes@.len(),
                *self == (Footer { classes: self.classes, ..*old(self) }),
                seen == (exists|j: int| 0 <= j < i && (#[trigger] changes@[j]).field == ReactiveField::Compact),
                !seen ==> self.classes == old(self).classes,
                seen ==> texts(self.classes@) == class_flag_set(texts(old(self).classes@), "-compact"@, old(self).compact),
            decreases changes@.len() - i,
        {
            if changes[i].field == ReactiveField::Compact {
                proof {
                    crate::widget_core::lemma_class_flag_idempotent(texts(old(self).classes@), "-compact"@, old(self).compact);
                }
                self.watch_compact();
                proof {
                    seen = true;
                }
            }
            i = i + 1;
        }
    }

    /// The left bindings, as a spec value.
    pub open spec fn left(&self) -> Seq<FooterBinding> {
        left_bindings(self.bindings@)
    }

    /// The hit regions of the left bindings.
    pub open spec fn regions(&self) -> Seq<BindingRegion> {
        layout_regions(self.left(), self.compact, self.left().len())
    }

    /// Cells the left bindings occupy, labels and separators included.
    pub open spec fn left_width(&self) -> usize {
        layout_pos(self.left(), self.compact, self.left().len())
    }

    /// The bindings laid out from the left: all but the command-palette ones.
    fn left_vec(&self) -> (l: Vec<FooterBinding>)
        ensures
            l@ == self.left(),
    {
        let mut out: Vec<FooterBinding> = Vec::new();
        let mut i: usize = 0;
        while i < self.bindings.len()
            invariant
                i <= self.bindings@.len(),
                out@ == self.bindings@.subrange(0, i as int).filter(not_palette()),
            decreases self.bindings@.len() - i,
        {
            proof {
                let pre = self.bindings@.subrange(0, i as int);
                assert(self.bindings@.subrange(0, i as int + 1) =~= pre.push(self.bindings@[i as int]));
                pre.lemma_filter_push(self.bindings@[i as int], not_palette());
            }
            if !self.bindings[i].is_command_palette() {
                out.push(self.bindings[i].duplicate());
            }
            i = i + 1;
        }
        assert(self.bindings@.subrange(0, i as int) =~= self.bindings@);
        out
    }

    /// Cells a binding renders to, as the footer builds its key: `grouped`
    /// and `command_palette` set the key's classes, `key_only` drops the description.
    fn render_binding_width(&self, binding: &FooterBinding, grouped: bool, command_palette: bool, key_only: bool) -> (w: usize)
        ensures
            w == key_cells(
                binding.key@,
                if key_only { seq![] } else { binding.description@ },
                self.compact,
                command_palette,
            ),
    {
        let disabled = binding.enabled.is_none();
        let k0 = FooterKey::new(binding.key.as_str(), binding.description.as_str());
        let k1 = k0.with_compact(self.compact);
        let k2 = k1.with_grouped(grouped);
        let k3 = k2.with_command_palette(command_palette);
        let k4 = k3.with_hovered(false);
        let k5 = k4.with_disabled(disabled);
        proof {
            reveal_strlit("-command-palette");
            reveal_strlit("-disabled");
            assert("-command-palette"@.len() != "-disabled"@.len());
            crate::widget_core::lemma_class_flag_self(texts(k2.classes@), "-command-palette"@, command_palette);
            crate::widget_core::lemma_class_flag_other(
                texts(k4.classes@),
                "-disabled"@,
                disabled,
                "-command-palette"@,
            );
        }
        let key = if key_only {
            k5.key_only()
        } else {
            k5
        };
        if key_only {
            assert(key.description@ =~= seq![]);
        }
        key.render_width()
    }

    /// The hit regions of the left bindings, left to right.
    pub fn left_binding_regions(&self) -> (rs: Vec<BindingRegion>)
        ensures
            rs@ == self.regions(),
    {
        let left = self.left_vec();
        let sep: usize = if self.compact {
            1
        } else {
            0
        };
        let ghost l = left@;
        let mut pos: usize = 0;
        let mut rs: Vec<BindingRegion> = Vec::new();
        let mut j: usize = 0;
        while j < left.len()
            invariant
                l == left@,
                l == self.left(),
                sep == sep_width(self.compact),
                j <= l.len(),
                pos == layout_pos(l, self.compact, j as nat),
                rs@ == layout_regions(l, self.compact, j as nat),
            decreases l.len() - j,
        {
            let start: usize = if j == 0 {
                0
            } else {
                pos.saturating_add(sep)
            };
            let grouped = grouped_at_exec(&left, j);
            let w = self.render_binding_width(&left[j], grouped, false, grouped);
            if w > 0 {
                rs.push(BindingRegion { start, end: start.saturating_add(w), index: j });
            }
            let mut next = start.saturating_add(w);
            if closes_group_exec(&left, j) {
                match &left[j].group {
                    Some(g) => {
                        let label = FooterLabel::new(g.as_str());
                        next = next.saturating_add(label.render_width());
                    },
                    None => {},
                }
            }
            pos = next;
            j = j + 1;
        }
        rs
    }

    /// Cells the left bindings occupy.
    pub fn left_line_width(&self) -> (w: usize)
        ensures
            w == self.left_width(),
    {
        let left = self.left_vec();
        let sep: usize = if self.compact {
            1
        } else {
            0
        };
        let ghost l = left@;
        let mut pos: usize = 0;
        let mut j: usize = 0;
        while j < left.len()
            invariant
                l == left@,
                l == self.left(),
                sep == sep_width(self.compact),
                j <= l.len(),
                pos == layout_pos(l, self.compact, j as nat),
            decreases l.len() - j,
        {
            let start: usize = if j == 0 {
                0
            } else {
                pos.saturating_add(sep)
            };
            let grouped = grouped_at_exec(&left, j);
            let w = self.render_binding_width(&left[j], grouped, false, grouped);
            let mut next = start.saturating_add(w);
            if closes_group_exec(&left, j) {
                match &left[j].group {
                    Some(g) => {
                        let label = FooterLabel::new(g.as_str());
                        next = next.saturating_add(label.render_width());
                    },
                    None => {},
                }
            }
            pos = next;
            j = j + 1;
        }
        pos
    }
}

// ── Hints, hits and events ──────────────────────────────────────────────

/// A hint the footer shows: marked shown, and not hidden by its action check.
pub open spec fn shown(h: BindingHint) -> bool {
    h.show && h.enabled != Some(false)
}

pub open spec fn shown_pred() -> spec_fn(BindingHint) -> bool {
    |h: BindingHint| shown(h)
}

/// The footer binding made from a hint: the display form of the key (or the
/// key spec), the raw key spec as action key, and the hint's other fields.
pub open spec fn hint_binding(h: BindingHint) -> FooterBinding {
    FooterBinding {
        key: match h.key_display {
            Some(d) => d,
            None => h.key,
        },
        description: h.description,
        tooltip: h.tooltip,
        group: h.group,
        action_key: Some(h.key),
        enabled: h.enabled,
    }
}

pub open spec fn hint_binding_fn() -> spec_fn(BindingHint) -> FooterBinding {
    |h: BindingHint| hint_binding(h)
}

/// The footer bindings for a list of hints, in order.
pub open spec fn hint_bindings(hs: Seq<BindingHint>) -> Seq<FooterBinding> {
    hs.filter(shown_pred()).map_values(hint_binding_fn())
}

/// The key a click on a binding simulates: its raw key spec, else its displayed key.
pub open spec fn simulated_key(b: FooterBinding) -> String {
    match b.action_key {
        Some(a) => a,
        None => b.key,
    }
}

/// The tooltip anchor for a hovered span of cells: the centre of the span
/// clamped to the laid-out width, on the first row.
pub open spec fn anchor_of(region: Option<(usize, usize)>, layout_width: usize) -> Option<(u16, u16)> {
    match region {
        None => None,
        Some((s, e)) => if s >= e {
            None
        } else {
            let max_x: usize = at_least_one(layout_width).saturating_sub(1);
            let start: usize = if s < max_x { s } else { max_x };
            let last: usize = e.saturating_sub(1);
            let end: usize = if last < max_x { last } else { max_x };
            let center: usize = start.saturating_add(end.saturating_sub(start) / 2);
            Some((if center < 65535 { center as u16 } else { 65535u16 }, 0u16))
        },
    }
}

/// A footer after `apply_bindings(next)` from `old`, with the context it was given.
pub open spec fn applied(old: Footer, new: Footer, next: Seq<FooterBinding>, c0: EventCtx, c1: EventCtx) -> bool {
    if same_bindings(next, old.bindings@) {
        new == old && c1 == c0
    } else {
        &&& new.bindings@ == next
        &&& new == (Footer { bindings: new.bindings, hovered_item: new.hovered_item, ..old })
        &&& new.hovered_item == match old.hovered_item {
            Some(HoveredFooterItem::Binding(i)) => if i >= left_bindings(next).len() {
                None
            } else {
                old.hovered_item
            },
            h => h,
        }
        &&& c1 == (EventCtx { messages: c1.messages, repaint: true, ..c0 })
        &&& c1.messages@ == c0.messages@.push(
            MessageEvent { sender: c0.node, message: Message::FooterBindingsUpdated { count: next.len() as usize } },
        )
    }
}

impl Footer {
    /// The left binding at a flat index.
    pub open spec fn binding_at(&self, i: usize) -> Option<FooterBinding> {
        if i < self.left().len() {
            Some(self.left()[i as int])
        } else {
            None
        }
    }

    /// Cells of the command-palette hint: the separator and the key.
    pub open spec fn right_width(&self, p: FooterBinding) -> usize {
        cell_width(palette_separator()).saturating_add(key_cells(p.key@, p.description@, self.compact, true))
    }

    /// The cells `[start, end)` of the command-palette hint in a line `width` cells wide:
    /// docked at the right when both sides fit, else right after the left bindings.
    pub open spec fn palette_region(&self, width: usize) -> Option<(usize, usize)> {
        match palette_binding(self.bindings@) {
            None => None,
            Some(p) => {
                let lw = self.left_width();
                let rw = self.right_width(p);
                let start: usize = if lw + rw < width { width.saturating_sub(rw) } else { lw };
                let end: usize = if lw + rw < width { width } else { lw.saturating_add(rw) };
                if start >= width {
                    None
                } else {
                    Some((start, if end < width { end } else { width }))
                }
            },
        }
    }

    /// What lies under column `x`: a left binding first, else the palette hint.
    pub open spec fn hit_item(&self, x: u16) -> Option<HoveredFooterItem> {
        match first_hit(self.regions(), x as int) {
            Some(i) => Some(HoveredFooterItem::Binding(i)),
            None => match self.palette_region(at_least_one(self.layout_width)) {
                Some((s, e)) => if s <= x && x < e {
                    Some(HoveredFooterItem::CommandPalette)
                } else {
                    None
                },
                None => None,
            },
        }
    }

    /// The binding an item stands for.
    pub open spec fn item_binding(&self, item: Option<HoveredFooterItem>) -> Option<FooterBinding> {
        match item {
            Some(HoveredFooterItem::Binding(i)) => self.binding_at(i),
            Some(HoveredFooterItem::CommandPalette) => palette_binding(self.bindings@),
            None => None,
        }
    }

    /// The cells of the hovered item.
    pub open spec fn hovered_span(&self) -> Option<(usize, usize)> {
        match self.hovered_item {
            Some(HoveredFooterItem::Binding(i)) => region_of(self.regions(), i),
            Some(HoveredFooterItem::CommandPalette) => self.palette_region(at_least_one(self.layout_width)),
            None => None,
        }
    }

    /// The tooltip of the hovered binding, unless blank.
    pub open spec fn tooltip_spec(&self) -> Option<String> {
        match self.item_binding(self.hovered_item) {
            Some(b) => match b.tooltip {
                Some(t) => if is_blank(t@) {
                    None
                } else {
                    Some(t)
                },
                None => None,
            },
            None => None,
        }
    }

    /// What handling `event` does to the footer and the dispatch context.
    pub open spec fn event_effect(old: Footer, new: Footer, event: Event, c0: EventCtx, c1: EventCtx) -> bool {
        match event {
            Event::AppFocus(active) => if active && old.deferred_bindings is Some {
                applied(
                    Footer { app_focused: true, deferred_bindings: None, ..old },
                    new,
                    old.deferred_bindings->0@,
                    c0,
                    c1,
                )
            } else {
                new == (Footer { app_focused: active, ..old }) && c1 == c0
            },
            Event::BindingsChanged(hints) => if old.app_focused {
                applied(old, new, hint_bindings(hints@), c0, c1)
            } else {
                &&& new == (Footer { deferred_bindings: new.deferred_bindings, ..old })
                &&& new.deferred_bindings is Some
                &&& new.deferred_bindings->0@ == hint_bindings(hints@)
                &&& c1 == c0
            },
            Event::MouseDown(m) => new == old && match old.item_binding(old.hit_item(m.x)) {
                Some(b) => {
                    &&& c1 == (EventCtx { messages: c1.messages, handled: true, repaint: true, ..c0 })
                    &&& c1.messages@ == c0.messages@.push(
                        MessageEvent { sender: c0.node, message: Message::AppSimulateKey { key: simulated_key(b) } },
                    )
                },
                None => c1 == c0,
            },
            Event::Leave => {
                &&& new == (Footer { hovered_item: None, ..old })
                &&& c1 == (if old.hovered_item is Some { EventCtx { repaint: true, ..c0 } } else { c0 })
            },
            _ => new == old && c1 == c0,
        }
    }

    /// Flat index of the left binding whose region holds column `x`.
    pub fn binding_index_at_x(&self, x: u16) -> (r: Option<usize>)
        ensures
            r == first_hit(self.regions(), x as int),
    {
        let rs = self.left_binding_regions();
        let ghost all = rs@;
        assert(all.subrange(0, all.len() as int) =~= all);
        let mut i: usize = 0;
        while i < rs.len()
            invariant
                all == rs@,
                all == self.regions(),
                i <= all.len(),
                first_hit(all, x as int) == first_hit(all.subrange(i as int, all.len() as int), x as int),
            decreases all.len() - i,
        {
            let r = rs[i];
            assert(all.subrange(i as int, all.len() as int)[0] == r);
            if r.start <= x as usize && (x as usize) < r.end {
                return Some(r.index);
            }
            assert(all.subrange(i as int, all.len() as int).drop_first() =~= all.subrange(i as int + 1, all.len() as int));
            i = i + 1;
        }
        None
    }

    /// Cells of the first region of binding `index`.
    fn region_of_index(&self, index: usize) -> (r: Option<(usize, usize)>)
        ensures
            r == region_of(self.regions(), index),
    {
        let rs = self.left_binding_regions();
        let ghost all = rs@;
        assert(all.subrange(0, all.len() as int) =~= all);
        let mut i: usize = 0;
        while i < rs.len()
            invariant
                all == rs@,
                all == self.regions(),
                i <= all.len(),
                region_of(all, index) == region_of(all.subrange(i as int, all.len() as int), index),
            decreases all.len() - i,
        {
            let r = rs[i];
            assert(all.subrange(i as int, all.len() as int)[0] == r);
            if r.index == index {
                return Some((r.start, r.end));
            }
            assert(all.subrange(i as int, all.len() as int).drop_first() =~= all.subrange(i as int + 1, all.len() as int));
            i = i + 1;
        }
        None
    }

    /// The first binding of the command-palette group.
    pub fn command_palette_binding(&self) -> (r: Option<FooterBinding>)
        ensures
            r == palette_binding(self.bindings@),
    {
        let ghost all = self.bindings@;
        assert(all.subrange(0, all.len() as int) =~= all);
        let mut i: usize = 0;
        while i < self.bindings.len()
            invariant
                all == self.bindings@,
                i <= all.len(),
                palette_binding(all) == palette_binding(all.subrange(i as int, all.len() as int)),
            decreases all.len() - i,
        {
            assert(all.subrange(i as int, all.len() as int)[0] == all[i as int]);
            if self.bindings[i].is_command_palette() {
                return Some(self.bindings[i].duplicate());
            }
            assert(all.subrange(i as int, all.len() as int).drop_first() =~= all.subrange(i as int + 1, all.len() as int));
            i = i + 1;
        }
        None
    }

    /// The left binding at a flat index (command-palette bindings skipped).
    pub fn binding_at_flat_index(&self, flat_index: usize) -> (r: Option<FooterBinding>)
        ensures
            r == self.binding_at(flat_index),
    {
        let left = self.left_vec();
        if flat_index < left.len() {
            Some(left[flat_index].duplicate())
        } else {
            None
        }
    }

    /// Cells `[start, end)` of the command-palette hint in a line `width` cells wide.
    pub fn command_palette_region(&self, width: usize) -> (r: Option<(usize, usize)>)
        ensures
            r == self.palette_region(width),
    {
        let palette = match self.command_palette_binding() {
            Some(p) => p,
            None => return None,
        };
        let lw = self.left_line_width();
        let separator_width = cell_len("\u{258f}");
        let rw = separator_width.saturating_add(self.render_binding_width(&palette, false, true, false));
        let fits = match lw.checked_add(rw) {
            Some(total) => total < width,
            None => false,
        };
        let start = if fits {
            width.saturating_sub(rw)
        } else {
            lw
        };
        let end = if fits {
            width
        } else {
            lw.saturating_add(rw)
        };
        if start >= width {
            return None;
        }
        Some((start, if end < width { end } else { width }))
    }

    /// What lies under column `x` of the footer line.
    pub fn hit_item_at_x(&self, x: u16) -> (r: Option<HoveredFooterItem>)
        ensures
            r == self.hit_item(x),
    {
        if let Some(flat_index) = self.binding_index_at_x(x) {
            return Some(HoveredFooterItem::Binding(flat_index));
        }
        let width = if self.layout_width == 0 {
            1
        } else {
            self.layout_width
        };
        match self.command_palette_region(width) {
            Some((s, e)) => if s <= x as usize && (x as usize) < e {
                Some(HoveredFooterItem::CommandPalette)
            } else {
                None
            },
            None => None,
        }
    }

    /// The binding an item stands for.
    fn binding_for_item(&self, item: Option<HoveredFooterItem>) -> (r: Option<FooterBinding>)
        ensures
            r == self.item_binding(item),
    {
        match item {
            Some(HoveredFooterItem::Binding(i)) => self.binding_at_flat_index(i),
            Some(HoveredFooterItem::CommandPalette) => self.command_palette_binding(),
            None => None,
        }
    }

    /// The hovered binding, if any.
    pub fn hovered_binding(&self) -> (r: Option<FooterBinding>)
        ensures
            r == self.item_binding(self.hovered_item),
    {
        self.binding_for_item(self.hovered_item)
    }

    /// The cells of the hovered item.
    pub fn hovered_region(&self) -> (r: Option<(usize, usize)>)
        ensures
            r == self.hovered_span(),
    {
        match self.hovered_item {
            Some(HoveredFooterItem::Binding(i)) => self.region_of_index(i),
            Some(HoveredFooterItem::CommandPalette) => {
                let width = if self.layout_width == 0 {
                    1
                } else {
                    self.layout_width
                };
                self.command_palette_region(width)
            },
            None => None,
        }
    }

    /// Where a tooltip for the hovered item is anchored, in local coordinates.
    pub fn hovered_anchor_local(&self) -> (r: Option<(u16, u16)>)
        ensures
            r == anchor_of(self.hovered_span(), self.layout_width),
    {
        let (s, e) = match self.hovered_region() {
            Some(range) => range,
            None => return None,
        };
        if s >= e {
            return None;
        }
        let width = if self.layout_width == 0 {
            1
        } else {
            self.layout_width
        };
        let max_x = width.saturating_sub(1);
        let start = if s < max_x {
            s
        } else {
            max_x
        };
        let last = e.saturating_sub(1);
        let end = if last < max_x {
            last
        } else {
            max_x
        };
        let center = start.saturating_add(end.saturating_sub(start) / 2);
        let cx: u16 = if center < 65535 {
            center as u16
        } else {
            65535
        };
        Some((cx, 0))
    }

    /// The footer bindings for a list of hints: hints not shown, or hidden by
    /// their action check, are dropped.
    pub fn bindings_from_hints(hints: &Vec<BindingHint>) -> (bs: Vec<FooterBinding>)
        ensures
            bs@ == hint_bindings(hints@),
    {
        let mut out: Vec<FooterBinding> = Vec::new();
        let mut i: usize = 0;
        while i < hints.len()
            invariant
                i <= hints@.len(),
                out@ == hints@.subrange(0, i as int).filter(shown_pred()).map_values(hint_binding_fn()),
            decreases hints@.len() - i,
        {
            let h = &hints[i];
            let ghost pre = hints@.subrange(0, i as int);
            proof {
                assert(hints@.subrange(0, i as int + 1) =~= pre.push(hints@[i as int]));
                pre.lemma_filter_push(hints@[i as int], shown_pred());
            }
            if h.show && h.enabled != Some(false) {
                let key = match &h.key_display {
                    Some(d) => d.clone(),
                    None => h.key.clone(),
                };
                let b = FooterBinding {
                    key,
                    description: h.description.clone(),
                    tooltip: opt_text_copy(&h.tooltip),
                    group: opt_text_copy(&h.group),
                    action_key: Some(h.key.clone()),
                    enabled: h.enabled,
                };
                assert(b == hint_binding(hints@[i as int]));
                out.push(b);
                assert(out@ =~= pre.filter(shown_pred()).push(hints@[i as int]).map_values(hint_binding_fn()));
            }
            i = i + 1;
        }
        assert(hints@.subrange(0, i as int) =~= hints@);
        out
    }

    /// Take a new binding list: a list equal to the current one changes nothing;
    /// otherwise the list is replaced, a hover past the new left bindings is
    /// dropped, the new count is announced and a repaint requested.
    pub fn apply_bindings(&mut self, next: Vec<FooterBinding>, ctx: &mut EventCtx)
        ensures
            applied(*old(self), *final(self), next@, *old(ctx), *final(ctx)),
    {
        if bindings_same(&next, &self.bindings) {
            return;
        }
        let count = next.len();
        self.bindings = next;
        if let Some(HoveredFooterItem::Binding(idx)) = self.hovered_item {
            let left_count = self.left_vec().len();
            if idx >= left_count {
                self.hovered_item = None;
            }
        }
        ctx.post_message(Message::FooterBindingsUpdated { count });
        ctx.request_repaint();
    }

    /// Handle an event: focus changes, binding announcements (deferred while the
    /// application is unfocused), clicks on bindings and the pointer leaving.
    pub fn on_event(&mut self, event: &Event, ctx: &mut EventCtx)
        ensures
            Footer::event_effect(*old(self), *final(self), *event, *old(ctx), *final(ctx)),
    {
        match event {
            Event::AppFocus(active) => {
                self.app_focused = *active;
                if *active {
                    let deferred = self.deferred_bindings.take();
                    if let Some(next) = deferred {
                        self.apply_bindings(next, ctx);
                    }
                }
            },
            Event::BindingsChanged(hints) => {
                let next = Footer::bindings_from_hints(hints);
                if self.app_focused {
                    self.apply_bindings(next, ctx);
                } else {
                    self.deferred_bindings = Some(next);
                }
            },
            Event::MouseDown(mouse) => {
                let hit = self.hit_item_at_x(mouse.x);
                if let Some(binding) = self.binding_for_item(hit) {
                    let key = match &binding.action_key {
                        Some(a) => a.clone(),
                        None => binding.key.clone(),
                    };
                    ctx.post_message(Message::AppSimulateKey { key });
                    ctx.set_handled();
                    ctx.request_repaint();
                }
            },
            Event::Leave => {
                if self.hovered_item.is_some() {
                    self.hovered_item = None;
                    ctx.request_repaint();
                }
            },
            _ => {},
        }
    }

    /// Track the hovered item under the pointer; true when it changed.
    pub fn on_mouse_move(&mut self, x: u16, y: u16) -> (changed: bool)
        ensures
            ({
                let next = if y == 0 { old(self).hit_item(x) } else { None };
                &&& changed == (old(self).hovered_item != next)
                &&& *final(self) == (Footer { hovered_item: next, ..*old(self) })
            }),
    {
        let next = if y == 0 {
            self.hit_item_at_x(x)
        } else {
            None
        };
        if self.hovered_item != next {
            self.hovered_item = next;
            return true;
        }
        false
    }

    /// Losing the hover clears the hovered item.
    pub fn set_hovered(&mut self, hovered: bool)
        ensures
            *final(self) == (if hovered { *old(self) } else { Footer { hovered_item: None, ..*old(self) } }),
    {
        if !hovered {
            self.hovered_item = None;
        }
    }

    /// The hovered binding's tooltip, unless blank.
    pub fn tooltip(&self) -> (t: Option<String>)
        ensures
            t == self.tooltip_spec(),
    {
        match self.hovered_binding() {
            Some(b) => match b.tooltip {
                Some(t) => if blank(t.as_str()) {
                    None
                } else {
                    Some(t)
                },
                None => None,
            },
            None => None,
        }
    }

    /// Where the tooltip of the hovered item is anchored.
    pub fn tooltip_anchor(&self) -> (r: Option<(u16, u16)>)
        ensures
            r == anchor_of(self.hovered_span(), self.layout_width),
    {
        self.hovered_anchor_local()
    }

    /// Record the laid-out width (at least 1).
    pub fn on_layout(&mut self, width: u16, height: u16)
        ensures
            *final(self) == (Footer { layout_width: at_least_one(width as usize), ..*old(self) }),
    {
        self.layout_width = if width == 0 {
            1
        } else {
            width as usize
        };
    }

    /// Unmounting forgets the focus tracking and the hover.
    pub fn on_unmount(&mut self)
        ensures
            *final(self) == (Footer {
                app_focused: true,
                deferred_bindings: None,
                hovered_item: None,
                ..*old(self)
            }),
    {
        self.app_focused = true;
        self.deferred_bindings = None;
        self.hovered_item = None;
    }

    /// One line, unless the styles fix the height.
    pub fn layout_height(&self) -> (h: Option<usize>)
        ensures
            h == (match fixed_height(self.styles.layout) {
                Some(v) => Some(v),
                None => Some(1usize),
            }),
    {
        match fixed_height_from_constraints(&self.styles.layout) {
            Some(v) => Some(v),
            None => Some(1),
        }
    }
}

// ── Grouping of the left bindings ───────────────────────────────────────

/// An item of the left part of the footer: one binding, or a run of bindings of
/// one group shown as keys followed by the group label.
#[derive(Debug, Clone)]
pub enum LeftBindingItem {
    Single(FooterBinding),
    Grouped { label: String, bindings: Vec<FooterBinding> },
}

/// An item as a label (for a group) and its bindings.
pub open spec fn item_view(it: LeftBindingItem) -> (Option<Seq<char>>, Seq<FooterBinding>) {
    match it {
        LeftBindingItem::Single(b) => (None, seq![b]),
        LeftBindingItem::Grouped { label, bindings } => (Some(label@), bindings@),
    }
}

pub open spec fn item_views(items: Seq<LeftBindingItem>) -> Seq<(Option<Seq<char>>, Seq<FooterBinding>)> {
    items.map_values(|it: LeftBindingItem| item_view(it))
}

/// The end of the run of bindings of `l[i]`'s group that continues at `e`.
pub open spec fn run_end_from(l: Seq<FooterBinding>, i: int, e: int) -> int
    decreases l.len() - e,
{
    if 0 <= i && i < e && e < l.len() && same_group(l[e], l[i]) {
        run_end_from(l, i, e + 1)
    } else {
        e
    }
}

/// A run that continues at `e` ends between `e` and the end of the list.
pub proof fn lemma_run_end_bounds(l: Seq<FooterBinding>, i: int, e: int)
    requires
        0 <= i < e <= l.len(),
    ensures
        e <= run_end_from(l, i, e) <= l.len(),
    decreases l.len() - e,
{
    if e < l.len() && same_group(l[e], l[i]) {
        lemma_run_end_bounds(l, i, e + 1);
    }
}

/// The items of the left bindings from index `i` on: a binding without a group,
/// or alone in its group's run, is a single item; a run of two or more bindings
/// of one group is a grouped item labelled with the group name.
pub open spec fn items_from(l: Seq<FooterBinding>, i: int) -> Seq<(Option<Seq<char>>, Seq<FooterBinding>)>
    decreases l.len() - i,
{
    if i < 0 || i >= l.len() {
        seq![]
    } else if l[i].group is None {
        seq![(None::<Seq<char>>, seq![l[i]])] + items_from(l, i + 1)
    } else {
        let e = run_end_from(l, i, i + 1);
        proof {
            lemma_run_end_bounds(l, i, i + 1);
        }
        if e - i > 1 {
            seq![(Some(l[i].group->0@), l.subrange(i, e))] + items_from(l, e)
        } else {
            seq![(None::<Seq<char>>, seq![l[i]])] + items_from(l, i + 1)
        }
    }
}

/// The last command-palette binding.
pub open spec fn last_palette(bs: Seq<FooterBinding>) -> Option<FooterBinding>
    decreases bs.len(),
{
    if bs.len() == 0 {
        None
    } else if is_palette(bs.last()) {
        Some(bs.last())
    } else {
        last_palette(bs.drop_last())
    }
}

impl Footer {
    /// The left items, in order, and the last command-palette binding.
    pub fn split_bindings(&self) -> (r: (Vec<LeftBindingItem>, Option<FooterBinding>))
        ensures
            item_views(r.0@) == items_from(self.left(), 0),
            r.1 == last_palette(self.bindings@),
    {
        let mut palette: Option<FooterBinding> = None;
        let mut i: usize = 0;
        while i < self.bindings.len()
            invariant
                i <= self.bindings@.len(),
                palette == last_palette(self.bindings@.subrange(0, i as int)),
            decreases self.bindings@.len() - i,
        {
            assert(self.bindings@.subrange(0, i as int + 1).drop_last() =~= self.bindings@.subrange(0, i as int));
            if self.bindings[i].is_command_palette() {
                palette = Some(self.bindings[i].duplicate());
            }
            i = i + 1;
        }
        assert(self.bindings@.subrange(0, i as int) =~= self.bindings@);
        let left = self.left_vec();
        let ghost l = left@;
        let mut items: Vec<LeftBindingItem> = Vec::new();
        let mut index: usize = 0;
        while index < left.len()
            invariant
                l == left@,
                l == self.left(),
                index <= l.len(),
                items_from(l, 0) == item_views(items@) + items_from(l, index as int),
            decreases l.len() - index,
        {
            let ghost before = item_views(items@);
            match &left[index].group {
                None => {
                    items.push(LeftBindingItem::Single(left[index].duplicate()));
                    assert(item_views(items@) =~= before.push((None::<Seq<char>>, seq![l[index as int]])));
                    index = index + 1;
                },
                Some(group_name) => {
                    let mut run_end = index + 1;
                    while run_end < left.len() && same_group_exec(&left[run_end], &left[index])
                        invariant
                            l == left@,
                            index < run_end <= l.len(),
                            l[index as int].group is Some,
                            run_end_from(l, index as int, index as int + 1) == run_end_from(l, index as int, run_end as int),
                        decreases l.len() - run_end,
                    {
                        run_end = run_end + 1;
                    }
                    if run_end - index > 1 {
                        let mut group: Vec<FooterBinding> = Vec::new();
                        let mut k = index;
                        while k < run_end
                            invariant
                                l == left@,
                                index <= k <= run_end <= l.len(),
                                group@ == l.subrange(index as int, k as int),
                            decreases run_end - k,
                        {
                            group.push(left[k].duplicate());
                            assert(group@ =~= l.subrange(index as int, k as int + 1));
                            k = k + 1;
                        }
                        items.push(LeftBindingItem::Grouped { label: group_name.clone(), bindings: group });
                        assert(item_views(items@) =~= before.push(
                            (Some(l[index as int].group->0@), l.subrange(index as int, run_end as int)),
                        ));
                        index = run_end;
                    } else {
                        items.push(LeftBindingItem::Single(left[index].duplicate()));
                        assert(item_views(items@) =~= before.push((None::<Seq<char>>, seq![l[index as int]])));
                        index = index + 1;
                    }
                },
            }
        }
        (items, palette)
    }
}

// ── Rendered text ───────────────────────────────────────────────────────

/// The text of the left binding at `j`: its key alone inside a group, its
/// key and description otherwise.
pub open spec fn slot_text(l: Seq<FooterBinding>, j: int, compact: bool) -> Seq<char> {
    let d: Seq<char> = if grouped_at(l, j) { seq![] } else { l[j].description@ };
    key_span(l[j].key@, d, compact, false) + description_span(d, compact)
}

/// The text of the first `k` left bindings, with separators and group labels.
pub open spec fn layout_text(l: Seq<FooterBinding>, compact: bool, k: nat) -> Seq<char>
    decreases k,
{
    if k == 0 {
        seq![]
    } else {
        let j = (k - 1) as nat;
        let sep: Seq<char> = if j > 0 && compact { seq![' '] } else { seq![] };
        let label: Seq<char> = if closes_group_at(l, j as int) { label_span(l[j as int].group->0@) } else { seq![] };
        layout_text(l, compact, j) + sep + slot_text(l, j as int, compact) + label
    }
}

/// The text up to the first line break.
pub open spec fn first_line(s: Seq<char>) -> Seq<char>
    decreases s.len(),
{
    if s.len() == 0 {
        s
    } else if s[0] == '\n' {
        seq![]
    } else {
        seq![s[0]] + first_line(s.drop_first())
    }
}

fn first_line_exec(s: &str) -> (r: String)
    ensures
        r@ == first_line(s@),
{
    let n = s.unicode_len();
    let mut i: usize = 0;
    assert(s@.skip(0) =~= s@);
    while i < n && s.get_char(i) != '\n'
        invariant
            n == s@.len(),
            i <= n,
            first_line(s@) == s@.subrange(0, i as int) + first_line(s@.skip(i as int)),
        decreases n - i,
    {
        assert(s@.skip(i as int).drop_first() =~= s@.skip(i as int + 1));
        assert(s@.subrange(0, i as int + 1) =~= s@.subrange(0, i as int) + seq![s@[i as int]]);
        i = i + 1;
    }
    if i < n {
        assert(first_line(s@.skip(i as int)) =~= Seq::<char>::empty());
    } else {
        assert(s@.skip(i as int) =~= Seq::<char>::empty());
    }
    assert(s@.subrange(0, i as int) + first_line(s@.skip(i as int)) =~= s@.subrange(0, i as int));
    text_of(s.substring_char(0, i))
}

impl Footer {
    /// The footer line `width` cells wide (at least 1): the left bindings,
    /// then the command-palette hint docked at the right when both fit (else
    /// right after the left part), cut to the first line and fitted to the width.
    pub open spec fn line_text(&self, width: usize) -> Seq<char> {
        let w: usize = if width == 0 { 1 } else { width };
        let left = layout_text(self.left(), self.compact, self.left().len());
        let full = match palette_binding(self.bindings@) {
            None => left,
            Some(p) => {
                let lw = self.left_width();
                let rw = self.right_width(p);
                let gap: Seq<char> = if lw + rw < w { crate::text::spaces((w - lw - rw) as nat) } else { seq![] };
                left + gap + palette_separator() + key_span(p.key@, p.description@, self.compact, true)
                    + description_span(p.description@, self.compact)
            },
        };
        crate::cells::fit_cells(first_line(full), w)
    }

    /// The two spans a binding renders to, built as `render_binding_width` builds its key.
    fn render_binding_spans(&self, binding: &FooterBinding, grouped: bool, command_palette: bool, key_only: bool) -> (spans: (String, String))
        ensures
            ({
                let d = if key_only { seq![] } else { binding.description@ };
                &&& spans.0@ == key_span(binding.key@, d, self.compact, command_palette)
                &&& spans.1@ == description_span(d, self.compact)
            }),
    {
        let disabled = binding.enabled.is_none();
        let k0 = FooterKey::new(binding.key.as_str(), binding.description.as_str());
        let k1 = k0.with_compact(self.compact);
        let k2 = k1.with_grouped(grouped);
        let k3 = k2.with_command_palette(command_palette);
        let k4 = k3.with_hovered(false);
        let k5 = k4.with_disabled(disabled);
        proof {
            reveal_strlit("-command-palette");
            reveal_strlit("-disabled");
            assert("-command-palette"@.len() != "-disabled"@.len());
            crate::widget_core::lemma_class_flag_self(texts(k2.classes@), "-command-palette"@, command_palette);
            crate::widget_core::lemma_class_flag_other(
                texts(k4.classes@),
                "-disabled"@,
                disabled,
                "-command-palette"@,
            );
        }
        let key = if key_only {
            k5.key_only()
        } else {
            k5
        };
        if key_only {
            assert(key.description@ =~= seq![]);
        }
        key.render_spans()
    }

    /// The text of the left bindings.
    pub fn left_line_text(&self) -> (t: String)
        ensures
            t@ == layout_text(self.left(), self.compact, self.left().len()),
    {
        let left = self.left_vec();
        let ghost l = left@;
        let mut out = String::new();
        let mut j: usize = 0;
        while j < left.len()
            invariant
                l == left@,
                l == self.left(),
                j <= l.len(),
                out@ == layout_text(l, self.compact, j as nat),
            decreases l.len() - j,
        {
            let ghost before = out@;
            proof {
                reveal_strlit(" ");
            }
            if j > 0 && self.compact {
                out.append(" ");
            }
            let ghost sep: Seq<char> = if j > 0 && self.compact { seq![' '] } else { seq![] };
            assert(out@ =~= before + sep);
            let grouped = grouped_at_exec(&left, j);
            let (k, d) = self.render_binding_spans(&left[j], grouped, false, grouped);
            out.append(k.as_str());
            out.append(d.as_str());
            assert(out@ =~= before + sep + slot_text(l, j as int, self.compact));
            if closes_group_exec(&left, j) {
                match &left[j].group {
                    Some(g) => {
                        let label = FooterLabel::new(g.as_str());
                        let t = label.render_text();
                        out.append(t.as_str());
                    },
                    None => {},
                }
            }
            assert(out@ =~= layout_text(l, self.compact, j as nat + 1));
            j = j + 1;
        }
        out
    }

    /// The footer line drawn `width` cells wide.
    pub fn render_text(&self, width: usize) -> (t: String)
        ensures
            t@ == self.line_text(width),
    {
        let w: usize = if width == 0 {
            1
        } else {
            width
        };
        let mut full = self.left_line_text();
        match self.command_palette_binding() {
            None => {},
            Some(p) => {
                let lw = self.left_line_width();
                let rw = cell_len("\u{258f}").saturating_add(self.render_binding_width(&p, false, true, false));
                let fits = match lw.checked_add(rw) {
                    Some(total) => total < w,
                    None => false,
                };
                let ghost before = full@;
                if fits {
                    let gap = space_string(w - lw - rw);
                    full.append(gap.as_str());
                }
                let ghost gap_v: Seq<char> = if lw + rw < w { crate::text::spaces((w - lw - rw) as nat) } else { seq![] };
                assert(full@ =~= before + gap_v);
                full.append("\u{258f}");
                let (k, d) = self.render_binding_spans(&p, false, true, false);
                full.append(k.as_str());
                full.append(d.as_str());
            },
        }
        let line = first_line_exec(full.as_str());
        crate::cells::set_cell_size(line.as_str(), w)
    }
}

// ── Laws ────────────────────────────────────────────────────────────────

proof fn lemma_same_bindings_refl(a: Seq<FooterBinding>)
    ensures
        same_bindings(a, a),
{
}

proof fn lemma_same_bindings_symm(a: Seq<FooterBinding>, b: Seq<FooterBinding>)
    requires
        same_bindings(a, b),
    ensures
        same_bindings(b, a),
{
    assert forall|i: int| 0 <= i < b.len() implies same_binding(#[trigger] b[i], a[i]) by {
        assert(same_binding(a[i], b[i]));
    }
}

/// While the application has focus, announcing the same hints twice in a row
/// changes nothing the second time: no message, no repaint, no state change.
pub proof fn law_repeated_hints_are_noop(
    f0: Footer,
    f1: Footer,
    f2: Footer,
    hints: Vec<BindingHint>,
    c0: EventCtx,
    c1: EventCtx,
    d0: EventCtx,
    d1: EventCtx,
)
    requires
        f0.app_focused,
        Footer::event_effect(f0, f1, Event::BindingsChanged(hints), c0, c1),
        Footer::event_effect(f1, f2, Event::BindingsChanged(hints), d0, d1),
    ensures
        f2 == f1,
        d1 == d0,
{
    let next = hint_bindings(hints@);
    if same_bindings(next, f0.bindings@) {
        assert(f1 == f0);
    } else {
        lemma_same_bindings_refl(next);
    }
}

/// While the application is unfocused, announced bindings wait: nothing is
/// posted or repainted, and on regaining focus the latest announcement is
/// applied, once.
pub proof fn law_focus_gain_applies_latest_deferred(
    f0: Footer,
    f1: Footer,
    f2: Footer,
    f3: Footer,
    first: Vec<BindingHint>,
    latest: Vec<BindingHint>,
    c0: EventCtx,
    c1: EventCtx,
    d0: EventCtx,
    d1: EventCtx,
    e0: EventCtx,
    e1: EventCtx,
)
    requires
        !f0.app_focused,
        Footer::event_effect(f0, f1, Event::BindingsChanged(first), c0, c1),
        Footer::event_effect(f1, f2, Event::BindingsChanged(latest), d0, d1),
        Footer::event_effect(f2, f3, Event::AppFocus(true), e0, e1),
    ensures
        c1 == c0,
        d1 == d0,
        f3.app_focused,
        f3.deferred_bindings is None,
        same_bindings(f3.bindings@, hint_bindings(latest@)),
        !same_bindings(hint_bindings(latest@), f0.bindings@) ==> {
            &&& f3.bindings@ == hint_bindings(latest@)
            &&& e1.messages@ == e0.messages@.push(
                MessageEvent {
                    sender: e0.node,
                    message: Message::FooterBindingsUpdated { count: hint_bindings(latest@).len() as usize },
                },
            )
            &&& e1.repaint
        },
{
    let next = hint_bindings(latest@);
    assert(f2.bindings == f0.bindings);
    assert(f2.deferred_bindings->0@ == next);
    if same_bindings(next, f2.bindings@) {
        lemma_same_bindings_symm(next, f2.bindings@);
    } else {
        lemma_same_bindings_refl(next);
    }
}

/// Regions come left to right without overlap, each ending by the column the layout has reached.
pub proof fn lemma_regions_sorted(l: Seq<FooterBinding>, c: bool, k: nat)
    ensures
        forall|a: int, b: int|
            0 <= a < b < layout_regions(l, c, k).len() ==> #[trigger] layout_regions(l, c, k)[a].end
                <= #[trigger] layout_regions(l, c, k)[b].start,
        forall|a: int|
            0 <= a < layout_regions(l, c, k).len() ==> (#[trigger] layout_regions(l, c, k)[a]).start
                <= layout_regions(l, c, k)[a].end && layout_regions(l, c, k)[a].end <= layout_pos(l, c, k),
    decreases k,
{
    if k > 0 {
        let j = (k - 1) as nat;
        lemma_regions_sorted(l, c, j);
        let prev = layout_regions(l, c, j);
        let s = slot_start(l, c, j);
        assert(layout_pos(l, c, j) <= s);
        assert(s <= layout_pos(l, c, k));
    }
}

/// The first region containing `x` in left-to-right, disjoint regions is the
/// one that contains it.
proof fn lemma_first_hit_sorted(rs: Seq<BindingRegion>, k: int, x: int)
    requires
        0 <= k < rs.len(),
        rs[k].start <= x < rs[k].end,
        forall|a: int, b: int| 0 <= a < b < rs.len() ==> #[trigger] rs[a].end <= #[trigger] rs[b].start,
    ensures
        first_hit(rs, x) == Some(rs[k].index),
    decreases rs.len(),
{
    if k > 0 {
        assert(rs[0].end <= rs[k].start);
        let rest = rs.drop_first();
        assert(rest[k - 1] == rs[k]);
        assert forall|a: int, b: int| 0 <= a < b < rest.len() implies #[trigger] rest[a].end <= #[trigger] rest[b].start by {
            assert(rest[a] == rs[a + 1] && rest[b] == rs[b + 1]);
        }
        lemma_first_hit_sorted(rest, k - 1, x);
    }
}

/// A click anywhere inside a binding's region hits that binding.
pub proof fn law_click_in_region_hits_binding(f: Footer, k: int, x: u16)
    requires
        0 <= k < f.regions().len(),
        f.regions()[k].start <= x < f.regions()[k].end,
    ensures
        first_hit(f.regions(), x as int) == Some(f.regions()[k].index),
        f.hit_item(x) == Some(HoveredFooterItem::Binding(f.regions()[k].index)),
{
    lemma_regions_sorted(f.left(), f.compact, f.left().len());
    lemma_first_hit_sorted(f.regions(), k, x as int);
}

} // verus!
