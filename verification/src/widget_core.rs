//! Core widget vocabulary: style-change classification, key-binding
//! declarations, layout constraints, per-node state and mount seeds.

use vstd::prelude::*;
use crate::style::{Color, Style};
use crate::text::{text_of, text_eq};

verus! {

/// Classification of style property changes for invalidation.
///
/// Decides whether a style mutation requires a full relayout (layout-affecting
/// properties) or just a repaint (visual-only properties).
#[derive(Debug, Clone, Copy, PartialEq, Eq, Structural)]
pub enum StyleChangeKind {
    /// No properties changed.
    Unchanged,
    /// Only visual properties changed: triggers a repaint without relayout.
    Visual,
    /// Layout-affecting properties changed: triggers relayout and repaint.
    Layout,
}

/// The classification of a change from `old` to `new`.
pub open spec fn style_change(old: Style, new: Style) -> StyleChangeKind {
    if old.same_as(&new) {
        StyleChangeKind::Unchanged
    } else if old.layout_props_differ(&new) {
        StyleChangeKind::Layout
    } else {
        StyleChangeKind::Visual
    }
}

/// Compare two styles and classify the kind of change for invalidation.
///
/// Layout-affecting: display, visibility, overflow, layout, dock, sizes,
/// margin, padding, alignment, offset, constrain, grid properties and borders.
/// Everything else (colours, opacity, text attributes, layer, ...) is visual.
pub fn classify_style_change(old: &Style, new: &Style) -> (kind: StyleChangeKind)
    ensures
        kind == style_change(*old, *new),
{
    if old.equals(new) {
        return StyleChangeKind::Unchanged;
    }
    if old.layout_props_differ_exec(new) {
        return StyleChangeKind::Layout;
    }
    StyleChangeKind::Visual
}

/// A declarative key-binding declaration: a key spec mapped to an action.
#[derive(Clone, Debug, PartialEq, Eq)]
pub struct BindingDecl {
    /// Key specification (e.g. `"enter"`, `"j,down"`). Comma-separated alternatives.
    pub key: String,
    /// Action string to dispatch (e.g. `"select_cursor"`).
    pub action: String,
    /// Human-readable description shown in footer/help.
    pub description: String,
    /// Optional extended help shown in key/help panels.
    pub tooltip: Option<String>,
    /// Optional namespace used for help-panel grouping.
    pub namespace: Option<String>,
    /// Whether this binding is displayed in footer/help panels.
    pub show: bool,
    /// Priority bindings are checked before normal bindings.
    pub priority: bool,
}

impl BindingDecl {
    pub fn new(key: &str, action: &str, description: &str) -> (b: BindingDecl)
        ensures
            b.key@ == key@,
            b.action@ == action@,
            b.description@ == description@,
            b.tooltip is None,
            b.namespace is None,
            b.show,
            !b.priority,
    {
        BindingDecl {
            key: text_of(key),
            action: text_of(action),
            description: text_of(description),
            tooltip: None,
            namespace: None,
            show: true,
            priority: false,
        }
    }

    /// Mark this binding as hidden (not shown in footer/help).
    pub fn hidden(self) -> (b: BindingDecl)
        ensures
            b == (BindingDecl { show: false, ..self }),
    {
        BindingDecl { show: false, ..self }
    }

    /// Mark this binding as priority (dispatched before normal bindings).
    pub fn priority(self) -> (b: BindingDecl)
        ensures
            b == (BindingDecl { priority: true, ..self }),
    {
        BindingDecl { priority: true, ..self }
    }

    /// Attach extended help text for key/help panel rows.
    pub fn with_tooltip(self, tooltip: &str) -> (b: BindingDecl)
        ensures
            b.tooltip.is_some() && b.tooltip.unwrap()@ == tooltip@,
            b.key == self.key && b.action == self.action && b.description == self.description,
            b.namespace == self.namespace && b.show == self.show && b.priority == self.priority,
    {
        BindingDecl { tooltip: Some(text_of(tooltip)), ..self }
    }

    /// Attach a namespace/grouping marker for help panel sections.
    pub fn with_namespace(self, namespace: &str) -> (b: BindingDecl)
        ensures
            b.namespace.is_some() && b.namespace.unwrap()@ == namespace@,
            b.key == self.key && b.action == self.action && b.description == self.description,
            b.tooltip == self.tooltip && b.show == self.show && b.priority == self.priority,
    {
        BindingDecl { namespace: Some(text_of(namespace)), ..self }
    }
}

/// Selection anchor used by a runtime-level selection pipeline.
#[derive(Debug, Clone, Copy, PartialEq, Eq, Default)]
pub struct WidgetSelectionAnchor {
    /// Visual row in widget-local coordinates.
    pub row: usize,
    /// Visual column in widget-local coordinates (cell-based).
    pub col: usize,
    /// Widget-defined logical index (for example a grapheme offset).
    pub index: usize,
}

/// Minimum and maximum extents a widget accepts; every bound is at least 1.
#[derive(Debug, Clone, Copy, PartialEq, Eq, Structural)]
pub struct LayoutConstraints {
    pub min_width: Option<usize>,
    pub max_width: Option<usize>,
    pub min_height: Option<usize>,
    pub max_height: Option<usize>,
}

/// `value`, raised to 1 when it is 0.
pub open spec fn at_least_one(value: usize) -> usize {
    if value == 0 { 1 } else { value }
}

fn at_least_one_exec(value: usize) -> (r: usize)
    ensures
        r == at_least_one(value),
{
    if value == 0 { 1 } else { value }
}

impl LayoutConstraints {
    /// No bound set.
    pub fn new() -> (c: LayoutConstraints)
        ensures
            c == (LayoutConstraints {
                min_width: None,
                max_width: None,
                min_height: None,
                max_height: None,
            }),
    {
        LayoutConstraints { min_width: None, max_width: None, min_height: None, max_height: None }
    }

    pub fn min_width(self, value: usize) -> (c: LayoutConstraints)
        ensures
            c == (LayoutConstraints { min_width: Some(at_least_one(value)), ..self }),
    {
        LayoutConstraints { min_width: Some(at_least_one_exec(value)), ..self }
    }

    pub fn max_width(self, value: usize) -> (c: LayoutConstraints)
        ensures
            c == (LayoutConstraints { max_width: Some(at_least_one(value)), ..self }),
    {
        LayoutConstraints { max_width: Some(at_least_one_exec(value)), ..self }
    }

    pub fn min_height(self, value: usize) -> (c: LayoutConstraints)
        ensures
            c == (LayoutConstraints { min_height: Some(at_least_one(value)), ..self }),
    {
        LayoutConstraints { min_height: Some(at_least_one_exec(value)), ..self }
    }

    pub fn max_height(self, value: usize) -> (c: LayoutConstraints)
        ensures
            c == (LayoutConstraints { max_height: Some(at_least_one(value)), ..self }),
    {
        LayoutConstraints { max_height: Some(at_least_one_exec(value)), ..self }
    }
}

impl Default for LayoutConstraints {
    fn default() -> (c: LayoutConstraints)
        ensures
            c == LayoutConstraints::spec_unbounded(),
    {
        LayoutConstraints::new()
    }
}

impl LayoutConstraints {
    pub open spec fn spec_unbounded() -> LayoutConstraints {
        LayoutConstraints { min_width: None, max_width: None, min_height: None, max_height: None }
    }
}

/// Per-node interaction state, owned by the framework and read by widgets.
#[derive(Debug, Clone, Copy, Default, PartialEq, Eq, Structural)]
pub struct NodeState {
    pub focused: bool,
    pub hovered: bool,
    pub disabled: bool,
    pub loading: bool,
}

/// Style overrides and layout constraints attached to a widget.
#[derive(Debug, Clone)]
pub struct WidgetStyles {
    pub style: Style,
    pub layout: LayoutConstraints,
}

impl Default for WidgetStyles {
    fn default() -> (w: WidgetStyles)
        ensures
            w.style.is_unset(),
            w.layout == LayoutConstraints::spec_unbounded(),
    {
        WidgetStyles::new()
    }
}

impl WidgetStyles {
    pub fn new() -> (w: WidgetStyles)
        ensures
            w.style.is_unset(),
            w.layout == LayoutConstraints::spec_unbounded(),
    {
        WidgetStyles { style: Style::new(), layout: LayoutConstraints::new() }
    }

    pub fn fg(self, color: Color) -> (w: WidgetStyles)
        ensures
            w.style == (Style { fg: Some(color), ..self.style }),
            w.layout == self.layout,
    {
        let mut w = self;
        w.style.fg = Some(color);
        w
    }

    pub fn bg(self, color: Color) -> (w: WidgetStyles)
        ensures
            w.style == (Style { bg: Some(color), ..self.style }),
            w.layout == self.layout,
    {
        let mut w = self;
        w.style.bg = Some(color);
        w
    }

    pub fn bold(self, value: bool) -> (w: WidgetStyles)
        ensures
            w.style == (Style { bold: Some(value), ..self.style }),
            w.layout == self.layout,
    {
        let mut w = self;
        w.style.bold = Some(value);
        w
    }

    pub fn dim(self, value: bool) -> (w: WidgetStyles)
        ensures
            w.style == (Style { dim: Some(value), ..self.style }),
            w.layout == self.layout,
    {
        let mut w = self;
        w.style.dim = Some(value);
        w
    }

    pub fn italic(self, value: bool) -> (w: WidgetStyles)
        ensures
            w.style == (Style { italic: Some(value), ..self.style }),
            w.layout == self.layout,
    {
        let mut w = self;
        w.style.italic = Some(value);
        w
    }

    pub fn underline(self, value: bool) -> (w: WidgetStyles)
        ensures
            w.style == (Style { underline: Some(value), ..self.style }),
            w.layout == self.layout,
    {
        let mut w = self;
        w.style.underline = Some(value);
        w
    }

    pub fn border(self, value: bool) -> (w: WidgetStyles)
        ensures
            w.style == (Style { border: Some(value), ..self.style }),
            w.layout == self.layout,
    {
        let mut w = self;
        w.style.border = Some(value);
        w
    }

    pub fn set_fg(&mut self, color: Color)
        ensures
            final(self).style == (Style { fg: Some(color), ..old(self).style }),
            final(self).layout == old(self).layout,
    {
        self.style.fg = Some(color);
    }

    pub fn set_bg(&mut self, color: Color)
        ensures
            final(self).style == (Style { bg: Some(color), ..old(self).style }),
            final(self).layout == old(self).layout,
    {
        self.style.bg = Some(color);
    }

    pub fn set_bold(&mut self, value: bool)
        ensures
            final(self).style == (Style { bold: Some(value), ..old(self).style }),
            final(self).layout == old(self).layout,
    {
        self.style.bold = Some(value);
    }

    pub fn set_dim(&mut self, value: bool)
        ensures
            final(self).style == (Style { dim: Some(value), ..old(self).style }),
            final(self).layout == old(self).layout,
    {
        self.style.dim = Some(value);
    }

    pub fn set_italic(&mut self, value: bool)
        ensures
            final(self).style == (Style { italic: Some(value), ..old(self).style }),
            final(self).layout == old(self).layout,
    {
        self.style.italic = Some(value);
    }

    pub fn set_underline(&mut self, value: bool)
        ensures
            final(self).style == (Style { underline: Some(value), ..old(self).style }),
            final(self).layout == old(self).layout,
    {
        self.style.underline = Some(value);
    }

    pub fn set_border(&mut self, value: bool)
        ensures
            final(self).style == (Style { border: Some(value), ..old(self).style }),
            final(self).layout == old(self).layout,
    {
        self.style.border = Some(value);
    }

    /// Fix the width: minimum and maximum both become `max(value, 1)`.
    pub fn width(self, value: usize) -> (w: WidgetStyles)
        ensures
            w.style == self.style,
            w.layout == (LayoutConstraints {
                min_width: Some(at_least_one(value)),
                max_width: Some(at_least_one(value)),
                ..self.layout
            }),
    {
        let v = at_least_one_exec(value);
        let mut w = self;
        w.layout.min_width = Some(v);
        w.layout.max_width = Some(v);
        w
    }

    /// Fix the height: minimum and maximum both become `max(value, 1)`.
    pub fn height(self, value: usize) -> (w: WidgetStyles)
        ensures
            w.style == self.style,
            w.layout == (LayoutConstraints {
                min_height: Some(at_least_one(value)),
                max_height: Some(at_least_one(value)),
                ..self.layout
            }),
    {
        let v = at_least_one_exec(value);
        let mut w = self;
        w.layout.min_height = Some(v);
        w.layout.max_height = Some(v);
        w
    }

    pub fn min_width(self, value: usize) -> (w: WidgetStyles)
        ensures
            w.style == self.style,
            w.layout == self.layout.min_width_spec(value),
    {
        let mut w = self;
        w.layout.min_width = Some(at_least_one_exec(value));
        w
    }

    pub fn max_width(self, value: usize) -> (w: WidgetStyles)
        ensures
            w.style == self.style,
            w.layout == (LayoutConstraints { max_width: Some(at_least_one(value)), ..self.layout }),
    {
        let mut w = self;
        w.layout.max_width = Some(at_least_one_exec(value));
        w
    }

    pub fn min_height(self, value: usize) -> (w: WidgetStyles)
        ensures
            w.style == self.style,
            w.layout == (LayoutConstraints { min_height: Some(at_least_one(value)), ..self.layout }),
    {
        let mut w = self;
        w.layout.min_height = Some(at_least_one_exec(value));
        w
    }

    pub fn max_height(self, value: usize) -> (w: WidgetStyles)
        ensures
            w.style == self.style,
            w.layout == (LayoutConstraints { max_height: Some(at_least_one(value)), ..self.layout }),
    {
        let mut w = self;
        w.layout.max_height = Some(at_least_one_exec(value));
        w
    }

    pub fn set_width(&mut self, value: usize)
        ensures
            final(self).style == old(self).style,
            final(self).layout == (LayoutConstraints {
                min_width: Some(at_least_one(value)),
                max_width: Some(at_least_one(value)),
                ..old(self).layout
            }),
    {
        let v = at_least_one_exec(value);
        self.layout.min_width = Some(v);
        self.layout.max_width = Some(v);
    }

    pub fn set_height(&mut self, value: usize)
        ensures
            final(self).style == old(self).style,
            final(self).layout == (LayoutConstraints {
                min_height: Some(at_least_one(value)),
                max_height: Some(at_least_one(value)),
                ..old(self).layout
            }),
    {
        let v = at_least_one_exec(value);
        self.layout.min_height = Some(v);
        self.layout.max_height = Some(v);
    }

    pub fn set_min_width(&mut self, value: usize)
        ensures
            final(self).style == old(self).style,
            final(self).layout == old(self).layout.min_width_spec(value),
    {
        self.layout.min_width = Some(at_least_one_exec(value));
    }

    pub fn set_max_width(&mut self, value: usize)
        ensures
            final(self).style == old(self).style,
            final(self).layout == (LayoutConstraints {
                max_width: Some(at_least_one(value)),
                ..old(self).layout
            }),
    {
        self.layout.max_width = Some(at_least_one_exec(value));
    }

    pub fn set_min_height(&mut self, value: usize)
        ensures
            final(self).style == old(self).style,
            final(self).layout == (LayoutConstraints {
                min_height: Some(at_least_one(value)),
                ..old(self).layout
            }),
    {
        self.layout.min_height = Some(at_least_one_exec(value));
    }

    pub fn set_max_height(&mut self, value: usize)
        ensures
            final(self).style == old(self).style,
            final(self).layout == (LayoutConstraints {
                max_height: Some(at_least_one(value)),
                ..old(self).layout
            }),
    {
        self.layout.max_height = Some(at_least_one_exec(value));
    }

    /// Classify the change from these styles to `other` for invalidation.
    pub fn invalidation_kind(&self, other: &WidgetStyles) -> (kind: StyleChangeKind)
        ensures
            kind == style_change(self.style, other.style),
    {
        classify_style_change(&self.style, &other.style)
    }
}

impl LayoutConstraints {
    pub open spec fn min_width_spec(self, value: usize) -> LayoutConstraints {
        LayoutConstraints { min_width: Some(at_least_one(value)), ..self }
    }
}

/// One-shot identity/style payload set by widget builders before mount.
#[derive(Debug, Clone)]
pub struct NodeSeed {
    pub css_id: Option<String>,
    pub classes: Vec<String>,
    pub styles: WidgetStyles,
}

impl NodeSeed {
    /// No id, no class, unset styles.
    pub fn new() -> (s: NodeSeed)
        ensures
            s.css_id is None,
            s.classes@.len() == 0,
            s.styles.style.is_unset(),
            s.styles.layout == LayoutConstraints::spec_unbounded(),
    {
        NodeSeed { css_id: None, classes: Vec::new(), styles: WidgetStyles::new() }
    }
}

impl Default for NodeSeed {
    fn default() -> (s: NodeSeed)
        ensures
            s.css_id is None,
            s.classes@.len() == 0,
            s.styles.style.is_unset(),
    {
        NodeSeed::new()
    }
}

/// The texts of a list of strings.
pub open spec fn texts(v: Seq<String>) -> Seq<Seq<char>> {
    v.map_values(|s: String| s@)
}

/// The class list after switching `class` on (added once, if absent) or off
/// (every occurrence removed).
pub open spec fn class_flag_set(classes: Seq<Seq<char>>, class: Seq<char>, enabled: bool) -> Seq<Seq<char>> {
    if enabled {
        if classes.contains(class) { classes } else { classes.push(class) }
    } else {
        classes.filter(other_than(class))
    }
}

/// The predicate "differs from `class`".
pub open spec fn other_than(class: Seq<char>) -> spec_fn(Seq<char>) -> bool {
    |c: Seq<char>| c != class
}

proof fn lemma_filter_other_than(cs: Seq<Seq<char>>, x: Seq<char>, y: Seq<char>)
    ensures
        cs.filter(other_than(x)).contains(y) == (y != x && cs.contains(y)),
    decreases cs.len(),
{
    reveal(Seq::filter);
    if cs.len() > 0 {
        let rest = cs.drop_last();
        lemma_filter_other_than(rest, x, y);
        let f = cs.filter(other_than(x));
        let fr = rest.filter(other_than(x));
        if cs.last() != x {
            assert(f == fr.push(cs.last()));
        } else {
            assert(f == fr);
        }
        if cs.contains(y) && !rest.contains(y) {
            let j = choose|j: int| 0 <= j < cs.len() && cs[j] == y;
            if j < rest.len() {
                assert(rest[j] == y);
            }
        }
        if rest.contains(y) {
            let j = choose|j: int| 0 <= j < rest.len() && rest[j] == y;
            assert(cs[j] == y);
        }
        if f.contains(y) && y != cs.last() {
            let j = choose|j: int| 0 <= j < f.len() && f[j] == y;
            if cs.last() != x {
                assert(j < fr.len());
                assert(fr[j] == y);
            }
        }
    }
}

/// Whether a class is present after switching `class` on or off: `class`
/// itself exactly when switched on, any other class exactly when it was
/// present before.
pub proof fn lemma_class_flag_contains(cs: Seq<Seq<char>>, class: Seq<char>, enabled: bool, y: Seq<char>)
    ensures
        class_flag_set(cs, class, enabled).contains(y) == (if y == class { enabled } else { cs.contains(y) }),
{
    if enabled {
        if !cs.contains(class) {
            let p = cs.push(class);
            assert(p[cs.len() as int] == class);
            if cs.contains(y) {
                let j = choose|j: int| 0 <= j < cs.len() && cs[j] == y;
                assert(p[j] == y);
            }
            if p.contains(y) && y != class {
                let j = choose|j: int| 0 <= j < p.len() && p[j] == y;
                assert(cs[j] == y);
            }
        }
    } else {
        lemma_filter_other_than(cs, class, y);
    }
}

/// Switch a CSS class on or off in a class list.
pub fn set_class_flag(classes: &mut Vec<String>, class: &str, enabled: bool)
    ensures
        texts(final(classes)@) == class_flag_set(texts(old(classes)@), class@, enabled),
{
    let ghost old_texts = texts(classes@);
    if enabled {
        let mut i: usize = 0;
        while i < classes.len()
            invariant
                i <= classes@.len(),
                texts(classes@) == old_texts,
                old_texts == texts(old(classes)@),
                enabled,
                forall|j: int| 0 <= j < i ==> classes@[j]@ != class@,
            decreases classes@.len() - i,
        {
            if text_eq(classes[i].as_str(), class) {
                assert(old_texts[i as int] == class@);
                assert(old_texts.contains(class@));
                assert(texts(classes@) == class_flag_set(texts(old(classes)@), class@, enabled));
                return;
            }
            i = i + 1;
        }
        assert(!old_texts.contains(class@)) by {
            if old_texts.contains(class@) {
                let j = choose|j: int| 0 <= j < old_texts.len() && old_texts[j] == class@;
                assert(classes@[j]@ == class@);
            }
        }
        classes.push(text_of(class));
        assert(texts(classes@) =~= old_texts.push(class@));
    } else {
        let mut kept: Vec<String> = Vec::new();
        let mut i: usize = 0;
        while i < classes.len()
            invariant
                i <= classes@.len(),
                texts(classes@) == old_texts,
                texts(kept@) == old_texts.subrange(0, i as int).filter(other_than(class@)),
            decreases classes@.len() - i,
        {
            let ghost pre = old_texts.subrange(0, i as int);
            proof {
                assert(old_texts.subrange(0, i as int + 1) =~= pre.push(old_texts[i as int]));
                pre.lemma_filter_push(old_texts[i as int], other_than(class@));
            }
            if !text_eq(classes[i].as_str(), class) {
                let c = classes[i].clone();
                kept.push(c);
                assert(texts(kept@) =~= pre.filter(other_than(class@)).push(old_texts[i as int]));
            }
            i = i + 1;
        }
        assert(old_texts.subrange(0, i as int) =~= old_texts);
        *classes = kept;
    }
}

/// The height fixed by constraints whose minimum and maximum height agree.
pub open spec fn fixed_height(c: LayoutConstraints) -> Option<usize> {
    match (c.min_height, c.max_height) {
        (Some(lo), Some(hi)) => if lo == hi { Some(lo) } else { None },
        _ => None,
    }
}

/// The height pinned by layout constraints, if any.
pub fn fixed_height_from_constraints(c: &LayoutConstraints) -> (h: Option<usize>)
    ensures
        h == fixed_height(*c),
{
    match (c.min_height, c.max_height) {
        (Some(lo), Some(hi)) => if lo == hi { Some(lo) } else { None },
        _ => None,
    }
}

/// After switching `class` on or off, the list holds it exactly when it was switched on.
pub proof fn lemma_class_flag_self(classes: Seq<Seq<char>>, class: Seq<char>, on: bool)
    ensures
        class_flag_set(classes, class, on).contains(class) == on,
{
    if on {
        if !classes.contains(class) {
            assert(classes.push(class)[classes.len() as int] == class);
        }
    } else {
        let f = classes.filter(other_than(class));
        if f.contains(class) {
            let i = choose|i: int| 0 <= i < f.len() && f[i] == class;
            classes.lemma_filter_pred(other_than(class), i);
        }
    }
}

/// Switching one class on or off leaves the membership of every other class unchanged.
pub proof fn lemma_class_flag_other(classes: Seq<Seq<char>>, class: Seq<char>, on: bool, other: Seq<char>)
    requires
        other != class,
    ensures
        class_flag_set(classes, class, on).contains(other) == classes.contains(other),
{
    if on {
        if !classes.contains(class) {
            let p = classes.push(class);
            if p.contains(other) {
                let i = choose|i: int| 0 <= i < p.len() && p[i] == other;
                assert(classes[i] == other);
            }
            if classes.contains(other) {
                let i = choose|i: int| 0 <= i < classes.len() && classes[i] == other;
                assert(p[i] == other);
            }
        }
    } else {
        let f = classes.filter(other_than(class));
        if f.contains(other) {
            classes.lemma_filter_contains_rev(other_than(class), other);
        }
        if classes.contains(other) {
            let i = choose|i: int| 0 <= i < classes.len() && classes[i] == other;
            classes.lemma_filter_contains(other_than(class), i);
        }
    }
}

/// Switching a class to the state it is already in twice gives the same list as once.
pub proof fn lemma_class_flag_idempotent(classes: Seq<Seq<char>>, class: Seq<char>, on: bool)
    ensures
        class_flag_set(class_flag_set(classes, class, on), class, on) == class_flag_set(classes, class, on),
{
    let once = class_flag_set(classes, class, on);
    if on {
        lemma_class_flag_self(classes, class, on);
    } else {
        let f = once.filter(other_than(class));
        assert(f =~= once) by {
            lemma_filter_all(once, other_than(class));
        }
    }
}

/// Filtering by a predicate every entry already meets changes nothing.
pub proof fn lemma_filter_all(s: Seq<Seq<char>>, p: spec_fn(Seq<char>) -> bool)
    requires
        forall|i: int| 0 <= i < s.len() ==> p(#[trigger] s[i]),
    ensures
        s.filter(p) == s,
    decreases s.len(),
{
    if s.len() > 0 {
        lemma_filter_all(s.drop_last(), p);
        s.drop_last().lemma_filter_push(s.last(), p);
        assert(s.drop_last().push(s.last()) =~= s);
    } else {
        reveal(Seq::filter);
    }
}

/// Classifying a style against itself finds no change.
pub proof fn law_identical_styles_unchanged(s: Style)
    ensures
        style_change(s, s) == StyleChangeKind::Unchanged,
{
}

/// The classification of a change does not depend on its direction.
pub proof fn law_style_change_symmetric(a: Style, b: Style)
    ensures
        style_change(a, b) == style_change(b, a),
{
}

/// A change of any layout-affecting property needs a relayout, whatever else changed.
pub proof fn law_layout_change_wins(a: Style, b: Style)
    requires
        a.layout_props_differ(&b),
    ensures
        style_change(a, b) == StyleChangeKind::Layout,
{
}

} // verus!
