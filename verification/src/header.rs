//! The header: an icon that opens the command palette, the title (with an
//! optional subtitle) and a clock or a spacer. A click on the header body
//! toggles its tall form; screen title changes override the title until they
//! are withdrawn, when the application's title comes back.

use vstd::prelude::*;
use crate::event::{
    optional_text_change, text_change, BindingHint, Event, EventCtx, Message, MessageEvent, NodeId, ReactiveCtx,
    ReactiveField, ReactiveValue,
};
use crate::footer::opt_text;
use crate::style::Style;
use crate::text::{concat, lemma_replaced_absent, lemma_replaced_once, opt_text_copy, pair_absent, replace_all, replaced, text_eq, text_of, trim, trimmed, two_digit_text, two_digits};
use crate::widget_core::{class_flag_set, set_class_flag, texts, NodeSeed, NodeState};

verus! {

/// The group of the binding that opens the command palette.
pub open spec fn palette_hint_group() -> Seq<char> {
    "command_palette"@
}

/// A tooltip with surrounding whitespace removed; a blank one is no tooltip.
pub open spec fn normalized(text: Option<Seq<char>>) -> Option<Seq<char>> {
    match text {
        Some(t) => if trimmed(t).len() == 0 {
            None
        } else {
            Some(trimmed(t))
        },
        None => None,
    }
}

/// The first hint of the command-palette group.
pub open spec fn palette_hint(hints: Seq<BindingHint>) -> Option<BindingHint>
    decreases hints.len(),
{
    if hints.len() == 0 {
        None
    } else if opt_text(hints[0].group) == Some(palette_hint_group()) {
        Some(hints[0])
    } else {
        palette_hint(hints.drop_first())
    }
}

/// The header's icon: a click on it announces the press and, while a
/// command-palette binding is active, asks for the palette.
#[derive(Debug, Clone)]
pub struct HeaderIcon {
    pub icon: String,
    pub hovered: bool,
    pub pressed: bool,
    /// Key spec of the active command-palette binding.
    pub command_palette_action_key: Option<String>,
    pub command_palette_tooltip: Option<String>,
    pub layout_width: u16,
    pub layout_height: u16,
    pub seed: NodeSeed,
}

impl HeaderIcon {
    /// An icon with the default palette key (`ctrl+p`) and tooltip, laid out 1x1.
    pub fn new(icon: &str) -> (h: HeaderIcon)
        ensures
            h.icon@ == icon@,
            !h.hovered,
            !h.pressed,
            opt_text(h.command_palette_action_key) == Some("ctrl+p"@),
            opt_text(h.command_palette_tooltip) == Some("Open command palette"@),
            h.layout_width == 1,
            h.layout_height == 1,
            h.seed.css_id is None,
            h.seed.classes@.len() == 0,
    {
        HeaderIcon {
            icon: text_of(icon),
            hovered: false,
            pressed: false,
            command_palette_action_key: Some(text_of("ctrl+p")),
            command_palette_tooltip: Some(text_of("Open command palette")),
            layout_width: 1,
            layout_height: 1,
            seed: NodeSeed::new(),
        }
    }

    /// A tooltip with surrounding whitespace removed; blank becomes none.
    pub fn normalize_tooltip(text: &Option<String>) -> (r: Option<String>)
        ensures
            opt_text(r) == normalized(opt_text(*text)),
    {
        match text {
            Some(t) => {
                let v = trim(t.as_str());
                if v.unicode_len() == 0 {
                    None
                } else {
                    Some(v)
                }
            },
            None => None,
        }
    }

    /// The first hint of the command-palette group.
    pub fn command_palette_hint(bindings: &Vec<BindingHint>) -> (r: Option<BindingHint>)
        ensures
            r == palette_hint(bindings@),
    {
        let ghost all = bindings@;
        assert(all.subrange(0, all.len() as int) =~= all);
        let mut i: usize = 0;
        while i < bindings.len()
            invariant
                all == bindings@,
                i <= all.len(),
                palette_hint(all) == palette_hint(all.subrange(i as int, all.len() as int)),
            decreases all.len() - i,
        {
            assert(all.subrange(i as int, all.len() as int)[0] == all[i as int]);
            let is_palette = match &bindings[i].group {
                Some(g) => text_eq(g.as_str(), "command_palette"),
                None => false,
            };
            if is_palette {
                return Some(bindings[i].duplicate());
            }
            assert(all.subrange(i as int, all.len() as int).drop_first() =~= all.subrange(
                i as int + 1,
                all.len() as int,
            ));
            i = i + 1;
        }
        None
    }

    /// Take the palette key and tooltip from the active bindings; true when either changed.
    pub fn apply_bindings(&mut self, bindings: &Vec<BindingHint>) -> (changed: bool)
        ensures
            ({
                let hint = palette_hint(bindings@);
                let key = match hint {
                    Some(h) => Some(h.key@),
                    None => None,
                };
                let tip = match hint {
                    Some(h) => normalized(opt_text(h.tooltip)),
                    None => None,
                };
                &&& opt_text(final(self).command_palette_action_key) == key
                &&& opt_text(final(self).command_palette_tooltip) == tip
                &&& *final(self) == (HeaderIcon {
                    command_palette_action_key: final(self).command_palette_action_key,
                    command_palette_tooltip: final(self).command_palette_tooltip,
                    ..*old(self)
                })
                &&& changed == (opt_text(old(self).command_palette_action_key) != key || opt_text(
                    old(self).command_palette_tooltip,
                ) != tip)
            }),
    {
        let (next_key, next_tip): (Option<String>, Option<String>) = match HeaderIcon::command_palette_hint(
            bindings,
        ) {
            Some(hint) => (Some(hint.key.clone()), HeaderIcon::normalize_tooltip(&hint.tooltip)),
            None => (None, None),
        };
        let changed = !crate::footer::opt_text_eq(&self.command_palette_action_key, &next_key)
            || !crate::footer::opt_text_eq(&self.command_palette_tooltip, &next_tip);
        self.command_palette_action_key = next_key;
        self.command_palette_tooltip = next_tip;
        changed
    }

    /// Handle an event dispatched to the icon's node (`ctx.node`).
    pub fn on_event(&mut self, event: &Event, ctx: &mut EventCtx)
        ensures
            HeaderIcon::event_effect(*old(self), *final(self), *event, *old(ctx), *final(ctx)),
    {
        match event {
            Event::BindingsChanged(bindings) => {
                if self.apply_bindings(bindings) {
                    ctx.request_repaint();
                }
            },
            Event::MouseDown(mouse) => {
                if mouse.target == ctx.node {
                    self.pressed = true;
                    ctx.set_handled();
                }
            },
            Event::MouseUp(mouse) => {
                if !self.pressed {
                    return;
                }
                self.pressed = false;
                if mouse.target == Some(ctx.node) {
                    ctx.post_message(Message::HeaderIconPressed);
                    if self.command_palette_action_key.is_some() {
                        ctx.post_message(Message::AppCommandPalette);
                    }
                    ctx.request_repaint();
                    ctx.set_handled();
                }
            },
            Event::AppFocus(active) => {
                if !*active {
                    self.hovered = false;
                    self.pressed = false;
                }
            },
            _ => {},
        }
    }

    /// What handling `event` does to the icon and the dispatch context.
    pub open spec fn event_effect(old: HeaderIcon, new: HeaderIcon, event: Event, c0: EventCtx, c1: EventCtx) -> bool {
        match event {
            Event::BindingsChanged(bindings) => {
                let hint = palette_hint(bindings@);
                let key = match hint {
                    Some(h) => Some(h.key@),
                    None => None,
                };
                let tip = match hint {
                    Some(h) => normalized(opt_text(h.tooltip)),
                    None => None,
                };
                let changed = opt_text(old.command_palette_action_key) != key || opt_text(old.command_palette_tooltip) != tip;
                &&& opt_text(new.command_palette_action_key) == key
                &&& opt_text(new.command_palette_tooltip) == tip
                &&& new == (HeaderIcon {
                    command_palette_action_key: new.command_palette_action_key,
                    command_palette_tooltip: new.command_palette_tooltip,
                    ..old
                })
                &&& c1 == (if changed { EventCtx { repaint: true, ..c0 } } else { c0 })
            },
            Event::MouseDown(m) => if m.target == c0.node {
                new == (HeaderIcon { pressed: true, ..old }) && c1 == (EventCtx { handled: true, ..c0 })
            } else {
                new == old && c1 == c0
            },
            Event::MouseUp(m) => if !old.pressed {
                new == old && c1 == c0
            } else if m.target == Some(c0.node) {
                &&& new == (HeaderIcon { pressed: false, ..old })
                &&& c1 == (EventCtx { messages: c1.messages, handled: true, repaint: true, ..c0 })
                &&& c1.messages@ == (if old.command_palette_action_key is Some {
                    c0.messages@.push(MessageEvent { sender: c0.node, message: Message::HeaderIconPressed }).push(
                        MessageEvent { sender: c0.node, message: Message::AppCommandPalette },
                    )
                } else {
                    c0.messages@.push(MessageEvent { sender: c0.node, message: Message::HeaderIconPressed })
                })
            } else {
                new == (HeaderIcon { pressed: false, ..old }) && c1 == c0
            },
            Event::AppFocus(active) => c1 == c0 && new == (if active {
                old
            } else {
                HeaderIcon { hovered: false, pressed: false, ..old }
            }),
            _ => new == old && c1 == c0,
        }
    }

    /// The hover state follows the node's state.
    pub fn on_node_state_changed(&mut self, old_state: NodeState, new_state: NodeState)
        ensures
            *final(self) == (HeaderIcon { hovered: new_state.hovered, ..*old(self) }),
    {
        self.hovered = new_state.hovered;
    }

    /// Record the laid-out size (each at least 1).
    pub fn on_layout(&mut self, width: u16, height: u16)
        ensures
            *final(self) == (HeaderIcon {
                layout_width: if width == 0 { 1 } else { width },
                layout_height: if height == 0 { 1 } else { height },
                ..*old(self)
            }),
    {
        self.layout_width = if width == 0 {
            1
        } else {
            width
        };
        self.layout_height = if height == 0 {
            1
        } else {
            height
        };
    }

    /// The palette tooltip, trimmed; none when blank.
    pub fn tooltip(&self) -> (t: Option<String>)
        ensures
            opt_text(t) == normalized(opt_text(self.command_palette_tooltip)),
    {
        HeaderIcon::normalize_tooltip(&self.command_palette_tooltip)
    }

    /// The tooltip hangs from the middle of the icon's bottom row.
    pub fn tooltip_anchor(&self) -> (a: Option<(u16, u16)>)
        ensures
            a == Some(
                (
                    ((if self.layout_width == 0 { 1 } else { self.layout_width }) / 2) as u16,
                    ((if self.layout_height == 0 { 1 } else { self.layout_height }) - 1) as u16,
                ),
            ),
    {
        let width: u16 = if self.layout_width == 0 {
            1
        } else {
            self.layout_width
        };
        let height: u16 = if self.layout_height == 0 {
            1
        } else {
            self.layout_height
        };
        Some((width / 2, height - 1))
    }

    /// The icon reacts to the mouse.
    pub fn mouse_interactive(&self) -> (b: bool)
        ensures
            b,
    {
        true
    }

    /// The icon shows as active while pressed.
    pub fn is_active(&self) -> (b: bool)
        ensures
            b == self.pressed,
    {
        self.pressed
    }

    pub fn style_type(&self) -> (s: &'static str)
        ensures
            s@ == "HeaderIcon"@,
    {
        "HeaderIcon"
    }

    /// The rendered text: the icon.
    pub fn render_text(&self) -> (t: String)
        ensures
            t@ == self.icon@,
    {
        self.icon.clone()
    }
}

/// A subtitle worth showing: present and not empty.
pub open spec fn active_subtitle_of(subtitle: Option<String>) -> Option<Seq<char>> {
    match subtitle {
        Some(s) => if s@.len() > 0 {
            Some(s@)
        } else {
            None
        },
        None => None,
    }
}

/// The separator between title and subtitle.
pub open spec fn title_separator() -> Seq<char> {
    " \u{2014} "@
}

/// The header's title line.
#[derive(Debug, Clone)]
pub struct HeaderTitle {
    pub title: String,
    pub subtitle: Option<String>,
    pub default_title: String,
    pub default_subtitle: Option<String>,
    pub seed: NodeSeed,
}

/// A title and subtitle after a screen title change: each falls back to its
/// default when the screen gives none.
pub open spec fn retitled(
    title: Option<String>,
    sub_title: Option<String>,
    default_title: String,
    default_subtitle: Option<String>,
) -> (Seq<char>, Option<Seq<char>>) {
    (
        match title {
            Some(t) => t@,
            None => default_title@,
        },
        match sub_title {
            Some(s) => Some(s@),
            None => opt_text(default_subtitle),
        },
    )
}

impl HeaderTitle {
    pub fn new(default_title: &str, default_subtitle: Option<String>, title: &str, subtitle: Option<String>) -> (h:
        HeaderTitle)
        ensures
            h.title@ == title@,
            h.subtitle == subtitle,
            h.default_title@ == default_title@,
            h.default_subtitle == default_subtitle,
            h.seed.css_id is None,
            h.seed.classes@.len() == 0,
    {
        HeaderTitle {
            title: text_of(title),
            subtitle,
            default_title: text_of(default_title),
            default_subtitle,
            seed: NodeSeed::new(),
        }
    }

    /// The subtitle, unless absent or empty.
    pub fn active_subtitle(&self) -> (r: Option<&str>)
        ensures
            match r {
                Some(s) => active_subtitle_of(self.subtitle) == Some(s@),
                None => active_subtitle_of(self.subtitle) is None,
            },
    {
        match &self.subtitle {
            Some(s) => if s.unicode_len() > 0 {
                Some(s.as_str())
            } else {
                None
            },
            None => None,
        }
    }

    /// A screen title change replaces title and subtitle (falling back to the
    /// defaults) and asks for a repaint; other messages change nothing.
    pub fn on_message(&mut self, message: &MessageEvent, ctx: &mut EventCtx)
        ensures
            match message.message {
                Message::ScreenTitleChanged { title, sub_title } => {
                    let (t, s) = retitled(title, sub_title, old(self).default_title, old(self).default_subtitle);
                    &&& final(self).title@ == t
                    &&& opt_text(final(self).subtitle) == s
                    &&& *final(self) == (HeaderTitle {
                        title: final(self).title,
                        subtitle: final(self).subtitle,
                        ..*old(self)
                    })
                    &&& *final(ctx) == (EventCtx { repaint: true, ..*old(ctx) })
                },
                _ => *final(self) == *old(self) && *final(ctx) == *old(ctx),
            },
    {
        if let Message::ScreenTitleChanged { title, sub_title } = &message.message {
            self.title = match title {
                Some(t) => t.clone(),
                None => self.default_title.clone(),
            };
            self.subtitle = match sub_title {
                Some(s) => Some(s.clone()),
                None => opt_text_copy(&self.default_subtitle),
            };
            ctx.request_repaint();
        }
    }

    pub fn style_type(&self) -> (s: &'static str)
        ensures
            s@ == "HeaderTitle"@,
    {
        "HeaderTitle"
    }

    /// The rendered line: the title, then ` — ` and the subtitle when there is one.
    pub fn render_text(&self) -> (t: String)
        ensures
            t@ == match active_subtitle_of(self.subtitle) {
                Some(s) => self.title@ + title_separator() + s,
                None => self.title@,
            },
    {
        match self.active_subtitle() {
            Some(s) => {
                let mut t = concat(self.title.as_str(), " \u{2014} ");
                t.append(s);
                t
            },
            None => self.title.clone(),
        }
    }
}

/// The space a header keeps for the clock when the clock is off.
#[derive(Debug, Clone)]
pub struct HeaderClockSpace {
    pub seed: NodeSeed,
}

impl HeaderClockSpace {
    pub fn new() -> (h: HeaderClockSpace)
        ensures
            h.seed.css_id is None,
            h.seed.classes@.len() == 0,
    {
        HeaderClockSpace { seed: NodeSeed::new() }
    }

    pub fn style_type(&self) -> (s: &'static str)
        ensures
            s@ == "HeaderClockSpace"@,
    {
        "HeaderClockSpace"
    }
}

impl Default for HeaderClockSpace {
    fn default() -> (h: HeaderClockSpace)
        ensures
            h.seed.css_id is None,
            h.seed.classes@.len() == 0,
    {
        HeaderClockSpace::new()
    }
}

/// Hours, minutes and seconds of the time of day of an epoch second.
pub open spec fn day_hms(epoch_seconds: u64) -> (int, int, int) {
    let day: int = epoch_seconds as int % 86400;
    (day / 3600, (day % 3600) / 60, day % 60)
}

/// `HH:MM:SS` of an epoch second.
pub open spec fn hms_text(epoch_seconds: u64) -> Seq<char> {
    let (h, m, s) = day_hms(epoch_seconds);
    two_digits(h) + seq![':'] + two_digits(m) + seq![':'] + two_digits(s)
}

/// The clock text: the format with `%X` and `%T` replaced by `HH:MM:SS` and
/// `%H`, `%M`, `%S` by the two-digit fields; a format with none of these
/// gives `HH:MM:SS`.
pub open spec fn clock_text(format: Seq<char>, epoch_seconds: u64) -> Seq<char> {
    let (h, m, s) = day_hms(epoch_seconds);
    let hms = hms_text(epoch_seconds);
    let f = replaced(
        replaced(
            replaced(replaced(replaced(format, "%X"@, hms), "%T"@, hms), "%H"@, two_digits(h)),
            "%M"@,
            two_digits(m),
        ),
        "%S"@,
        two_digits(s),
    );
    if f == format {
        hms
    } else {
        f
    }
}

/// Two digits hold neither `%` nor `:`.
proof fn lemma_two_digits_plain(v: int)
    ensures
        two_digits(v).len() == 2,
        two_digits(v)[0] != '%' && two_digits(v)[0] != ':',
        two_digits(v)[1] != '%' && two_digits(v)[1] != ':',
{
}

/// A text without `%` holds no two-character pattern starting with `%`.
proof fn lemma_no_percent_absent(s: Seq<char>, q: Seq<char>)
    requires
        q.len() == 2,
        q[0] == '%',
        forall|i: int| 0 <= i < s.len() ==> s[i] != '%',
    ensures
        pair_absent(s, q),
{
    assert forall|i: int| 0 <= i && i + 1 < s.len() implies !(#[trigger] s[i] == q[0] && s[i + 1] == q[1]) by {
        assert(s[i] != '%');
    }
}

/// The clock's fields: `%S` is the two-digit second of the minute, `%M`
/// the minute of the hour and `%H` the hour of the day, so that
/// `%H:%M:%S` reads the same as `%X` at every second.
pub proof fn law_clock_fields(e: u64)
    ensures
        clock_text("%S"@, e) == two_digits(e as int % 60),
        clock_text("%M"@, e) == two_digits((e as int % 3600) / 60),
        clock_text("%H"@, e) == two_digits((e as int % 86400) / 3600),
        clock_text("%H:%M:%S"@, e) == clock_text("%X"@, e),
{
    reveal_strlit("%X");
    reveal_strlit("%T");
    reveal_strlit("%H");
    reveal_strlit("%M");
    reveal_strlit("%S");
    reveal_strlit("%H:%M:%S");
    let (h, m, sec) = day_hms(e);
    let hh = two_digits(h);
    let mm = two_digits(m);
    let ss = two_digits(sec);
    let hms = hms_text(e);
    lemma_two_digits_plain(h);
    lemma_two_digits_plain(m);
    lemma_two_digits_plain(sec);
    vstd::arithmetic::div_mod::lemma_mod_mod(e as int, 60, 1440);
    vstd::arithmetic::div_mod::lemma_mod_mod(e as int, 3600, 24);
    assert(sec == e as int % 60);
    assert(m == (e as int % 3600) / 60);
    let px = "%X"@;
    let pt = "%T"@;
    let ph = "%H"@;
    let pm = "%M"@;
    let ps = "%S"@;
    assert(px =~= seq!['%', 'X'] && pt =~= seq!['%', 'T'] && ph =~= seq!['%', 'H']);
    assert(pm =~= seq!['%', 'M'] && ps =~= seq!['%', 'S']);
    let e0 = Seq::<char>::empty();
    let colon = seq![':'];
    assert(hms =~= hh + colon + mm + colon + ss);
    assert forall|i: int| 0 <= i < hms.len() implies hms[i] != '%' by {
        if i < 2 { assert(hms[i] == hh[i]); } else if i == 2 { } else if i < 5 { assert(hms[i] == mm[i - 3]); } else if i == 5 { } else { assert(hms[i] == ss[i - 6]); }
    }
    // `%X`: the whole time.
    lemma_replaced_once(e0, e0, px, hms);
    assert(e0 + px + e0 =~= px);
    assert(e0 + hms + e0 =~= hms);
    lemma_no_percent_absent(hms, pt);
    lemma_no_percent_absent(hms, ph);
    lemma_no_percent_absent(hms, pm);
    lemma_no_percent_absent(hms, ps);
    lemma_replaced_absent(hms, pt, hms);
    lemma_replaced_absent(hms, ph, hh);
    lemma_replaced_absent(hms, pm, mm);
    lemma_replaced_absent(hms, ps, ss);
    assert(hms[0] != px[0]);
    assert(clock_text(px, e) == hms);
    // `%S` alone.
    lemma_replaced_absent(ps, px, hms);
    lemma_replaced_absent(ps, pt, hms);
    lemma_replaced_absent(ps, ph, hh);
    lemma_replaced_absent(ps, pm, mm);
    lemma_replaced_once(e0, e0, ps, ss);
    assert(e0 + ps + e0 =~= ps);
    assert(e0 + ss + e0 =~= ss);
    assert(ss[0] != ps[0]);
    assert(clock_text(ps, e) == ss);
    // `%M` alone.
    lemma_replaced_absent(pm, px, hms);
    lemma_replaced_absent(pm, pt, hms);
    lemma_replaced_absent(pm, ph, hh);
    lemma_replaced_once(e0, e0, pm, mm);
    assert(e0 + pm + e0 =~= pm);
    assert(e0 + mm + e0 =~= mm);
    lemma_no_percent_absent(mm, ps);
    lemma_replaced_absent(mm, ps, ss);
    assert(mm[0] != pm[0]);
    assert(clock_text(pm, e) == mm);
    // `%H` alone.
    lemma_replaced_absent(ph, px, hms);
    lemma_replaced_absent(ph, pt, hms);
    lemma_replaced_once(e0, e0, ph, hh);
    assert(e0 + ph + e0 =~= ph);
    assert(e0 + hh + e0 =~= hh);
    lemma_no_percent_absent(hh, pm);
    lemma_no_percent_absent(hh, ps);
    lemma_replaced_absent(hh, pm, mm);
    lemma_replaced_absent(hh, ps, ss);
    assert(hh[0] != ph[0]);
    assert(clock_text(ph, e) == hh);
    // `%H:%M:%S`, field by field.
    let f0 = "%H:%M:%S"@;
    let r1 = seq![':', '%', 'M', ':', '%', 'S'];
    let r2 = seq![':', '%', 'S'];
    assert(f0 =~= e0 + ph + r1);
    assert forall|i: int| 0 <= i && i + 1 < f0.len() implies !(#[trigger] f0[i] == px[0] && f0[i + 1] == px[1]) by {}
    assert forall|i: int| 0 <= i && i + 1 < f0.len() implies !(#[trigger] f0[i] == pt[0] && f0[i + 1] == pt[1]) by {}
    lemma_replaced_absent(f0, px, hms);
    lemma_replaced_absent(f0, pt, hms);
    assert forall|i: int| 0 <= i && i + 1 < r1.len() implies !(#[trigger] r1[i] == ph[0] && r1[i + 1] == ph[1]) by {}
    lemma_replaced_once(e0, r1, ph, hh);
    let f3 = e0 + hh + r1;
    let a4 = hh + colon;
    assert(f3 =~= a4 + pm + r2);
    assert forall|i: int| 0 <= i < a4.len() implies a4[i] != '%' by {
        if i < 2 { assert(a4[i] == hh[i]); }
    }
    lemma_no_percent_absent(a4, pm);
    assert forall|i: int| 0 <= i && i + 1 < r2.len() implies !(#[trigger] r2[i] == pm[0] && r2[i + 1] == pm[1]) by {}
    lemma_replaced_once(a4, r2, pm, mm);
    let f4 = a4 + mm + r2;
    let a5 = hh + colon + mm + colon;
    assert(f4 =~= a5 + ps + e0);
    assert forall|i: int| 0 <= i < a5.len() implies a5[i] != '%' by {
        if i < 2 { assert(a5[i] == hh[i]); } else if i == 2 { } else if i < 5 { assert(a5[i] == mm[i - 3]); }
    }
    lemma_no_percent_absent(a5, ps);
    lemma_replaced_once(a5, e0, ps, ss);
    assert(a5 + ss + e0 =~= hms);
    assert(hms[0] != f0[0]);
    assert(clock_text(f0, e) == hms);
}

/// The header clock. The current time is handed in by the caller.
#[derive(Debug, Clone)]
pub struct HeaderClock {
    pub time_format: String,
    /// The epoch second last rendered.
    pub last_clock_second: u64,
    pub seed: NodeSeed,
}

impl HeaderClock {
    pub fn new(time_format: &str) -> (c: HeaderClock)
        ensures
            c.time_format@ == time_format@,
            c.last_clock_second == 0,
            c.seed.css_id is None,
            c.seed.classes@.len() == 0,
    {
        HeaderClock { time_format: text_of(time_format), last_clock_second: 0, seed: NodeSeed::new() }
    }

    /// The clock text for an epoch second.
    pub fn format_clock(&self, epoch_seconds: u64) -> (t: String)
        ensures
            t@ == clock_text(self.time_format@, epoch_seconds),
    {
        let day_seconds = epoch_seconds % 86400;
        let hours = day_seconds / 3600;
        let minutes = (day_seconds % 3600) / 60;
        let seconds = day_seconds % 60;
        let h = two_digit_text(hours);
        let m = two_digit_text(minutes);
        let s = two_digit_text(seconds);
        let mut hms = h.clone();
        hms.append(":");
        hms.append(m.as_str());
        hms.append(":");
        hms.append(s.as_str());
        proof {
            reveal_strlit(":");
            reveal_strlit("%X");
            reveal_strlit("%T");
            reveal_strlit("%H");
            reveal_strlit("%M");
            reveal_strlit("%S");
            assert(hms@ =~= hms_text(epoch_seconds));
        }
        let f1 = replace_all(self.time_format.as_str(), "%X", hms.as_str());
        let f2 = replace_all(f1.as_str(), "%T", hms.as_str());
        let f3 = replace_all(f2.as_str(), "%H", h.as_str());
        let f4 = replace_all(f3.as_str(), "%M", m.as_str());
        let f5 = replace_all(f4.as_str(), "%S", s.as_str());
        if text_eq(f5.as_str(), self.time_format.as_str()) {
            hms
        } else {
            f5
        }
    }

    /// The clock needs a repaint when the second has moved on since the last render.
    pub fn is_active_at(&self, now_seconds: u64) -> (b: bool)
        ensures
            b == (now_seconds != self.last_clock_second),
    {
        now_seconds != self.last_clock_second
    }

    /// Render at an epoch second, remembering it.
    pub fn render_at(&mut self, now_seconds: u64) -> (t: String)
        ensures
            t@ == clock_text(old(self).time_format@, now_seconds),
            *final(self) == (HeaderClock { last_clock_second: now_seconds, ..*old(self) }),
    {
        self.last_clock_second = now_seconds;
        self.format_clock(now_seconds)
    }

    pub fn style_type(&self) -> (s: &'static str)
        ensures
            s@ == "HeaderClock"@,
    {
        "HeaderClock"
    }
}

/// The children a header composes into.
#[derive(Debug, Clone)]
pub enum HeaderChild {
    Icon(HeaderIcon),
    Title(HeaderTitle),
    Clock(HeaderClock),
    ClockSpace(HeaderClockSpace),
}

/// The header widget.
#[derive(Debug, Clone)]
pub struct Header {
    pub title: String,
    pub subtitle: Option<String>,
    /// The application's title, shown when no screen title is active.
    pub default_title: String,
    /// The application's subtitle, shown when no screen subtitle is active.
    pub default_subtitle: Option<String>,
    pub tall: bool,
    pub icon: String,
    pub pressed: bool,
    pub press_in_toggle_zone: bool,
    pub show_clock: bool,
    pub time_format: String,
    pub children_extracted: bool,
    pub seed: NodeSeed,
}

/// Columns right of the icon lane (`x > 1`) toggle the tall form.
pub open spec fn in_toggle_zone(x: u16) -> bool {
    x > 1
}

/// The title after `set_title(title)`: the given one, or the default.
pub open spec fn title_choice(title: Option<Seq<char>>, default_title: Seq<char>) -> Seq<char> {
    match title {
        Some(t) => t,
        None => default_title,
    }
}

/// The subtitle after `set_subtitle(subtitle)`: the given one, or the default.
pub open spec fn subtitle_choice(subtitle: Option<Seq<char>>, default_subtitle: Option<Seq<char>>) -> Option<Seq<char>> {
    match subtitle {
        Some(s) => Some(s),
        None => default_subtitle,
    }
}

/// The text of an optional `&str`.
pub open spec fn opt_str(o: Option<&str>) -> Option<Seq<char>> {
    match o {
        Some(s) => Some(s@),
        None => None,
    }
}

impl Header {
    /// Titled `textual-rs`, no subtitle, short, no clock, icon `⭘`, clock format `%X`.
    pub fn new() -> (h: Header)
        ensures
            h.title@ == "textual-rs"@,
            h.default_title@ == "textual-rs"@,
            h.subtitle is None,
            h.default_subtitle is None,
            !h.tall,
            h.icon@ == "\u{2b58}"@,
            !h.pressed,
            !h.press_in_toggle_zone,
            !h.show_clock,
            h.time_format@ == "%X"@,
            !h.children_extracted,
            h.seed.css_id is None,
            h.seed.classes@.len() == 0,
    {
        Header {
            title: text_of("textual-rs"),
            subtitle: None,
            default_title: text_of("textual-rs"),
            default_subtitle: None,
            tall: false,
            icon: text_of("\u{2b58}"),
            pressed: false,
            press_in_toggle_zone: false,
            show_clock: false,
            time_format: text_of("%X"),
            children_extracted: false,
            seed: NodeSeed::new(),
        }
    }

    /// Set both the shown and the default title.
    pub fn title(self, title: &str) -> (h: Header)
        ensures
            h == (Header { title: h.title, default_title: h.default_title, ..self }),
            h.title@ == title@,
            h.default_title@ == title@,
    {
        Header { title: text_of(title), default_title: text_of(title), ..self }
    }

    /// Set both the shown and the default subtitle.
    pub fn subtitle(self, subtitle: &str) -> (h: Header)
        ensures
            h == (Header { subtitle: h.subtitle, default_subtitle: h.default_subtitle, ..self }),
            opt_text(h.subtitle) == Some(subtitle@),
            opt_text(h.default_subtitle) == Some(subtitle@),
    {
        Header { subtitle: Some(text_of(subtitle)), default_subtitle: Some(text_of(subtitle)), ..self }
    }

    /// Remove both the shown and the default subtitle.
    pub fn clear_subtitle(self) -> (h: Header)
        ensures
            h == (Header { subtitle: None, default_subtitle: None, ..self }),
    {
        Header { subtitle: None, default_subtitle: None, ..self }
    }

    pub fn get_title(&self) -> (t: &str)
        ensures
            t@ == self.title@,
    {
        self.title.as_str()
    }

    pub fn get_subtitle(&self) -> (s: Option<&str>)
        ensures
            opt_str(s) == opt_text(self.subtitle),
    {
        match &self.subtitle {
            Some(s) => Some(s.as_str()),
            None => None,
        }
    }

    pub fn get_show_clock(&self) -> (b: bool)
        ensures
            b == self.show_clock,
    {
        self.show_clock
    }

    pub fn get_tall(&self) -> (b: bool)
        ensures
            b == self.tall,
    {
        self.tall
    }

    /// Reactive setter of the shown title; `None` reverts to the default title.
    /// A change is recorded; setting the shown title again changes nothing.
    pub fn set_title(&mut self, title: Option<&str>, ctx: &mut ReactiveCtx)
        ensures
            final(self).title@ == title_choice(opt_str(title), old(self).default_title@),
            final(self).default_title == old(self).default_title,
            ({
                let t = title_choice(opt_str(title), old(self).default_title@);
                if old(self).title@ == t {
                    *final(self) == *old(self) && *final(ctx) == *old(ctx)
                } else {
                    &&& final(self).title@ == t
                    &&& *final(self) == (Header { title: final(self).title, ..*old(self) })
                    &&& final(ctx).node == old(ctx).node
                    &&& final(ctx).changes@.len() == old(ctx).changes@.len() + 1
                    &&& final(ctx).changes@.drop_last() == old(ctx).changes@
                    &&& text_change(final(ctx).changes@.last(), ReactiveField::Title, false, old(self).title@, t)
                }
            }),
    {
        let new_title = match title {
            Some(t) => text_of(t),
            None => self.default_title.clone(),
        };
        if !text_eq(self.title.as_str(), new_title.as_str()) {
            let previous = text_of(self.title.as_str());
            let current = text_of(new_title.as_str());
            self.title = new_title;
            ctx.record_change(ReactiveField::Title, false, ReactiveValue::Text(previous), ReactiveValue::Text(current));
            assert(ctx.changes@.drop_last() =~= old(ctx).changes@);
        }
    }

    /// Reactive setter of the shown subtitle; `None` reverts to the default subtitle.
    pub fn set_subtitle(&mut self, subtitle: Option<&str>, ctx: &mut ReactiveCtx)
        ensures
            ({
                let s = subtitle_choice(opt_str(subtitle), opt_text(old(self).default_subtitle));
                if opt_text(old(self).subtitle) == s {
                    *final(self) == *old(self) && *final(ctx) == *old(ctx)
                } else {
                    &&& opt_text(final(self).subtitle) == s
                    &&& *final(self) == (Header { subtitle: final(self).subtitle, ..*old(self) })
                    &&& final(ctx).node == old(ctx).node
                    &&& final(ctx).changes@.len() == old(ctx).changes@.len() + 1
                    &&& final(ctx).changes@.drop_last() == old(ctx).changes@
                    &&& optional_text_change(final(ctx).changes@.last(), ReactiveField::Subtitle, false, opt_text(old(self).subtitle), s)
                }
            }),
    {
        let new_subtitle = match subtitle {
            Some(s) => Some(text_of(s)),
            None => opt_text_copy(&self.default_subtitle),
        };
        if !crate::footer::opt_text_eq(&self.subtitle, &new_subtitle) {
            let previous = opt_text_copy(&self.subtitle);
            let current = opt_text_copy(&new_subtitle);
            self.subtitle = new_subtitle;
            ctx.record_change(ReactiveField::Subtitle, false, ReactiveValue::OptionalText(previous), ReactiveValue::OptionalText(current));
            assert(ctx.changes@.drop_last() =~= old(ctx).changes@);
        }
    }

    pub fn set_show_clock(&mut self, value: bool, ctx: &mut ReactiveCtx)
        ensures
            old(self).show_clock == value ==> *final(self) == *old(self) && *final(ctx) == *old(ctx),
            old(self).show_clock != value ==> {
                &&& *final(self) == (Header { show_clock: value, ..*old(self) })
                &&& final(ctx).node == old(ctx).node
                &&& final(ctx).changes@ == old(ctx).changes@.push(
                    crate::event::ReactiveChange {
                        field: ReactiveField::ShowClock,
                        layout: false,
                        previous: ReactiveValue::Flag(old(self).show_clock),
                        current: ReactiveValue::Flag(value),
                    },
                )
            },
    {
        if self.show_clock != value {
            self.show_clock = value;
            ctx.record_change(ReactiveField::ShowClock, false, ReactiveValue::Flag(!value), ReactiveValue::Flag(value));
        }
    }

    /// Reactive setter of the tall form, recorded as a layout-affecting change.
    pub fn set_tall(&mut self, value: bool, ctx: &mut ReactiveCtx)
        ensures
            old(self).tall == value ==> *final(self) == *old(self) && *final(ctx) == *old(ctx),
            old(self).tall != value ==> {
                &&& *final(self) == (Header { tall: value, ..*old(self) })
                &&& final(ctx).node == old(ctx).node
                &&& final(ctx).changes@ == old(ctx).changes@.push(
                    crate::event::ReactiveChange {
                        field: ReactiveField::Tall,
                        layout: true,
                        previous: ReactiveValue::Flag(old(self).tall),
                        current: ReactiveValue::Flag(value),
                    },
                )
            },
    {
        if self.tall != value {
            self.tall = value;
            ctx.record_change(ReactiveField::Tall, true, ReactiveValue::Flag(!value), ReactiveValue::Flag(value));
        }
    }

    /// Builder form of the tall flag; also switches the `-tall` class of the seed.
    pub fn tall(self, tall: bool) -> (h: Header)
        ensures
            h == (Header { tall, seed: h.seed, ..self }),
            h.seed == (NodeSeed { classes: h.seed.classes, ..self.seed }),
            texts(h.seed.classes@) == class_flag_set(texts(self.seed.classes@), "-tall"@, tall),
    {
        let mut h = self;
        h.tall = tall;
        set_class_flag(&mut h.seed.classes, "-tall", tall);
        h
    }

    pub fn icon(self, icon: &str) -> (h: Header)
        ensures
            h == (Header { icon: h.icon, ..self }),
            h.icon@ == icon@,
    {
        Header { icon: text_of(icon), ..self }
    }

    pub fn show_clock(self, show_clock: bool) -> (h: Header)
        ensures
            h == (Header { show_clock, ..self }),
    {
        Header { show_clock, ..self }
    }

    pub fn time_format(self, time_format: &str) -> (h: Header)
        ensures
            h == (Header { time_format: h.time_format, ..self }),
            h.time_format@ == time_format@,
    {
        Header { time_format: text_of(time_format), ..self }
    }

    /// The header reacts to the mouse.
    pub fn mouse_interactive(&self) -> (b: bool)
        ensures
            b,
    {
        true
    }

    /// What handling `event` does to the header and the dispatch context.
    pub open spec fn event_effect(old: Header, new: Header, event: Event, c0: EventCtx, c1: EventCtx) -> bool {
        match event {
            Event::MouseDown(m) => {
                &&& new == (Header { pressed: true, press_in_toggle_zone: in_toggle_zone(m.x), ..old })
                &&& c1 == (EventCtx { handled: true, ..c0 })
            },
            Event::MouseUp(m) => if !old.pressed {
                new == old && c1 == c0
            } else if m.target is None {
                new == (Header { pressed: false, ..old }) && c1 == c0
            } else if old.press_in_toggle_zone && in_toggle_zone(m.x) {
                &&& new == (Header { pressed: false, tall: !old.tall, ..old })
                &&& c1 == (EventCtx {
                    messages: c1.messages,
                    class_changes: c1.class_changes,
                    handled: true,
                    repaint: true,
                    layout: true,
                    ..c0
                })
                &&& c1.messages@ == c0.messages@.push(
                    MessageEvent { sender: c0.node, message: Message::HeaderToggled { tall: !old.tall } },
                )
                &&& c1.class_changes@.len() == c0.class_changes@.len() + 1
                &&& c1.class_changes@.drop_last() == c0.class_changes@
                &&& c1.class_changes@.last().0@ == "-tall"@
                &&& c1.class_changes@.last().1 == !old.tall
            } else {
                new == (Header { pressed: false, ..old }) && c1 == (EventCtx { handled: true, ..c0 })
            },
            Event::AppFocus(active) => c1 == c0 && new == (if active {
                old
            } else {
                Header { pressed: false, press_in_toggle_zone: false, ..old }
            }),
            _ => new == old && c1 == c0,
        }
    }

    /// A press and release both right of the icon lane toggle the tall form:
    /// the `-tall` class follows, the new form is announced, and relayout and
    /// repaint are requested. A release without a press changes nothing.
    pub fn on_event(&mut self, event: &Event, ctx: &mut EventCtx)
        ensures
            Header::event_effect(*old(self), *final(self), *event, *old(ctx), *final(ctx)),
    {
        match event {
            Event::MouseDown(mouse) => {
                self.pressed = true;
                self.press_in_toggle_zone = mouse.x > 1;
                ctx.set_handled();
            },
            Event::MouseUp(mouse) => {
                if !self.pressed {
                    return;
                }
                self.pressed = false;
                if mouse.target.is_none() {
                    return;
                }
                let release_in_toggle_zone = mouse.x > 1;
                if self.press_in_toggle_zone && release_in_toggle_zone {
                    self.tall = !self.tall;
                    if self.tall {
                        ctx.add_class("-tall");
                    } else {
                        ctx.remove_class("-tall");
                    }
                    ctx.post_message(Message::HeaderToggled { tall: self.tall });
                    ctx.request_layout_invalidation();
                    ctx.request_repaint();
                }
                ctx.set_handled();
            },
            Event::AppFocus(active) => {
                if !*active {
                    self.pressed = false;
                    self.press_in_toggle_zone = false;
                }
            },
            _ => {},
        }
    }

    /// Unmounting forgets a pending press.
    pub fn on_unmount(&mut self)
        ensures
            *final(self) == (Header { pressed: false, press_in_toggle_zone: false, ..*old(self) }),
    {
        self.pressed = false;
        self.press_in_toggle_zone = false;
    }

    /// A screen title change replaces title and subtitle, each falling back to
    /// its default, and asks for a repaint; other messages change nothing.
    pub fn on_message(&mut self, message: &MessageEvent, ctx: &mut EventCtx)
        ensures
            match message.message {
                Message::ScreenTitleChanged { title, sub_title } => {
                    let (t, s) = retitled(title, sub_title, old(self).default_title, old(self).default_subtitle);
                    &&& final(self).title@ == t
                    &&& opt_text(final(self).subtitle) == s
                    &&& *final(self) == (Header {
                        title: final(self).title,
                        subtitle: final(self).subtitle,
                        ..*old(self)
                    })
                    &&& *final(ctx) == (EventCtx { repaint: true, ..*old(ctx) })
                },
                _ => *final(self) == *old(self) && *final(ctx) == *old(ctx),
            },
    {
        if let Message::ScreenTitleChanged { title, sub_title } = &message.message {
            self.title = match title {
                Some(t) => t.clone(),
                None => self.default_title.clone(),
            };
            self.subtitle = match sub_title {
                Some(s) => Some(s.clone()),
                None => opt_text_copy(&self.default_subtitle),
            };
            ctx.request_repaint();
        }
    }

    /// Three rows tall, else one.
    pub fn layout_height(&self) -> (h: Option<usize>)
        ensures
            h == Some(if self.tall { 3usize } else { 1usize }),
    {
        Some(if self.tall {
            3
        } else {
            1
        })
    }

    /// The children, once: icon, title, then the clock or the space kept for it.
    /// Later calls give nothing.
    pub fn compose(&mut self) -> (children: Vec<HeaderChild>)
        ensures
            old(self).children_extracted ==> children@.len() == 0 && *final(self) == *old(self),
            !old(self).children_extracted ==> {
                &&& *final(self) == (Header { children_extracted: true, ..*old(self) })
                &&& children@.len() == 3
                &&& children@[0] matches HeaderChild::Icon(i) && i.icon@ == old(self).icon@
                    && !i.pressed && opt_text(i.command_palette_action_key) == Some("ctrl+p"@)
                &&& children@[1] matches HeaderChild::Title(t) && t.title@ == old(self).title@
                    && t.subtitle == old(self).subtitle && t.default_title@ == old(self).default_title@
                    && t.default_subtitle == old(self).default_subtitle
                &&& if old(self).show_clock {
                    children@[2] matches HeaderChild::Clock(c) && c.time_format@ == old(self).time_format@
                        && c.last_clock_second == 0
                } else {
                    children@[2] is ClockSpace
                }
            },
    {
        if self.children_extracted {
            return Vec::new();
        }
        self.children_extracted = true;
        let mut children: Vec<HeaderChild> = Vec::new();
        children.push(HeaderChild::Icon(HeaderIcon::new(self.icon.as_str())));
        children.push(
            HeaderChild::Title(
                HeaderTitle::new(
                    self.default_title.as_str(),
                    opt_text_copy(&self.default_subtitle),
                    self.title.as_str(),
                    opt_text_copy(&self.subtitle),
                ),
            ),
        );
        if self.show_clock {
            children.push(HeaderChild::Clock(HeaderClock::new(self.time_format.as_str())));
        } else {
            children.push(HeaderChild::ClockSpace(HeaderClockSpace::new()));
        }
        children
    }

    pub fn style_type(&self) -> (s: &'static str)
        ensures
            s@ == "Header"@,
    {
        "Header"
    }

    /// Set the inline style of the mount seed.
    pub fn set_inline_style(&mut self, style: Style)
        ensures
            *final(self) == (Header {
                seed: NodeSeed { styles: crate::widget_core::WidgetStyles { style, ..old(self).seed.styles }, ..old(self).seed },
                ..*old(self)
            }),
    {
        self.seed.styles.style = style;
    }

    /// Hand over the mount seed (a tall header carries the `-tall` class),
    /// leaving an empty one.
    pub fn take_node_seed(&mut self) -> (seed: NodeSeed)
        ensures
            seed == (NodeSeed { classes: seed.classes, ..old(self).seed }),
            texts(seed.classes@) == (if old(self).tall {
                class_flag_set(texts(old(self).seed.classes@), "-tall"@, true)
            } else {
                texts(old(self).seed.classes@)
            }),
            *final(self) == (Header { seed: final(self).seed, ..*old(self) }),
            final(self).seed.css_id is None,
            final(self).seed.classes@.len() == 0,
            final(self).seed.styles.style.is_unset(),
    {
        let mut seed = NodeSeed::new();
        std::mem::swap(&mut seed, &mut self.seed);
        if self.tall {
            set_class_flag(&mut seed.classes, "-tall", true);
        }
        seed
    }
}

impl Default for Header {
    fn default() -> (h: Header)
        ensures
            h.title@ == "textual-rs"@,
            !h.tall,
            !h.show_clock,
    {
        Header::new()
    }
}

// ── Laws ────────────────────────────────────────────────────────────────

/// Setting a title and then withdrawing it (`set_title(None)`) shows the
/// application's title again: `h1` is what `set_title(Some(title))` leaves of
/// `h0`, and `h2` what `set_title(None)` leaves of `h1`.
pub proof fn law_set_title_none_reverts(h0: Header, h1: Header, h2: Header, title: Seq<char>)
    requires
        h1.title@ == title_choice(Some(title), h0.default_title@),
        h1.default_title == h0.default_title,
        h2.title@ == title_choice(None, h1.default_title@),
    ensures
        h2.title@ == h0.default_title@,
{
}

/// A press and release right of the icon lane, done twice, leaves the header
/// as it was and announces both toggles.
pub proof fn law_double_toggle_restores(
    h0: Header,
    h1: Header,
    h2: Header,
    h3: Header,
    h4: Header,
    down: crate::event::MouseDownEvent,
    up: crate::event::MouseUpEvent,
    c0: EventCtx,
    c1: EventCtx,
    c2: EventCtx,
    c3: EventCtx,
    c4: EventCtx,
    c5: EventCtx,
    c6: EventCtx,
    c7: EventCtx,
)
    requires
        in_toggle_zone(down.x),
        in_toggle_zone(up.x),
        up.target is Some,
        Header::event_effect(h0, h1, Event::MouseDown(down), c0, c1),
        Header::event_effect(h1, h2, Event::MouseUp(up), c2, c3),
        Header::event_effect(h2, h3, Event::MouseDown(down), c4, c5),
        Header::event_effect(h3, h4, Event::MouseUp(up), c6, c7),
    ensures
        h2.tall == !h0.tall,
        h4 == (Header { pressed: false, press_in_toggle_zone: true, ..h0 }),
        c3.messages@.last().message == (Message::HeaderToggled { tall: !h0.tall }),
        c7.messages@.last().message == (Message::HeaderToggled { tall: h0.tall }),
{
}

/// A title message without titles restores the application's title and subtitle.
pub proof fn law_untitled_message_restores_defaults(default_title: String, default_subtitle: Option<String>)
    ensures
        retitled(None, None, default_title, default_subtitle) == (default_title@, opt_text(default_subtitle)),
{
}

} // verus!
