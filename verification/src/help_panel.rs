//! The help panel: help text for the focused widget above a key panel. The
//! help section shows only while there is non-blank help and the application
//! has focus, and never takes more than half the height or the key panel's
//! last line.

use vstd::prelude::*;
use crate::event::{BindingHint, Event, EventCtx, Message, MessageEvent};
use crate::footer::{opt_text, FooterBinding};
use crate::key_panel::{KeyPanel, panel_rows};
use crate::text::{blank, is_blank, text_of};
use crate::widget_core::{texts, NodeSeed};

verus! {

/// Lines of a text as `str::lines` counts them: a line starts at the first
/// character and after every newline that is not the text's last character.
pub open spec fn line_count(s: Seq<char>) -> nat
    decreases s.len(),
{
    if s.len() == 0 {
        0
    } else if s.drop_last().len() == 0 || s.drop_last().last() == '\n' {
        line_count(s.drop_last()) + 1
    } else {
        line_count(s.drop_last())
    }
}

proof fn lemma_line_count_bound(s: Seq<char>)
    ensures
        line_count(s) <= s.len(),
    decreases s.len(),
{
    if s.len() > 0 {
        lemma_line_count_bound(s.drop_last());
    }
}

/// The help section's markup and its intrinsic height: one row per line.
#[derive(Debug, Clone)]
pub struct Markdown {
    pub markup: String,
    pub seed: NodeSeed,
}

impl Markdown {
    pub fn new(markup: &str) -> (m: Markdown)
        ensures
            m.markup@ == markup@,
            m.seed.css_id is None,
            m.seed.classes@.len() == 0,
    {
        Markdown { markup: text_of(markup), seed: NodeSeed::new() }
    }

    pub fn with_id(self, id: &str) -> (m: Markdown)
        ensures
            m.markup == self.markup,
            m.seed == (NodeSeed { css_id: m.seed.css_id, ..self.seed }),
            opt_text(m.seed.css_id) == Some(id@),
    {
        let mut m = self;
        m.seed.css_id = Some(text_of(id));
        m
    }

    pub fn set_markup(&mut self, markup: &str)
        ensures
            final(self).markup@ == markup@,
            final(self).seed == old(self).seed,
    {
        self.markup = text_of(markup);
    }

    /// One row per line of markup; none for empty markup.
    pub fn layout_height(&self) -> (h: Option<usize>)
        ensures
            h == (if line_count(self.markup@) == 0 { None } else { Some(line_count(self.markup@) as usize) }),
            line_count(self.markup@) <= usize::MAX,
    {
        let n = self.markup.unicode_len();
        let mut count: usize = 0;
        let mut i: usize = 0;
        proof {
            lemma_line_count_bound(self.markup@);
        }
        assert(self.markup@.subrange(0, 0) =~= Seq::<char>::empty());
        while i < n
            invariant
                n == self.markup@.len(),
                i <= n,
                count == line_count(self.markup@.subrange(0, i as int)),
                count <= i,
            decreases n - i,
        {
            let c = self.markup.get_char(i);
            let ghost pre = self.markup@.subrange(0, i as int);
            assert(self.markup@.subrange(0, i as int + 1).drop_last() =~= pre);
            assert(self.markup@.subrange(0, i as int + 1).last() == c);
            if i == 0 || self.markup.get_char(i - 1) == '\n' {
                if i > 0 {
                    assert(pre.last() == self.markup@[i - 1]);
                }
                count = count + 1;
            } else {
                assert(pre.last() == self.markup@[i - 1]);
            }
            i = i + 1;
        }
        assert(self.markup@.subrange(0, n as int) =~= self.markup@);
        if count == 0 {
            None
        } else {
            Some(count)
        }
    }
}

/// The intrinsic height of a markdown section, at least 1.
pub open spec fn markdown_rows(markup: Seq<char>) -> usize {
    if line_count(markup) == 0 {
        1
    } else {
        line_count(markup) as usize
    }
}

/// The rows `(help, keys)` a panel `height` rows tall gives its two parts:
/// no help section unless help is shown and the application is active;
/// otherwise the markdown's height capped at half the height (at least 1)
/// and at all but one row (at least 1), the rest (at least 1) for the keys.
pub open spec fn split_rows(show: bool, active: bool, intrinsic: usize, height: usize) -> (usize, usize) {
    let h: usize = if height == 0 { 1 } else { height };
    if !show || !active {
        (0, h)
    } else {
        let half: usize = if h / 2 == 0 { 1 } else { (h / 2) as usize };
        let all_but_one: usize = if h - 1 == 0 { 1 } else { (h - 1) as usize };
        let a: usize = if intrinsic < half { intrinsic } else { half };
        let help: usize = if a < all_but_one { a } else { all_but_one };
        let keys: usize = if h - help <= 0 { 1 } else { (h - help) as usize };
        (help, keys)
    }
}

/// The help panel widget.
#[derive(Debug, Clone)]
pub struct HelpPanel {
    pub markdown: Markdown,
    pub key_panel: KeyPanel,
    pub show_help: bool,
    pub app_active: bool,
    pub help_markup: String,
    pub seed: NodeSeed,
}

impl HelpPanel {
    /// No help, an empty key panel with id `keys-help`, classes `help-panel` and `-textual-system`.
    pub fn new() -> (p: HelpPanel)
        ensures
            p.help_markup@.len() == 0,
            p.markdown.markup@.len() == 0,
            opt_text(p.markdown.seed.css_id) == Some("widget-help"@),
            opt_text(p.key_panel.seed.css_id) == Some("keys-help"@),
            p.key_panel.table.bindings@.len() == 0,
            !p.show_help,
            p.app_active,
            texts(p.seed.classes@) == seq!["help-panel"@, "-textual-system"@],
    {
        proof {
            reveal_strlit("");
        }
        let mut seed = NodeSeed::new();
        seed.classes.push(text_of("help-panel"));
        seed.classes.push(text_of("-textual-system"));
        assert(texts(seed.classes@) =~= seq!["help-panel"@, "-textual-system"@]);
        HelpPanel {
            markdown: Markdown::new("").with_id("widget-help"),
            key_panel: KeyPanel::new().with_id("keys-help"),
            show_help: false,
            app_active: true,
            help_markup: String::new(),
            seed,
        }
    }

    /// Builder form of `set_help`; help worth showing also adds `-show-help` to the seed.
    pub fn with_help(self, markup: &str) -> (p: HelpPanel)
        ensures
            p.help_markup@ == markup@,
            p.markdown.markup@ == markup@,
            p.markdown.seed == self.markdown.seed,
            p.show_help == !is_blank(markup@),
            p.key_panel == self.key_panel,
            p.app_active == self.app_active,
            p.seed == (NodeSeed { classes: p.seed.classes, ..self.seed }),
            texts(p.seed.classes@) == (if !is_blank(markup@) {
                texts(self.seed.classes@).push("-show-help"@)
            } else {
                texts(self.seed.classes@)
            }),
    {
        let mut p = self;
        let show = !blank(markup);
        p.help_markup = text_of(markup);
        p.show_help = show;
        p.markdown.set_markup(markup);
        if show {
            let ghost before = texts(p.seed.classes@);
            p.seed.classes.push(text_of("-show-help"));
            assert(texts(p.seed.classes@) =~= before.push("-show-help"@));
        }
        p
    }

    /// Show `markup` as help; blank markup hides the help section.
    pub fn set_help(&mut self, markup: &str)
        ensures
            final(self).help_markup@ == markup@,
            final(self).markdown.markup@ == markup@,
            final(self).markdown.seed == old(self).markdown.seed,
            final(self).show_help == !is_blank(markup@),
            final(self).key_panel == old(self).key_panel,
            final(self).app_active == old(self).app_active,
            final(self).seed == old(self).seed,
    {
        self.help_markup = text_of(markup);
        self.show_help = !blank(markup);
        self.markdown.set_markup(markup);
    }

    /// Remove the help text and hide the help section.
    pub fn clear_help(&mut self)
        ensures
            final(self).help_markup@.len() == 0,
            final(self).markdown.markup@.len() == 0,
            final(self).markdown.seed == old(self).markdown.seed,
            !final(self).show_help,
            final(self).key_panel == old(self).key_panel,
            final(self).app_active == old(self).app_active,
            final(self).seed == old(self).seed,
    {
        self.help_markup = String::new();
        self.show_help = false;
        self.markdown.set_markup("");
        proof {
            reveal_strlit("");
        }
    }

    pub fn help(&self) -> (h: &str)
        ensures
            h@ == self.help_markup@,
    {
        self.help_markup.as_str()
    }

    pub fn showing_help(&self) -> (b: bool)
        ensures
            b == self.show_help,
    {
        self.show_help
    }

    pub fn with_bindings(self, bindings: Vec<FooterBinding>) -> (p: HelpPanel)
        ensures
            p == (HelpPanel {
                key_panel: KeyPanel {
                    table: crate::key_panel::BindingsTable { bindings, ..self.key_panel.table },
                    offset_y: crate::scroll::clamp_offset_spec(
                        self.key_panel.offset_y,
                        self.key_panel.content_lines(),
                        self.key_panel.viewport_lines(),
                    ),
                    ..self.key_panel
                },
                ..self
            }),
    {
        let mut p = self;
        p.key_panel.set_bindings(bindings);
        p
    }

    pub fn set_bindings(&mut self, bindings: Vec<FooterBinding>)
        ensures
            *final(self) == (HelpPanel {
                key_panel: KeyPanel {
                    table: crate::key_panel::BindingsTable { bindings, ..old(self).key_panel.table },
                    offset_y: crate::scroll::clamp_offset_spec(
                        old(self).key_panel.offset_y,
                        old(self).key_panel.content_lines(),
                        old(self).key_panel.viewport_lines(),
                    ),
                    ..old(self).key_panel
                },
                ..*old(self)
            }),
    {
        self.key_panel.set_bindings(bindings);
    }

    pub fn set_binding_hints(&mut self, hints: &Vec<BindingHint>)
        ensures
            panel_rows(final(self).key_panel.table.bindings@, hints@),
            *final(self) == (HelpPanel { key_panel: final(self).key_panel, ..*old(self) }),
            final(self).key_panel == (KeyPanel {
                table: crate::key_panel::BindingsTable {
                    bindings: final(self).key_panel.table.bindings,
                    ..old(self).key_panel.table
                },
                offset_y: crate::scroll::clamp_offset_spec(
                    old(self).key_panel.offset_y,
                    old(self).key_panel.content_lines(),
                    old(self).key_panel.viewport_lines(),
                ),
                ..old(self).key_panel
            }),
    {
        self.key_panel.set_binding_hints(hints);
    }

    /// Rows for the help section and the key panel in a panel `height` rows tall.
    pub fn split_heights(&self, width: usize, height: usize) -> (r: (usize, usize))
        ensures
            r == split_rows(self.show_help, self.app_active, markdown_rows(self.markdown.markup@), height),
    {
        let height = if height == 0 {
            1
        } else {
            height
        };
        if !self.show_help || !self.app_active {
            return (0, height);
        }
        let intrinsic = match self.markdown.layout_height() {
            Some(h) => if h == 0 {
                1
            } else {
                h
            },
            None => 1,
        };
        let half = if height / 2 == 0 {
            1
        } else {
            height / 2
        };
        let all_but_one = if height - 1 == 0 {
            1
        } else {
            height - 1
        };
        let a = if intrinsic < half {
            intrinsic
        } else {
            half
        };
        let help_height = if a < all_but_one {
            a
        } else {
            all_but_one
        };
        let keys_height = if height - help_height == 0 {
            1
        } else {
            height - help_height
        };
        (help_height, keys_height)
    }

    /// With help shown, the markdown's height plus the key panel's (each at
    /// least 1); otherwise the key panel's height, or 1.
    pub fn layout_height(&self) -> (h: Option<usize>)
        ensures
            h == (if self.show_help {
                Some(markdown_rows(self.markdown.markup@).saturating_add(1usize))
            } else {
                Some(1usize)
            }),
    {
        if self.show_help {
            let markdown_height = match self.markdown.layout_height() {
                Some(h) => if h == 0 {
                    1
                } else {
                    h
                },
                None => 1,
            };
            let key_panel_height: usize = match self.key_panel.layout_height() {
                Some(h) => if h == 0 {
                    1
                } else {
                    h
                },
                None => 1,
            };
            return Some(markdown_height.saturating_add(key_panel_height));
        }
        match self.key_panel.layout_height() {
            Some(h) => Some(h),
            None => Some(1),
        }
    }

    /// Unmounting assumes the application active again.
    pub fn on_unmount(&mut self)
        ensures
            *final(self) == (HelpPanel { app_active: true, ..*old(self) }),
    {
        self.app_active = true;
    }

    /// Focus changes switch the `-show-help` class with the help section's
    /// visibility; the event then goes to the key panel, and binding
    /// announcements refill the key panel and repaint.
    pub fn on_event(&mut self, event: &Event, ctx: &mut EventCtx)
        ensures
            ({
                let focus_changed = event matches Event::AppFocus(a) && a != old(self).app_active;
                let active = if focus_changed { !old(self).app_active } else { old(self).app_active };
                &&& final(self).app_active == active
                &&& final(self).show_help == old(self).show_help
                &&& final(self).help_markup == old(self).help_markup
                &&& final(self).markdown == old(self).markdown
                &&& final(self).seed == old(self).seed
                &&& (event matches Event::BindingsChanged(hints) ==> panel_rows(
                    final(self).key_panel.table.bindings@,
                    hints@,
                ) && final(ctx).repaint)
                &&& (focus_changed ==> final(ctx).repaint && exists|k: int|
                    old(ctx).class_changes@.len() <= k < final(ctx).class_changes@.len()
                        && (#[trigger] final(ctx).class_changes@[k]).0@ == "-show-help"@
                        && final(ctx).class_changes@[k].1 == (active && old(self).show_help))
            }),
    {
        if let Event::AppFocus(active) = event {
            if self.app_active != *active {
                self.app_active = *active;
                if self.app_active && self.show_help {
                    ctx.add_class("-show-help");
                } else {
                    ctx.remove_class("-show-help");
                }
                ctx.request_repaint();
            }
        }
        self.key_panel.on_event(event, ctx);
        if let Event::BindingsChanged(hints) = event {
            self.key_panel.set_binding_hints(hints);
            ctx.request_repaint();
        }
    }

    /// Help messages: a set or clear addressed to this panel (`ctx.node`), or
    /// the focused widget's help changing or going away. Anything else goes on
    /// to the key panel.
    pub fn on_message(&mut self, message: &MessageEvent, ctx: &mut EventCtx)
        ensures
            match message.message {
                Message::HelpPanelSetHelp { panel, markup } => if panel == old(ctx).node {
                    &&& final(self).help_markup@ == markup@
                    &&& final(self).show_help == !is_blank(markup@)
                    &&& final(ctx).handled
                    &&& final(ctx).repaint
                    &&& final(ctx).class_changes@.last().0@ == "-show-help"@
                    &&& final(ctx).class_changes@.last().1 == (!is_blank(markup@) && old(self).app_active)
                    &&& final(self).key_panel == old(self).key_panel
                } else {
                    &&& final(self).help_markup == old(self).help_markup
                    &&& final(self).show_help == old(self).show_help
                },
                Message::HelpPanelClearHelp { panel } => if panel == old(ctx).node {
                    &&& final(self).help_markup@.len() == 0
                    &&& !final(self).show_help
                    &&& final(ctx).handled
                    &&& final(ctx).repaint
                    &&& final(ctx).class_changes@.last().0@ == "-show-help"@
                    &&& !final(ctx).class_changes@.last().1
                    &&& final(self).key_panel == old(self).key_panel
                } else {
                    &&& final(self).help_markup == old(self).help_markup
                    &&& final(self).show_help == old(self).show_help
                },
                Message::HelpPanelFocusedHelpChanged { source, markup } => {
                    &&& final(self).help_markup@ == markup@
                    &&& final(self).show_help == !is_blank(markup@)
                    &&& final(ctx).repaint
                    &&& final(ctx).handled == old(ctx).handled
                    &&& final(ctx).class_changes@.last().0@ == "-show-help"@
                    &&& final(ctx).class_changes@.last().1 == (!is_blank(markup@) && old(self).app_active)
                    &&& final(self).key_panel == old(self).key_panel
                },
                Message::HelpPanelFocusedHelpCleared => {
                    &&& final(self).help_markup@.len() == 0
                    &&& !final(self).show_help
                    &&& final(ctx).repaint
                    &&& final(ctx).handled == old(ctx).handled
                    &&& final(ctx).class_changes@.last().0@ == "-show-help"@
                    &&& !final(ctx).class_changes@.last().1
                    &&& final(self).key_panel == old(self).key_panel
                },
                _ => {
                    &&& final(self).help_markup == old(self).help_markup
                    &&& final(self).show_help == old(self).show_help
                },
            },
    {
        match &message.message {
            Message::HelpPanelSetHelp { panel, markup } => {
                if *panel == ctx.node {
                    self.set_help(markup.as_str());
                    ctx.set_class(self.show_help && self.app_active, "-show-help");
                    ctx.request_repaint();
                    ctx.set_handled();
                    return;
                }
            },
            Message::HelpPanelClearHelp { panel } => {
                if *panel == ctx.node {
                    self.clear_help();
                    ctx.remove_class("-show-help");
                    ctx.request_repaint();
                    ctx.set_handled();
                    return;
                }
            },
            Message::HelpPanelFocusedHelpChanged { source, markup } => {
                self.set_help(markup.as_str());
                ctx.set_class(self.show_help && self.app_active, "-show-help");
                ctx.request_repaint();
                return;
            },
            Message::HelpPanelFocusedHelpCleared => {
                self.clear_help();
                ctx.remove_class("-show-help");
                ctx.request_repaint();
                return;
            },
            _ => {},
        }
        if !ctx.handled() {
            self.key_panel.on_message(message, ctx);
        }
    }

    /// The panel reacts to the mouse.
    pub fn mouse_interactive(&self) -> (b: bool)
        ensures
            b,
    {
        true
    }

    pub fn style_type(&self) -> (s: &'static str)
        ensures
            s@ == "HelpPanel"@,
    {
        "HelpPanel"
    }

    /// Hand over the mount seed, leaving an empty one.
    pub fn take_node_seed(&mut self) -> (seed: NodeSeed)
        ensures
            seed == old(self).seed,
            *final(self) == (HelpPanel { seed: final(self).seed, ..*old(self) }),
            final(self).seed.css_id is None,
            final(self).seed.classes@.len() == 0,
    {
        let mut seed = NodeSeed::new();
        std::mem::swap(&mut seed, &mut self.seed);
        seed
    }
}

} // verus!
