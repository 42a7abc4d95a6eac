//! A clickable line of text that, when activated, asks for its URL to be
//! opened and announces the click. Activation: a click (press and release on
//! the link), or Enter, Space or the toggle action while focused.

use vstd::prelude::*;
use crate::cells::{cell_len, cell_width, fit_cells, set_cell_size};
use crate::event::{Action, Event, EventCtx, KeyCode, Message, MessageEvent};
use crate::footer::opt_text;
use crate::style::Style;
use crate::text::{opt_text_copy, text_of};
use crate::widget_core::{texts, NodeSeed, NodeState};

verus! {

/// Cells of padding (summed as 16-bit cells, saturating) and border left
/// and right in a style.
pub open spec fn horizontal_chrome(style: Style) -> int {
    let pad: int = match style.padding {
        Some(p) => if p.left as int + p.right as int > u16::MAX { u16::MAX as int } else { p.left as int + p.right as int },
        None => 0,
    };
    let left: int = if style.border_left is Some { 1 } else { 0 };
    let right: int = if style.border_right is Some { 1 } else { 0 };
    pad + left + right
}

/// The link widget.
#[derive(Debug, Clone)]
pub struct Link {
    pub text: String,
    pub url: String,
    pub tooltip: Option<String>,
    pub pressed: bool,
    pub seed: NodeSeed,
}

impl Link {
    /// A link whose URL is its text, with class `link`.
    pub fn new(text: &str) -> (l: Link)
        ensures
            l.text@ == text@,
            l.url@ == text@,
            l.tooltip is None,
            !l.pressed,
            l.seed.css_id is None,
            texts(l.seed.classes@) == seq!["link"@],
    {
        let mut seed = NodeSeed::new();
        seed.classes.push(text_of("link"));
        assert(texts(seed.classes@) =~= seq!["link"@]);
        Link { text: text_of(text), url: text_of(text), tooltip: None, pressed: false, seed }
    }

    pub fn with_id(self, id: &str) -> (l: Link)
        ensures
            l == (Link { seed: l.seed, ..self }),
            l.seed == (NodeSeed { css_id: l.seed.css_id, ..self.seed }),
            opt_text(l.seed.css_id) == Some(id@),
    {
        let mut l = self;
        l.seed.css_id = Some(text_of(id));
        l
    }

    pub fn with_class(self, class: &str) -> (l: Link)
        ensures
            l == (Link { seed: l.seed, ..self }),
            l.seed == (NodeSeed { classes: l.seed.classes, ..self.seed }),
            texts(l.seed.classes@) == texts(self.seed.classes@).push(class@),
    {
        let mut l = self;
        let ghost before = texts(l.seed.classes@);
        l.seed.classes.push(text_of(class));
        assert(texts(l.seed.classes@) =~= before.push(class@));
        l
    }

    pub fn text(&self) -> (t: &str)
        ensures
            t@ == self.text@,
    {
        self.text.as_str()
    }

    pub fn url(&self) -> (u: &str)
        ensures
            u@ == self.url@,
    {
        self.url.as_str()
    }

    pub fn tooltip(&self) -> (t: Option<&str>)
        ensures
            crate::header::opt_str(t) == opt_text(self.tooltip),
    {
        match &self.tooltip {
            Some(t) => Some(t.as_str()),
            None => None,
        }
    }

    pub fn set_text(&mut self, text: &str)
        ensures
            *final(self) == (Link { text: final(self).text, ..*old(self) }),
            final(self).text@ == text@,
    {
        self.text = text_of(text);
    }

    pub fn set_url(&mut self, url: &str)
        ensures
            *final(self) == (Link { url: final(self).url, ..*old(self) }),
            final(self).url@ == url@,
    {
        self.url = text_of(url);
    }

    /// Set the tooltip; `None` clears it.
    pub fn set_tooltip(&mut self, tooltip: Option<&str>)
        ensures
            *final(self) == (Link { tooltip: final(self).tooltip, ..*old(self) }),
            opt_text(final(self).tooltip) == crate::header::opt_str(tooltip),
    {
        self.tooltip = match tooltip {
            Some(t) => Some(text_of(t)),
            None => None,
        };
    }

    pub fn with_url(self, url: &str) -> (l: Link)
        ensures
            l == (Link { url: l.url, ..self }),
            l.url@ == url@,
    {
        Link { url: text_of(url), ..self }
    }

    pub fn with_tooltip(self, tooltip: &str) -> (l: Link)
        ensures
            l == (Link { tooltip: l.tooltip, ..self }),
            opt_text(l.tooltip) == Some(tooltip@),
    {
        Link { tooltip: Some(text_of(tooltip)), ..self }
    }

    /// Activate the link: a non-empty URL is handed back to be opened and a
    /// click is announced; either way a repaint is requested and the event handled.
    pub fn activate(&mut self, ctx: &mut EventCtx) -> (open: Option<String>)
        ensures
            *final(self) == *old(self),
            Link::activated(*old(self), *old(ctx), *final(ctx), open),
    {
        if self.url.unicode_len() > 0 {
            ctx.post_message(Message::LinkClicked { url: self.url.clone() });
            ctx.request_repaint();
            ctx.set_handled();
            Some(self.url.clone())
        } else {
            ctx.request_repaint();
            ctx.set_handled();
            None
        }
    }

    /// What activating the link does to the dispatch context, and the URL to open.
    pub open spec fn activated(link: Link, c0: EventCtx, c1: EventCtx, open: Option<String>) -> bool {
        if link.url@.len() > 0 {
            &&& open == Some(link.url)
            &&& c1 == (EventCtx { messages: c1.messages, repaint: true, handled: true, ..c0 })
            &&& c1.messages@ == c0.messages@.push(
                MessageEvent { sender: c0.node, message: Message::LinkClicked { url: link.url } },
            )
        } else {
            open is None && c1 == (EventCtx { repaint: true, handled: true, ..c0 })
        }
    }

    /// Whether an event activates a focused link.
    pub open spec fn activates(event: Event) -> bool {
        ||| event == Event::Action(Action::Toggle)
        ||| (event matches Event::Key(k) && (k.code == KeyCode::Enter || k.code == KeyCode::Char(' ')))
    }

    /// Presses and releases on the link (its node is `ctx.node`) activate it;
    /// while focused (`ctx.state`), Enter, Space and the toggle action do too.
    /// The URL to open, if any, is handed back.
    pub fn on_event(&mut self, event: &Event, ctx: &mut EventCtx) -> (open: Option<String>)
        ensures
            match *event {
                Event::MouseDown(m) => if m.target == old(ctx).node {
                    &&& *final(self) == (Link { pressed: true, ..*old(self) })
                    &&& *final(ctx) == (EventCtx { repaint: true, handled: true, ..*old(ctx) })
                    &&& open is None
                } else {
                    *final(self) == *old(self) && *final(ctx) == *old(ctx) && open is None
                },
                Event::MouseUp(m) => if !old(self).pressed {
                    *final(self) == *old(self) && *final(ctx) == *old(ctx) && open is None
                } else if m.target == Some(old(ctx).node) {
                    &&& *final(self) == (Link { pressed: false, ..*old(self) })
                    &&& Link::activated(*old(self), EventCtx { repaint: true, ..*old(ctx) }, *final(ctx), open)
                } else {
                    &&& *final(self) == (Link { pressed: false, ..*old(self) })
                    &&& *final(ctx) == (EventCtx { repaint: true, ..*old(ctx) })
                    &&& open is None
                },
                Event::AppFocus(false) => if old(self).pressed {
                    &&& *final(self) == (Link { pressed: false, ..*old(self) })
                    &&& *final(ctx) == (EventCtx { repaint: true, ..*old(ctx) })
                    &&& open is None
                } else {
                    *final(self) == *old(self) && *final(ctx) == *old(ctx) && open is None
                },
                _ => if old(ctx).state.focused && Link::activates(*event) {
                    *final(self) == *old(self) && Link::activated(*old(self), *old(ctx), *final(ctx), open)
                } else {
                    *final(self) == *old(self) && *final(ctx) == *old(ctx) && open is None
                },
            },
    {
        let focused = ctx.state.focused;
        match event {
            Event::MouseDown(mouse) => {
                if mouse.target == ctx.node {
                    self.pressed = true;
                    ctx.request_repaint();
                    ctx.set_handled();
                }
                None
            },
            Event::MouseUp(mouse) => {
                if !self.pressed {
                    return None;
                }
                self.pressed = false;
                ctx.request_repaint();
                if mouse.target == Some(ctx.node) {
                    self.activate(ctx)
                } else {
                    None
                }
            },
            Event::AppFocus(active) => {
                if !*active && self.pressed {
                    self.pressed = false;
                    ctx.request_repaint();
                }
                None
            },
            Event::Action(action) => {
                if focused && *action == Action::Toggle {
                    self.activate(ctx)
                } else {
                    None
                }
            },
            Event::Key(key) => {
                if focused && (key.code == KeyCode::Enter || key.code == KeyCode::Char(' ')) {
                    self.activate(ctx)
                } else {
                    None
                }
            },
            _ => None,
        }
    }

    /// Links take focus.
    pub fn focusable(&self) -> (b: bool)
        ensures
            b,
    {
        true
    }

    /// The link shows as active while pressed with the pointer over it.
    pub fn is_active(&self, state: NodeState) -> (b: bool)
        ensures
            b == (self.pressed && state.hovered),
    {
        self.pressed && state.hovered
    }

    /// The text's cell width plus the inline style's horizontal padding and
    /// border, at least 1.
    pub fn content_width(&self) -> (w: Option<usize>)
        ensures
            ({
                let total = cell_width(self.text@) + horizontal_chrome(self.seed.styles.style);
                let capped: usize = if total > usize::MAX { usize::MAX } else { total as usize };
                w == Some(if capped == 0 { 1usize } else { capped })
            }),
    {
        let style = &self.seed.styles.style;
        let pad: usize = match style.padding {
            Some(p) => match p.left.checked_add(p.right) {
                Some(v) => v as usize,
                None => 65535,
            },
            None => 0,
        };
        let left: usize = if style.border_left.is_some() {
            1
        } else {
            0
        };
        let right: usize = if style.border_right.is_some() {
            1
        } else {
            0
        };
        let chrome = pad + left + right;
        let w = cell_len(self.text.as_str()).saturating_add(chrome);
        Some(if w == 0 {
            1
        } else {
            w
        })
    }

    /// One line tall.
    pub fn layout_height(&self) -> (h: Option<usize>)
        ensures
            h == Some(1usize),
    {
        Some(1)
    }

    pub fn style_type(&self) -> (s: &'static str)
        ensures
            s@ == "Link"@,
    {
        "Link"
    }

    /// The rendered line for a width (the text fitted to at least one cell)
    /// and its hyperlink target, none for an empty URL.
    pub fn render_line(&self, width: usize) -> (r: (String, Option<String>))
        ensures
            r.0@ == fit_cells(self.text@, if width == 0 { 1usize } else { width }),
            r.1 == (if self.url@.len() > 0 { Some(self.url) } else { None }),
    {
        let w = if width == 0 {
            1
        } else {
            width
        };
        let line = set_cell_size(self.text.as_str(), w);
        let target = if self.url.unicode_len() > 0 {
            Some(self.url.clone())
        } else {
            None
        };
        (line, target)
    }
}

} // verus!
