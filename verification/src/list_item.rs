//! A list item: a container of child widgets inside a list view. A click on
//! an enabled item tells the list which item (by ordinal) was clicked; its
//! size before mounting is that of its children stacked.

use vstd::prelude::*;
use crate::cells::{cell_len, cell_width};
use crate::event::{Event, EventCtx, Message, MessageEvent};
use crate::footer::opt_text;
use crate::text::text_of;
use crate::widget_core::{texts, LayoutConstraints, NodeSeed};

verus! {

/// A child widget of a list item, as the item sees it: the text it shows if it
/// is a label, and the height and width it asks for.
#[derive(Debug, Clone)]
pub struct ListChild {
    pub label_text: Option<String>,
    pub layout_height: Option<usize>,
    pub content_width: Option<usize>,
}

impl ListChild {
    /// A one-line label: one row tall, as wide as its text.
    pub fn label(text: &str) -> (c: ListChild)
        ensures
            opt_text(c.label_text) == Some(text@),
            c.layout_height == Some(1usize),
            c.content_width == Some(cell_width(text@)),
    {
        ListChild { label_text: Some(text_of(text)), layout_height: Some(1), content_width: Some(cell_len(text)) }
    }

    /// A child that is not a label, with the size it asks for.
    pub fn widget(layout_height: Option<usize>, content_width: Option<usize>) -> (c: ListChild)
        ensures
            c.label_text is None,
            c.layout_height == layout_height,
            c.content_width == content_width,
    {
        ListChild { label_text: None, layout_height, content_width }
    }

    /// A field-by-field copy.
    pub fn duplicate(&self) -> (c: ListChild)
        ensures
            c == *self,
    {
        ListChild {
            label_text: crate::text::opt_text_copy(&self.label_text),
            layout_height: self.layout_height,
            content_width: self.content_width,
        }
    }
}

/// The text a child contributes to its item: a label's text, else nothing.
pub open spec fn child_text(c: ListChild) -> Seq<char> {
    match c.label_text {
        Some(t) => t@,
        None => seq![],
    }
}

fn widget_text(child: &ListChild) -> (t: String)
    ensures
        t@ == child_text(*child),
{
    match &child.label_text {
        Some(t) => t.clone(),
        None => String::new(),
    }
}

/// `v`, raised to 1 when it is 0.
pub open spec fn at_least_1(v: usize) -> usize {
    if v == 0 {
        1
    } else {
        v
    }
}

/// The children's heights stacked (each at least 1); none when a child does not say.
pub open spec fn stacked_height(cs: Seq<ListChild>) -> Option<usize>
    decreases cs.len(),
{
    if cs.len() == 0 {
        Some(0)
    } else {
        match stacked_height(cs.drop_last()) {
            None => None,
            Some(t) => match cs.last().layout_height {
                None => None,
                Some(h) => Some(t.saturating_add(at_least_1(h))),
            },
        }
    }
}

/// The widest width a child asks for (each at least 1); none when no child says.
pub open spec fn widest(cs: Seq<ListChild>) -> Option<usize>
    decreases cs.len(),
{
    if cs.len() == 0 {
        None
    } else {
        let w = widest(cs.drop_last());
        match cs.last().content_width {
            None => w,
            Some(x) => match w {
                None => Some(at_least_1(x)),
                Some(m) => Some(if m < at_least_1(x) { at_least_1(x) } else { m }),
            },
        }
    }
}

/// A list item widget.
#[derive(Debug, Clone)]
pub struct ListItem {
    pub children: Vec<ListChild>,
    pub children_extracted: bool,
    /// The text of the first child that has one.
    pub text: String,
    /// Position assigned by the owning list view.
    pub ordinal: usize,
    pub disabled: bool,
    pub seed: NodeSeed,
}

impl ListItem {
    /// An item wrapping one child, taking the child's text.
    pub fn new(child: ListChild) -> (item: ListItem)
        ensures
            item.children@ == seq![child],
            item.text@ == child_text(child),
            !item.children_extracted,
            item.ordinal == 0,
            !item.disabled,
            item.seed.css_id is None,
            item.seed.classes@.len() == 0,
    {
        let text = widget_text(&child);
        let mut children = Vec::new();
        children.push(child);
        assert(children@ =~= seq![child]);
        ListItem { children, children_extracted: false, text, ordinal: 0, disabled: false, seed: NodeSeed::new() }
    }

    /// An item without children.
    pub fn empty() -> (item: ListItem)
        ensures
            item.children@.len() == 0,
            item.text@.len() == 0,
            !item.children_extracted,
            item.ordinal == 0,
            !item.disabled,
            item.seed.css_id is None,
            item.seed.classes@.len() == 0,
            item.seed.styles.style.is_unset(),
            item.seed.styles.layout == LayoutConstraints::spec_unbounded(),
    {
        ListItem {
            children: Vec::new(),
            children_extracted: false,
            text: String::new(),
            ordinal: 0,
            disabled: false,
            seed: NodeSeed::new(),
        }
    }

    /// An item wrapping a label of `text`.
    pub fn from_text(text: &str) -> (item: ListItem)
        ensures
            item.text@ == text@,
            item.children@.len() == 1,
            opt_text(item.children@[0].label_text) == Some(text@),
            !item.children_extracted,
            item.ordinal == 0,
            !item.disabled,
    {
        ListItem::new(ListChild::label(text))
    }

    /// Builder form of `push`.
    pub fn with_child(self, child: ListChild) -> (item: ListItem)
        ensures
            item.children@ == self.children@.push(child),
            item.text@ == (if self.text@.len() == 0 { child_text(child) } else { self.text@ }),
            item == (ListItem { children: item.children, text: item.text, ..self }),
    {
        let mut item = self;
        item.push(child);
        item
    }

    /// Append a child; an item without text takes the child's.
    pub fn push(&mut self, child: ListChild)
        ensures
            final(self).children@ == old(self).children@.push(child),
            final(self).text@ == (if old(self).text@.len() == 0 { child_text(child) } else { old(self).text@ }),
            *final(self) == (ListItem { children: final(self).children, text: final(self).text, ..*old(self) }),
    {
        if self.text.unicode_len() == 0 {
            self.text = widget_text(&child);
        }
        self.children.push(child);
    }

    pub fn with_id(self, id: &str) -> (item: ListItem)
        ensures
            item == (ListItem { seed: item.seed, ..self }),
            item.seed == (NodeSeed { css_id: item.seed.css_id, ..self.seed }),
            opt_text(item.seed.css_id) == Some(id@),
    {
        let mut item = self;
        item.seed.css_id = Some(text_of(id));
        item
    }

    pub fn with_class(self, class: &str) -> (item: ListItem)
        ensures
            item == (ListItem { seed: item.seed, ..self }),
            item.seed == (NodeSeed { classes: item.seed.classes, ..self.seed }),
            texts(item.seed.classes@) == texts(self.seed.classes@).push(class@),
    {
        let mut item = self;
        let ghost before = texts(item.seed.classes@);
        item.seed.classes.push(text_of(class));
        assert(texts(item.seed.classes@) =~= before.push(class@));
        item
    }

    /// Builder: a disabled item ignores clicks.
    pub fn disabled(self, disabled: bool) -> (item: ListItem)
        ensures
            item == (ListItem { disabled, ..self }),
    {
        ListItem { disabled, ..self }
    }

    pub fn is_disabled(&self) -> (b: bool)
        ensures
            b == self.disabled,
    {
        self.disabled
    }

    pub fn text(&self) -> (t: &str)
        ensures
            t@ == self.text@,
    {
        self.text.as_str()
    }

    pub fn ordinal(&self) -> (o: usize)
        ensures
            o == self.ordinal,
    {
        self.ordinal
    }

    /// Set the position within the owning list.
    pub fn set_ordinal(&mut self, ordinal: usize)
        ensures
            *final(self) == (ListItem { ordinal, ..*old(self) }),
    {
        self.ordinal = ordinal;
    }

    /// The children not yet handed over.
    pub fn children(&self) -> (c: &Vec<ListChild>)
        ensures
            c@ == self.children@,
    {
        &self.children
    }

    /// Hand the children over to the widget tree, leaving none.
    pub fn compose(&mut self) -> (children: Vec<ListChild>)
        ensures
            children@ == old(self).children@,
            final(self).children@.len() == 0,
            *final(self) == (ListItem { children: final(self).children, children_extracted: true, ..*old(self) }),
    {
        self.children_extracted = true;
        let mut taken = Vec::new();
        std::mem::swap(&mut taken, &mut self.children);
        taken
    }

    /// List items do not take focus; their list does.
    pub fn focusable(&self) -> (b: bool)
        ensures
            !b,
    {
        false
    }

    pub fn style_type(&self) -> (s: &'static str)
        ensures
            s@ == "ListItem"@,
    {
        "ListItem"
    }

    /// A press on an enabled item (its node is `ctx.node`) tells the list which
    /// item was clicked and is handled; anything else is ignored.
    pub fn on_event(&mut self, event: &Event, ctx: &mut EventCtx)
        ensures
            *final(self) == *old(self),
            (event matches Event::MouseDown(m) && m.target == old(ctx).node && !old(self).disabled) ==> {
                &&& *final(ctx) == (EventCtx { messages: final(ctx).messages, handled: true, ..*old(ctx) })
                &&& final(ctx).messages@ == old(ctx).messages@.push(
                    MessageEvent {
                        sender: old(ctx).node,
                        message: Message::ListItemChildClicked { ordinal: old(self).ordinal, item: old(self).text },
                    },
                )
            },
            !(event matches Event::MouseDown(m) && m.target == old(ctx).node && !old(self).disabled)
                ==> *final(ctx) == *old(ctx),
    {
        if let Event::MouseDown(mouse) = event {
            if mouse.target == ctx.node && !self.disabled {
                ctx.post_message(Message::ListItemChildClicked { ordinal: self.ordinal, item: self.text.clone() });
                ctx.set_handled();
            }
        }
    }

    /// The children's heights stacked, before they are handed over; none once
    /// handed over, when a child does not say, or when the total is 0.
    pub fn layout_height(&self) -> (h: Option<usize>)
        ensures
            h == (if self.children_extracted {
                None
            } else {
                match stacked_height(self.children@) {
                    Some(t) => if t == 0 { None } else { Some(t) },
                    None => None,
                }
            }),
    {
        if self.children_extracted {
            return None;
        }
        let mut total: usize = 0;
        let mut i: usize = 0;
        assert(self.children@.subrange(0, 0) =~= Seq::<ListChild>::empty());
        while i < self.children.len()
            invariant
                i <= self.children@.len(),
                stacked_height(self.children@.subrange(0, i as int)) == Some(total),
            decreases self.children@.len() - i,
        {
            let ghost pre = self.children@.subrange(0, i as int);
            assert(self.children@.subrange(0, i as int + 1).drop_last() =~= pre);
            match self.children[i].layout_height {
                None => {
                    proof {
                        lemma_stacked_none_stays(self.children@, i as int + 1);
                    }
                    assert(self.children@.subrange(0, self.children@.len() as int) =~= self.children@);
                    return None;
                },
                Some(h) => {
                    total = total.saturating_add(if h == 0 {
                        1
                    } else {
                        h
                    });
                },
            }
            i = i + 1;
        }
        assert(self.children@.subrange(0, i as int) =~= self.children@);
        if total == 0 {
            None
        } else {
            Some(total)
        }
    }

    /// The widest child width, before the children are handed over.
    pub fn content_width(&self) -> (w: Option<usize>)
        ensures
            w == (if self.children_extracted { None } else { widest(self.children@) }),
    {
        if self.children_extracted {
            return None;
        }
        let mut max_width: usize = 0;
        let mut saw = false;
        let mut i: usize = 0;
        assert(self.children@.subrange(0, 0) =~= Seq::<ListChild>::empty());
        while i < self.children.len()
            invariant
                i <= self.children@.len(),
                widest(self.children@.subrange(0, i as int)) == (if saw { Some(max_width) } else { None }),
                saw ==> max_width >= 1,
            decreases self.children@.len() - i,
        {
            let ghost pre = self.children@.subrange(0, i as int);
            assert(self.children@.subrange(0, i as int + 1).drop_last() =~= pre);
            if let Some(width) = self.children[i].content_width {
                let w = if width == 0 {
                    1
                } else {
                    width
                };
                if !saw || max_width < w {
                    max_width = w;
                }
                saw = true;
            }
            i = i + 1;
        }
        assert(self.children@.subrange(0, i as int) =~= self.children@);
        if saw {
            Some(max_width)
        } else {
            None
        }
    }
}

/// Once a child does not say its height, the stacked height stays unknown.
pub proof fn lemma_stacked_none_stays(cs: Seq<ListChild>, k: int)
    requires
        0 < k <= cs.len(),
        stacked_height(cs.subrange(0, k)) is None,
    ensures
        stacked_height(cs) is None,
    decreases cs.len() - k,
{
    if k < cs.len() {
        assert(cs.subrange(0, k + 1).drop_last() =~= cs.subrange(0, k));
        lemma_stacked_none_stays(cs, k + 1);
    } else {
        assert(cs.subrange(0, k) =~= cs);
    }
}

} // verus!
