//! The events widgets receive, the messages they post, and the dispatch
//! context through which they report what an event did.

use vstd::prelude::*;
use crate::widget_core::NodeState;
use crate::text::{opt_text_copy, text_of};
use crate::validation::ValidationResult;
use crate::data_table::CursorType;

verus! {

/// Identity of a node in the widget tree. `NodeId(0)` is the null sentinel.
#[derive(Debug, Clone, Copy, Default, PartialEq, Eq, Hash, Structural)]
pub struct NodeId(pub u64);

/// Named actions delivered to the focused widget.
#[derive(Debug, Clone, Copy, PartialEq, Eq, Structural)]
pub enum Action {
    ScrollUp,
    ScrollDown,
    ScrollLeft,
    ScrollRight,
    ScrollHome,
    ScrollEnd,
    ScrollPageUp,
    ScrollPageDown,
    ScrollPageLeft,
    ScrollPageRight,
    Toggle,
    FocusNext,
    FocusPrevious,
}

/// Keys a widget distinguishes.
#[derive(Debug, Clone, Copy, PartialEq, Eq, Structural)]
pub enum KeyCode {
    Up,
    Down,
    Left,
    Right,
    PageUp,
    PageDown,
    Home,
    End,
    Enter,
    Tab,
    Backspace,
    Delete,
    Esc,
    Char(char),
    /// Any other key.
    Other,
}

/// Modifier keys held during a key press.
#[derive(Debug, Clone, Copy, Default, PartialEq, Eq, Structural)]
pub struct KeyModifiers {
    pub control: bool,
    pub shift: bool,
    pub alt: bool,
    pub super_key: bool,
    pub hyper: bool,
    pub meta: bool,
}

impl KeyModifiers {
    /// No modifier held.
    pub open spec fn none_spec() -> KeyModifiers {
        KeyModifiers { control: false, shift: false, alt: false, super_key: false, hyper: false, meta: false }
    }

    /// No modifier held.
    pub fn none() -> (m: KeyModifiers)
        ensures
            m == KeyModifiers::none_spec(),
    {
        KeyModifiers { control: false, shift: false, alt: false, super_key: false, hyper: false, meta: false }
    }

    /// Whether no modifier is held.
    pub fn is_none(&self) -> (b: bool)
        ensures
            b == (*self == KeyModifiers::none_spec()),
    {
        !self.control && !self.shift && !self.alt && !self.super_key && !self.hyper && !self.meta
    }
}

/// A key press.
#[derive(Debug, Clone, Copy, PartialEq, Eq, Structural)]
pub struct KeyEvent {
    pub code: KeyCode,
    pub modifiers: KeyModifiers,
}

impl KeyEvent {
    pub fn new(code: KeyCode, modifiers: KeyModifiers) -> (k: KeyEvent)
        ensures
            k == (KeyEvent { code, modifiers }),
    {
        KeyEvent { code, modifiers }
    }

    /// A key press without modifiers.
    pub fn plain(code: KeyCode) -> (k: KeyEvent)
        ensures
            k.code == code,
            k.modifiers == KeyModifiers::none_spec(),
    {
        KeyEvent { code, modifiers: KeyModifiers::none() }
    }

    /// A key press with the control key held.
    pub fn with_control(code: KeyCode) -> (k: KeyEvent)
        ensures
            k.code == code,
            k.modifiers == (KeyModifiers { control: true, ..KeyModifiers::none_spec() }),
    {
        KeyEvent { code, modifiers: KeyModifiers { control: true, ..KeyModifiers::none() } }
    }
}

/// A mouse button press, in the receiving widget's local coordinates.
#[derive(Debug, Clone, Copy, PartialEq, Eq, Structural)]
pub struct MouseDownEvent {
    pub target: NodeId,
    pub screen_x: u16,
    pub screen_y: u16,
    pub x: u16,
    pub y: u16,
}

/// A mouse button release; `target` is the node under the pointer, if any.
#[derive(Debug, Clone, Copy, PartialEq, Eq, Structural)]
pub struct MouseUpEvent {
    pub target: Option<NodeId>,
    pub screen_x: u16,
    pub screen_y: u16,
    pub x: u16,
    pub y: u16,
}

/// A key binding active along the focus chain, as announced to footers and panels.
#[derive(Debug, Clone, PartialEq, Eq)]
pub struct BindingHint {
    /// Raw key spec (e.g. `"ctrl+p"`).
    pub key: String,
    pub description: String,
    /// Display form of the key (e.g. `"^p"`), when it differs from the key spec.
    pub key_display: Option<String>,
    pub tooltip: Option<String>,
    pub group: Option<String>,
    pub namespace: Option<String>,
    /// Whether the binding is shown in the footer.
    pub show: bool,
    /// Whether the binding belongs to the system (hidden from key panels).
    pub system: bool,
    /// `Some(true)` enabled, `Some(false)` hidden, `None` disabled but shown dimmed.
    pub enabled: Option<bool>,
}

impl BindingHint {
    /// A field-by-field copy.
    pub fn duplicate(&self) -> (h: BindingHint)
        ensures
            h == *self,
    {
        BindingHint {
            key: self.key.clone(),
            description: self.description.clone(),
            key_display: opt_text_copy(&self.key_display),
            tooltip: opt_text_copy(&self.tooltip),
            group: opt_text_copy(&self.group),
            namespace: opt_text_copy(&self.namespace),
            show: self.show,
            system: self.system,
            enabled: self.enabled,
        }
    }

    pub fn new(key: &str, description: &str) -> (h: BindingHint)
        ensures
            h.key@ == key@,
            h.description@ == description@,
            h.key_display is None && h.tooltip is None && h.group is None && h.namespace is None,
            h.show && !h.system && h.enabled == Some(true),
    {
        BindingHint {
            key: text_of(key),
            description: text_of(description),
            key_display: None,
            tooltip: None,
            group: None,
            namespace: None,
            show: true,
            system: false,
            enabled: Some(true),
        }
    }

    pub fn with_key_display(self, display: &str) -> (h: BindingHint)
        ensures
            h.key_display.is_some() && h.key_display.unwrap()@ == display@,
            h == (BindingHint { key_display: h.key_display, ..self }),
    {
        BindingHint { key_display: Some(text_of(display)), ..self }
    }

    pub fn with_group(self, group: &str) -> (h: BindingHint)
        ensures
            h.group.is_some() && h.group.unwrap()@ == group@,
            h == (BindingHint { group: h.group, ..self }),
    {
        BindingHint { group: Some(text_of(group)), ..self }
    }

    pub fn with_tooltip(self, tooltip: &str) -> (h: BindingHint)
        ensures
            h.tooltip.is_some() && h.tooltip.unwrap()@ == tooltip@,
            h == (BindingHint { tooltip: h.tooltip, ..self }),
    {
        BindingHint { tooltip: Some(text_of(tooltip)), ..self }
    }

    pub fn with_namespace(self, namespace: &str) -> (h: BindingHint)
        ensures
            h.namespace.is_some() && h.namespace.unwrap()@ == namespace@,
            h == (BindingHint { namespace: h.namespace, ..self }),
    {
        BindingHint { namespace: Some(text_of(namespace)), ..self }
    }

    /// Mark the binding hidden from the footer (`show = !hidden`).
    pub fn hidden(self, hidden: bool) -> (h: BindingHint)
        ensures
            h == (BindingHint { show: !hidden, ..self }),
    {
        BindingHint { show: !hidden, ..self }
    }

    pub fn with_system(self, system: bool) -> (h: BindingHint)
        ensures
            h == (BindingHint { system, ..self }),
    {
        BindingHint { system, ..self }
    }
}

/// A parsed action invocation, e.g. `app.quit` or `cursor_down`.
#[derive(Debug, Clone, PartialEq, Eq)]
pub struct ParsedAction {
    pub namespace: Option<String>,
    pub name: String,
    pub arguments: Vec<String>,
}

impl ParsedAction {
    /// An action without namespace or arguments.
    pub fn named(name: &str) -> (a: ParsedAction)
        ensures
            a.namespace is None,
            a.name@ == name@,
            a.arguments@.len() == 0,
    {
        ParsedAction { namespace: None, name: text_of(name), arguments: Vec::new() }
    }
}

/// Axis of a scrollbar.
#[derive(Debug, Clone, Copy, PartialEq, Eq, Structural)]
pub enum ScrollbarAxis {
    Horizontal,
    Vertical,
}

/// Messages widgets post, and messages delivered to them.
#[derive(Debug, Clone, PartialEq, Eq)]
pub enum Message {
    DataTableCursorMoved { row: usize, column: usize },
    DataTableCellActivated { row: usize, column: usize },
    DataTableHeaderSelected { column: usize },
    FooterBindingsUpdated { count: usize },
    /// Ask the app to behave as if `key` had been pressed.
    AppSimulateKey { key: String },
    HeaderToggled { tall: bool },
    HeaderIconPressed,
    AppCommandPalette,
    KeyPanelBindingsUpdated { count: usize },
    KeyPanelScrolled { offset: usize, max_offset: usize },
    LinkClicked { url: String },
    ListItemChildClicked { ordinal: usize, item: String },
    /// The active screen's title changed; `None` falls back to the app default.
    ScreenTitleChanged { title: Option<String>, sub_title: Option<String> },
    HelpPanelSetHelp { panel: NodeId, markup: String },
    HelpPanelClearHelp { panel: NodeId },
    HelpPanelFocusedHelpChanged { source: NodeId, markup: String },
    HelpPanelFocusedHelpCleared,
    /// A scrollbar asks its owner to scroll to `offset` cells (already rounded
    /// to a whole, non-negative number of cells).
    ScrollbarScrollTo { axis: ScrollbarAxis, offset: usize },
    /// Ask the app to run a background task for `target`.
    AsyncTaskSpawn { task_id: u64, target: NodeId, request: AsyncTaskRequest },
    /// Ask the app to cancel a background task.
    AsyncTaskCancel { task_id: u64 },
    /// A background task of `target` finished with `result`.
    AsyncTaskCompleted { task_id: u64, target: NodeId, result: AsyncTaskResult },
    /// A background task of `target` was cancelled.
    AsyncTaskCancelled { task_id: u64, target: NodeId },
    /// A tree row was selected.
    TreeNodeSelected { index: usize },
    /// A tree row was expanded (`true`) or collapsed.
    TreeNodeToggled { index: usize, expanded: bool },
    DirectoryTreeFileSelected { index: usize, path: String },
    DirectoryTreeDirectorySelected { index: usize, path: String },
    /// An input's value changed; `validation` is how it validated.
    InputChanged { value: String, validation: ValidationResult },
    /// An input's value was submitted.
    InputSubmitted { value: String },
    /// An input lost focus, holding `value`.
    InputBlurred { value: String },
    /// An editor asks the app to put `text` on the clipboard (`cut` when the
    /// text was also removed).
    TextEditClipboardCopyRequested { text: String, cut: bool },
    /// An editor asks the app for the clipboard's text, to be delivered to
    /// `target`.
    TextEditClipboardPasteRequested { target: NodeId },
    /// The clipboard's text, delivered to `target`.
    TextEditClipboardPaste { target: NodeId, text: String },
}

/// Work a widget asks the app to do in the background.
#[derive(Debug, Clone, PartialEq, Eq)]
pub enum AsyncTaskRequest {
    /// List the entries of the directory at `path`.
    ReadDirectory { path: String, show_hidden: bool },
}

/// An entry of a listed directory.
#[derive(Debug, Clone, PartialEq, Eq)]
pub struct AsyncDirectoryEntry {
    pub path: String,
    pub label: String,
    pub is_dir: bool,
}

/// What a background task produced.
#[derive(Debug, Clone, PartialEq, Eq)]
pub enum AsyncTaskResult {
    DirectoryEntries { path: String, entries: Vec<AsyncDirectoryEntry> },
    Failed { error: String },
    SleepFinished,
}

/// A message together with the node that posted it.
#[derive(Debug, Clone, PartialEq, Eq)]
pub struct MessageEvent {
    pub sender: NodeId,
    pub message: Message,
}

impl MessageEvent {
    pub fn new(sender: NodeId, message: Message) -> (m: MessageEvent)
        ensures
            m == (MessageEvent { sender, message }),
    {
        MessageEvent { sender, message }
    }
}

/// Everything events are delivered as.
#[derive(Debug, Clone, PartialEq, Eq)]
pub enum Event {
    MouseDown(MouseDownEvent),
    MouseUp(MouseUpEvent),
    Key(KeyEvent),
    Action(Action),
    /// The bindings active along the focus chain changed.
    BindingsChanged(Vec<BindingHint>),
    /// The application gained (`true`) or lost (`false`) terminal focus.
    AppFocus(bool),
    /// The pointer left the widget.
    Leave,
    /// The app's periodic timer fired.
    Tick,
}

/// Dispatch context: the identity and state of the receiving node, and what
/// handling an event or message produced.
#[derive(Debug, Clone)]
pub struct EventCtx {
    /// The node the event is dispatched to.
    pub node: NodeId,
    /// That node's interaction state.
    pub state: NodeState,
    pub handled: bool,
    pub repaint: bool,
    pub layout: bool,
    /// Messages posted so far, in order.
    pub messages: Vec<MessageEvent>,
    /// CSS class changes requested on the receiving node, in order: `(class, on)`.
    pub class_changes: Vec<(String, bool)>,
}

impl EventCtx {
    /// A context for `node` in `state`, with nothing recorded yet.
    pub fn new(node: NodeId, state: NodeState) -> (ctx: EventCtx)
        ensures
            ctx.node == node,
            ctx.state == state,
            ctx.is_fresh(),
    {
        EventCtx {
            node,
            state,
            handled: false,
            repaint: false,
            layout: false,
            messages: Vec::new(),
            class_changes: Vec::new(),
        }
    }

    /// Nothing recorded.
    pub open spec fn is_fresh(&self) -> bool {
        &&& !self.handled
        &&& !self.repaint
        &&& !self.layout
        &&& self.messages@.len() == 0
        &&& self.class_changes@.len() == 0
    }

    pub fn handled(&self) -> (b: bool)
        ensures
            b == self.handled,
    {
        self.handled
    }

    pub fn repaint_requested(&self) -> (b: bool)
        ensures
            b == self.repaint,
    {
        self.repaint
    }

    pub fn layout_requested(&self) -> (b: bool)
        ensures
            b == self.layout,
    {
        self.layout
    }

    pub fn set_handled(&mut self)
        ensures
            *final(self) == (EventCtx { handled: true, ..*old(self) }),
    {
        self.handled = true;
    }

    pub fn request_repaint(&mut self)
        ensures
            *final(self) == (EventCtx { repaint: true, ..*old(self) }),
    {
        self.repaint = true;
    }

    pub fn request_layout_invalidation(&mut self)
        ensures
            *final(self) == (EventCtx { layout: true, ..*old(self) }),
    {
        self.layout = true;
    }

    /// Post `message` with the receiving node as its sender.
    pub fn post_message(&mut self, message: Message)
        ensures
            final(self).messages@ == old(self).messages@.push(
                MessageEvent { sender: old(self).node, message },
            ),
            final(self).node == old(self).node,
            final(self).state == old(self).state,
            final(self).handled == old(self).handled,
            final(self).repaint == old(self).repaint,
            final(self).layout == old(self).layout,
            final(self).class_changes == old(self).class_changes,
    {
        let sender = self.node;
        self.messages.push(MessageEvent { sender, message });
    }

    /// Ask for `class` to be switched on (`on`) or off on the receiving node.
    pub fn set_class(&mut self, on: bool, class: &str)
        ensures
            final(self).class_changes@.len() == old(self).class_changes@.len() + 1,
            final(self).class_changes@.last().0@ == class@,
            final(self).class_changes@.last().1 == on,
            final(self).class_changes@.drop_last() == old(self).class_changes@,
            final(self).messages == old(self).messages,
            final(self).node == old(self).node,
            final(self).state == old(self).state,
            final(self).handled == old(self).handled,
            final(self).repaint == old(self).repaint,
            final(self).layout == old(self).layout,
    {
        self.class_changes.push((text_of(class), on));
        assert(self.class_changes@.drop_last() =~= old(self).class_changes@);
    }

    pub fn add_class(&mut self, class: &str)
        ensures
            final(self).class_changes@.len() == old(self).class_changes@.len() + 1,
            final(self).class_changes@.last().0@ == class@,
            final(self).class_changes@.last().1,
            final(self).class_changes@.drop_last() == old(self).class_changes@,
            final(self).messages == old(self).messages,
            final(self).node == old(self).node,
            final(self).state == old(self).state,
            final(self).handled == old(self).handled,
            final(self).repaint == old(self).repaint,
            final(self).layout == old(self).layout,
    {
        self.set_class(true, class);
    }

    pub fn remove_class(&mut self, class: &str)
        ensures
            final(self).class_changes@.len() == old(self).class_changes@.len() + 1,
            final(self).class_changes@.last().0@ == class@,
            !final(self).class_changes@.last().1,
            final(self).class_changes@.drop_last() == old(self).class_changes@,
            final(self).messages == old(self).messages,
            final(self).node == old(self).node,
            final(self).state == old(self).state,
            final(self).handled == old(self).handled,
            final(self).repaint == old(self).repaint,
            final(self).layout == old(self).layout,
    {
        self.set_class(false, class);
    }

    /// Hand over the posted messages, leaving none behind.
    pub fn take_messages(&mut self) -> (taken: Vec<MessageEvent>)
        ensures
            taken@ == old(self).messages@,
            final(self).messages@.len() == 0,
            final(self).node == old(self).node,
            final(self).state == old(self).state,
            final(self).handled == old(self).handled,
            final(self).repaint == old(self).repaint,
            final(self).layout == old(self).layout,
            final(self).class_changes == old(self).class_changes,
    {
        let mut taken = Vec::new();
        std::mem::swap(&mut taken, &mut self.messages);
        taken
    }
}

impl Default for EventCtx {
    /// A context for the null node in the default (unfocused, unhovered) state.
    fn default() -> (ctx: EventCtx)
        ensures
            ctx.node == NodeId(0),
            ctx.state == (NodeState { focused: false, hovered: false, disabled: false, loading: false }),
            ctx.is_fresh(),
    {
        EventCtx::new(NodeId(0), NodeState { focused: false, hovered: false, disabled: false, loading: false })
    }
}

/// Reactive fields whose changes widgets record.
#[derive(Debug, Clone, Copy, PartialEq, Eq, Structural)]
pub enum ReactiveField {
    Selected,
    CursorColumn,
    CursorType,
    FixedRows,
    FixedColumns,
    ShowHeader,
    ShowRowLabels,
    ZebraStripes,
    Compact,
    Title,
    Subtitle,
    ShowClock,
    Tall,
}

/// The value of a reactive field, before or after a change.
#[derive(Debug, Clone, PartialEq, Eq)]
pub enum ReactiveValue {
    Count(usize),
    Flag(bool),
    Cursor(CursorType),
    Text(String),
    OptionalText(Option<String>),
}

/// A recorded change of a reactive field, from `previous` to `current`; `layout`
/// marks changes that need relayout.
#[derive(Debug, Clone, PartialEq, Eq)]
pub struct ReactiveChange {
    pub field: ReactiveField,
    pub layout: bool,
    pub previous: ReactiveValue,
    pub current: ReactiveValue,
}

/// Whether `c` records a change of `field` from text `from` to text `to`.
pub open spec fn text_change(c: ReactiveChange, field: ReactiveField, layout: bool, from: Seq<char>, to: Seq<char>) -> bool {
    &&& c.field == field
    &&& c.layout == layout
    &&& c.previous matches ReactiveValue::Text(a) && a@ == from
    &&& c.current matches ReactiveValue::Text(b) && b@ == to
}

/// The text of an optional string.
pub open spec fn opt_seq(o: Option<String>) -> Option<Seq<char>> {
    match o {
        Some(s) => Some(s@),
        None => None,
    }
}

/// Whether `c` records a change of `field` from optional text `from` to `to`.
pub open spec fn optional_text_change(
    c: ReactiveChange,
    field: ReactiveField,
    layout: bool,
    from: Option<Seq<char>>,
    to: Option<Seq<char>>,
) -> bool {
    &&& c.field == field
    &&& c.layout == layout
    &&& c.previous matches ReactiveValue::OptionalText(a) && opt_seq(a) == from
    &&& c.current matches ReactiveValue::OptionalText(b) && opt_seq(b) == to
}

/// Collects the reactive changes a setter makes, for the runtime to dispatch.
#[derive(Debug, Clone)]
pub struct ReactiveCtx {
    pub node: NodeId,
    pub changes: Vec<ReactiveChange>,
}

impl ReactiveCtx {
    pub fn new(node: NodeId) -> (ctx: ReactiveCtx)
        ensures
            ctx.node == node,
            ctx.changes@.len() == 0,
    {
        ReactiveCtx { node, changes: Vec::new() }
    }

    /// Record that `field` changed from `previous` to `current`.
    pub fn record_change(&mut self, field: ReactiveField, layout: bool, previous: ReactiveValue, current: ReactiveValue)
        ensures
            final(self).node == old(self).node,
            final(self).changes@ == old(self).changes@.push(ReactiveChange { field, layout, previous, current }),
    {
        self.changes.push(ReactiveChange { field, layout, previous, current });
    }
}

} // verus!
