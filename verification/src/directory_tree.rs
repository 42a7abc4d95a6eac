//! A directory tree: the expanded part of a file system hierarchy, listed in
//! display order, with the loads of directory contents it has asked the app
//! for. Reading the disk is the app's part; this module decides what is
//! shown, what to read, and what a finished read changes.

use vstd::prelude::*;
use crate::event::{AsyncDirectoryEntry, AsyncTaskRequest, AsyncTaskResult, EventCtx, Message, MessageEvent, NodeId};
use crate::text::{has_prefix, starts_with, text_eq, text_of};
use crate::input::{lowercase, to_lowercase};
use crate::data_table::{
    lemma_text_lt_asymmetric, lemma_text_lt_irreflexive, lemma_text_lt_total, lemma_text_lt_transitive, text_less, text_lt,
};
use crate::widget_core::texts;

verus! {

/// A node of the tree, listed in display order with its depth below the root.
#[derive(Debug, Clone, PartialEq, Eq)]
pub struct DirNode {
    pub path: String,
    pub label: String,
    pub is_dir: bool,
    pub expanded: bool,
    /// The directory's entries have been read (always set for files).
    pub loaded: bool,
    pub depth: usize,
}

/// The step from row `k` to row `k + 1` is well formed: the next row is at
/// most one level deeper, and only an expanded, loaded directory has rows
/// one level below it.
pub open spec fn step_ok(ns: Seq<DirNode>, k: int) -> bool {
    &&& ns[k + 1].depth <= ns[k].depth + 1
    &&& ns[k + 1].depth == ns[k].depth + 1 ==> ns[k].is_dir && ns[k].expanded && ns[k].loaded
}

/// The rows of a tree: the root first at depth 0, every other row below it,
/// each step well formed.
pub open spec fn nodes_wf(ns: Seq<DirNode>) -> bool {
    &&& ns.len() >= 1
    &&& ns[0].depth == 0
    &&& forall|k: int| 1 <= k < ns.len() ==> #[trigger] ns[k].depth >= 1
    &&& forall|k: int| 0 <= k < ns.len() - 1 ==> #[trigger] step_ok(ns, k)
}

/// A row is no deeper than its position.
proof fn lemma_depth_bounded(ns: Seq<DirNode>, k: int)
    requires
        nodes_wf(ns),
        0 <= k < ns.len(),
    ensures
        ns[k].depth <= k,
    decreases k,
{
    if k > 0 {
        lemma_depth_bounded(ns, k - 1);
        assert(step_ok(ns, k - 1));
    }
}

/// The first row after `i`, from `j` on, that is not below row `i`; the row
/// count where there is none.
pub open spec fn subtree_end_from(ns: Seq<DirNode>, i: int, j: int) -> int
    decreases ns.len() - j,
{
    if j >= ns.len() {
        ns.len() as int
    } else if ns[j].depth <= ns[i].depth {
        j
    } else {
        subtree_end_from(ns, i, j + 1)
    }
}

/// Where the rows below row `i` end.
pub open spec fn subtree_end(ns: Seq<DirNode>, i: int) -> int {
    subtree_end_from(ns, i, i + 1)
}

proof fn lemma_subtree_end_from(ns: Seq<DirNode>, i: int, j: int)
    requires
        0 <= i < j <= ns.len(),
    ensures
        j <= subtree_end_from(ns, i, j) <= ns.len(),
        subtree_end_from(ns, i, j) < ns.len() ==> ns[subtree_end_from(ns, i, j)].depth <= ns[i].depth,
        forall|t: int| j <= t < subtree_end_from(ns, i, j) ==> #[trigger] ns[t].depth > ns[i].depth,
    decreases ns.len() - j,
{
    if j < ns.len() && ns[j].depth > ns[i].depth {
        lemma_subtree_end_from(ns, i, j + 1);
    }
}

/// The root row: its path, its label (the path's last component, else the
/// whole path), and whether it is a directory. A directory root is unread
/// and expanded where asked; a file root is complete.
pub open spec fn root_node_spec(path: Seq<char>, name: Option<Seq<char>>, is_dir: bool, expanded: bool) -> (Seq<char>, Seq<char>, bool, bool, bool, usize) {
    (path, match name { Some(n) => n, None => path }, is_dir, is_dir && expanded, !is_dir, 0usize)
}

pub open spec fn node_fields(n: DirNode) -> (Seq<char>, Seq<char>, bool, bool, bool, usize) {
    (n.path@, n.label@, n.is_dir, n.expanded, n.loaded, n.depth)
}

/// The row for a listed entry at `depth`: collapsed, and unread where it is a directory.
pub open spec fn child_row(e: AsyncDirectoryEntry, depth: usize) -> DirNode {
    DirNode { path: e.path, label: e.label, is_dir: e.is_dir, expanded: false, loaded: !e.is_dir, depth }
}

impl DirNode {
    /// The root node for `path`, whose last component is `name` (none for a
    /// path without one, such as `/`).
    pub fn root(path: &str, name: Option<&str>, is_dir: bool, expanded: bool) -> (n: DirNode)
        ensures
            node_fields(n) == root_node_spec(path@, match name { Some(s) => Some(s@), None => None }, is_dir, expanded),
    {
        let label = match name {
            Some(s) => text_of(s),
            None => text_of(path),
        };
        DirNode { path: text_of(path), label, is_dir, expanded: is_dir && expanded, loaded: !is_dir, depth: 0 }
    }

    /// An identical row.
    pub fn duplicate(&self) -> (n: DirNode)
        ensures
            n == *self,
    {
        DirNode {
            path: self.path.clone(),
            label: self.label.clone(),
            is_dir: self.is_dir,
            expanded: self.expanded,
            loaded: self.loaded,
            depth: self.depth,
        }
    }

    /// A row for a listed entry, `depth` levels down: collapsed, and unread
    /// where it is a directory.
    pub fn from_entry(entry: &AsyncDirectoryEntry, depth: usize) -> (n: DirNode)
        ensures
            n == child_row(*entry, depth),
    {
        DirNode {
            path: entry.path.clone(),
            label: entry.label.clone(),
            is_dir: entry.is_dir,
            expanded: false,
            loaded: !entry.is_dir,
            depth,
        }
    }
}


/// Whether `path` is `parent` or lies below it: `parent` is a prefix of
/// `path` that ends at a separator of `path` (paths are compared as
/// written, without normalising repeated or trailing separators).
pub open spec fn path_within(path: Seq<char>, parent: Seq<char>) -> bool {
    ||| path == parent
    ||| parent.len() == 0
    ||| (path.len() > parent.len() && path.take(parent.len() as int) == parent && (parent.last() == '/'
        || path[parent.len() as int] == '/'))
}

/// Whether `path` is `parent` or lies below it.
pub fn path_within_exec(path: &str, parent: &str) -> (r: bool)
    ensures
        r == path_within(path@, parent@),
{
    let n = path.unicode_len();
    let m = parent.unicode_len();
    if text_eq(path, parent) {
        return true;
    }
    if m == 0 {
        return true;
    }
    if n <= m {
        return false;
    }
    let mut i: usize = 0;
    while i < m
        invariant
            n == path@.len(),
            m == parent@.len(),
            m < n,
            i <= m,
            forall|t: int| 0 <= t < i ==> path@[t] == parent@[t],
        decreases m - i,
    {
        if path.get_char(i) != parent.get_char(i) {
            assert(path@.take(m as int)[i as int] != parent@[i as int]);
            return false;
        }
        i = i + 1;
    }
    assert(path@.take(m as int) =~= parent@);
    parent.get_char(m - 1) == '/' || path.get_char(m) == '/'
}

/// The first row from `k` on whose path is `p`; -1 where none is.
pub open spec fn first_index_from(ns: Seq<DirNode>, p: Seq<char>, k: int) -> int
    decreases ns.len() - k,
{
    if k >= ns.len() {
        -1
    } else if ns[k].path@ == p {
        k
    } else {
        first_index_from(ns, p, k + 1)
    }
}

proof fn lemma_first_index_from(ns: Seq<DirNode>, p: Seq<char>, k: int)
    requires
        0 <= k,
    ensures
        first_index_from(ns, p, k) == -1 || k <= first_index_from(ns, p, k) < ns.len(),
    decreases ns.len() - k,
{
    if k < ns.len() && ns[k].path@ != p {
        lemma_first_index_from(ns, p, k + 1);
    }
}

/// The row a rebuilt tree selects: the first row showing the preferred path,
/// else the first row.
pub open spec fn selection_for(ns: Seq<DirNode>, preferred: Option<Seq<char>>) -> usize {
    match preferred {
        Some(p) => {
            let i = first_index_from(ns, p, 0);
            if i >= 0 { i as usize } else { 0 }
        },
        None => 0,
    }
}

/// Loads in flight as `(path, task id)`.
pub open spec fn inflight_view(v: Seq<(String, u64)>) -> Seq<(Seq<char>, u64)> {
    v.map_values(|e: (String, u64)| (e.0@, e.1))
}

/// The directory tree widget.
#[derive(Debug, Clone)]
pub struct DirectoryTree {
    pub root_path: String,
    /// The rows, in display order (every listed row is shown).
    pub nodes: Vec<DirNode>,
    /// The selected row.
    pub selected: usize,
    /// Directory loads asked for and not finished, as `(path, task id)`, in
    /// the order they were asked for.
    pub inflight: Vec<(String, u64)>,
    pub next_task_id: u64,
    pub show_hidden: bool,
    /// A path filter is set; the app holds the predicate and reports its
    /// verdicts on listed entries.
    pub filtered: bool,
    pub focused: bool,
    pub hovered: bool,
    pub last_width: u16,
    pub last_height: u16,
}

impl DirectoryTree {
    /// The rows are a well-formed tree, the selection is a row, and each load
    /// in flight has its own path and its own task id, below the next id.
    pub open spec fn wf(&self) -> bool {
        let inf = inflight_view(self.inflight@);
        &&& nodes_wf(self.nodes@)
        &&& self.selected < self.nodes@.len()
        &&& forall|i: int, j: int| 0 <= i < j < inf.len() ==> #[trigger] inf[i].0 != #[trigger] inf[j].0
        &&& forall|i: int, j: int| 0 <= i < j < inf.len() ==> #[trigger] inf[i].1 != #[trigger] inf[j].1
        &&& forall|i: int| 0 <= i < inf.len() ==> #[trigger] inf[i].1 < self.next_task_id
        &&& self.next_task_id >= 1
    }

    /// A tree over `root_path` with the given rows: nothing in flight, the
    /// first row selected, hidden entries not shown, no filter.
    pub fn new(root_path: &str, nodes: Vec<DirNode>) -> (t: DirectoryTree)
        requires
            nodes_wf(nodes@),
        ensures
            t.wf(),
            t.root_path@ == root_path@,
            t.nodes == nodes,
            t.selected == 0,
            t.inflight@.len() == 0,
            t.next_task_id == 1,
            !t.show_hidden,
            !t.filtered,
            !t.focused,
            !t.hovered,
            t.last_width == 1,
            t.last_height == 1,
    {
        DirectoryTree {
            root_path: text_of(root_path),
            nodes,
            selected: 0,
            inflight: Vec::new(),
            next_task_id: 1,
            show_hidden: false,
            filtered: false,
            focused: false,
            hovered: false,
            last_width: 1,
            last_height: 1,
        }
    }

    pub fn showing_hidden(&self) -> (b: bool)
        ensures
            b == self.show_hidden,
    {
        self.show_hidden
    }

    pub fn root_path(&self) -> (p: &str)
        ensures
            p@ == self.root_path@,
    {
        self.root_path.as_str()
    }

    /// The node the tree's messages come from: the node being dispatched to.
    pub fn tree_id(&self, ctx: &EventCtx) -> (id: NodeId)
        ensures
            id == ctx.node,
    {
        ctx.node
    }

    /// The path of the selected row.
    pub fn selected_path(&self) -> (p: Option<String>)
        requires
            self.wf(),
        ensures
            p is Some,
            p->0@ == self.nodes@[self.selected as int].path@,
    {
        Some(self.nodes[self.selected].path.clone())
    }

    /// The paths of the rows, in display order.
    pub fn visible_paths(&self) -> (ps: Vec<String>)
        ensures
            texts(ps@) == self.nodes@.map_values(|n: DirNode| n.path@),
    {
        let mut ps: Vec<String> = Vec::new();
        let mut i: usize = 0;
        while i < self.nodes.len()
            invariant
                i <= self.nodes@.len(),
                texts(ps@) == self.nodes@.take(i as int).map_values(|n: DirNode| n.path@),
            decreases self.nodes@.len() - i,
        {
            let ghost before = texts(ps@);
            ps.push(self.nodes[i].path.clone());
            assert(texts(ps@) =~= before.push(self.nodes@[i as int].path@));
            assert(self.nodes@.take(i + 1).map_values(|n: DirNode| n.path@) =~= self.nodes@.take(i as int).map_values(
                |n: DirNode| n.path@,
            ).push(self.nodes@[i as int].path@));
            i = i + 1;
        }
        assert(self.nodes@.take(self.nodes@.len() as int) =~= self.nodes@);
        ps
    }

    /// The paths of the expanded directories, in display order.
    pub fn expanded_paths(&self) -> (ps: Vec<String>)
        ensures
            texts(ps@) == self.nodes@.filter(|n: DirNode| n.is_dir && n.expanded).map_values(|n: DirNode| n.path@),
    {
        let ghost pred = |n: DirNode| n.is_dir && n.expanded;
        let mut ps: Vec<String> = Vec::new();
        let mut i: usize = 0;
        while i < self.nodes.len()
            invariant
                i <= self.nodes@.len(),
                pred == (|n: DirNode| n.is_dir && n.expanded),
                texts(ps@) == self.nodes@.take(i as int).filter(pred).map_values(|n: DirNode| n.path@),
            decreases self.nodes@.len() - i,
        {
            let ghost before = texts(ps@);
            proof {
                self.nodes@.take(i as int).lemma_filter_push(self.nodes@[i as int], pred);
                assert(self.nodes@.take(i + 1) =~= self.nodes@.take(i as int).push(self.nodes@[i as int]));
            }
            if self.nodes[i].is_dir && self.nodes[i].expanded {
                ps.push(self.nodes[i].path.clone());
                assert(texts(ps@) =~= before.push(self.nodes@[i as int].path@));
            }
            assert(texts(ps@) =~= self.nodes@.take(i + 1).filter(pred).map_values(|n: DirNode| n.path@));
            i = i + 1;
        }
        assert(self.nodes@.take(self.nodes@.len() as int) =~= self.nodes@);
        ps
    }
}


/// `c1` is `c0` with `msgs` posted, and handled or repaint requested where asked.
pub open spec fn ctx_after(c0: EventCtx, c1: EventCtx, msgs: Seq<MessageEvent>, handled: bool, repaint: bool) -> bool {
    &&& c1.node == c0.node
    &&& c1.state == c0.state
    &&& c1.layout == c0.layout
    &&& c1.class_changes == c0.class_changes
    &&& c1.messages@ == c0.messages@ + msgs
    &&& c1.handled == (c0.handled || handled)
    &&& c1.repaint == (c0.repaint || repaint)
}

/// The message asking the app to list `path`.
pub open spec fn spawn_message(sender: NodeId, task_id: u64, path: String, show_hidden: bool) -> MessageEvent {
    MessageEvent {
        sender,
        message: Message::AsyncTaskSpawn {
            task_id,
            target: sender,
            request: AsyncTaskRequest::ReadDirectory { path, show_hidden },
        },
    }
}

/// The message asking the app to cancel a task.
pub open spec fn cancel_message(sender: NodeId, task_id: u64) -> MessageEvent {
    MessageEvent { sender, message: Message::AsyncTaskCancel { task_id } }
}

/// A load of `p` is in flight.
pub open spec fn has_load_for(inf: Seq<(Seq<char>, u64)>, p: Seq<char>) -> bool {
    exists|i: int| 0 <= i < inf.len() && #[trigger] inf[i].0 == p
}

/// Asking to load `path`: ignored where a load of it is in flight; else the
/// load is recorded under the next task id and announced.
pub open spec fn ask_load(inf: Seq<(Seq<char>, u64)>, next: u64, path: String, show_hidden: bool, sender: NodeId) -> (
    Seq<(Seq<char>, u64)>,
    u64,
    Seq<MessageEvent>,
) {
    if has_load_for(inf, path@) {
        (inf, next, seq![])
    } else {
        (inf.push((path@, next)), (next + 1) as u64, seq![spawn_message(sender, next, path, show_hidden)])
    }
}

pub open spec fn outside_fn(path: Seq<char>) -> spec_fn((Seq<char>, u64)) -> bool {
    |e: (Seq<char>, u64)| !path_within(e.0, path)
}

pub open spec fn within_fn(path: Seq<char>) -> spec_fn((Seq<char>, u64)) -> bool {
    |e: (Seq<char>, u64)| path_within(e.0, path)
}

pub open spec fn cancel_fn(sender: NodeId) -> spec_fn((Seq<char>, u64)) -> MessageEvent {
    |e: (Seq<char>, u64)| cancel_message(sender, e.1)
}

/// Cancelling the loads of `path` and below: they leave the record, and a
/// cancel request goes out for each, in the order they were asked for.
pub open spec fn cancel_loads(inf: Seq<(Seq<char>, u64)>, path: Seq<char>, sender: NodeId) -> (
    Seq<(Seq<char>, u64)>,
    Seq<MessageEvent>,
) {
    (inf.filter(outside_fn(path)), inf.filter(within_fn(path)).map_values(cancel_fn(sender)))
}

impl DirectoryTree {
    /// Whether a load of `path` is in flight.
    fn has_load_for_exec(&self, path: &String) -> (r: bool)
        ensures
            r == has_load_for(inflight_view(self.inflight@), path@),
    {
        let ghost inf = inflight_view(self.inflight@);
        let mut i: usize = 0;
        while i < self.inflight.len()
            invariant
                i <= self.inflight@.len(),
                inf == inflight_view(self.inflight@),
                forall|k: int| 0 <= k < i ==> inf[k].0 != path@,
            decreases self.inflight@.len() - i,
        {
            if text_eq(self.inflight[i].0.as_str(), path.as_str()) {
                assert(inf[i as int].0 == path@);
                return true;
            }
            i = i + 1;
        }
        false
    }

    /// Ask the app to list `path`, unless a load of it is in flight.
    fn spawn_directory_load(&mut self, path: &String, ctx: &mut EventCtx)
        requires
            old(self).wf(),
            old(self).next_task_id < u64::MAX,
        ensures
            final(self).wf(),
            *final(self) == (DirectoryTree {
                inflight: final(self).inflight,
                next_task_id: final(self).next_task_id,
                ..*old(self)
            }),
            ({
                let r = ask_load(inflight_view(old(self).inflight@), old(self).next_task_id, *path, old(self).show_hidden, old(ctx).node);
                &&& inflight_view(final(self).inflight@) == r.0
                &&& final(self).next_task_id == r.1
                &&& ctx_after(*old(ctx), *final(ctx), r.2, false, false)
            }),
    {
        let ghost inf0 = inflight_view(self.inflight@);
        if self.has_load_for_exec(path) {
            assert(ctx.messages@ =~= ctx.messages@ + Seq::<MessageEvent>::empty());
            return;
        }
        let task_id = self.next_task_id;
        self.next_task_id = task_id + 1;
        self.inflight.push((path.clone(), task_id));
        let ghost inf1 = inflight_view(self.inflight@);
        assert(inf1 =~= inf0.push((path@, task_id)));
        assert forall|i: int, j: int| 0 <= i < j < inf1.len() implies #[trigger] inf1[i].0 != #[trigger] inf1[j].0 by {
            if j == inf1.len() - 1 {
                assert(inf1[i].0 == inf0[i].0);
            }
        }
        assert forall|i: int, j: int| 0 <= i < j < inf1.len() implies #[trigger] inf1[i].1 != #[trigger] inf1[j].1 by {
            if j == inf1.len() - 1 {
                assert(inf0[i].1 < task_id);
            }
        }
        let target = ctx.node;
        let ghost m0 = ctx.messages@;
        ctx.post_message(
            Message::AsyncTaskSpawn {
                task_id,
                target,
                request: AsyncTaskRequest::ReadDirectory { path: path.clone(), show_hidden: self.show_hidden },
            },
        );
        assert(ctx.messages@ =~= m0 + seq![spawn_message(target, task_id, *path, self.show_hidden)]);
    }

    /// Cancel the loads of `path` and of everything below it.
    fn cancel_inflight_loads_for(&mut self, path: &String, ctx: &mut EventCtx)
        requires
            old(self).wf(),
        ensures
            final(self).wf(),
            *final(self) == (DirectoryTree { inflight: final(self).inflight, ..*old(self) }),
            ({
                let r = cancel_loads(inflight_view(old(self).inflight@), path@, old(ctx).node);
                &&& inflight_view(final(self).inflight@) == r.0
                &&& ctx_after(*old(ctx), *final(ctx), r.1, false, false)
            }),
    {
        let ghost inf = inflight_view(self.inflight@);
        let ghost c0 = *ctx;
        let ghost sender = ctx.node;
        let mut kept: Vec<(String, u64)> = Vec::new();
        let mut i: usize = 0;
        while i < self.inflight.len()
            invariant
                i <= self.inflight@.len(),
                self.wf(),
                inf == inflight_view(self.inflight@),
                sender == c0.node,
                inflight_view(kept@) == inf.take(i as int).filter(outside_fn(path@)),
                forall|a: int| 0 <= a < kept@.len() ==> exists|b: int| 0 <= b < i && #[trigger] inflight_view(kept@)[a] == inf[b],
                forall|x: int, y: int| 0 <= x < y < kept@.len() ==> #[trigger] inflight_view(kept@)[x].0 != #[trigger] inflight_view(kept@)[y].0,
                forall|x: int, y: int| 0 <= x < y < kept@.len() ==> #[trigger] inflight_view(kept@)[x].1 != #[trigger] inflight_view(kept@)[y].1,
                forall|x: int| 0 <= x < kept@.len() ==> #[trigger] inflight_view(kept@)[x].1 < self.next_task_id,
                ctx_after(c0, *ctx, inf.take(i as int).filter(within_fn(path@)).map_values(cancel_fn(sender)), false, false),
            decreases self.inflight@.len() - i,
        {
            let ghost before_kept = inflight_view(kept@);
            let ghost before_msgs = ctx.messages@;
            proof {
                inf.take(i as int).lemma_filter_push(inf[i as int], outside_fn(path@));
                inf.take(i as int).lemma_filter_push(inf[i as int], within_fn(path@));
                assert(inf.take(i + 1) =~= inf.take(i as int).push(inf[i as int]));
            }
            let entry_path = &self.inflight[i].0;
            let task_id = self.inflight[i].1;
            if path_within_exec(entry_path.as_str(), path.as_str()) {
                ctx.post_message(Message::AsyncTaskCancel { task_id });
                assert(inf.take(i + 1).filter(within_fn(path@)).map_values(cancel_fn(sender)) =~= inf.take(i as int).filter(
                    within_fn(path@),
                ).map_values(cancel_fn(sender)).push(cancel_message(sender, task_id)));
            } else {
                kept.push((entry_path.clone(), task_id));
                assert(inflight_view(kept@) =~= before_kept.push(inf[i as int]));
                let ghost kv = inflight_view(kept@);
                assert forall|x: int, y: int| 0 <= x < y < kv.len() implies #[trigger] kv[x].0 != #[trigger] kv[y].0 && kv[x].1 != kv[y].1 by {
                    if y == kv.len() - 1 {
                        assert(kv[x] == before_kept[x]);
                        let b = choose|b: int| 0 <= b < i && #[trigger] before_kept[x] == inf[b];
                        assert(inf[b].0 != inf[i as int].0);
                        assert(inf[b].1 != inf[i as int].1);
                    } else {
                        assert(kv[x] == before_kept[x] && kv[y] == before_kept[y]);
                    }
                }
                assert(inf[i as int].1 < self.next_task_id);
                assert forall|a: int| 0 <= a < kept@.len() implies exists|b: int| 0 <= b < i + 1 && #[trigger] inflight_view(kept@)[a] == inf[b] by {
                    if a == kept@.len() - 1 {
                        assert(inflight_view(kept@)[a] == inf[i as int]);
                    } else {
                        assert(inflight_view(kept@)[a] == before_kept[a]);
                    }
                }
            }
            i = i + 1;
        }
        assert(inf.take(inf.len() as int) =~= inf);
        self.inflight = kept;
    }
}


/// The rows after row `i` is expanded (`true`) or collapsed: a collapsed
/// directory loses the rows below it and must be read again; otherwise only
/// the row's flag changes.
pub open spec fn toggled_nodes(ns: Seq<DirNode>, i: int, expanded: bool) -> Seq<DirNode> {
    let n = ns[i];
    if n.is_dir && !expanded {
        ns.take(i) + seq![DirNode { expanded: false, loaded: false, ..n }] + ns.skip(subtree_end(ns, i))
    } else {
        ns.update(i, DirNode { expanded, ..n })
    }
}

/// Removing the rows below row `i` and replacing row `i` by a row of the same
/// depth that has nothing below it keeps the rows well formed.
proof fn lemma_prune_wf(ns: Seq<DirNode>, i: int, r: DirNode)
    requires
        nodes_wf(ns),
        0 <= i < ns.len(),
        r.depth == ns[i].depth,
    ensures
        nodes_wf(ns.take(i) + seq![r] + ns.skip(subtree_end(ns, i))),
        (ns.take(i) + seq![r] + ns.skip(subtree_end(ns, i))).len() == ns.len() - (subtree_end(ns, i) - i - 1),
{
    let e = subtree_end(ns, i);
    lemma_subtree_end_from(ns, i, i + 1);
    let m = ns.take(i) + seq![r] + ns.skip(e);
    assert forall|k: int| 0 <= k < m.len() implies #[trigger] m[k] == (if k < i { ns[k] } else if k == i { r } else { ns[k + e - i - 1] }) by {}
    assert forall|k: int| 1 <= k < m.len() implies #[trigger] m[k].depth >= 1 by {
        if k > i {
            assert(m[k] == ns[k + e - i - 1]);
        } else if k == i {
        }
    }
    assert forall|k: int| 0 <= k < m.len() - 1 implies #[trigger] step_ok(m, k) by {
        if k < i - 1 {
            assert(step_ok(ns, k));
        } else if k == i - 1 {
            assert(step_ok(ns, k));
        } else if k == i {
            assert(m[k + 1] == ns[e]);
        } else {
            assert(m[k] == ns[k + e - i - 1]);
            assert(m[k + 1] == ns[k + 1 + e - i - 1]);
            assert(step_ok(ns, k + e - i - 1));
        }
    }
}

/// Changing only the expanded flag of row `i` keeps the rows well formed,
/// where rows below it exist only if it stays expanded.
proof fn lemma_flag_wf(ns: Seq<DirNode>, i: int, expanded: bool)
    requires
        nodes_wf(ns),
        0 <= i < ns.len(),
        !(ns[i].is_dir && !expanded),
    ensures
        nodes_wf(ns.update(i, DirNode { expanded, ..ns[i] })),
{
    let m = ns.update(i, DirNode { expanded, ..ns[i] });
    assert forall|k: int| 1 <= k < m.len() implies #[trigger] m[k].depth >= 1 by {}
    assert forall|k: int| 0 <= k < m.len() - 1 implies #[trigger] step_ok(m, k) by {
        assert(step_ok(ns, k));
    }
}

/// The row where the rows below row `i` end.
fn subtree_end_exec(ns: &Vec<DirNode>, i: usize) -> (e: usize)
    requires
        i < ns@.len(),
    ensures
        e == subtree_end(ns@, i as int),
{
    let d = ns[i].depth;
    let n = ns.len();
    let mut j = i + 1;
    while j < ns.len() && ns[j].depth > d
        invariant
            i < j <= ns@.len(),
            d == ns@[i as int].depth,
            subtree_end(ns@, i as int) == subtree_end_from(ns@, i as int, j as int),
        decreases ns@.len() - j,
    {
        j = j + 1;
    }
    j
}

/// The first row showing `path`, else the first row.
fn selection_for_exec(ns: &Vec<DirNode>, path: &String) -> (i: usize)
    requires
        ns@.len() >= 1,
    ensures
        i == selection_for(ns@, Some(path@)),
        i < ns@.len(),
{
    let mut k: usize = 0;
    while k < ns.len()
        invariant
            k <= ns@.len(),
            first_index_from(ns@, path@, 0) == first_index_from(ns@, path@, k as int),
        decreases ns@.len() - k,
    {
        if text_eq(ns[k].path.as_str(), path.as_str()) {
            proof {
                lemma_first_index_from(ns@, path@, 0);
            }
            return k;
        }
        k = k + 1;
    }
    0
}

/// What expanding (`true`) or collapsing row `index` does to the tree: a
/// collapsed directory drops the rows below it and the loads of it and below;
/// an expanded unread directory asks for its entries; the row stays
/// selected. A row that does not exist changes nothing.
pub open spec fn toggle_state(t0: DirectoryTree, t1: DirectoryTree, index: usize, expanded: bool) -> bool {
    if index >= t0.nodes@.len() {
        t1 == t0
    } else {
        let n = t0.nodes@[index as int];
        let nodes = toggled_nodes(t0.nodes@, index as int, expanded);
        let inf = inflight_view(t0.inflight@);
        &&& t1.nodes@ == nodes
        &&& t1.selected == selection_for(nodes, Some(n.path@))
        &&& t1 == (DirectoryTree {
            nodes: t1.nodes,
            selected: t1.selected,
            inflight: t1.inflight,
            next_task_id: t1.next_task_id,
            ..t0
        })
        &&& if n.is_dir && !expanded {
            &&& inflight_view(t1.inflight@) == cancel_loads(inf, n.path@, NodeId(0)).0
            &&& t1.next_task_id == t0.next_task_id
        } else if n.is_dir && expanded && !n.loaded {
            &&& inflight_view(t1.inflight@) == ask_load(inf, t0.next_task_id, n.path, t0.show_hidden, NodeId(0)).0
            &&& t1.next_task_id == ask_load(inf, t0.next_task_id, n.path, t0.show_hidden, NodeId(0)).1
        } else {
            &&& t1.inflight == t0.inflight
            &&& t1.next_task_id == t0.next_task_id
        }
    }
}

/// The messages expanding or collapsing row `index` posts: cancel requests
/// for a collapsed directory's loads, a load request for an expanded unread
/// directory.
pub open spec fn toggle_messages(t0: DirectoryTree, index: usize, expanded: bool, sender: NodeId) -> Seq<MessageEvent> {
    if index >= t0.nodes@.len() {
        seq![]
    } else {
        let n = t0.nodes@[index as int];
        let inf = inflight_view(t0.inflight@);
        if n.is_dir && !expanded {
            cancel_loads(inf, n.path@, sender).1
        } else if n.is_dir && expanded && !n.loaded {
            ask_load(inf, t0.next_task_id, n.path, t0.show_hidden, sender).2
        } else {
            seq![]
        }
    }
}

impl DirectoryTree {
    /// Expand (`true`) or collapse row `index`, as the tree reported: a
    /// collapsed directory drops the rows below it and cancels the loads of
    /// it and below; an expanded directory whose entries are unread asks for
    /// them. The row stays selected. Nothing happens for a row that does not
    /// exist.
    pub fn update_node_expanded_state(&mut self, index: usize, expanded: bool, ctx: &mut EventCtx)
        requires
            old(self).wf(),
            old(self).next_task_id < u64::MAX,
        ensures
            final(self).wf(),
            toggle_state(*old(self), *final(self), index, expanded),
            ctx_after(*old(ctx), *final(ctx), toggle_messages(*old(self), index, expanded, old(ctx).node), false, false),
    {
        if index >= self.nodes.len() {
            assert(ctx.messages@ =~= ctx.messages@ + Seq::<MessageEvent>::empty());
            return;
        }
        let ghost ns = self.nodes@;
        let path = self.nodes[index].path.clone();
        let is_dir = self.nodes[index].is_dir;
        let loaded = self.nodes[index].loaded;
        if is_dir && !expanded {
            let e = subtree_end_exec(&self.nodes, index);
            let mut node = self.nodes[index].duplicate();
            node.expanded = false;
            node.loaded = false;
            proof {
                lemma_subtree_end_from(ns, index as int, index + 1);
                lemma_prune_wf(ns, index as int, node);
            }
            let mut rows: Vec<DirNode> = Vec::new();
            let mut k: usize = 0;
            while k < index
                invariant
                    k <= index < ns.len(),
                    ns == self.nodes@,
                    rows@ == ns.take(k as int),
                decreases index - k,
            {
                rows.push(self.nodes[k].duplicate());
                assert(rows@ =~= ns.take(k + 1));
                k = k + 1;
            }
            rows.push(node);
            let mut k = e;
            while k < self.nodes.len()
                invariant
                    index < e <= k <= ns.len(),
                    ns == self.nodes@,
                    rows@ == ns.take(index as int) + seq![node] + ns.subrange(e as int, k as int),
                decreases ns.len() - k,
            {
                rows.push(self.nodes[k].duplicate());
                assert(rows@ =~= ns.take(index as int) + seq![node] + ns.subrange(e as int, k + 1));
                k = k + 1;
            }
            assert(rows@ =~= toggled_nodes(ns, index as int, expanded));
            self.nodes = rows;
            self.selected = 0;
            self.cancel_inflight_loads_for(&path, ctx);
        } else {
            let mut node = self.nodes[index].duplicate();
            node.expanded = expanded;
            proof {
                lemma_flag_wf(ns, index as int, expanded);
            }
            self.nodes.set(index, node);
            assert(self.nodes@ =~= toggled_nodes(ns, index as int, expanded));
            if is_dir && expanded && !loaded {
                self.selected = 0;
                self.spawn_directory_load(&path, ctx);
            }
        }
        self.selected = selection_for_exec(&self.nodes, &path);
    }
}


/// Whether listed entry `k` passes the filter: always without one; with
/// one, where the app's verdict for it is `true`.
pub open spec fn keeps(filtered: bool, verdicts: Seq<bool>, k: int) -> bool {
    !filtered || (k < verdicts.len() && verdicts[k])
}

/// The first `k` listed entries that pass the filter, in order.
pub open spec fn kept_entries(es: Seq<AsyncDirectoryEntry>, filtered: bool, verdicts: Seq<bool>, k: int) -> Seq<AsyncDirectoryEntry>
    decreases k,
{
    if k <= 0 {
        seq![]
    } else {
        let r = kept_entries(es, filtered, verdicts, k - 1);
        if keeps(filtered, verdicts, k - 1) { r.push(es[k - 1]) } else { r }
    }
}

pub open spec fn child_row_fn(depth: usize) -> spec_fn(AsyncDirectoryEntry) -> DirNode {
    |e: AsyncDirectoryEntry| child_row(e, depth)
}

/// Row `i` read, with `children` listed right below it.
pub open spec fn loaded_nodes(ns: Seq<DirNode>, i: int, children: Seq<DirNode>) -> Seq<DirNode> {
    ns.take(i) + seq![DirNode { loaded: true, ..ns[i] }] + children + ns.skip(i + 1)
}

/// Row `i` with nothing below it and unread, its expanded flag kept.
pub open spec fn unloaded_nodes(ns: Seq<DirNode>, i: int) -> Seq<DirNode> {
    ns.take(i) + seq![DirNode { loaded: false, ..ns[i] }] + ns.skip(subtree_end(ns, i))
}

/// The first load in flight with task id `t` from `k` on; -1 where none is.
pub open spec fn task_index_from(inf: Seq<(Seq<char>, u64)>, t: u64, k: int) -> int
    decreases inf.len() - k,
{
    if k >= inf.len() {
        -1
    } else if inf[k].1 == t {
        k
    } else {
        task_index_from(inf, t, k + 1)
    }
}

proof fn lemma_task_index_from(inf: Seq<(Seq<char>, u64)>, t: u64, k: int)
    requires
        0 <= k,
    ensures
        task_index_from(inf, t, k) == -1 || (k <= task_index_from(inf, t, k) < inf.len() && inf[task_index_from(inf, t, k)].1 == t),
    decreases inf.len() - k,
{
    if k < inf.len() && inf[k].1 != t {
        lemma_task_index_from(inf, t, k + 1);
    }
}

/// Inserting the rows of a read directory below it keeps the rows well formed.
proof fn lemma_loaded_wf(ns: Seq<DirNode>, i: int, children: Seq<DirNode>)
    requires
        nodes_wf(ns),
        0 <= i < ns.len(),
        ns[i].is_dir && ns[i].expanded && !ns[i].loaded,
        forall|c: int| 0 <= c < children.len() ==> #[trigger] children[c].depth == ns[i].depth + 1,
        forall|c: int| 0 <= c < children.len() ==> !(#[trigger] children[c].is_dir && children[c].expanded && children[c].loaded),
    ensures
        nodes_wf(loaded_nodes(ns, i, children)),
{
    let m = loaded_nodes(ns, i, children);
    let c = children.len() as int;
    if i + 1 < ns.len() {
        assert(step_ok(ns, i));
    }
    assert forall|k: int| 0 <= k < m.len() implies #[trigger] m[k] == (if k < i { ns[k] } else if k == i { DirNode { loaded: true, ..ns[i] } } else if k <= i + c { children[k - i - 1] } else { ns[k - c] }) by {}
    assert forall|k: int| 1 <= k < m.len() implies #[trigger] m[k].depth >= 1 by {
        if k > i + c {
            assert(m[k] == ns[k - c]);
        } else if k > i {
            assert(m[k] == children[k - i - 1]);
        }
    }
    assert forall|k: int| 0 <= k < m.len() - 1 implies #[trigger] step_ok(m, k) by {
        if k < i {
            assert(step_ok(ns, k));
        } else if k == i {
        } else if k < i + c {
            assert(m[k] == children[k - i - 1]);
            assert(m[k + 1] == children[k - i]);
        } else if k == i + c {
            assert(m[k + 1] == ns[i + 1]);
            if c > 0 {
                assert(m[k] == children[c - 1]);
            }
        } else {
            assert(m[k] == ns[k - c]);
            assert(m[k + 1] == ns[k + 1 - c]);
            assert(step_ok(ns, k - c));
        }
    }
}

impl DirectoryTree {
    /// The loads in flight without the one with task id `t`.
    fn remove_task(&mut self, t: u64) -> (path: Option<String>)
        requires
            old(self).wf(),
        ensures
            final(self).wf(),
            *final(self) == (DirectoryTree { inflight: final(self).inflight, ..*old(self) }),
            ({
                let inf = inflight_view(old(self).inflight@);
                let j = task_index_from(inf, t, 0);
                &&& j < 0 ==> path is None && final(self).inflight == old(self).inflight
                &&& j >= 0 ==> path is Some && path->0@ == inf[j].0 && path->0 == old(self).inflight@[j].0
                    && inflight_view(final(self).inflight@) == inf.remove(j)
            }),
    {
        let ghost inf = inflight_view(self.inflight@);
        let mut j: usize = 0;
        while j < self.inflight.len()
            invariant
                j <= self.inflight@.len(),
                *self == *old(self),
                inf == inflight_view(self.inflight@),
                inf == inflight_view(old(self).inflight@),
                old(self).wf(),
                task_index_from(inf, t, 0) == task_index_from(inf, t, j as int),
            decreases self.inflight@.len() - j,
        {
            if self.inflight[j].1 == t {
                let (p, _) = self.inflight.remove(j);
                proof {
                    lemma_task_index_from(inf, t, 0);
                    assert(inflight_view(self.inflight@) =~= inf.remove(j as int));
                    let r = inf.remove(j as int);
                    assert forall|x: int, y: int| 0 <= x < y < r.len() implies #[trigger] r[x].0 != #[trigger] r[y].0 && r[x].1 != r[y].1 by {
                        let ox = if x < j { x } else { x + 1 };
                        let oy = if y < j { y } else { y + 1 };
                        assert(r[x] == inf[ox] && r[y] == inf[oy]);
                    }
                    assert forall|x: int| 0 <= x < r.len() implies #[trigger] r[x].1 < self.next_task_id by {
                        let ox = if x < j { x } else { x + 1 };
                        assert(r[x] == inf[ox]);
                    }
                }
                return Some(p);
            }
            j = j + 1;
        }
        None
    }

    /// Forget the load with task id `t`.
    pub fn clear_inflight_task(&mut self, t: u64)
        requires
            old(self).wf(),
        ensures
            final(self).wf(),
            *final(self) == (DirectoryTree { inflight: final(self).inflight, ..*old(self) }),
            ({
                let inf = inflight_view(old(self).inflight@);
                let j = task_index_from(inf, t, 0);
                &&& j < 0 ==> final(self).inflight == old(self).inflight
                &&& j >= 0 ==> inflight_view(final(self).inflight@) == inf.remove(j)
            }),
    {
        let _ = self.remove_task(t);
    }

    /// The first row showing `path`, if any.
    fn find_row(&self, path: &String) -> (i: Option<usize>)
        ensures
            match i {
                Some(k) => k as int == first_index_from(self.nodes@, path@, 0) && k < self.nodes@.len(),
                None => first_index_from(self.nodes@, path@, 0) == -1,
            },
    {
        let mut k: usize = 0;
        while k < self.nodes.len()
            invariant
                k <= self.nodes@.len(),
                first_index_from(self.nodes@, path@, 0) == first_index_from(self.nodes@, path@, k as int),
            decreases self.nodes@.len() - k,
        {
            if text_eq(self.nodes[k].path.as_str(), path.as_str()) {
                return Some(k);
            }
            k = k + 1;
        }
        None
    }

    /// Mark row `i` unread and drop the rows below it.
    fn unload_row(&mut self, i: usize)
        requires
            old(self).wf(),
            i < old(self).nodes@.len(),
        ensures
            nodes_wf(final(self).nodes@),
            final(self).nodes@ == unloaded_nodes(old(self).nodes@, i as int),
            *final(self) == (DirectoryTree { nodes: final(self).nodes, ..*old(self) }),
    {
        let ghost ns = self.nodes@;
        let e = subtree_end_exec(&self.nodes, i);
        let mut node = self.nodes[i].duplicate();
        node.loaded = false;
        proof {
            lemma_subtree_end_from(ns, i as int, i + 1);
            lemma_prune_wf(ns, i as int, node);
        }
        let mut rows: Vec<DirNode> = Vec::new();
        let mut k: usize = 0;
        while k < i
            invariant
                k <= i < ns.len(),
                ns == self.nodes@,
                rows@ == ns.take(k as int),
            decreases i - k,
        {
            rows.push(self.nodes[k].duplicate());
            assert(rows@ =~= ns.take(k + 1));
            k = k + 1;
        }
        rows.push(node);
        let mut k = e;
        while k < self.nodes.len()
            invariant
                i < e <= k <= ns.len(),
                ns == self.nodes@,
                rows@ == ns.take(i as int) + seq![node] + ns.subrange(e as int, k as int),
            decreases ns.len() - k,
        {
            rows.push(self.nodes[k].duplicate());
            assert(rows@ =~= ns.take(i as int) + seq![node] + ns.subrange(e as int, k + 1));
            k = k + 1;
        }
        assert(rows@ =~= unloaded_nodes(ns, i as int));
        self.nodes = rows;
    }

    /// Insert the rows of a read directory below row `i`.
    fn load_row(&mut self, i: usize, entries: &Vec<AsyncDirectoryEntry>, verdicts: &Vec<bool>)
        requires
            old(self).wf(),
            i < old(self).nodes@.len(),
            old(self).nodes@[i as int].is_dir && old(self).nodes@[i as int].expanded && !old(self).nodes@[i as int].loaded,
        ensures
            nodes_wf(final(self).nodes@),
            final(self).nodes@ == loaded_nodes(
                old(self).nodes@,
                i as int,
                kept_entries(entries@, old(self).filtered, verdicts@, entries@.len() as int).map_values(
                    child_row_fn((old(self).nodes@[i as int].depth + 1) as usize),
                ),
            ),
            *final(self) == (DirectoryTree { nodes: final(self).nodes, ..*old(self) }),
    {
        let ghost ns = self.nodes@;
        proof {
            lemma_depth_bounded(ns, i as int);
        }
        let n = self.nodes.len();
        let d = self.nodes[i].depth + 1;
        let mut children: Vec<DirNode> = Vec::new();
        let mut k: usize = 0;
        while k < entries.len()
            invariant
                k <= entries@.len(),
                d == ns[i as int].depth + 1,
                children@ == kept_entries(entries@, self.filtered, verdicts@, k as int).map_values(child_row_fn(d)),
            decreases entries@.len() - k,
        {
            let keep = !self.filtered || (k < verdicts.len() && verdicts[k]);
            if keep {
                let row = DirNode::from_entry(&entries[k], d);
                let ghost before = children@;
                children.push(row);
                assert(children@ =~= kept_entries(entries@, self.filtered, verdicts@, k + 1).map_values(child_row_fn(d)));
            } else {
                assert(kept_entries(entries@, self.filtered, verdicts@, k + 1) == kept_entries(entries@, self.filtered, verdicts@, k as int));
            }
            k = k + 1;
        }
        let mut node = self.nodes[i].duplicate();
        node.loaded = true;
        let mut rows: Vec<DirNode> = Vec::new();
        let mut k: usize = 0;
        while k < i
            invariant
                k <= i < ns.len(),
                ns == self.nodes@,
                rows@ == ns.take(k as int),
            decreases i - k,
        {
            rows.push(self.nodes[k].duplicate());
            assert(rows@ =~= ns.take(k + 1));
            k = k + 1;
        }
        rows.push(node);
        let mut k: usize = 0;
        while k < children.len()
            invariant
                k <= children@.len(),
                i < ns.len(),
                rows@ == ns.take(i as int) + seq![node] + children@.take(k as int),
            decreases children@.len() - k,
        {
            rows.push(children[k].duplicate());
            assert(rows@ =~= ns.take(i as int) + seq![node] + children@.take(k + 1));
            k = k + 1;
        }
        assert(children@.take(children@.len() as int) =~= children@);
        let mut k = i + 1;
        while k < self.nodes.len()
            invariant
                i < k <= ns.len(),
                ns == self.nodes@,
                rows@ == ns.take(i as int) + seq![node] + children@ + ns.subrange(i + 1, k as int),
            decreases ns.len() - k,
        {
            rows.push(self.nodes[k].duplicate());
            assert(rows@ =~= ns.take(i as int) + seq![node] + children@ + ns.subrange(i + 1, k + 1));
            k = k + 1;
        }
        assert(rows@ =~= loaded_nodes(ns, i as int, children@));
        proof {
            assert forall|c: int| 0 <= c < children@.len() implies #[trigger] children@[c].depth == ns[i as int].depth + 1
                && !(children@[c].is_dir && children@[c].expanded && children@[c].loaded) by {}
            lemma_loaded_wf(ns, i as int, children@);
        }
        self.nodes = rows;
    }
}


/// What a finished load with task id `task_id` does to the tree. An unknown
/// task changes nothing; a known one leaves the record of loads in flight.
/// Entries for a directory row that is still expanded and unread become the
/// rows below it (those the filter keeps, in order), and the selected path
/// stays selected; a failed load leaves the directory unread, with no rows
/// below it.
pub open spec fn result_state(
    t0: DirectoryTree,
    t1: DirectoryTree,
    task_id: u64,
    result: AsyncTaskResult,
    verdicts: Seq<bool>,
) -> bool {
    let inf = inflight_view(t0.inflight@);
    let j = task_index_from(inf, task_id, 0);
    let ns = t0.nodes@;
    if j < 0 {
        t1 == t0
    } else {
        let i = first_index_from(ns, inf[j].0, 0);
        let was = ns[t0.selected as int].path@;
        &&& inflight_view(t1.inflight@) == inf.remove(j)
        &&& t1 == (DirectoryTree { nodes: t1.nodes, selected: t1.selected, inflight: t1.inflight, ..t0 })
        &&& match result {
            AsyncTaskResult::DirectoryEntries { entries, .. } => if i >= 0 && ns[i].is_dir && ns[i].expanded && !ns[i].loaded {
                let nodes = loaded_nodes(
                    ns,
                    i,
                    kept_entries(entries@, t0.filtered, verdicts, entries@.len() as int).map_values(
                        child_row_fn((ns[i].depth + 1) as usize),
                    ),
                );
                &&& t1.nodes@ == nodes
                &&& t1.selected == selection_for(nodes, Some(was))
            } else {
                t1.nodes == t0.nodes && t1.selected == t0.selected
            },
            AsyncTaskResult::Failed { .. } => if i >= 0 {
                let nodes = unloaded_nodes(ns, i);
                &&& t1.nodes@ == nodes
                &&& t1.selected == (if subtree_end(ns, i) == i + 1 { t0.selected } else { selection_for(nodes, Some(was)) })
            } else {
                t1.nodes == t0.nodes && t1.selected == t0.selected
            },
            AsyncTaskResult::SleepFinished => t1.nodes == t0.nodes && t1.selected == t0.selected,
        }
    }
}

/// A finished load asks for a repaint where it added rows.
pub open spec fn result_repaints(t0: DirectoryTree, task_id: u64, result: AsyncTaskResult) -> bool {
    let inf = inflight_view(t0.inflight@);
    let j = task_index_from(inf, task_id, 0);
    let ns = t0.nodes@;
    j >= 0 && match result {
        AsyncTaskResult::DirectoryEntries { .. } => {
            let i = first_index_from(ns, inf[j].0, 0);
            i >= 0 && ns[i].is_dir && ns[i].expanded && !ns[i].loaded
        },
        _ => false,
    }
}

/// What reloading row `index` does: the first row with its path, where a
/// directory, drops the rows below it and is unread again, stays selected,
/// and, where expanded, asks for its entries.
pub open spec fn reload_state(t0: DirectoryTree, t1: DirectoryTree, index: usize) -> bool {
    let ns = t0.nodes@;
    if index >= ns.len() {
        t1 == t0
    } else {
        let path = ns[index as int].path;
        let i = first_index_from(ns, path@, 0);
        if !ns[i].is_dir {
            t1 == t0
        } else {
            let nodes = unloaded_nodes(ns, i);
            let inf = inflight_view(t0.inflight@);
            &&& t1.nodes@ == nodes
            &&& t1.selected == selection_for(nodes, Some(path@))
            &&& t1 == (DirectoryTree {
                nodes: t1.nodes,
                selected: t1.selected,
                inflight: t1.inflight,
                next_task_id: t1.next_task_id,
                ..t0
            })
            &&& if ns[i].expanded {
                &&& inflight_view(t1.inflight@) == ask_load(inf, t0.next_task_id, path, t0.show_hidden, NodeId(0)).0
                &&& t1.next_task_id == ask_load(inf, t0.next_task_id, path, t0.show_hidden, NodeId(0)).1
            } else {
                t1.inflight == t0.inflight && t1.next_task_id == t0.next_task_id
            }
        }
    }
}

pub open spec fn reload_messages(t0: DirectoryTree, index: usize, sender: NodeId) -> Seq<MessageEvent> {
    let ns = t0.nodes@;
    if index >= ns.len() {
        seq![]
    } else {
        let path = ns[index as int].path;
        let i = first_index_from(ns, path@, 0);
        if ns[i].is_dir && ns[i].expanded {
            ask_load(inflight_view(t0.inflight@), t0.next_task_id, path, t0.show_hidden, sender).2
        } else {
            seq![]
        }
    }
}

/// The message forwarding the selection of row `index`: a directory or a
/// file selected (as `is_dir` says the path is now), with its path.
pub open spec fn selection_message(sender: NodeId, index: usize, n: DirNode, is_dir: bool) -> MessageEvent {
    MessageEvent {
        sender,
        message: if is_dir {
            Message::DirectoryTreeDirectorySelected { index, path: n.path }
        } else {
            Message::DirectoryTreeFileSelected { index, path: n.path }
        },
    }
}

impl DirectoryTree {
    /// Apply the result of the load with task id `task_id`; `verdicts` are
    /// the filter's answers for the listed entries, in order.
    pub fn apply_directory_load_result(
        &mut self,
        task_id: u64,
        result: &AsyncTaskResult,
        verdicts: &Vec<bool>,
        ctx: &mut EventCtx,
    )
        requires
            old(self).wf(),
        ensures
            final(self).wf(),
            result_state(*old(self), *final(self), task_id, *result, verdicts@),
            ctx_after(*old(ctx), *final(ctx), seq![], false, result_repaints(*old(self), task_id, *result)),
    {
        let ghost t0 = *self;
        let ghost inf = inflight_view(self.inflight@);
        assert(ctx.messages@ =~= ctx.messages@ + Seq::<MessageEvent>::empty());
        let path = match self.remove_task(task_id) {
            Some(p) => p,
            None => {
                return;
            },
        };
        let ghost j = task_index_from(inf, task_id, 0);
        proof {
            lemma_task_index_from(inf, task_id, 0);
        }
        match result {
            AsyncTaskResult::DirectoryEntries { entries, .. } => {
                let was = self.nodes[self.selected].path.clone();
                match self.find_row(&path) {
                    Some(i) => {
                        if self.nodes[i].is_dir && self.nodes[i].expanded && !self.nodes[i].loaded {
                            self.load_row(i, entries, verdicts);
                            self.selected = selection_for_exec(&self.nodes, &was);
                            ctx.request_repaint();
                        }
                    },
                    None => {},
                }
            },
            AsyncTaskResult::Failed { .. } => {
                let was = self.nodes[self.selected].path.clone();
                match self.find_row(&path) {
                    Some(i) => {
                        let e = subtree_end_exec(&self.nodes, i);
                        proof {
                            lemma_subtree_end_from(self.nodes@, i as int, i + 1);
                        }
                        self.unload_row(i);
                        if e - 1 != i {
                            self.selected = selection_for_exec(&self.nodes, &was);
                        } else {
                            assert(self.nodes@.len() == t0.nodes@.len());
                        }
                    },
                    None => {},
                }
            },
            AsyncTaskResult::SleepFinished => {},
        }
    }

    /// Reload row `index`: see [`reload_state`].
    pub fn reload_node(&mut self, index: usize, ctx: &mut EventCtx)
        requires
            old(self).wf(),
            old(self).next_task_id < u64::MAX,
        ensures
            final(self).wf(),
            reload_state(*old(self), *final(self), index),
            ctx_after(*old(ctx), *final(ctx), reload_messages(*old(self), index, old(ctx).node), false, false),
    {
        assert(ctx.messages@ =~= ctx.messages@ + Seq::<MessageEvent>::empty());
        if index >= self.nodes.len() {
            return;
        }
        let path = self.nodes[index].path.clone();
        let i = match self.find_row(&path) {
            Some(i) => i,
            None => {
                assert(first_index_from(self.nodes@, path@, 0) != -1) by {
                    lemma_first_index_from(self.nodes@, path@, 0);
                    lemma_first_found(self.nodes@, path@, 0, index as int);
                }
                return;
            },
        };
        if !self.nodes[i].is_dir {
            return;
        }
        let expanded = self.nodes[i].expanded;
        self.unload_row(i);
        self.selected = selection_for_exec(&self.nodes, &path);
        if expanded {
            self.spawn_directory_load(&path, ctx);
        }
    }

    /// Handle a message: finished and cancelled loads of this tree, and the
    /// tree's own row selections (forwarded as a directory or file
    /// selection) and expansions. Other messages are left alone.
    /// `verdicts` are the filter's answers for the entries of a finished
    /// load; `selected_is_dir` is whether the path of the row a selection
    /// names is a directory on disk at the time of the selection.
    pub fn on_message(&mut self, message: &MessageEvent, verdicts: &Vec<bool>, selected_is_dir: bool, ctx: &mut EventCtx)
        requires
            old(self).wf(),
            old(self).next_task_id < u64::MAX,
        ensures
            final(self).wf(),
            match message.message {
                Message::AsyncTaskCompleted { task_id, target, result } => if target == old(ctx).node {
                    &&& result_state(*old(self), *final(self), task_id, result, verdicts@)
                    &&& ctx_after(*old(ctx), *final(ctx), seq![], true, result_repaints(*old(self), task_id, result))
                } else {
                    *final(self) == *old(self) && *final(ctx) == *old(ctx)
                },
                Message::AsyncTaskCancelled { task_id, target } => if target == old(ctx).node {
                    let inf = inflight_view(old(self).inflight@);
                    let j = task_index_from(inf, task_id, 0);
                    &&& *final(self) == (DirectoryTree { inflight: final(self).inflight, ..*old(self) })
                    &&& j < 0 ==> final(self).inflight == old(self).inflight
                    &&& j >= 0 ==> inflight_view(final(self).inflight@) == inf.remove(j)
                    &&& ctx_after(*old(ctx), *final(ctx), seq![], true, false)
                } else {
                    *final(self) == *old(self) && *final(ctx) == *old(ctx)
                },
                Message::TreeNodeSelected { index } => if message.sender == old(ctx).node && index < old(self).nodes@.len() {
                    &&& *final(self) == *old(self)
                    &&& ctx_after(*old(ctx), *final(ctx), seq![selection_message(old(ctx).node, index, old(self).nodes@[index as int], selected_is_dir)], true, false)
                } else {
                    *final(self) == *old(self) && *final(ctx) == *old(ctx)
                },
                Message::TreeNodeToggled { index, expanded } => if message.sender == old(ctx).node {
                    &&& toggle_state(*old(self), *final(self), index, expanded)
                    &&& ctx_after(*old(ctx), *final(ctx), toggle_messages(*old(self), index, expanded, old(ctx).node), true, true)
                } else {
                    *final(self) == *old(self) && *final(ctx) == *old(ctx)
                },
                _ => *final(self) == *old(self) && *final(ctx) == *old(ctx),
            },
    {
        match &message.message {
            Message::AsyncTaskCompleted { task_id, target, result } => {
                if *target == ctx.node {
                    self.apply_directory_load_result(*task_id, result, verdicts, ctx);
                    ctx.set_handled();
                }
            },
            Message::AsyncTaskCancelled { task_id, target } => {
                if *target == ctx.node {
                    self.clear_inflight_task(*task_id);
                    ctx.set_handled();
                    assert(ctx.messages@ =~= old(ctx).messages@ + Seq::<MessageEvent>::empty());
                }
            },
            Message::TreeNodeSelected { index } => {
                if message.sender == ctx.node && *index < self.nodes.len() {
                    let n = &self.nodes[*index];
                    let path = n.path.clone();
                    let forwarded = if selected_is_dir {
                        Message::DirectoryTreeDirectorySelected { index: *index, path }
                    } else {
                        Message::DirectoryTreeFileSelected { index: *index, path }
                    };
                    ctx.post_message(forwarded);
                    ctx.set_handled();
                    assert(ctx.messages@ =~= old(ctx).messages@ + seq![selection_message(old(ctx).node, *index, self.nodes@[*index as int], selected_is_dir)]);
                }
            },
            Message::TreeNodeToggled { index, expanded } => {
                if message.sender == ctx.node {
                    self.update_node_expanded_state(*index, *expanded, ctx);
                    ctx.request_repaint();
                    ctx.set_handled();
                }
            },
            _ => {},
        }
    }
}

/// A row showing `p` at or after `k` makes the first such row exist.
proof fn lemma_first_found(ns: Seq<DirNode>, p: Seq<char>, k: int, at: int)
    requires
        0 <= k <= at < ns.len(),
        ns[at].path@ == p,
    ensures
        first_index_from(ns, p, k) != -1,
    decreases at - k,
{
    if ns[k].path@ != p {
        lemma_first_found(ns, p, k + 1, at);
    }
}


// ── Building the rows ───────────────────────────────────────────────────

/// An entry as the app found it in a directory: its path, its name (none
/// where the name is not valid text), and whether it is a directory.
#[derive(Debug, Clone)]
pub struct RawEntry {
    pub path: String,
    pub name: Option<String>,
    pub is_dir: bool,
}

/// Whether raw entry `k` is listed: it has a name, is not hidden unless
/// hidden entries are shown, and passes the filter.
pub open spec fn listed(es: Seq<RawEntry>, show_hidden: bool, filtered: bool, verdicts: Seq<bool>, k: int) -> bool {
    match es[k].name {
        Some(n) => (show_hidden || !has_prefix(n@, seq!['.'])) && keeps(filtered, verdicts, k),
        None => false,
    }
}

/// The listed entries among the first `k`, in order, labelled by name.
pub open spec fn listed_entries(es: Seq<RawEntry>, show_hidden: bool, filtered: bool, verdicts: Seq<bool>, k: int) -> Seq<(Seq<char>, Seq<char>, bool)>
    decreases k,
{
    if k <= 0 {
        seq![]
    } else {
        let r = listed_entries(es, show_hidden, filtered, verdicts, k - 1);
        if listed(es, show_hidden, filtered, verdicts, k - 1) {
            r.push((es[k - 1].path@, es[k - 1].name->0@, es[k - 1].is_dir))
        } else {
            r
        }
    }
}

pub open spec fn entry_view(e: AsyncDirectoryEntry) -> (Seq<char>, Seq<char>, bool) {
    (e.path@, e.label@, e.is_dir)
}

pub open spec fn entries_view(es: Seq<AsyncDirectoryEntry>) -> Seq<(Seq<char>, Seq<char>, bool)> {
    es.map_values(|e: AsyncDirectoryEntry| entry_view(e))
}

/// The entries of a directory listing that the tree shows, in the order
/// found: named, not hidden unless asked for, and passing the filter
/// (`verdicts` are the app's filter answers, entry by entry).
pub fn listed_children(raw: &Vec<RawEntry>, show_hidden: bool, filtered: bool, verdicts: &Vec<bool>) -> (out: Vec<AsyncDirectoryEntry>)
    ensures
        entries_view(out@) == listed_entries(raw@, show_hidden, filtered, verdicts@, raw@.len() as int),
{
    let mut out: Vec<AsyncDirectoryEntry> = Vec::new();
    let mut k: usize = 0;
    while k < raw.len()
        invariant
            k <= raw@.len(),
            entries_view(out@) == listed_entries(raw@, show_hidden, filtered, verdicts@, k as int),
        decreases raw@.len() - k,
    {
        match &raw[k].name {
            Some(name) => {
                let hidden = starts_with(name.as_str(), ".");
                proof {
                    reveal_strlit(".");
                    assert("."@ =~= seq!['.']);
                }
                let keep = !filtered || (k < verdicts.len() && verdicts[k]);
                if (show_hidden || !hidden) && keep {
                    let ghost before = entries_view(out@);
                    out.push(AsyncDirectoryEntry { path: raw[k].path.clone(), label: name.clone(), is_dir: raw[k].is_dir });
                    assert(entries_view(out@) =~= before.push((raw@[k as int].path@, name@, raw@[k as int].is_dir)));
                }
            },
            None => {},
        }
        k = k + 1;
    }
    out
}

/// The first row that is an expanded directory not read yet.
pub open spec fn is_unread_open(n: DirNode) -> bool {
    n.is_dir && n.expanded && !n.loaded
}

/// The first expanded directory whose entries are not read yet: the next
/// directory the app should list while building the rows.
pub fn next_unread_directory(nodes: &Vec<DirNode>) -> (r: Option<usize>)
    ensures
        match r {
            Some(i) => i < nodes@.len() && is_unread_open(nodes@[i as int])
                && forall|k: int| 0 <= k < i ==> !is_unread_open(#[trigger] nodes@[k]),
            None => forall|k: int| 0 <= k < nodes@.len() ==> !is_unread_open(#[trigger] nodes@[k]),
        },
{
    let mut k: usize = 0;
    while k < nodes.len()
        invariant
            k <= nodes@.len(),
            forall|t: int| 0 <= t < k ==> !is_unread_open(#[trigger] nodes@[t]),
        decreases nodes@.len() - k,
    {
        if nodes[k].is_dir && nodes[k].expanded && !nodes[k].loaded {
            return Some(k);
        }
        k = k + 1;
    }
    None
}

/// The row for a listed entry while building: a directory listed in
/// `expanded` is expanded (and read in its turn); every other entry is
/// collapsed.
pub open spec fn built_row(e: AsyncDirectoryEntry, depth: usize, expanded: Seq<Seq<char>>) -> DirNode {
    DirNode { expanded: e.is_dir && expanded.contains(e.path@), ..child_row(e, depth) }
}

pub open spec fn built_row_fn(depth: usize, expanded: Seq<Seq<char>>) -> spec_fn(AsyncDirectoryEntry) -> DirNode {
    |e: AsyncDirectoryEntry| built_row(e, depth, expanded)
}

/// Whether `p` is among `ps`.
fn contains_text(ps: &Vec<String>, p: &String) -> (r: bool)
    ensures
        r == texts(ps@).contains(p@),
{
    let mut k: usize = 0;
    while k < ps.len()
        invariant
            k <= ps@.len(),
            forall|t: int| 0 <= t < k ==> texts(ps@)[t] != p@,
        decreases ps@.len() - k,
    {
        if text_eq(ps[k].as_str(), p.as_str()) {
            assert(texts(ps@)[k as int] == p@);
            return true;
        }
        k = k + 1;
    }
    false
}

/// Record the entries read for row `index` (an expanded directory not read
/// yet) as the rows below it; the directories among them listed in
/// `expanded` are expanded, to be read in turn.
pub fn attach_listing(nodes: &mut Vec<DirNode>, index: usize, entries: &Vec<AsyncDirectoryEntry>, expanded: &Vec<String>)
    requires
        nodes_wf(old(nodes)@),
        index < old(nodes)@.len(),
        is_unread_open(old(nodes)@[index as int]),
    ensures
        nodes_wf(final(nodes)@),
        final(nodes)@ == loaded_nodes(
            old(nodes)@,
            index as int,
            entries@.map_values(built_row_fn((old(nodes)@[index as int].depth + 1) as usize, texts(expanded@))),
        ),
{
    let ghost ns = nodes@;
    proof {
        lemma_depth_bounded(ns, index as int);
    }
    let n = nodes.len();
    let d = nodes[index].depth + 1;
    let mut children: Vec<DirNode> = Vec::new();
    let mut k: usize = 0;
    while k < entries.len()
        invariant
            k <= entries@.len(),
            d == ns[index as int].depth + 1,
            children@ == entries@.take(k as int).map_values(built_row_fn(d, texts(expanded@))),
        decreases entries@.len() - k,
    {
        let mut row = DirNode::from_entry(&entries[k], d);
        if row.is_dir && contains_text(expanded, &row.path) {
            row.expanded = true;
        }
        children.push(row);
        assert(children@ =~= entries@.take(k + 1).map_values(built_row_fn(d, texts(expanded@))));
        k = k + 1;
    }
    assert(entries@.take(entries@.len() as int) =~= entries@);
    let mut node = nodes[index].duplicate();
    node.loaded = true;
    let mut rows: Vec<DirNode> = Vec::new();
    let mut k: usize = 0;
    while k < index
        invariant
            k <= index < ns.len(),
            ns == nodes@,
            rows@ == ns.take(k as int),
        decreases index - k,
    {
        rows.push(nodes[k].duplicate());
        assert(rows@ =~= ns.take(k + 1));
        k = k + 1;
    }
    rows.push(node);
    let mut k: usize = 0;
    while k < children.len()
        invariant
            k <= children@.len(),
            index < ns.len(),
            rows@ == ns.take(index as int) + seq![node] + children@.take(k as int),
        decreases children@.len() - k,
    {
        rows.push(children[k].duplicate());
        assert(rows@ =~= ns.take(index as int) + seq![node] + children@.take(k + 1));
        k = k + 1;
    }
    assert(children@.take(children@.len() as int) =~= children@);
    let mut k = index + 1;
    while k < nodes.len()
        invariant
            index < k <= ns.len(),
            ns == nodes@,
            rows@ == ns.take(index as int) + seq![node] + children@ + ns.subrange(index + 1, k as int),
        decreases ns.len() - k,
    {
        rows.push(nodes[k].duplicate());
        assert(rows@ =~= ns.take(index as int) + seq![node] + children@ + ns.subrange(index + 1, k + 1));
        k = k + 1;
    }
    assert(rows@ =~= loaded_nodes(ns, index as int, children@));
    proof {
        assert forall|c: int| 0 <= c < children@.len() implies #[trigger] children@[c].depth == ns[index as int].depth + 1
            && !(children@[c].is_dir && children@[c].expanded && children@[c].loaded) by {}
        lemma_loaded_wf(ns, index as int, children@);
    }
    *nodes = rows;
}

/// What the app needs to rebuild the rows from the disk: whether the root is
/// expanded, the expanded directories, and the path to select afterwards.
#[derive(Debug, Clone)]
pub struct RefreshRequest {
    pub root_expanded: bool,
    pub expanded_paths: Vec<String>,
    pub selected: Option<String>,
}

/// `r` asks to rebuild the rows of `t` as they stand: the root's expansion,
/// the paths of the expanded directories in row order, and the selected
/// row's path.
pub open spec fn refresh_of(r: RefreshRequest, t: DirectoryTree) -> bool {
    &&& r.root_expanded == t.nodes@[0].expanded
    &&& texts(r.expanded_paths@) == t.nodes@.filter(|n: DirNode| n.is_dir && n.expanded).map_values(|n: DirNode| n.path@)
    &&& r.selected is Some
    &&& r.selected->0@ == t.nodes@[t.selected as int].path@
}

impl DirectoryTree {
    /// Start a refresh: the loads in flight are forgotten, and the request
    /// records what the rebuilt rows keep (the root's expansion, the expanded
    /// directories, the selected path).
    pub fn refresh(&mut self) -> (r: RefreshRequest)
        requires
            old(self).wf(),
        ensures
            final(self).wf(),
            *final(self) == (DirectoryTree { inflight: final(self).inflight, ..*old(self) }),
            final(self).inflight@.len() == 0,
            refresh_of(r, *old(self)),
    {
        let selected = self.selected_path();
        let expanded_paths = self.expanded_paths();
        self.inflight = Vec::new();
        RefreshRequest { root_expanded: self.nodes[0].expanded, expanded_paths, selected }
    }

    /// Install rebuilt rows, selecting the first row showing `selected`
    /// (else the first row).
    pub fn install_rows(&mut self, nodes: Vec<DirNode>, selected: Option<String>)
        requires
            old(self).wf(),
            nodes_wf(nodes@),
        ensures
            final(self).wf(),
            final(self).nodes == nodes,
            final(self).selected == selection_for(nodes@, match selected { Some(p) => Some(p@), None => None }),
            *final(self) == (DirectoryTree { nodes: final(self).nodes, selected: final(self).selected, ..*old(self) }),
    {
        self.nodes = nodes;
        self.selected = match &selected {
            Some(p) => selection_for_exec(&self.nodes, p),
            None => 0,
        };
    }

    /// Show or hide hidden entries; a change asks for a refresh.
    pub fn set_show_hidden(&mut self, show_hidden: bool) -> (r: Option<RefreshRequest>)
        requires
            old(self).wf(),
        ensures
            final(self).wf(),
            show_hidden == old(self).show_hidden ==> r is None && *final(self) == *old(self),
            show_hidden != old(self).show_hidden ==> r is Some && refresh_of(r->0, *old(self))
                && final(self).inflight@.len() == 0
                && *final(self) == (DirectoryTree { show_hidden, inflight: final(self).inflight, ..*old(self) }),
    {
        if self.show_hidden == show_hidden {
            return None;
        }
        self.show_hidden = show_hidden;
        Some(self.refresh())
    }

    /// The tree showing or hiding hidden entries, and the refresh that applies it.
    pub fn show_hidden(self, show_hidden: bool) -> (r: (DirectoryTree, RefreshRequest))
        requires
            self.wf(),
        ensures
            r.0.wf(),
            r.0 == (DirectoryTree { show_hidden, inflight: r.0.inflight, ..self }),
            r.0.inflight@.len() == 0,
            refresh_of(r.1, self),
    {
        let mut t = self;
        t.show_hidden = show_hidden;
        let req = t.refresh();
        (t, req)
    }

    /// Set a path filter (the app keeps the predicate), and refresh.
    pub fn filter_paths(&mut self) -> (r: RefreshRequest)
        requires
            old(self).wf(),
        ensures
            final(self).wf(),
            final(self).inflight@.len() == 0,
            *final(self) == (DirectoryTree { filtered: true, inflight: final(self).inflight, ..*old(self) }),
            refresh_of(r, *old(self)),
    {
        self.filtered = true;
        self.refresh()
    }

    /// Remove the path filter; where one was set, refresh.
    pub fn clear_filter(&mut self) -> (r: Option<RefreshRequest>)
        requires
            old(self).wf(),
        ensures
            final(self).wf(),
            !old(self).filtered ==> r is None && *final(self) == *old(self),
            old(self).filtered ==> r is Some && refresh_of(r->0, *old(self)) && final(self).inflight@.len() == 0
                && *final(self) == (DirectoryTree { filtered: false, inflight: final(self).inflight, ..*old(self) }),
    {
        if !self.filtered {
            return None;
        }
        self.filtered = false;
        Some(self.refresh())
    }

    pub fn focusable(&self) -> (b: bool)
        ensures
            b,
    {
        true
    }

    pub fn set_focus(&mut self, focused: bool)
        ensures
            *final(self) == (DirectoryTree { focused, ..*old(self) }),
    {
        self.focused = focused;
    }

    pub fn has_focus(&self) -> (b: bool)
        ensures
            b == self.focused,
    {
        self.focused
    }

    pub fn set_hovered(&mut self, hovered: bool)
        ensures
            *final(self) == (DirectoryTree { hovered, ..*old(self) }),
    {
        self.hovered = hovered;
    }

    pub fn is_hovered(&self) -> (b: bool)
        ensures
            b == self.hovered,
    {
        self.hovered
    }

    /// Record the laid-out size, at least one cell each way.
    pub fn on_layout(&mut self, width: u16, height: u16)
        ensures
            *final(self) == (DirectoryTree {
                last_width: if width < 1 { 1 } else { width },
                last_height: if height < 1 { 1 } else { height },
                ..*old(self)
            }),
    {
        self.last_width = if width < 1 {
            1
        } else {
            width
        };
        self.last_height = if height < 1 {
            1
        } else {
            height
        };
    }

    /// A resize records the size as a layout does.
    pub fn on_resize(&mut self, width: u16, height: u16)
        ensures
            *final(self) == (DirectoryTree {
                last_width: if width < 1 { 1 } else { width },
                last_height: if height < 1 { 1 } else { height },
                ..*old(self)
            }),
    {
        self.on_layout(width, height);
    }

    /// Unmounting drops focus, hover and the loads in flight.
    pub fn on_unmount(&mut self)
        requires
            old(self).wf(),
        ensures
            final(self).wf(),
            *final(self) == (DirectoryTree { focused: false, hovered: false, inflight: final(self).inflight, ..*old(self) }),
            final(self).inflight@.len() == 0,
    {
        self.focused = false;
        self.hovered = false;
        self.inflight = Vec::new();
    }

    pub fn style_type(&self) -> (s: &'static str)
        ensures
            s@ == "DirectoryTree"@,
    {
        "DirectoryTree"
    }

    /// The CSS classes: `directory-tree`, and `focused` while focused.
    pub fn style_classes(&self) -> (cs: Vec<String>)
        ensures
            texts(cs@) == (if self.focused { seq!["directory-tree"@, "focused"@] } else { seq!["directory-tree"@] }),
    {
        let mut cs: Vec<String> = Vec::new();
        cs.push(text_of("directory-tree"));
        if self.focused {
            cs.push(text_of("focused"));
        }
        assert(texts(cs@) =~= (if self.focused { seq!["directory-tree"@, "focused"@] } else { seq!["directory-tree"@] }));
        cs
    }
}


// ── What the tree shows ─────────────────────────────────────────────────

/// The last `.` before position `k`; -1 where there is none.
pub open spec fn last_dot_before(s: Seq<char>, k: int) -> int
    decreases k,
{
    if k <= 0 {
        -1
    } else if s[k - 1] == '.' {
        k - 1
    } else {
        last_dot_before(s, k - 1)
    }
}

proof fn lemma_last_dot_before(s: Seq<char>, k: int)
    requires
        0 <= k <= s.len(),
    ensures
        -1 <= last_dot_before(s, k) < k,
        last_dot_before(s, k) >= 0 ==> s[last_dot_before(s, k)] == '.',
    decreases k,
{
    if k > 0 && s[k - 1] != '.' {
        lemma_last_dot_before(s, k - 1);
    }
}

/// The extension of a file name: what follows its last `.`, where that dot
/// is not the name's first character. A name that is `..` or holds a
/// separator (a whole path shown as a label) has none.
pub open spec fn file_extension(label: Seq<char>) -> Option<Seq<char>> {
    let p = last_dot_before(label, label.len() as int);
    if label.contains('/') || label == seq!['.', '.'] || p <= 0 {
        None
    } else {
        Some(label.skip(p + 1))
    }
}

/// The extension of a file name, as [`file_extension`] states.
pub fn file_extension_exec(label: &str) -> (r: Option<String>)
    ensures
        match r {
            Some(e) => file_extension(label@) == Some(e@),
            None => file_extension(label@) is None,
        },
{
    let n = label.unicode_len();
    let mut k: usize = n;
    let mut slash = false;
    let mut i: usize = 0;
    while i < n
        invariant
            n == label@.len(),
            i <= n,
            slash == exists|t: int| 0 <= t < i && label@[t] == '/',
        decreases n - i,
    {
        if label.get_char(i) == '/' {
            slash = true;
        }
        i = i + 1;
    }
    assert(slash == label@.contains('/'));
    while k > 0 && label.get_char(k - 1) != '.'
        invariant
            n == label@.len(),
            k <= n,
            last_dot_before(label@, n as int) == last_dot_before(label@, k as int),
        decreases k,
    {
        k = k - 1;
    }
    proof {
        lemma_last_dot_before(label@, n as int);
    }
    let p: usize = if k == 0 { 0 } else { k - 1 };
    let dotdot = n == 2 && label.get_char(0) == '.' && label.get_char(1) == '.';
    assert(dotdot == (label@ == seq!['.', '.'])) by {
        if label@ == seq!['.', '.'] {
        } else if dotdot {
            assert(label@ =~= seq!['.', '.']);
        }
    }
    if slash || dotdot || k <= 1 {
        None
    } else {
        Some(text_of(label.substring_char(p + 1, n)))
    }
}

/// The icon before a row's label: an open or closed folder, or a file.
pub open spec fn row_icon(n: DirNode) -> Seq<char> {
    if n.is_dir {
        if n.expanded { "\u{1f4c2} "@ } else { "\u{1f4c1} "@ }
    } else {
        "\u{1f4c4} "@
    }
}

/// The CSS component classes of a row: folder or file; a file's extension
/// (also lower-cased in a class of its own); hidden for a dot name.
pub open spec fn row_classes(n: DirNode) -> Seq<Seq<char>> {
    let kind = if n.is_dir {
        seq!["directory-tree--folder"@]
    } else {
        seq!["directory-tree--file"@] + match file_extension(n.label@) {
            Some(e) => seq!["directory-tree--extension"@, "directory-tree--extension-"@ + lowercase(e)],
            None => seq![],
        }
    };
    kind + if has_prefix(n.label@, seq!['.']) { seq!["directory-tree--hidden"@] } else { seq![] }
}

/// A row as the tree widget shows it.
#[derive(Debug, Clone)]
pub struct TreeRow {
    /// The icon and the label.
    pub label: String,
    pub depth: usize,
    pub expanded: bool,
    /// Directories can be expanded.
    pub allow_expand: bool,
    pub classes: Vec<String>,
}

/// The tree widget's row for a node.
pub open spec fn tree_row_of(r: TreeRow, n: DirNode) -> bool {
    &&& r.label@ == row_icon(n) + n.label@
    &&& r.depth == n.depth
    &&& r.expanded == n.expanded
    &&& r.allow_expand == n.is_dir
    &&& texts(r.classes@) == row_classes(n)
}

/// The tree widget's row for a node.
pub fn tree_row(n: &DirNode) -> (r: TreeRow)
    ensures
        tree_row_of(r, *n),
{
    let icon = if n.is_dir {
        if n.expanded { "\u{1f4c2} " } else { "\u{1f4c1} " }
    } else {
        "\u{1f4c4} "
    };
    let mut label = text_of(icon);
    label.append(n.label.as_str());
    let mut classes: Vec<String> = Vec::new();
    if n.is_dir {
        classes.push(text_of("directory-tree--folder"));
    } else {
        classes.push(text_of("directory-tree--file"));
        match file_extension_exec(n.label.as_str()) {
            Some(e) => {
                classes.push(text_of("directory-tree--extension"));
                let lower = to_lowercase(e.as_str());
                let mut c = text_of("directory-tree--extension-");
                c.append(lower.as_str());
                classes.push(c);
            },
            None => {},
        }
    }
    let hidden = starts_with(n.label.as_str(), ".");
    proof {
        reveal_strlit(".");
        assert("."@ =~= seq!['.']);
    }
    if hidden {
        classes.push(text_of("directory-tree--hidden"));
    }
    assert(texts(classes@) =~= row_classes(*n));
    TreeRow { label, depth: n.depth, expanded: n.expanded, allow_expand: n.is_dir, classes }
}

impl DirectoryTree {
    /// The rows the tree widget shows, one per node, in order.
    pub fn tree_rows(&self) -> (rs: Vec<TreeRow>)
        ensures
            rs@.len() == self.nodes@.len(),
            forall|i: int| 0 <= i < rs@.len() ==> tree_row_of(#[trigger] rs@[i], self.nodes@[i]),
    {
        let mut rs: Vec<TreeRow> = Vec::new();
        let mut i: usize = 0;
        while i < self.nodes.len()
            invariant
                i <= self.nodes@.len(),
                rs@.len() == i,
                forall|k: int| 0 <= k < i ==> tree_row_of(#[trigger] rs@[k], self.nodes@[k]),
            decreases self.nodes@.len() - i,
        {
            rs.push(tree_row(&self.nodes[i]));
            i = i + 1;
        }
        rs
    }
}


// ── Listing order ───────────────────────────────────────────────────────

/// Whether listed entry `a` (path, label, directory) comes before `b`:
/// directories first, then by lower-cased label, then by label.
pub open spec fn entry_before(a: (Seq<char>, Seq<char>, bool), b: (Seq<char>, Seq<char>, bool)) -> bool {
    if a.2 != b.2 {
        a.2
    } else if lowercase(a.1) != lowercase(b.1) {
        text_lt(lowercase(a.1), lowercase(b.1))
    } else {
        text_lt(a.1, b.1)
    }
}

/// `entry_before` is a strict order whose incomparability is transitive.
proof fn lemma_entry_before_order(a: (Seq<char>, Seq<char>, bool), b: (Seq<char>, Seq<char>, bool), c: (Seq<char>, Seq<char>, bool))
    ensures
        entry_before(a, b) ==> !entry_before(b, a),
        !entry_before(a, b) && !entry_before(b, c) ==> !entry_before(a, c),
{
    let (la, lb, lc) = (lowercase(a.1), lowercase(b.1), lowercase(c.1));
    lemma_text_lt_asymmetric(la, lb);
    lemma_text_lt_asymmetric(a.1, b.1);
    lemma_text_lt_total(la, lb);
    lemma_text_lt_total(lb, lc);
    lemma_text_lt_total(la, lc);
    lemma_text_lt_total(a.1, b.1);
    lemma_text_lt_total(b.1, c.1);
    lemma_text_lt_total(a.1, c.1);
    lemma_text_lt_transitive(la, lc, lb);
    lemma_text_lt_transitive(lc, lb, la);
    lemma_text_lt_transitive(lb, la, lc);
    lemma_text_lt_transitive(lc, la, lb);
    lemma_text_lt_transitive(a.1, c.1, b.1);
    lemma_text_lt_transitive(c.1, b.1, a.1);
    lemma_text_lt_transitive(b.1, a.1, c.1);
    lemma_text_lt_transitive(c.1, a.1, b.1);
    lemma_text_lt_irreflexive(la);
    lemma_text_lt_irreflexive(a.1);
}

/// `p` lists the first `n` entries in the order a stable sort by
/// `entry_before` gives them.
pub open spec fn is_listing_order(p: Seq<int>, n: int, keys: Seq<(Seq<char>, Seq<char>, bool)>) -> bool {
    &&& p.len() == n
    &&& forall|i: int| 0 <= i < n ==> 0 <= #[trigger] p[i] < n
    &&& forall|i: int, j: int| 0 <= i < n && 0 <= j < n && i != j ==> p[i] != p[j]
    &&& forall|i: int, j: int| 0 <= i < j < n ==> !entry_before(keys[#[trigger] p[j]], keys[#[trigger] p[i]])
    &&& forall|i: int, j: int| 0 <= i < j < n && !entry_before(keys[p[i]], keys[p[j]]) ==> #[trigger] p[i] < #[trigger] p[j]
}

pub open spec fn as_index_ints(idx: Seq<usize>) -> Seq<int> {
    idx.map_values(|i: usize| i as int)
}

/// Whether entry `a` comes before entry `b`, given their lower-cased labels.
fn entry_before_exec(a: &AsyncDirectoryEntry, la: &String, b: &AsyncDirectoryEntry, lb: &String) -> (r: bool)
    requires
        la@ == lowercase(a.label@),
        lb@ == lowercase(b.label@),
    ensures
        r == entry_before(entry_view(*a), entry_view(*b)),
{
    if a.is_dir != b.is_dir {
        a.is_dir
    } else if !text_eq(la.as_str(), lb.as_str()) {
        text_less(la.as_str(), lb.as_str())
    } else {
        text_less(a.label.as_str(), b.label.as_str())
    }
}

/// The stable order of the entries by `entry_before`.
fn listing_order(entries: &Vec<AsyncDirectoryEntry>) -> (idx: Vec<usize>)
    ensures
        is_listing_order(as_index_ints(idx@), entries@.len() as int, entries_view(entries@)),
{
    let ghost keys = entries_view(entries@);
    let n = entries.len();
    let mut lowers: Vec<String> = Vec::new();
    let mut k: usize = 0;
    while k < n
        invariant
            n == entries@.len(),
            k <= n,
            lowers@.len() == k,
            forall|t: int| 0 <= t < k ==> (#[trigger] lowers@[t])@ == lowercase(entries@[t].label@),
        decreases n - k,
    {
        lowers.push(to_lowercase(entries[k].label.as_str()));
        k = k + 1;
    }
    let mut idx: Vec<usize> = Vec::new();
    let mut i: usize = 0;
    while i < n
        invariant
            n == entries@.len(),
            keys == entries_view(entries@),
            lowers@.len() == n,
            forall|t: int| 0 <= t < n ==> (#[trigger] lowers@[t])@ == lowercase(entries@[t].label@),
            i <= n,
            is_listing_order(as_index_ints(idx@), i as int, keys),
        decreases n - i,
    {
        proof {
            assert forall|k: int| 0 <= k < idx@.len() implies (#[trigger] idx@[k]) < i by {
                assert(as_index_ints(idx@)[k] == idx@[k] as int);
            }
        }
        let mut j: usize = idx.len();
        while j > 0 && entry_before_exec(&entries[i], &lowers[i], &entries[idx[j - 1]], &lowers[idx[j - 1]])
            invariant
                n == entries@.len(),
                keys == entries_view(entries@),
                lowers@.len() == n,
                forall|t: int| 0 <= t < n ==> (#[trigger] lowers@[t])@ == lowercase(entries@[t].label@),
                i < n,
                idx@.len() == i,
                j <= i,
                forall|k: int| 0 <= k < idx@.len() ==> (#[trigger] idx@[k]) < i,
                is_listing_order(as_index_ints(idx@), i as int, keys),
                forall|k: int| j <= k < i ==> entry_before(keys[i as int], keys[#[trigger] as_index_ints(idx@)[k]]),
            decreases j,
        {
            j = j - 1;
        }
        let ghost old_idx = as_index_ints(idx@);
        idx.insert(j, i);
        proof {
            let q = as_index_ints(idx@);
            assert(q =~= old_idx.insert(j as int, i as int));
            assert forall|a: int, b: int| 0 <= a < b < i + 1 implies !entry_before(keys[#[trigger] q[b]], keys[#[trigger] q[a]]) by {
                if a < j && b > j {
                    assert(q[a] == old_idx[a] && q[b] == old_idx[b - 1]);
                } else if a == j {
                    lemma_entry_before_order(keys[i as int], keys[q[b]], keys[q[b]]);
                } else if b == j {
                    if a < j - 1 {
                        lemma_entry_before_order(keys[i as int], keys[old_idx[j - 1]], keys[old_idx[a]]);
                        lemma_entry_before_order(keys[old_idx[a]], keys[old_idx[j - 1]], keys[i as int]);
                    }
                } else if b < j {
                    assert(q[a] == old_idx[a] && q[b] == old_idx[b]);
                } else {
                    assert(q[a] == old_idx[a - 1] && q[b] == old_idx[b - 1]);
                }
            }
            assert forall|a: int, b: int|
                0 <= a < b < i + 1 && !entry_before(keys[q[a]], keys[q[b]]) implies #[trigger] q[a] < #[trigger] q[b] by {
                if a < j && b > j {
                    assert(q[a] == old_idx[a] && q[b] == old_idx[b - 1]);
                } else if a == j {
                } else if b == j {
                } else if b < j {
                    assert(q[a] == old_idx[a] && q[b] == old_idx[b]);
                } else {
                    assert(q[a] == old_idx[a - 1] && q[b] == old_idx[b - 1]);
                }
            }
            assert forall|a: int, b: int| 0 <= a < i + 1 && 0 <= b < i + 1 && a != b implies q[a] != q[b] by {
                if a != j && b != j {
                    let oa = if a < j { a } else { a - 1 };
                    let ob = if b < j { b } else { b - 1 };
                    assert(q[a] == old_idx[oa] && q[b] == old_idx[ob]);
                } else if a == j {
                    let ob = if b < j { b } else { b - 1 };
                    assert(q[b] == old_idx[ob]);
                } else {
                    let oa = if a < j { a } else { a - 1 };
                    assert(q[a] == old_idx[oa]);
                }
            }
            assert forall|a: int| 0 <= a < i + 1 implies 0 <= #[trigger] q[a] < i + 1 by {
                if a != j {
                    let oa = if a < j { a } else { a - 1 };
                    assert(q[a] == old_idx[oa]);
                }
            }
        }
        i = i + 1;
    }
    idx
}

/// The entries in listing order: directories first, then by lower-cased
/// label, then by label; entries that compare equal keep their order.
pub fn sort_listing(entries: &Vec<AsyncDirectoryEntry>) -> (out: Vec<AsyncDirectoryEntry>)
    ensures
        exists|p: Seq<int>|
            #[trigger] is_listing_order(p, entries@.len() as int, entries_view(entries@))
                && entries_view(out@) == Seq::new(p.len(), |k: int| entries_view(entries@)[p[k]]),
{
    let idx = listing_order(entries);
    let ghost p = as_index_ints(idx@);
    let ghost keys = entries_view(entries@);
    let mut out: Vec<AsyncDirectoryEntry> = Vec::new();
    let mut k: usize = 0;
    while k < idx.len()
        invariant
            k <= idx@.len(),
            p == as_index_ints(idx@),
            keys == entries_view(entries@),
            is_listing_order(p, entries@.len() as int, keys),
            entries_view(out@) == Seq::new(k as nat, |t: int| keys[p[t]]),
        decreases idx@.len() - k,
    {
        assert(p[k as int] == idx@[k as int] as int);
        assert(0 <= p[k as int] < entries@.len());
        let e = &entries[idx[k]];
        let ghost before = entries_view(out@);
        out.push(AsyncDirectoryEntry { path: e.path.clone(), label: e.label.clone(), is_dir: e.is_dir });
        assert(entries_view(out@) =~= before.push(keys[p[k as int]]));
        assert(entries_view(out@) =~= Seq::new((k + 1) as nat, |t: int| keys[p[t]]));
        k = k + 1;
    }
    assert(entries_view(out@) =~= Seq::new(p.len(), |t: int| keys[p[t]]));
    out
}

/// The entries of a directory listing the tree shows, in listing order:
/// those [`listed_children`] keeps, sorted by [`sort_listing`].
pub fn read_children(raw: &Vec<RawEntry>, show_hidden: bool, filtered: bool, verdicts: &Vec<bool>) -> (out: Vec<AsyncDirectoryEntry>)
    ensures
        exists|p: Seq<int>|
            #[trigger] is_listing_order(
                p,
                listed_entries(raw@, show_hidden, filtered, verdicts@, raw@.len() as int).len() as int,
                listed_entries(raw@, show_hidden, filtered, verdicts@, raw@.len() as int),
            ) && entries_view(out@) == Seq::new(
                p.len(),
                |k: int| listed_entries(raw@, show_hidden, filtered, verdicts@, raw@.len() as int)[p[k]],
            ),
{
    let listed = listed_children(raw, show_hidden, filtered, verdicts);
    let out = sort_listing(&listed);
    proof {
        let keys = entries_view(listed@);
        let p = choose|p: Seq<int>|
            #[trigger] is_listing_order(p, listed@.len() as int, keys) && entries_view(out@) == Seq::new(
                p.len(),
                |k: int| keys[p[k]],
            );
        assert(listed@.len() == keys.len());
        assert(is_listing_order(p, keys.len() as int, keys));
    }
    out
}


// ── Laws ────────────────────────────────────────────────────────────────

/// Expanding an unread directory twice asks the app to list it once: the
/// second expansion finds the load in flight and posts nothing.
pub proof fn law_expand_twice_asks_once(t0: DirectoryTree, t1: DirectoryTree, t2: DirectoryTree, index: usize, sender: NodeId)
    requires
        t0.wf(),
        index < t0.nodes@.len(),
        t0.nodes@[index as int].is_dir,
        !t0.nodes@[index as int].loaded,
        t0.next_task_id < u64::MAX,
        toggle_state(t0, t1, index, true),
        toggle_state(t1, t2, index, true),
    ensures
        toggle_messages(t1, index, true, sender) == Seq::<MessageEvent>::empty(),
        inflight_view(t2.inflight@) == inflight_view(t1.inflight@),
        t2.next_task_id == t1.next_task_id,
{
    let n = t0.nodes@[index as int];
    assert(t1.nodes@ == t0.nodes@.update(index as int, DirNode { expanded: true, ..n }));
    let n1 = t1.nodes@[index as int];
    assert(n1.path == n.path && n1.is_dir && n1.expanded && !n1.loaded);
    let inf0 = inflight_view(t0.inflight@);
    let inf1 = inflight_view(t1.inflight@);
    if has_load_for(inf0, n.path@) {
        assert(inf1 == inf0);
    } else {
        assert(inf1 == inf0.push((n.path@, t0.next_task_id)));
        assert(inf1[inf0.len() as int].0 == n.path@);
    }
    assert(has_load_for(inf1, n1.path@));
}

/// A finished load is applied once: the same result delivered again finds
/// no load in flight under its task id and changes nothing.
pub proof fn law_result_applied_once(
    t0: DirectoryTree,
    t1: DirectoryTree,
    t2: DirectoryTree,
    task_id: u64,
    result: AsyncTaskResult,
    verdicts: Seq<bool>,
)
    requires
        t0.wf(),
        result_state(t0, t1, task_id, result, verdicts),
        result_state(t1, t2, task_id, result, verdicts),
    ensures
        t2 == t1,
        !result_repaints(t1, task_id, result),
{
    let inf0 = inflight_view(t0.inflight@);
    let j = task_index_from(inf0, task_id, 0);
    lemma_task_index_from(inf0, task_id, 0);
    if j >= 0 {
        let inf1 = inflight_view(t1.inflight@);
        assert(inf1 == inf0.remove(j));
        assert forall|k: int| 0 <= k < inf1.len() implies #[trigger] inf1[k].1 != task_id by {
            let ok = if k < j { k } else { k + 1 };
            assert(inf1[k] == inf0[ok]);
        }
        lemma_no_task(inf1, task_id, 0);
    } else {
        assert(t1 == t0);
        lemma_task_index_from(inf0, task_id, 0);
    }
}

/// With no load under id `t`, looking one up finds none.
proof fn lemma_no_task(inf: Seq<(Seq<char>, u64)>, t: u64, k: int)
    requires
        0 <= k,
        forall|x: int| 0 <= x < inf.len() ==> #[trigger] inf[x].1 != t,
    ensures
        task_index_from(inf, t, k) == -1,
    decreases inf.len() - k,
{
    if k < inf.len() {
        lemma_no_task(inf, t, k + 1);
    }
}

/// Collapsing a directory leaves no load in flight for it or anything below
/// it, and no row below it.
pub proof fn law_collapse_clears_below(t0: DirectoryTree, t1: DirectoryTree, index: usize)
    requires
        t0.wf(),
        index < t0.nodes@.len(),
        t0.nodes@[index as int].is_dir,
        toggle_state(t0, t1, index, false),
    ensures
        forall|k: int| 0 <= k < t1.inflight@.len() ==> !path_within(
            #[trigger] inflight_view(t1.inflight@)[k].0,
            t0.nodes@[index as int].path@,
        ),
        index + 1 < t1.nodes@.len() ==> t1.nodes@[index + 1].depth <= t1.nodes@[index as int].depth,
        !t1.nodes@[index as int].expanded,
        !t1.nodes@[index as int].loaded,
{
    let ns = t0.nodes@;
    let p = ns[index as int].path@;
    let inf0 = inflight_view(t0.inflight@);
    let kept = inf0.filter(outside_fn(p));
    assert(inflight_view(t1.inflight@) == kept);
    assert forall|k: int| 0 <= k < kept.len() implies !path_within(#[trigger] kept[k].0, p) by {
        inf0.lemma_filter_pred(outside_fn(p), k);
    }
    lemma_subtree_end_from(ns, index as int, index + 1);
    let e = subtree_end(ns, index as int);
    if index + 1 < t1.nodes@.len() {
        assert(t1.nodes@[index + 1] == ns[e]);
    }
}


/// Whether rows form a well-formed tree, as [`nodes_wf`] states.
pub fn rows_well_formed(ns: &Vec<DirNode>) -> (b: bool)
    ensures
        b == nodes_wf(ns@),
{
    if ns.len() == 0 || ns[0].depth != 0 {
        return false;
    }
    let mut k: usize = 1;
    while k < ns.len()
        invariant
            1 <= k <= ns@.len(),
            ns@[0].depth == 0,
            forall|t: int| 1 <= t < k ==> #[trigger] ns@[t].depth >= 1,
            forall|t: int| 0 <= t < k - 1 ==> #[trigger] step_ok(ns@, t),
        decreases ns@.len() - k,
    {
        let prev = &ns[k - 1];
        let cur = &ns[k];
        if cur.depth < 1 {
            assert(ns@[k as int].depth < 1);
            return false;
        }
        if cur.depth > prev.depth && cur.depth - prev.depth > 1 {
            assert(!step_ok(ns@, k - 1));
            return false;
        }
        if cur.depth > prev.depth && !(prev.is_dir && prev.expanded && prev.loaded) {
            assert(!step_ok(ns@, k - 1));
            return false;
        }
        assert(step_ok(ns@, k - 1));
        k = k + 1;
    }
    true
}

} // verus!
