use textual_widgets::directory_tree::{
    attach_listing, file_extension_exec, next_unread_directory, path_within_exec, read_children, tree_row,
    DirNode, DirectoryTree, RawEntry,
};
use textual_widgets::event::{AsyncDirectoryEntry, AsyncTaskRequest, AsyncTaskResult, EventCtx, Message, MessageEvent};

fn entry(path: &str, label: &str, is_dir: bool) -> AsyncDirectoryEntry {
    AsyncDirectoryEntry { path: path.to_string(), label: label.to_string(), is_dir }
}

fn build(entries: Vec<AsyncDirectoryEntry>) -> DirectoryTree {
    let mut nodes = vec![DirNode::root("/tmp/t", Some("t"), true, true)];
    let i = next_unread_directory(&nodes).expect("root is unread");
    attach_listing(&mut nodes, i, &entries, &Vec::new());
    assert_eq!(next_unread_directory(&nodes), None);
    DirectoryTree::new("/tmp/t", nodes)
}

fn message(tree: &DirectoryTree, ctx: &EventCtx, message: Message) -> MessageEvent {
    MessageEvent::new(tree.tree_id(ctx), message)
}

#[test]
fn directory_tree_selection_forwards_file_specific_message() {
    let mut tree = build(vec![entry("/tmp/t/alpha.txt", "alpha.txt", false)]);
    tree.on_layout(40, 4);
    let mut ctx = EventCtx::default();
    let m = message(&tree, &ctx, Message::TreeNodeSelected { index: 1 });
    tree.on_message(&m, &Vec::new(), false, &mut ctx);
    assert!(ctx.handled());
    let emitted = ctx.take_messages();
    assert!(emitted.iter().any(|event| matches!(
        &event.message,
        Message::DirectoryTreeFileSelected { index, path } if *index == 1 && path.ends_with("alpha.txt")
    )));
}

#[test]
fn directory_tree_selection_forwards_directory_specific_message() {
    let mut tree = build(vec![entry("/tmp/t/nested", "nested", true)]);
    tree.on_layout(40, 4);
    let mut ctx = EventCtx::default();
    let m = message(&tree, &ctx, Message::TreeNodeSelected { index: 1 });
    tree.on_message(&m, &Vec::new(), true, &mut ctx);
    assert!(ctx.handled());
    let emitted = ctx.take_messages();
    assert!(emitted.iter().any(|event| matches!(
        &event.message,
        Message::DirectoryTreeDirectorySelected { index, path } if *index == 1 && path.ends_with("nested")
    )));
}

#[test]
fn directory_tree_expand_emits_async_task_spawn_message() {
    let mut tree = build(vec![entry("/tmp/t/nested", "nested", true)]);
    tree.on_layout(40, 4);
    let mut ctx = EventCtx::default();
    let m = message(&tree, &ctx, Message::TreeNodeToggled { index: 1, expanded: true });
    tree.on_message(&m, &Vec::new(), false, &mut ctx);
    let emitted = ctx.take_messages();
    assert!(emitted.iter().any(|event| matches!(
        &event.message,
        Message::AsyncTaskSpawn { target, request: AsyncTaskRequest::ReadDirectory { .. }, .. }
            if *target == EventCtx::default().node
    )));
}

#[test]
fn async_load_result_applies_filter_predicate() {
    let mut tree = build(vec![entry("/tmp/t/nested", "nested", true)]);
    let _ = tree.filter_paths();
    tree.on_layout(40, 10);

    let mut ctx = EventCtx::default();
    let m = message(&tree, &ctx, Message::TreeNodeToggled { index: 1, expanded: false });
    tree.on_message(&m, &Vec::new(), false, &mut ctx);
    let _ = ctx.take_messages();

    let mut ctx = EventCtx::default();
    let m = message(&tree, &ctx, Message::TreeNodeToggled { index: 1, expanded: true });
    tree.on_message(&m, &Vec::new(), false, &mut ctx);
    let spawn_msgs = ctx.take_messages();
    let task_id = spawn_msgs.iter().find_map(|event| match &event.message {
        Message::AsyncTaskSpawn { task_id, .. } => Some(*task_id),
        _ => None,
    });
    assert!(task_id.is_some(), "should have spawned async task");

    let result = AsyncTaskResult::DirectoryEntries {
        path: "/tmp/t/nested".to_string(),
        entries: vec![entry("/tmp/t/nested/keep.rs", "keep.rs", false), entry("/tmp/t/nested/skip.txt", "skip.txt", false)],
    };
    // The app's filter keeps directories and `.rs` files.
    let verdicts = vec![true, false];
    let mut ctx = EventCtx::default();
    tree.apply_directory_load_result(task_id.unwrap(), &result, &verdicts, &mut ctx);

    assert_eq!(tree.nodes.len(), 3, "filter should exclude skip.txt");
    assert_eq!(tree.nodes[2].label, "keep.rs");
    assert_eq!(tree.nodes[2].depth, 2);
    assert!(tree.nodes[1].loaded);
    assert!(ctx.repaint_requested());
}

#[test]
fn directory_tree_collapse_emits_async_task_cancel_message() {
    let mut tree = build(vec![entry("/tmp/t/nested", "nested", true)]);
    tree.on_layout(40, 4);
    let mut expand_ctx = EventCtx::default();
    let m = message(&tree, &expand_ctx, Message::TreeNodeToggled { index: 1, expanded: true });
    tree.on_message(&m, &Vec::new(), false, &mut expand_ctx);
    let _ = expand_ctx.take_messages();

    let mut collapse_ctx = EventCtx::default();
    let m = message(&tree, &collapse_ctx, Message::TreeNodeToggled { index: 1, expanded: false });
    tree.on_message(&m, &Vec::new(), false, &mut collapse_ctx);
    let emitted = collapse_ctx.take_messages();
    assert!(emitted.iter().any(|event| matches!(event.message, Message::AsyncTaskCancel { task_id: 1 })));
}

#[test]
fn expanding_twice_asks_for_the_listing_once() {
    let mut tree = build(vec![entry("/tmp/t/nested", "nested", true)]);
    let mut ctx = EventCtx::default();
    tree.update_node_expanded_state(1, true, &mut ctx);
    tree.update_node_expanded_state(1, true, &mut ctx);
    let spawns = ctx.take_messages().iter().filter(|e| matches!(e.message, Message::AsyncTaskSpawn { .. })).count();
    assert_eq!(spawns, 1);
    assert_eq!(tree.inflight.len(), 1);
}

#[test]
fn a_load_result_is_applied_once() {
    let mut tree = build(vec![entry("/tmp/t/nested", "nested", true)]);
    let mut ctx = EventCtx::default();
    tree.update_node_expanded_state(1, true, &mut ctx);
    let result = AsyncTaskResult::DirectoryEntries {
        path: "/tmp/t/nested".to_string(),
        entries: vec![entry("/tmp/t/nested/a", "a", false)],
    };
    tree.apply_directory_load_result(1, &result, &Vec::new(), &mut ctx);
    assert_eq!(tree.nodes.len(), 3);
    tree.apply_directory_load_result(1, &result, &Vec::new(), &mut ctx);
    assert_eq!(tree.nodes.len(), 3);
}

#[test]
fn collapsing_drops_rows_below_and_selects_the_row() {
    let mut tree = build(vec![entry("/tmp/t/nested", "nested", true), entry("/tmp/t/z.txt", "z.txt", false)]);
    let mut ctx = EventCtx::default();
    tree.update_node_expanded_state(1, true, &mut ctx);
    let result = AsyncTaskResult::DirectoryEntries {
        path: "/tmp/t/nested".to_string(),
        entries: vec![entry("/tmp/t/nested/a", "a", false), entry("/tmp/t/nested/b", "b", false)],
    };
    tree.apply_directory_load_result(1, &result, &Vec::new(), &mut ctx);
    assert_eq!(tree.nodes.len(), 5);
    tree.selected = 4;
    assert_eq!(tree.selected_path().as_deref(), Some("/tmp/t/z.txt"));
    tree.update_node_expanded_state(1, false, &mut ctx);
    assert_eq!(tree.nodes.len(), 3);
    assert_eq!(tree.selected_path().as_deref(), Some("/tmp/t/nested"));
    assert!(!tree.nodes[1].loaded);
}

#[test]
fn failed_load_leaves_directory_unread() {
    let mut tree = build(vec![entry("/tmp/t/nested", "nested", true)]);
    let mut ctx = EventCtx::default();
    tree.update_node_expanded_state(1, true, &mut ctx);
    tree.apply_directory_load_result(1, &AsyncTaskResult::Failed { error: "denied".to_string() }, &Vec::new(), &mut ctx);
    assert!(tree.inflight.is_empty());
    assert!(!tree.nodes[1].loaded);
    assert_eq!(tree.nodes.len(), 2);
}

#[test]
fn reload_asks_again_for_an_expanded_directory() {
    let tree0 = build(vec![entry("/tmp/t/nested", "nested", true)]);
    let mut tree = tree0;
    let mut ctx = EventCtx::default();
    tree.reload_node(0, &mut ctx);
    let messages = ctx.take_messages();
    assert!(matches!(
        &messages[0].message,
        Message::AsyncTaskSpawn { request: AsyncTaskRequest::ReadDirectory { path, show_hidden: false }, .. } if path == "/tmp/t"
    ));
    assert_eq!(tree.nodes.len(), 1);
    assert!(!tree.nodes[0].loaded);
}

#[test]
fn refresh_reports_expanded_paths_and_selection() {
    let mut tree = build(vec![entry("/tmp/t/nested", "nested", true)]);
    tree.selected = 1;
    let request = tree.refresh();
    assert!(request.root_expanded);
    assert_eq!(request.expanded_paths, vec!["/tmp/t".to_string()]);
    assert_eq!(request.selected.as_deref(), Some("/tmp/t/nested"));
    assert!(tree.set_show_hidden(false).is_none());
    assert!(tree.set_show_hidden(true).is_some());
    assert!(tree.showing_hidden());
    assert!(tree.clear_filter().is_none());
}

#[test]
fn listing_skips_hidden_and_filtered_entries_and_sorts_directories_first() {
    let raw = vec![
        RawEntry { path: "/d/b.txt".to_string(), name: Some("b.txt".to_string()), is_dir: false },
        RawEntry { path: "/d/.hidden".to_string(), name: Some(".hidden".to_string()), is_dir: false },
        RawEntry { path: "/d/Zdir".to_string(), name: Some("Zdir".to_string()), is_dir: true },
        RawEntry { path: "/d/A.txt".to_string(), name: Some("A.txt".to_string()), is_dir: false },
        RawEntry { path: "/d/bad".to_string(), name: None, is_dir: false },
        RawEntry { path: "/d/adir".to_string(), name: Some("adir".to_string()), is_dir: true },
    ];
    let labels = |v: Vec<AsyncDirectoryEntry>| v.into_iter().map(|e| e.label).collect::<Vec<_>>();
    assert_eq!(labels(read_children(&raw, false, false, &Vec::new())), vec!["adir", "Zdir", "A.txt", "b.txt"]);
    assert_eq!(labels(read_children(&raw, true, false, &Vec::new())), vec!["adir", "Zdir", ".hidden", "A.txt", "b.txt"]);
    let verdicts = vec![true, true, false, true, true, true];
    assert_eq!(labels(read_children(&raw, false, true, &verdicts)), vec!["adir", "A.txt", "b.txt"]);
}

#[test]
fn tree_rows_carry_icons_and_component_classes() {
    let dir = DirNode::root("/tmp/t", Some("t"), true, true);
    let row = tree_row(&dir);
    assert_eq!(row.label, "\u{1f4c2} t");
    assert_eq!(row.classes, vec!["directory-tree--folder"]);
    assert!(row.allow_expand);
    let file = DirNode::from_entry(&entry("/tmp/t/.Main.RS", ".Main.RS", false), 1);
    let row = tree_row(&file);
    assert_eq!(row.label, "\u{1f4c4} .Main.RS");
    assert_eq!(
        row.classes,
        vec!["directory-tree--file", "directory-tree--extension", "directory-tree--extension-rs", "directory-tree--hidden"]
    );
    assert_eq!(file_extension_exec(".bashrc"), None);
    assert_eq!(file_extension_exec("a.tar.gz").as_deref(), Some("gz"));
    assert_eq!(file_extension_exec("x."), Some(String::new()));
    assert_eq!(file_extension_exec(".."), None);
}

#[test]
fn paths_within_compare_whole_components() {
    assert!(path_within_exec("/a/b", "/a"));
    assert!(path_within_exec("/a", "/a"));
    assert!(!path_within_exec("/ab", "/a"));
    assert!(path_within_exec("/a/b", "/a/"));
    assert!(!path_within_exec("/a", "/a/b"));
}

#[test]
fn setting_changes_ask_to_rebuild_the_tree_as_it_stands() {
    let mut tree = build(vec![entry("/tmp/t/nested", "nested", true), entry("/tmp/t/a.txt", "a.txt", false)]);
    tree.selected = 2;
    let expected = (true, vec!["/tmp/t".to_string()], Some("/tmp/t/a.txt".to_string()));
    let shape = |r: &textual_widgets::directory_tree::RefreshRequest| {
        (r.root_expanded, r.expanded_paths.clone(), r.selected.clone())
    };
    let hidden = tree.set_show_hidden(true).expect("a change refreshes");
    assert_eq!(shape(&hidden), expected);
    let filtered = tree.filter_paths();
    assert_eq!(shape(&filtered), expected);
    let cleared = tree.clear_filter().expect("a filter was set");
    assert_eq!(shape(&cleared), expected);
    let (tree, shown) = tree.show_hidden(false);
    assert_eq!(shape(&shown), expected);
    assert!(!tree.showing_hidden());
}

#[test]
fn selection_reports_what_the_path_is_at_selection_time() {
    let mut tree = build(vec![entry("/tmp/t/alpha", "alpha", false)]);
    tree.on_layout(40, 4);
    let mut ctx = EventCtx::default();
    let m = message(&tree, &ctx, Message::TreeNodeSelected { index: 1 });
    tree.on_message(&m, &Vec::new(), true, &mut ctx);
    let emitted = ctx.take_messages();
    assert!(emitted.iter().any(|event| matches!(
        &event.message,
        Message::DirectoryTreeDirectorySelected { index, path } if *index == 1 && path == "/tmp/t/alpha"
    )));
}
