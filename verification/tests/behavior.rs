use i3_helper::command::Command;
use i3_helper::labeler::{build_icon_map, update_workspace_names, workspace_label, IconMap};
use i3_helper::mode::{MODE_ALT, MODE_HORIZ, MODE_VERT};
use i3_helper::repair::repair_scratchpad;
use i3_helper::tiling::handle_tiling;
use i3_helper::tree::{
    collect_leaves, collect_workspaces, find_focused, find_tiling_parent, is_scratchpad_workspace,
    window_class, Layout, Node, NodeKind, Rect,
};

fn bare(id: i64, kind: NodeKind) -> Node {
    Node {
        id,
        kind,
        layout: Layout::Other,
        rect: Rect { x: 0, y: 0, width: 100, height: 50 },
        focused: false,
        focus: vec![],
        nodes: vec![],
        floating_nodes: vec![],
        num: None,
        name: None,
        class: None,
        instance: None,
    }
}

fn leaf(id: i64, class: &str) -> Node {
    let mut n = bare(id, NodeKind::Con);
    n.class = Some(class.to_string());
    n
}

/// A root -> workspace -> split parent -> focused window chain, wired
/// through the most-recently-used focus order.
fn focused_chain(parent_layout: Layout, win_rect: Rect) -> Node {
    let mut win = leaf(4, "someapp");
    win.focused = true;
    win.rect = win_rect;
    let mut parent = bare(3, NodeKind::Con);
    parent.layout = parent_layout;
    parent.focus = vec![4];
    parent.nodes = vec![win];
    let mut ws = bare(2, NodeKind::Workspace);
    ws.num = Some(1);
    ws.name = Some("1".to_string());
    ws.focus = vec![3];
    ws.nodes = vec![parent];
    let mut root = bare(1, NodeKind::Other);
    root.focus = vec![2];
    root.nodes = vec![ws];
    root
}

fn tall() -> Rect {
    Rect { x: 0, y: 0, width: 50, height: 100 }
}

fn wide() -> Rect {
    Rect { x: 0, y: 0, width: 100, height: 50 }
}

#[test]
fn alternating_tall_in_splith_emits_split_v() {
    let tree = focused_chain(Layout::SplitH, tall());
    let cmd = handle_tiling(&tree, MODE_ALT).expect("one command");
    assert_eq!(cmd.render(), "split v");
}

#[test]
fn alternating_wide_in_splitv_emits_split_h() {
    let tree = focused_chain(Layout::SplitV, wide());
    let cmd = handle_tiling(&tree, MODE_ALT).expect("one command");
    assert_eq!(cmd.render(), "split h");
}

#[test]
fn tiling_is_idempotent_once_layout_matches() {
    let tree = focused_chain(Layout::SplitH, tall());
    assert!(handle_tiling(&tree, MODE_ALT).is_some());
    // The manager carries "split v" out: the parent now splits vertically.
    let adjusted = focused_chain(Layout::SplitV, tall());
    assert!(handle_tiling(&adjusted, MODE_ALT).is_none());
    // Unchanged tree, second application: still the same single decision.
    let again = focused_chain(Layout::SplitV, tall());
    assert!(handle_tiling(&again, MODE_ALT).is_none());
}

#[test]
fn fixed_modes_enforce_their_orientation() {
    let tree = focused_chain(Layout::SplitH, wide());
    assert_eq!(handle_tiling(&tree, MODE_VERT).unwrap().render(), "split v");
    assert!(handle_tiling(&tree, MODE_HORIZ).is_none());
    let vtree = focused_chain(Layout::SplitV, wide());
    assert!(handle_tiling(&vtree, MODE_VERT).is_none());
    assert_eq!(handle_tiling(&vtree, MODE_HORIZ).unwrap().render(), "split h");
}

#[test]
fn tabbed_and_stacked_parents_are_left_alone() {
    for layout in [Layout::Tabbed, Layout::Stacked] {
        let tree = focused_chain(layout, tall());
        for mode in [MODE_ALT, MODE_VERT, MODE_HORIZ] {
            assert!(handle_tiling(&tree, mode).is_none());
        }
    }
}

#[test]
fn mru_order_decides_between_branches() {
    // Both subtrees hold a focused-flagged container; the front of the
    // focus list alone picks which branch the descent follows.
    let mut stale = leaf(10, "stale");
    stale.focused = true;
    let mut current = leaf(11, "current");
    current.focused = true;
    let mut root = bare(1, NodeKind::Other);
    root.focus = vec![11, 10];
    root.nodes = vec![stale, current];
    let f = find_focused(&root).expect("focused node");
    assert_eq!(f.id, 11);
}

#[test]
fn find_focused_needs_mru_entry() {
    // An unfocused root with an empty focus list leads nowhere.
    let mut root = bare(1, NodeKind::Other);
    root.nodes = vec![leaf(2, "app")];
    assert!(find_focused(&root).is_none());
}

#[test]
fn floating_target_has_no_tiling_parent() {
    let mut float = bare(99, NodeKind::FloatingCon);
    float.focused = true;
    let mut root = bare(1, NodeKind::Other);
    root.focus = vec![99];
    root.floating_nodes = vec![float];
    let f = find_focused(&root).expect("focused floating node");
    assert_eq!(f.id, 99);
    assert!(find_tiling_parent(&root, 99).is_none());
    for mode in [MODE_ALT, MODE_VERT, MODE_HORIZ] {
        assert!(handle_tiling(&root, mode).is_none());
    }
}

#[test]
fn tiling_parent_is_the_node_owning_the_child() {
    let tree = focused_chain(Layout::SplitH, tall());
    let p = find_tiling_parent(&tree, 4).expect("parent");
    assert_eq!(p.id, 3);
    let q = find_tiling_parent(&tree, 3).expect("grandparent");
    assert_eq!(q.id, 2);
    assert!(find_tiling_parent(&tree, 1).is_none());
    assert!(find_tiling_parent(&tree, 77).is_none());
}

#[test]
fn scratchpad_workspace_is_recognized_and_excluded() {
    let mut by_num = bare(5, NodeKind::Workspace);
    by_num.num = Some(-1);
    assert!(is_scratchpad_workspace(&by_num));
    let mut by_name = bare(6, NodeKind::Workspace);
    by_name.name = Some("__i3_scratch".to_string());
    assert!(is_scratchpad_workspace(&by_name));
    let mut plain = bare(7, NodeKind::Workspace);
    plain.num = Some(2);
    plain.name = Some("2".to_string());
    assert!(!is_scratchpad_workspace(&plain));

    let mut root = bare(1, NodeKind::Other);
    root.nodes = vec![by_num, plain, by_name];
    let mut out = Vec::new();
    collect_workspaces(&root, &mut out);
    assert_eq!(out.len(), 1);
    assert_eq!(out[0].id, 7);
}

#[test]
fn leaves_are_collected_tiled_before_floating() {
    let mut inner = bare(3, NodeKind::Con);
    inner.nodes = vec![leaf(4, "a"), leaf(5, "b")];
    let mut ws = bare(2, NodeKind::Workspace);
    ws.nodes = vec![inner];
    ws.floating_nodes = vec![leaf(6, "c")];
    let mut out = Vec::new();
    collect_leaves(&ws, &mut out);
    let ids: Vec<i64> = out.iter().map(|n| n.id).collect();
    assert_eq!(ids, vec![4, 5, 6]);
}

#[test]
fn window_identity_takes_lowercased_last_token() {
    let n = leaf(1, "Firefox Browser");
    assert_eq!(window_class(&n).unwrap(), "browser");
    let single = leaf(2, "Alacritty");
    assert_eq!(window_class(&single).unwrap(), "alacritty");
}

#[test]
fn window_identity_lowercases_per_unicode() {
    let n = leaf(1, "\u{C4}rger");
    assert_eq!(window_class(&n).unwrap(), "\u{E4}rger");
    // A non-breaking space separates tokens like any other whitespace.
    let nb = leaf(2, "Foo\u{A0}Bar");
    assert_eq!(window_class(&nb).unwrap(), "bar");
}

#[test]
fn window_identity_falls_back_to_instance() {
    let mut n = bare(1, NodeKind::Con);
    n.instance = Some("Some Inst".to_string());
    assert_eq!(window_class(&n).unwrap(), "inst");
    let plain = bare(2, NodeKind::Con);
    assert!(window_class(&plain).is_none());
}

fn one_pair(key: &str, value: &str) -> IconMap {
    IconMap { pairs: vec![(key.to_string(), value.to_string())] }
}

#[test]
fn unknown_identity_passes_through_as_label_body() {
    let mut ws = bare(2, NodeKind::Workspace);
    ws.num = Some(1);
    ws.name = Some("1".to_string());
    ws.nodes = vec![leaf(4, "mystery")];
    let icons = one_pair("firefox", "F");
    assert_eq!(workspace_label(&ws, &icons), "1: mystery");
}

#[test]
fn workspace_without_leaves_is_never_renamed() {
    let mut ws = bare(2, NodeKind::Workspace);
    ws.num = Some(3);
    for name in ["3", "3: old junk", "anything at all", ""] {
        ws.name = Some(name.to_string());
        let icons = build_icon_map();
        let cmds = update_workspace_names(&ws, &icons);
        assert_eq!(cmds.len(), 0);
    }
}

#[test]
fn multi_word_class_labels_by_its_last_token() {
    // The identity of "Firefox Browser" is the lowercased last token, so a
    // mapping that knows "browser" shows its markup, and one that does not
    // passes "browser" through.
    let mut ws = bare(2, NodeKind::Workspace);
    ws.num = Some(1);
    ws.name = Some("1".to_string());
    ws.nodes = vec![leaf(4, "Firefox Browser")];
    let known = one_pair("browser", "\u{1F98A}");
    assert_eq!(workspace_label(&ws, &known), "1: \u{1F98A}");
    let unknown = one_pair("firefox", "F");
    assert_eq!(workspace_label(&ws, &unknown), "1: browser");

    let mut root = bare(1, NodeKind::Other);
    root.nodes = vec![ws];
    let cmds = update_workspace_names(&root, &unknown);
    assert_eq!(cmds.len(), 1);
    assert_eq!(cmds[0].render(), "rename workspace \"1\" to \"1: browser\"");
}

#[test]
fn already_canonical_name_draws_no_rename() {
    let mut ws = bare(2, NodeKind::Workspace);
    ws.num = Some(1);
    ws.name = Some("1: browser".to_string());
    ws.nodes = vec![leaf(4, "Firefox Browser")];
    let mut root = bare(1, NodeKind::Other);
    root.nodes = vec![ws];
    let icons = one_pair("firefox", "F");
    let cmds = update_workspace_names(&root, &icons);
    assert_eq!(cmds.len(), 0);
}

#[test]
fn legacy_name_number_is_used_when_structural_number_is_missing() {
    let mut ws = bare(2, NodeKind::Workspace);
    ws.num = None;
    ws.name = Some("07fun".to_string());
    ws.nodes = vec![leaf(4, "app")];
    let icons = one_pair("x", "y");
    assert_eq!(workspace_label(&ws, &icons), "7: app");
}

#[test]
fn unnumbered_workspace_keeps_bare_body() {
    let mut ws = bare(2, NodeKind::Workspace);
    ws.num = None;
    ws.name = Some("scratch".to_string());
    ws.nodes = vec![leaf(4, "app")];
    let icons = one_pair("x", "y");
    assert_eq!(workspace_label(&ws, &icons), "app");
}

#[test]
fn rename_addresses_by_number_when_name_is_empty() {
    let mut ws = bare(2, NodeKind::Workspace);
    ws.num = Some(5);
    ws.name = None;
    ws.nodes = vec![leaf(4, "app")];
    let mut root = bare(1, NodeKind::Other);
    root.nodes = vec![ws];
    let icons = one_pair("x", "y");
    let cmds = update_workspace_names(&root, &icons);
    assert_eq!(cmds.len(), 1);
    assert_eq!(cmds[0].render(), "rename workspace number 5 to \"5: app\"");
}

#[test]
fn unaddressable_workspace_is_skipped() {
    let mut ws = bare(2, NodeKind::Workspace);
    ws.num = None;
    ws.name = None;
    ws.nodes = vec![leaf(4, "app")];
    let mut root = bare(1, NodeKind::Other);
    root.nodes = vec![ws];
    let icons = one_pair("x", "y");
    let cmds = update_workspace_names(&root, &icons);
    assert_eq!(cmds.len(), 0);
}

#[test]
fn quotes_in_names_are_escaped_in_rename_commands() {
    let mut ws = bare(2, NodeKind::Workspace);
    ws.num = Some(2);
    ws.name = Some("a\"b".to_string());
    ws.nodes = vec![leaf(4, "app")];
    let mut root = bare(1, NodeKind::Other);
    root.nodes = vec![ws];
    let icons = one_pair("x", "y");
    let cmds = update_workspace_names(&root, &icons);
    assert_eq!(cmds.len(), 1);
    assert_eq!(cmds[0].render(), "rename workspace \"a\\\"b\" to \"2: app\"");
}

#[test]
fn builtin_icon_map_knows_its_programs() {
    let icons = build_icon_map();
    assert_eq!(
        icons.get(&"firefox".to_string()).unwrap().as_str(),
        "<span size='x-large'>\u{E658} </span>"
    );
    assert_eq!(icons.get(&"htop".to_string()).unwrap().as_str(), "<span size='x-large'>\u{F04C5} </span>");
    assert!(icons.get(&"browser".to_string()).is_none());
    assert!(icons.get(&"".to_string()).is_none());
}

#[test]
fn repair_restores_the_scratchpad_name_once() {
    let mut ws = bare(2, NodeKind::Workspace);
    ws.num = Some(-1);
    ws.name = Some("oops".to_string());
    let mut root = bare(1, NodeKind::Other);
    root.nodes = vec![ws];
    let cmd = repair_scratchpad(&root).expect("one repair rename");
    assert_eq!(cmd.render(), "rename workspace \"oops\" to \"__i3_scratch\"");

    // After the rename took effect a second run issues nothing.
    let mut fixed = bare(2, NodeKind::Workspace);
    fixed.num = Some(-1);
    fixed.name = Some("__i3_scratch".to_string());
    let mut root2 = bare(1, NodeKind::Other);
    root2.nodes = vec![fixed];
    assert!(repair_scratchpad(&root2).is_none());
}

#[test]
fn repair_without_scratchpad_workspace_is_a_no_op() {
    let mut ws = bare(2, NodeKind::Workspace);
    ws.num = Some(1);
    ws.name = Some("1".to_string());
    let mut root = bare(1, NodeKind::Other);
    root.nodes = vec![ws];
    assert!(repair_scratchpad(&root).is_none());
}

#[test]
fn split_commands_render_exactly() {
    assert_eq!(Command::SplitV.render(), "split v");
    assert_eq!(Command::SplitH.render(), "split h");
    let neg = Command::RenameByNum { num: -7, new: "x".to_string() };
    assert_eq!(neg.render(), "rename workspace number -7 to \"x\"");
}
