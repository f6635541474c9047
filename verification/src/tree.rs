//! Model of the window manager's layout tree and the read-only queries the
//! daemon runs against a fresh snapshot of it: guided descent to the focused
//! container, tiling-parent search, workspace and leaf enumeration.
use vstd::prelude::*;
use vstd::string::StrSliceExecFns;

use crate::text::{last_token, last_token_str, lower_of, lowercase};

verus! {

broadcast use vstd::std_specs::vec::group_vec_axioms;

/// The node kinds the daemon distinguishes; every other kind the
/// window manager reports is collapsed into `Other`.
#[derive(Clone, Copy, PartialEq, Eq, Structural)]
pub enum NodeKind {
    Con,
    FloatingCon,
    Workspace,
    Other,
}

/// Split orientation / layout of a container.
#[derive(Clone, Copy, PartialEq, Eq, Structural)]
pub enum Layout {
    SplitH,
    SplitV,
    Tabbed,
    Stacked,
    Other,
}

/// Geometry of a node, as reported by the window manager.
#[derive(Clone, Copy, PartialEq, Eq, Structural)]
pub struct Rect {
    pub x: i32,
    pub y: i32,
    pub width: i32,
    pub height: i32,
}

/// One node of a layout-tree snapshot. `focus` lists child ids in
/// most-recently-used order; its front entry points down the focus path.
/// `class` and `instance` carry the window-identity descriptor when the
/// node is a window.
pub struct Node {
    pub id: i64,
    pub kind: NodeKind,
    pub layout: Layout,
    pub rect: Rect,
    pub focused: bool,
    pub focus: Vec<i64>,
    pub nodes: Vec<Node>,
    pub floating_nodes: Vec<Node>,
    pub num: Option<i32>,
    pub name: Option<String>,
    pub class: Option<String>,
    pub instance: Option<String>,
}

/// A node that can itself hold the input focus: a tiled or floating container.
pub open spec fn leafish(n: Node) -> bool {
    n.kind == NodeKind::Con || n.kind == NodeKind::FloatingCon
}

/// Character-wise string equality, decided without allocation.
pub fn str_eq(a: &str, b: &str) -> (r: bool)
    ensures
        r == (a@ == b@),
{
    let alen = a.unicode_len();
    let blen = b.unicode_len();
    if alen != blen {
        proof {
            if a@ == b@ {
                assert(a@.len() == b@.len());
            }
        }
        return false;
    }
    let mut i: usize = 0;
    while i < alen
        invariant
            alen == a@.len(),
            blen == b@.len(),
            alen == blen,
            i <= alen,
            forall|j: int| 0 <= j < i ==> a@[j] == b@[j],
        decreases alen - i,
    {
        if a.get_char(i) != b.get_char(i) {
            return false;
        }
        i += 1;
    }
    proof {
        assert(a@ =~= b@);
    }
    true
}

/// The workspace the manager reserves for the scratchpad: structural
/// number -1 (canonical) or the reserved internal name.
pub open spec fn spec_is_scratchpad(ws: Node) -> bool {
    ws.num == Some(-1i32) || (ws.name matches Some(n) && n@ == "__i3_scratch"@)
}

/// True for the manager's reserved scratchpad workspace.
pub fn is_scratchpad_workspace(ws: &Node) -> (r: bool)
    ensures
        r == spec_is_scratchpad(*ws),
{
    let by_num = match ws.num {
        Some(n) => n == -1,
        None => false,
    };
    if by_num {
        return true;
    }
    match &ws.name {
        Some(s) => str_eq(s.as_str(), "__i3_scratch"),
        None => false,
    }
}

/// The first node of `ch` whose id is `id`, if any.
pub open spec fn child_with_id(ch: Seq<Node>, id: i64) -> Option<Node>
    decreases ch.len(),
{
    if ch.len() == 0 {
        None
    } else if ch[0].id == id {
        Some(ch[0])
    } else {
        child_with_id(ch.drop_first(), id)
    }
}

proof fn lemma_child_with_id_in(ch: Seq<Node>, id: i64)
    ensures
        child_with_id(ch, id) matches Some(c) ==> exists|i: int|
            0 <= i < ch.len() && ch[i] == c,
    decreases ch.len(),
{
    if ch.len() > 0 && ch[0].id != id {
        lemma_child_with_id_in(ch.drop_first(), id);
        if let Some(c) = child_with_id(ch.drop_first(), id) {
            let i = choose|i: int| 0 <= i < ch.drop_first().len() && ch.drop_first()[i] == c;
            assert(ch[i + 1] == c);
        }
    }
}

/// If the first `i` nodes all miss `id` and node `i` has it, the scan stops there.
proof fn lemma_child_with_id_first(ch: Seq<Node>, id: i64, i: int)
    requires
        0 <= i < ch.len(),
        forall|j: int| 0 <= j < i ==> ch[j].id != id,
        ch[i].id == id,
    ensures
        child_with_id(ch, id) == Some(ch[i]),
    decreases i,
{
    if i > 0 {
        lemma_child_with_id_first(ch.drop_first(), id, i - 1);
        assert(ch.drop_first()[i - 1] == ch[i]);
    }
}

/// If no node of `ch` has `id`, the scan misses.
proof fn lemma_child_with_id_none(ch: Seq<Node>, id: i64)
    requires
        forall|j: int| 0 <= j < ch.len() ==> ch[j].id != id,
    ensures
        child_with_id(ch, id) is None,
    decreases ch.len(),
{
    if ch.len() > 0 {
        lemma_child_with_id_none(ch.drop_first(), id);
    }
}

/// The single child the most-recently-used order points at: the first entry
/// of `focus`, looked up among the tiled children first, then the floating.
pub open spec fn focus_target(n: Node) -> Option<Node> {
    if n.focus@.len() == 0 {
        None
    } else {
        match child_with_id(n.nodes@, n.focus@[0]) {
            Some(c) => Some(c),
            None => child_with_id(n.floating_nodes@, n.focus@[0]),
        }
    }
}

/// Guided descent to the focused container: stop at a focused tiled or
/// floating container, otherwise follow the front of the `focus` list down
/// one matching child, never scanning whole subtrees.
pub open spec fn spec_find_focused(n: Node) -> Option<Node>
    decreases n,
    via spec_find_focused_decreases
{
    if n.focused && leafish(n) {
        Some(n)
    } else {
        match focus_target(n) {
            Some(c) => spec_find_focused(c),
            None => None,
        }
    }
}

#[via_fn]
proof fn spec_find_focused_decreases(n: Node) {
    broadcast use vstd::seq::group_seq_axioms;
    broadcast use vstd::std_specs::vec::group_vec_axioms;

    if !(n.focused && leafish(n)) {
        if let Some(c) = focus_target(n) {
            lemma_child_with_id_in(n.nodes@, n.focus@[0]);
            lemma_child_with_id_in(n.floating_nodes@, n.focus@[0]);
            if child_with_id(n.nodes@, n.focus@[0]) == Some(c) {
                let i = choose|i: int| 0 <= i < n.nodes@.len() && n.nodes@[i] == c;
                assert(decreases_to!(n => n.nodes));
                assert(decreases_to!(n.nodes => n.nodes@));
                assert(decreases_to!(n.nodes@ => n.nodes@[i]));
                assert(decreases_to!(n => c));
            } else {
                let i = choose|i: int|
                    0 <= i < n.floating_nodes@.len() && n.floating_nodes@[i] == c;
                assert(decreases_to!(n => n.floating_nodes));
                assert(decreases_to!(n.floating_nodes => n.floating_nodes@));
                assert(decreases_to!(n.floating_nodes@ => n.floating_nodes@[i]));
                assert(decreases_to!(n => c));
            }
        }
    }
}

/// Locate the focused tiled-or-floating container by guided descent along
/// the most-recently-used order, in one hop per tree level.
pub fn find_focused<'a>(node: &'a Node) -> (r: Option<&'a Node>)
    ensures
        match r {
            Some(f) => spec_find_focused(*node) == Some(*f),
            None => spec_find_focused(*node) is None,
        },
    decreases *node,
{
    if node.focused && (node.kind == NodeKind::Con || node.kind == NodeKind::FloatingCon) {
        return Some(node);
    }
    if node.focus.len() > 0 {
        let next_id = node.focus[0];
        let mut i: usize = 0;
        while i < node.nodes.len()
            invariant
                i <= node.nodes@.len(),
                forall|j: int| 0 <= j < i ==> node.nodes@[j].id != next_id,
                next_id == node.focus@[0],
                node.focus@.len() > 0,
                !(node.focused && leafish(*node)),
            decreases node.nodes@.len() - i,
        {
            if node.nodes[i].id == next_id {
                proof {
                    lemma_child_with_id_first(node.nodes@, next_id, i as int);
                }
                return find_focused(&node.nodes[i]);
            }
            i += 1;
        }
        proof {
            lemma_child_with_id_none(node.nodes@, next_id);
        }
        let mut k: usize = 0;
        while k < node.floating_nodes.len()
            invariant
                k <= node.floating_nodes@.len(),
                forall|j: int| 0 <= j < k ==> node.floating_nodes@[j].id != next_id,
                next_id == node.focus@[0],
                node.focus@.len() > 0,
                !(node.focused && leafish(*node)),
                child_with_id(node.nodes@, next_id) is None,
            decreases node.floating_nodes@.len() - k,
        {
            if node.floating_nodes[k].id == next_id {
                proof {
                    lemma_child_with_id_first(node.floating_nodes@, next_id, k as int);
                }
                return find_focused(&node.floating_nodes[k]);
            }
            k += 1;
        }
        proof {
            lemma_child_with_id_none(node.floating_nodes@, next_id);
        }
    }
    None
}

/// Depth-first search for the node whose tiled-children list holds
/// `t`, scanning tiled children only: the child list is walked in order,
/// a direct match returns the current node, otherwise the child's own
/// subtree is searched before the next sibling.
pub open spec fn spec_find_tiling_parent(root: Node, t: i64) -> Option<Node>
    decreases root, 1int,
{
    spec_ftp_scan(root, root.nodes@, t)
}

/// The scan of `spec_find_tiling_parent` over a tail `ch` of `root`'s
/// tiled children.
pub open spec fn spec_ftp_scan(root: Node, ch: Seq<Node>, t: i64) -> Option<Node>
    decreases ch, 0int,
{
    if ch.len() == 0 {
        None
    } else if ch[0].id == t {
        Some(root)
    } else {
        match spec_find_tiling_parent(ch[0], t) {
            Some(p) => Some(p),
            None => spec_ftp_scan(root, ch.drop_first(), t),
        }
    }
}

/// Find the tiling parent of the node with id `t`: the node whose ordered
/// tiled-children list contains `t`. Floating children are never descended
/// into, so the search misses for a floating target.
pub fn find_tiling_parent<'a>(root: &'a Node, target_id: i64) -> (r: Option<&'a Node>)
    ensures
        match r {
            Some(p) => spec_find_tiling_parent(*root, target_id) == Some(*p),
            None => spec_find_tiling_parent(*root, target_id) is None,
        },
    decreases *root,
{
    let mut i: usize = 0;
    proof {
        assert(root.nodes@.skip(0) =~= root.nodes@);
    }
    while i < root.nodes.len()
        invariant
            i <= root.nodes@.len(),
            spec_ftp_scan(*root, root.nodes@.skip(i as int), target_id) == spec_find_tiling_parent(
                *root,
                target_id,
            ),
        decreases root.nodes@.len() - i,
    {
        proof {
            assert(root.nodes@.skip(i as int)[0] == root.nodes@[i as int]);
            assert(root.nodes@.skip(i as int).drop_first() =~= root.nodes@.skip(i as int + 1));
        }
        if root.nodes[i].id == target_id {
            return Some(root);
        }
        let sub = find_tiling_parent(&root.nodes[i], target_id);
        if sub.is_some() {
            return sub;
        }
        i += 1;
    }
    proof {
        assert(root.nodes@.skip(root.nodes@.len() as int).len() == 0);
    }
    None
}

/// The nodes a sequence of references points at.
pub open spec fn deref_seq(s: Seq<&Node>) -> Seq<Node> {
    s.map_values(|r: &Node| *r)
}

/// The workspaces under `n` in depth-first order, the scratchpad excluded.
/// The search stops descending at a workspace: workspaces do not nest.
pub open spec fn spec_workspaces(n: Node) -> Seq<Node>
    decreases n, 1int,
{
    if n.kind == NodeKind::Workspace {
        if !spec_is_scratchpad(n) {
            seq![n]
        } else {
            Seq::empty()
        }
    } else {
        spec_workspaces_of(n.nodes@)
    }
}

/// The workspaces under each node of `ch`, concatenated in order.
pub open spec fn spec_workspaces_of(ch: Seq<Node>) -> Seq<Node>
    decreases ch, 0int,
{
    if ch.len() == 0 {
        Seq::empty()
    } else {
        spec_workspaces_of(ch.drop_last()) + spec_workspaces(ch.last())
    }
}

/// Append the workspaces under `node` to `out`, in depth-first order,
/// skipping the scratchpad workspace.
pub fn collect_workspaces<'a>(node: &'a Node, out: &mut Vec<&'a Node>)
    ensures
        deref_seq(final(out)@) == deref_seq(old(out)@) + spec_workspaces(*node),
    decreases *node,
{
    if node.kind == NodeKind::Workspace {
        if !is_scratchpad_workspace(node) {
            out.push(node);
            proof {
                assert(deref_seq(out@) =~= deref_seq(old(out)@) + spec_workspaces(*node));
            }
        } else {
            proof {
                assert(deref_seq(out@) =~= deref_seq(old(out)@) + spec_workspaces(*node));
            }
        }
        return;
    }
    let ghost base = deref_seq(out@);
    let mut i: usize = 0;
    while i < node.nodes.len()
        invariant
            i <= node.nodes@.len(),
            deref_seq(out@) == base + spec_workspaces_of(node.nodes@.take(i as int)),
            node.kind != NodeKind::Workspace,
        decreases node.nodes@.len() - i,
    {
        collect_workspaces(&node.nodes[i], out);
        proof {
            assert(node.nodes@.take(i + 1).drop_last() =~= node.nodes@.take(i as int));
            assert(node.nodes@.take(i + 1).last() == node.nodes@[i as int]);
        }
        i += 1;
    }
    proof {
        assert(node.nodes@.take(node.nodes@.len() as int) =~= node.nodes@);
    }
}

/// The leaf containers under `n` in depth-first order: nodes with no tiled
/// and no floating children, tiled subtrees walked before floating ones.
pub open spec fn spec_leaves(n: Node) -> Seq<Node>
    decreases n, 1int,
{
    if n.nodes@.len() == 0 && n.floating_nodes@.len() == 0 {
        if leafish(n) {
            seq![n]
        } else {
            Seq::empty()
        }
    } else {
        spec_leaves_of(n.nodes@) + spec_leaves_of(n.floating_nodes@)
    }
}

/// The leaves under each node of `ch`, concatenated in order.
pub open spec fn spec_leaves_of(ch: Seq<Node>) -> Seq<Node>
    decreases ch, 0int,
{
    if ch.len() == 0 {
        Seq::empty()
    } else {
        spec_leaves_of(ch.drop_last()) + spec_leaves(ch.last())
    }
}

/// Append the leaf containers under `node` to `out`, in depth-first order.
pub fn collect_leaves<'a>(node: &'a Node, out: &mut Vec<&'a Node>)
    ensures
        deref_seq(final(out)@) == deref_seq(old(out)@) + spec_leaves(*node),
    decreases *node,
{
    if node.nodes.len() == 0 && node.floating_nodes.len() == 0 {
        if node.kind == NodeKind::Con || node.kind == NodeKind::FloatingCon {
            out.push(node);
            proof {
                assert(deref_seq(out@) =~= deref_seq(old(out)@) + spec_leaves(*node));
            }
        } else {
            proof {
                assert(deref_seq(out@) =~= deref_seq(old(out)@) + spec_leaves(*node));
            }
        }
        return;
    }
    let ghost base = deref_seq(out@);
    let mut i: usize = 0;
    while i < node.nodes.len()
        invariant
            i <= node.nodes@.len(),
            deref_seq(out@) == base + spec_leaves_of(node.nodes@.take(i as int)),
            node.nodes@.len() > 0 || node.floating_nodes@.len() > 0,
        decreases node.nodes@.len() - i,
    {
        collect_leaves(&node.nodes[i], out);
        proof {
            assert(node.nodes@.take(i + 1).drop_last() =~= node.nodes@.take(i as int));
            assert(node.nodes@.take(i + 1).last() == node.nodes@[i as int]);
        }
        i += 1;
    }
    proof {
        assert(node.nodes@.take(node.nodes@.len() as int) =~= node.nodes@);
    }
    let mut k: usize = 0;
    while k < node.floating_nodes.len()
        invariant
            k <= node.floating_nodes@.len(),
            deref_seq(out@) == base + spec_leaves_of(node.nodes@) + spec_leaves_of(
                node.floating_nodes@.take(k as int),
            ),
            node.nodes@.len() > 0 || node.floating_nodes@.len() > 0,
        decreases node.floating_nodes@.len() - k,
    {
        collect_leaves(&node.floating_nodes[k], out);
        proof {
            assert(node.floating_nodes@.take(k + 1).drop_last() =~= node.floating_nodes@.take(
                k as int,
            ));
            assert(node.floating_nodes@.take(k + 1).last() == node.floating_nodes@[k as int]);
        }
        k += 1;
    }
    proof {
        assert(node.floating_nodes@.take(node.floating_nodes@.len() as int)
            =~= node.floating_nodes@);
        assert(deref_seq(out@) =~= deref_seq(old(out)@) + spec_leaves(*node));
    }
}

/// The lowercase last token of a window-identity string: the last
/// whitespace-delimited token, under the Unicode lowercase mapping.
pub open spec fn identity_of(s: Seq<char>) -> Seq<char> {
    lower_of(last_token(s))
}

/// The identity a node's window carries: its class, falling back to its
/// instance, reduced to the lowercase last whitespace-delimited token;
/// nothing when the node carries neither.
pub open spec fn spec_window_class(n: Node) -> Option<Seq<char>> {
    match n.class {
        Some(c) => Some(identity_of(c@)),
        None => match n.instance {
            Some(i) => Some(identity_of(i@)),
            None => None,
        },
    }
}

/// Derive the single-token lowercase identifier of a node's window from its
/// class, falling back to its instance.
pub fn window_class(node: &Node) -> (r: Option<String>)
    ensures
        match r {
            Some(s) => spec_window_class(*node) == Some(s@),
            None => spec_window_class(*node) is None,
        },
{
    let source: &String = match &node.class {
        Some(c) => c,
        None => match &node.instance {
            Some(i) => i,
            None => {
                return None;
            },
        },
    };
    let tok = last_token_str(source.as_str());
    Some(lowercase(tok))
}

/// Whether some node reachable through tiled-children lists alone has a
/// tiled child with id `t` — the condition under which a tiling parent
/// exists at all.
pub open spec fn tiled_present(n: Node, t: i64) -> bool
    decreases n, 1int, 0int,
{
    tiled_present_from(n, 0, t)
}

/// `tiled_present` over the tiled children of `n` from position `m` on.
pub open spec fn tiled_present_from(n: Node, m: int, t: i64) -> bool
    decreases n, 0int, n.nodes@.len() - m,
{
    if m < 0 || m >= n.nodes@.len() {
        false
    } else {
        n.nodes@[m].id == t || tiled_present(n.nodes@[m], t) || tiled_present_from(n, m + 1, t)
    }
}

/// The tiling-parent search succeeds exactly when some tiled-children list
/// holds the target, and what it returns is then such a node: its tiled
/// children contain the target.
pub proof fn lemma_find_tiling_parent_characterized(root: Node, t: i64)
    ensures
        (spec_find_tiling_parent(root, t) is Some) <==> tiled_present(root, t),
        spec_find_tiling_parent(root, t) matches Some(p) ==> exists|i: int|
            0 <= i < p.nodes@.len() && p.nodes@[i].id == t,
    decreases root, 1int, 0int,
{
    assert(root.nodes@.skip(0) =~= root.nodes@);
    lemma_ftp_scan_characterized(root, 0, t);
}

proof fn lemma_ftp_scan_characterized(root: Node, m: int, t: i64)
    requires
        0 <= m <= root.nodes@.len(),
    ensures
        (spec_ftp_scan(root, root.nodes@.skip(m), t) is Some) <==> tiled_present_from(
            root,
            m,
            t,
        ),
        spec_ftp_scan(root, root.nodes@.skip(m), t) matches Some(p) ==> exists|i: int|
            0 <= i < p.nodes@.len() && p.nodes@[i].id == t,
    decreases root, 0int, root.nodes@.len() - m,
{
    let ch = root.nodes@.skip(m);
    if ch.len() > 0 {
        assert(ch[0] == root.nodes@[m]);
        assert(ch.drop_first() =~= root.nodes@.skip(m + 1));
        lemma_find_tiling_parent_characterized(root.nodes@[m], t);
        lemma_ftp_scan_characterized(root, m + 1, t);
    }
}

} // verus!
