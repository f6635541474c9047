//! Startup repair of the scratchpad workspace: if an earlier faulty run
//! renamed the manager's reserved scratchpad workspace, restore its name
//! before any labeling pass.
use vstd::prelude::*;

use crate::command::{AbsCommand, Command};
use crate::labeler::name_of;
use crate::tree::{str_eq, Node, NodeKind};

verus! {

/// The first node in depth-first order (tiled children only) that is a
/// workspace with structural number `target`.
pub open spec fn spec_find_ws_by_num(n: Node, target: i32) -> Option<Node>
    decreases n, 1int,
{
    if n.kind == NodeKind::Workspace && n.num == Some(target) {
        Some(n)
    } else {
        spec_fwn_scan(n.nodes@, target)
    }
}

/// The scan of `spec_find_ws_by_num` over a tail of a node's children.
pub open spec fn spec_fwn_scan(ch: Seq<Node>, target: i32) -> Option<Node>
    decreases ch, 0int,
{
    if ch.len() == 0 {
        None
    } else {
        match spec_find_ws_by_num(ch[0], target) {
            Some(w) => Some(w),
            None => spec_fwn_scan(ch.drop_first(), target),
        }
    }
}

/// Find the workspace with structural number `target`.
pub fn find_ws_by_num<'a>(node: &'a Node, target: i32) -> (r: Option<&'a Node>)
    ensures
        match r {
            Some(w) => spec_find_ws_by_num(*node, target) == Some(*w),
            None => spec_find_ws_by_num(*node, target) is None,
        },
    decreases *node,
{
    if node.kind == NodeKind::Workspace {
        let by_num = match node.num {
            Some(n) => n == target,
            None => false,
        };
        if by_num {
            return Some(node);
        }
    }
    let mut i: usize = 0;
    proof {
        assert(node.nodes@.skip(0) =~= node.nodes@);
        assert(!(node.kind == NodeKind::Workspace && node.num == Some(target)));
        assert(spec_find_ws_by_num(*node, target) == spec_fwn_scan(node.nodes@, target));
    }
    while i < node.nodes.len()
        invariant
            i <= node.nodes@.len(),
            spec_fwn_scan(node.nodes@.skip(i as int), target) == spec_find_ws_by_num(
                *node,
                target,
            ),
        decreases node.nodes@.len() - i,
    {
        proof {
            assert(node.nodes@.skip(i as int)[0] == node.nodes@[i as int]);
            assert(node.nodes@.skip(i as int).drop_first() =~= node.nodes@.skip(i + 1));
        }
        let sub = find_ws_by_num(&node.nodes[i], target);
        if sub.is_some() {
            return sub;
        }
        i += 1;
    }
    None
}

/// The repair decision over a snapshot: rename the workspace numbered as
/// the scratchpad back to the reserved name, unless it already bears it or
/// no such workspace exists.
pub open spec fn spec_repair(tree: Node) -> Option<AbsCommand> {
    match spec_find_ws_by_num(tree, -1i32) {
        None => None,
        Some(ws) => if ws.name matches Some(n) && n@ == "__i3_scratch"@ {
            None
        } else {
            Some(AbsCommand::RenameByName { old: name_of(ws), new: "__i3_scratch"@ })
        },
    }
}

/// Decide the at-most-one rename that restores the scratchpad workspace's
/// reserved name.
pub fn repair_scratchpad(tree: &Node) -> (r: Option<Command>)
    ensures
        match r {
            Some(c) => spec_repair(*tree) == Some(c@),
            None => spec_repair(*tree) is None,
        },
{
    let ws = match find_ws_by_num(tree, -1) {
        Some(w) => w,
        None => {
            return None;
        },
    };
    match &ws.name {
        Some(n) => {
            if str_eq(n.as_str(), "__i3_scratch") {
                None
            } else {
                Some(Command::RenameByName { old: n.clone(), new: "__i3_scratch".to_owned() })
            }
        },
        None => Some(
            Command::RenameByName { old: String::new(), new: "__i3_scratch".to_owned() },
        ),
    }
}

/// Repair is idempotent: every rename it emits restores the reserved name,
/// and a tree whose scratchpad-numbered workspace already bears that name
/// draws no rename at all — so a second run right after a successful first
/// one issues nothing.
pub proof fn lemma_repair_idempotent(tree: Node)
    ensures
        spec_repair(tree) matches Some(c) ==> (c matches AbsCommand::RenameByName {
            old: _,
            new,
        } && new == "__i3_scratch"@),
        (spec_find_ws_by_num(tree, -1i32) matches Some(ws) && ws.name matches Some(n) && n@
            == "__i3_scratch"@) ==> spec_repair(tree) is None,
{
}

} // verus!
