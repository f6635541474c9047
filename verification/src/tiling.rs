//! The tiling policy: at most one split-orientation command per focus
//! event, chosen from the focused node, its tiling parent, and the mode.
use vstd::prelude::*;

use crate::command::{AbsCommand, Command};
use crate::mode::{MODE_ALT, MODE_HORIZ, MODE_VERT};
use crate::tree::{
    find_focused, find_tiling_parent, spec_find_focused, spec_find_tiling_parent, tiled_present,
    lemma_find_tiling_parent_characterized, Layout, Node, Rect,
};

verus! {

/// The split the policy wants for a focused window of geometry `rect`
/// whose tiling parent currently has layout `layout`, under `mode`:
/// alternating splits against the window's longer side, the fixed modes
/// enforce their orientation, and a parent already as desired is left alone.
pub open spec fn split_decision(mode: u8, layout: Layout, rect: Rect) -> Option<AbsCommand> {
    if mode == MODE_ALT {
        if rect.height > rect.width {
            if layout == Layout::SplitH {
                Some(AbsCommand::SplitV)
            } else {
                None
            }
        } else {
            if layout == Layout::SplitV {
                Some(AbsCommand::SplitH)
            } else {
                None
            }
        }
    } else if mode == MODE_VERT {
        if layout != Layout::SplitV {
            Some(AbsCommand::SplitV)
        } else {
            None
        }
    } else if mode == MODE_HORIZ {
        if layout != Layout::SplitH {
            Some(AbsCommand::SplitH)
        } else {
            None
        }
    } else {
        None
    }
}

/// The tiling policy over a whole snapshot: nothing without a focused
/// container, nothing for one without a tiling parent (a floating window),
/// nothing under a tabbed or stacked parent, else the split decision.
pub open spec fn spec_handle_tiling(tree: Node, mode: u8) -> Option<AbsCommand> {
    match spec_find_focused(tree) {
        None => None,
        Some(f) => match spec_find_tiling_parent(tree, f.id) {
            None => None,
            Some(p) => if p.layout == Layout::Tabbed || p.layout == Layout::Stacked {
                None
            } else {
                split_decision(mode, p.layout, f.rect)
            },
        },
    }
}

/// Decide the at-most-one split command for one focus event.
pub fn handle_tiling(tree: &Node, mode: u8) -> (r: Option<Command>)
    ensures
        match r {
            Some(c) => spec_handle_tiling(*tree, mode) == Some(c@),
            None => spec_handle_tiling(*tree, mode) is None,
        },
{
    let focused = match find_focused(tree) {
        Some(f) => f,
        None => {
            return None;
        },
    };
    let parent = match find_tiling_parent(tree, focused.id) {
        Some(p) => p,
        None => {
            return None;
        },
    };
    if parent.layout == Layout::Tabbed || parent.layout == Layout::Stacked {
        return None;
    }
    if mode == MODE_ALT {
        if focused.rect.height > focused.rect.width {
            if parent.layout == Layout::SplitH {
                Some(Command::SplitV)
            } else {
                None
            }
        } else if parent.layout == Layout::SplitV {
            Some(Command::SplitH)
        } else {
            None
        }
    } else if mode == MODE_VERT {
        if parent.layout != Layout::SplitV {
            Some(Command::SplitV)
        } else {
            None
        }
    } else if mode == MODE_HORIZ {
        if parent.layout != Layout::SplitH {
            Some(Command::SplitH)
        } else {
            None
        }
    } else {
        None
    }
}

/// Under the alternating mode, a focused window taller than wide whose
/// tiling parent splits horizontally draws exactly the one split-vertical
/// command, and no other.
pub proof fn lemma_alternating_tall_goes_vertical(tree: Node, f: Node, p: Node)
    requires
        spec_find_focused(tree) == Some(f),
        spec_find_tiling_parent(tree, f.id) == Some(p),
        p.layout == Layout::SplitH,
        f.rect.height > f.rect.width,
    ensures
        spec_handle_tiling(tree, MODE_ALT) == Some(AbsCommand::SplitV),
{
}

/// The layout of the parent after the manager carries a split command out.
pub open spec fn apply_split(c: AbsCommand, layout: Layout) -> Layout {
    match c {
        AbsCommand::SplitV => Layout::SplitV,
        AbsCommand::SplitH => Layout::SplitH,
        _ => layout,
    }
}

/// The policy is idempotent at its decision point: once the parent's layout
/// is what an emitted command asked for, the same focus and mode draw no
/// further command; and since the decision is a function of the tree and
/// mode, an unchanged tree that drew no command never draws one later.
pub proof fn lemma_tiling_idempotent(mode: u8, layout: Layout, rect: Rect)
    ensures
        split_decision(mode, layout, rect) matches Some(c) ==> split_decision(
            mode,
            apply_split(c, layout),
            rect,
        ) is None,
{
}

/// The policy is idempotent over snapshots: when one snapshot draws a
/// command, any later snapshot in which the focused window keeps its
/// geometry and its tiling parent now carries the layout the command asked
/// for — in particular the same tree right after the manager applied it —
/// draws no further command.
pub proof fn lemma_tiling_idempotent_tree(
    t1: Node,
    t2: Node,
    f1: Node,
    f2: Node,
    p1: Node,
    p2: Node,
    mode: u8,
    c: AbsCommand,
)
    requires
        spec_find_focused(t1) == Some(f1),
        spec_find_tiling_parent(t1, f1.id) == Some(p1),
        spec_handle_tiling(t1, mode) == Some(c),
        spec_find_focused(t2) == Some(f2),
        f2.rect == f1.rect,
        spec_find_tiling_parent(t2, f2.id) == Some(p2),
        p2.layout == apply_split(c, p1.layout),
    ensures
        spec_handle_tiling(t2, mode) is None,
{
    lemma_tiling_idempotent(mode, p1.layout, f1.rect);
}

/// A focused container whose id stands in no tiled-children list anywhere
/// in the tree — a floating window, such as a scratchpad or a dialog — has
/// no tiling parent, and the policy then leaves the event alone under every
/// mode.
pub proof fn lemma_floating_focus_no_command(tree: Node, f: Node, mode: u8)
    requires
        spec_find_focused(tree) == Some(f),
        !tiled_present(tree, f.id),
    ensures
        spec_find_tiling_parent(tree, f.id) is None,
        spec_handle_tiling(tree, mode) is None,
{
    lemma_find_tiling_parent_characterized(tree, f.id);
}

} // verus!
