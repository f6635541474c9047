//! Classification of one incoming notification into the two independent
//! duties of the event loop: run the tiling policy, run the labeler.
use vstd::prelude::*;

verus! {

/// The window-change notifications the daemon distinguishes.
#[derive(Clone, Copy, PartialEq, Eq, Structural)]
pub enum WindowChange {
    Focus,
    New,
    Close,
    Move,
    Title,
    Other,
}

/// One notification from the manager's event stream.
#[derive(Clone, Copy, PartialEq, Eq, Structural)]
pub enum EventKind {
    Window(WindowChange),
    Workspace,
    Other,
}

/// True when the event asks for the tiling policy: only a window
/// focus change does.
pub open spec fn spec_wants_tiling(e: EventKind) -> bool {
    e == EventKind::Window(WindowChange::Focus)
}

/// True when the event asks for a labeling pass: a window focus, new,
/// close, move or title change, and any workspace-level change.
pub open spec fn spec_wants_labels(e: EventKind) -> bool {
    ||| e == EventKind::Window(WindowChange::Focus)
    ||| e == EventKind::Window(WindowChange::New)
    ||| e == EventKind::Window(WindowChange::Close)
    ||| e == EventKind::Window(WindowChange::Move)
    ||| e == EventKind::Window(WindowChange::Title)
    ||| e == EventKind::Workspace
}

/// Split one notification into its two duties: whether the tiling policy
/// runs, and whether the labeler runs.
pub fn classify_event(e: EventKind) -> (r: (bool, bool))
    ensures
        r.0 == spec_wants_tiling(e),
        r.1 == spec_wants_labels(e),
{
    match e {
        EventKind::Window(w) => {
            let tiling = w == WindowChange::Focus;
            let labels = w != WindowChange::Other;
            (tiling, labels)
        },
        EventKind::Workspace => (false, true),
        EventKind::Other => (false, false),
    }
}

} // verus!
