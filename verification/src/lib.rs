//! Companion daemon logic for a tiling window manager: guided queries over
//! a layout-tree snapshot, a tiling policy that picks split orientations, a
//! workspace labeler, and the signal-driven tiling-mode state machine. The
//! surrounding process — IPC, signals, files — hands these functions plain
//! snapshots and carries their decisions out.
pub mod command;
pub mod events;
pub mod labeler;
pub mod mode;
pub mod paths;
pub mod repair;
pub mod text;
pub mod tiling;
pub mod tree;
