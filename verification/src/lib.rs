//! Decision engine for maintaining the linked worktrees of one repository:
//! enumerating them into a registry snapshot, computing each one's
//! synchronization status, and deciding which worktrees to remove and which
//! to rebase. Repository access and every other side effect stay with the
//! caller, which feeds what it observed in as plain values and carries the
//! decisions out.

pub mod clean;
pub mod status;
pub mod sync;
pub mod text;
pub mod ui;
pub mod worktree;
