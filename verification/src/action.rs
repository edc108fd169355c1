//! The semantic actions that key presses resolve to, one enum per
//! interaction mode plus the global set, and the unified `Action` over them.

use vstd::prelude::*;

verus! {

/// Actions available in every mode.
#[derive(Debug, Clone, Copy, PartialEq, Eq, Structural)]
pub enum GlobalAction {
    Quit,
    ShowHelp,
}

/// Actions for blame (history-browsing) mode.
#[derive(Debug, Clone, Copy, PartialEq, Eq, Structural)]
pub enum BlameAction {
    CursorUp,
    CursorDown,
    Cursor10Up,
    Cursor10Down,
    CursorPageUp,
    CursorPageDown,
    CursorTop,
    CursorBottom,
    DrillDown,
    GoBack,
    ShowDiff,
}

/// Actions for diff-inspection mode.
#[derive(Debug, Clone, Copy, PartialEq, Eq, Structural)]
pub enum DiffAction {
    ScrollUp,
    ScrollDown,
    Scroll10Up,
    Scroll10Down,
    ScrollPageUp,
    ScrollPageDown,
    ScrollTop,
    ScrollBottom,
    ScrollLeft,
    ScrollRight,
    Close,
    OpenInGitHub,
}

/// Actions for the help overlay.
#[derive(Debug, Clone, Copy, PartialEq, Eq, Structural)]
pub enum HelpAction {
    ScrollUp,
    ScrollDown,
    Scroll10Up,
    Scroll10Down,
    Close,
}

/// The unified action type. `Unbound` denotes a key with no binding: a no-op
/// that never errors.
#[derive(Debug, Clone, Copy, PartialEq, Eq, Structural)]
pub enum Action {
    Global(GlobalAction),
    Blame(BlameAction),
    Diff(DiffAction),
    Help(HelpAction),
    Unbound,
}

} // verus!
