//! The action requested in the selector, recovered from its exit status.
//!
//! The selector reports the default accept and three custom key bindings as
//! distinct exit status codes.  Every code maps to an action: the three
//! custom codes to their actions, every other code — the default accept
//! included — to the copy action.

use vstd::prelude::*;

verus! {

/// What the user asked the picker to do with the chosen entry.
#[derive(Clone, Copy, Debug, PartialEq, Eq, Structural)]
pub enum Action {
    /// Put the entry's decoded content back on the clipboard.
    Copy,
    /// Edit the decoded content in a small dialog, then copy the edit.
    QuickEdit,
    /// Hand the decoded content to an external editor via a temp file.
    OpenInEditor,
    /// Remove the entry from the history daemon.
    Delete,
}

/// The action each selector exit status stands for.  The mapping is total:
/// codes 10, 11 and 12 are the custom key bindings, and every other code,
/// 0 (the default accept) as much as an unmapped one, falls back to copy.
pub open spec fn action_of(code: int) -> Action {
    if code == 10 {
        Action::QuickEdit
    } else if code == 11 {
        Action::OpenInEditor
    } else if code == 12 {
        Action::Delete
    } else {
        Action::Copy
    }
}

/// Maps a selector exit status to its action.
pub fn action_for_code(code: i32) -> (a: Action)
    ensures
        a == action_of(code as int),
{
    match code {
        10 => Action::QuickEdit,
        11 => Action::OpenInEditor,
        12 => Action::Delete,
        _ => Action::Copy,
    }
}

/// The exit-status table, spelled out: the mapping is total and exhaustive,
/// the three custom codes reach their actions, and every remaining code —
/// the default accept included — falls back to copy.
pub proof fn lemma_action_mapping_total(code: int)
    ensures
        code == 0 ==> action_of(code) == Action::Copy,
        code == 10 ==> action_of(code) == Action::QuickEdit,
        code == 11 ==> action_of(code) == Action::OpenInEditor,
        code == 12 ==> action_of(code) == Action::Delete,
        code != 10 && code != 11 && code != 12 ==> action_of(code) == Action::Copy,
{
}

} // verus!
