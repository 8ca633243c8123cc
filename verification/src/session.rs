//! The step-by-step plan of one picker session.
//!
//! The program runs a strictly sequential chain of external invocations;
//! every decision between two invocations is made here, on the plain values
//! the previous invocation produced.  The surrounding binary performs each
//! planned step and hands the outcome back.

use vstd::prelude::*;
use vstd::string::*;
use crate::action::{action_for_code, action_of, Action};
use crate::fingerprint::fingerprint_of;
use crate::marker::{clean_marker, mark_entries, mark_spec, strip_marker_spec};
use crate::text::{trim_trailing, trim_trailing_spec};

verus! {

/// What to do once the history listing is in hand.
pub enum ListingStep {
    /// The history is empty: report so on the error stream and stop
    /// without invoking the selector.
    NoHistory,
    /// Feed these marked entries, in this order, to the selector.
    Select(Vec<String>),
}

/// What to do once the selector has answered.
pub enum SelectionStep {
    /// The selection came back empty — the user cancelled: stop without
    /// dispatching any action.
    Cancelled,
    /// Perform the action on the history line, the marker already
    /// stripped off.
    Dispatch(String, Action),
}

/// Plans the step after listing the history: an empty history stops the
/// program before the selector is ever invoked; otherwise every line is
/// marked — current exactly when its decoded content fingerprints like the
/// current clipboard — and handed on in the daemon's order.
pub fn plan_listing(
    lines: &Vec<String>,
    decoded: &Vec<String>,
    current_fp: &String,
) -> (r: ListingStep)
    requires
        lines@.len() == decoded@.len(),
    ensures
        match r {
            ListingStep::NoHistory => lines@.len() == 0,
            ListingStep::Select(entries) => {
                &&& lines@.len() > 0
                &&& entries@.len() == lines@.len()
                &&& forall|i: int| 0 <= i < entries@.len()
                    ==> entries@[i]@ == mark_spec(
                        lines@[i]@,
                        fingerprint_of(decoded@[i]@) == current_fp@,
                    )
            },
        },
{
    if lines.len() == 0 {
        ListingStep::NoHistory
    } else {
        ListingStep::Select(mark_entries(lines, decoded, current_fp))
    }
}

/// Plans the step after the selector returns: its output trimmed of the
/// trailing newline is the selection; an empty selection stops the program
/// before any action is dispatched, and otherwise the marker is stripped
/// off and the exit status names the action.
pub fn plan_selection(raw_output: &str, exit_code: i32) -> (r: SelectionStep)
    ensures
        match r {
            SelectionStep::Cancelled => trim_trailing_spec(raw_output@).len() == 0,
            SelectionStep::Dispatch(entry, action) => {
                &&& trim_trailing_spec(raw_output@).len() > 0
                &&& entry@ == strip_marker_spec(trim_trailing_spec(raw_output@))
                &&& action == action_of(exit_code as int)
            },
        },
{
    let selection = trim_trailing(raw_output);
    if selection.as_str().is_empty() {
        SelectionStep::Cancelled
    } else {
        SelectionStep::Dispatch(clean_marker(selection.as_str()), action_for_code(exit_code))
    }
}

/// Decides whether an edited text goes back on the clipboard: a quick edit
/// copies its outcome exactly when the dialog produced something, and an
/// empty outcome — the dialog cancelled — copies nothing.
pub fn should_copy_edited(edited: &str) -> (r: bool)
    ensures
        r <==> edited@.len() > 0,
{
    !edited.is_empty()
}

} // verus!
