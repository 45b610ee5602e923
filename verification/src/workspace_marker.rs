//! The ` [scratch-on]` marker the plugin appends to a workspace label while a
//! scratch session of that workspace is hidden.

use vstd::prelude::*;
use crate::herdr::{PaneInfo, WorkspaceInfo, panes_view};
use crate::scope::{opt_str_view, opt_string_view};
use crate::state::{ScratchState, choose_marker_target, marker_target, opt_ref_state};
use crate::text::{drop_last_chars, ends_with_str, has_suffix, str_equal};

verus! {

pub const WORKSPACE_MARKER_SUFFIX: &'static str = " [scratch-on]";

pub open spec fn marker_suffix() -> Seq<char> {
    " [scratch-on]"@
}

/// A label carrying the marker exactly once at its end.
pub open spec fn marked_label(label: Seq<char>) -> Seq<char> {
    if has_suffix(label, marker_suffix()) {
        label
    } else {
        label + marker_suffix()
    }
}

/// A label without the marker at its end.
pub open spec fn original_label(label: Seq<char>) -> Seq<char> {
    if has_suffix(label, marker_suffix()) {
        label.subrange(0, label.len() - marker_suffix().len())
    } else {
        label
    }
}

pub fn marked_workspace_label(label: &str) -> (marked: String)
    ensures
        marked@ == marked_label(label@),
{
    if ends_with_str(label, WORKSPACE_MARKER_SUFFIX) {
        label.to_owned()
    } else {
        label.to_owned().concat(WORKSPACE_MARKER_SUFFIX)
    }
}

pub fn original_workspace_label(label: &str) -> (original: String)
    ensures
        original@ == original_label(label@),
{
    if ends_with_str(label, WORKSPACE_MARKER_SUFFIX) {
        drop_last_chars(label, WORKSPACE_MARKER_SUFFIX.unicode_len())
    } else {
        label.to_owned()
    }
}

/// The label to give back to a workspace whose scratch pane is revealed: the
/// recorded original when the workspace still has the label the plugin wrote;
/// with nothing recorded, the label without a trailing marker; else none, so a
/// label the user changed is left alone.
pub open spec fn restored_label(state: ScratchState, current_label: Seq<char>) -> Option<Seq<char>> {
    match (state.original_workspace_label, state.marked_workspace_label) {
        (Some(original), Some(marked)) => if current_label == marked@ {
            Some(original@)
        } else {
            None
        },
        (None, None) => if has_suffix(current_label, marker_suffix()) {
            Some(original_label(current_label))
        } else {
            None
        },
        _ => None,
    }
}

pub fn restore_workspace_label(state: &ScratchState, current_label: &str) -> (restored: Option<String>)
    ensures
        opt_string_view(restored) == restored_label(*state, current_label@),
{
    match (&state.original_workspace_label, &state.marked_workspace_label) {
        (Some(original), Some(marked)) => if str_equal(current_label, marked.as_str()) {
            Some(original.clone())
        } else {
            None
        },
        (None, None) => if ends_with_str(current_label, WORKSPACE_MARKER_SUFFIX) {
            Some(original_workspace_label(current_label))
        } else {
            None
        },
        _ => None,
    }
}

/// The pane whose legacy title and status are cleared.
pub fn legacy_marker_cleanup_target(state: Option<&ScratchState>, panes: &[PaneInfo], current: &PaneInfo) -> (target: Option<String>)
    ensures
        opt_string_view(target) == marker_target(opt_ref_state(state), panes_view(panes@), current@),
{
    choose_marker_target(state, panes, current)
}

/// How a workspace is marked when its scratch pane is hidden.
pub struct WorkspaceMark {
    /// The label to restore later.
    pub original: String,
    /// The label the workspace carries while marked.
    pub marked: String,
    /// Whether the workspace must be renamed to carry `marked`.
    pub rename: bool,
}

/// The label a workspace shows: its label, else its id.
pub open spec fn shown_label(workspace: WorkspaceInfo) -> Seq<char> {
    match workspace.label {
        Some(l) => l@,
        None => workspace.workspace_id@,
    }
}

/// Plans the marking of `workspace`: the original label is the one recorded
/// before, else the shown label without a marker; the workspace is renamed
/// unless it already shows the marked label.
pub fn workspace_mark(recorded_original: &Option<String>, workspace: &WorkspaceInfo) -> (mark: WorkspaceMark)
    ensures
        mark.original@ == (match recorded_original {
            Some(o) => o@,
            None => original_label(shown_label(*workspace)),
        }),
        mark.marked@ == marked_label(mark.original@),
        mark.rename == (shown_label(*workspace) != mark.marked@),
{
    let current: &str = match &workspace.label {
        Some(l) => l.as_str(),
        None => workspace.workspace_id.as_str(),
    };
    let original = match recorded_original {
        Some(o) => o.clone(),
        None => original_workspace_label(current),
    };
    let marked = marked_workspace_label(original.as_str());
    let rename = !str_equal(current, marked.as_str());
    WorkspaceMark { original, marked, rename }
}

/// The workspace whose label is marked or restored: the recorded one, else
/// `fallback`.
pub fn marker_workspace_id(state: &ScratchState, fallback: Option<&str>) -> (workspace_id: Option<String>)
    ensures
        opt_string_view(workspace_id) == (match state.workspace_id {
            Some(w) => Some(w@),
            None => opt_str_view(fallback),
        }),
{
    match &state.workspace_id {
        Some(w) => Some(w.clone()),
        None => match fallback {
            Some(f) => Some(f.to_owned()),
            None => None,
        },
    }
}

/// The state once `workspace_id` is marked as `mark` says: the workspace and
/// both labels are recorded; the rest is kept.
pub fn marked_state(state: ScratchState, workspace_id: String, mark: WorkspaceMark) -> (next: ScratchState)
    ensures
        next.scope == state.scope,
        next.host_pane_id == state.host_pane_id,
        next.scratch_pane_id == state.scratch_pane_id,
        next.workspace_id == Some(workspace_id),
        next.original_workspace_label == Some(mark.original),
        next.marked_workspace_label == Some(mark.marked),
{
    ScratchState {
        workspace_id: Some(workspace_id),
        original_workspace_label: Some(mark.original),
        marked_workspace_label: Some(mark.marked),
        ..state
    }
}

/// The state once the workspace label is restored: no label is recorded any
/// more; the rest is kept.
pub fn restored_state(state: ScratchState) -> (next: ScratchState)
    ensures
        next.scope == state.scope,
        next.host_pane_id == state.host_pane_id,
        next.scratch_pane_id == state.scratch_pane_id,
        next.workspace_id == state.workspace_id,
        next.original_workspace_label is None,
        next.marked_workspace_label is None,
{
    ScratchState { original_workspace_label: None, marked_workspace_label: None, ..state }
}

proof fn lemma_suffix_of_append(label: Seq<char>, suffix: Seq<char>)
    ensures
        has_suffix(label + suffix, suffix),
        (label + suffix).subrange(0, (label + suffix).len() - suffix.len()) == label,
{
    assert((label + suffix).subrange((label + suffix).len() - suffix.len(), (label + suffix).len() as int) =~= suffix);
    assert((label + suffix).subrange(0, (label + suffix).len() - suffix.len()) =~= label);
}

/// Marking a label twice marks it once, and taking the marker off a marked
/// label gives the label without a marker.
pub proof fn marking_is_idempotent_and_reversible(label: Seq<char>)
    ensures
        marked_label(marked_label(label)) == marked_label(label),
        has_suffix(marked_label(label), marker_suffix()),
        original_label(marked_label(label)) == original_label(label),
        !has_suffix(label, marker_suffix()) ==> original_label(marked_label(label)) == label,
{
    lemma_suffix_of_append(label, marker_suffix());
}

/// A label the plugin marked and recorded is given back when the workspace
/// still shows it, and a label the user changed since is left alone.
pub proof fn restore_gives_back_recorded_label(state: ScratchState, current_label: Seq<char>)
    requires
        state.original_workspace_label is Some,
        state.marked_workspace_label is Some,
    ensures
        current_label == state.marked_workspace_label->0@ ==> restored_label(state, current_label)
            == Some(state.original_workspace_label->0@),
        current_label != state.marked_workspace_label->0@ ==> restored_label(state, current_label) is None,
{
}

} // verus!
