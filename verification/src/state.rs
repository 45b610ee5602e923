//! The scratch state the plugin records between invocations, and the paths it
//! is kept under.

use vstd::prelude::*;
use crate::decisions::{first_match, is_first_match, is_scratch, is_scratch_view, lemma_first_match_found, lemma_first_match_none};
use crate::herdr::{PaneInfo, PaneView, panes_view};
use crate::scope::{Scope, opt_string_view, session_name, session_name_of, opt_str_view};
use crate::text::{ends_with_str, str_equal};

verus! {

/// What the plugin remembers of a scratch pane while it is hidden.
#[derive(Debug, Clone, PartialEq, Eq)]
pub struct ScratchState {
    pub scope: Scope,
    pub workspace_id: Option<String>,
    pub host_pane_id: String,
    pub scratch_pane_id: Option<String>,
    pub original_workspace_label: Option<String>,
    pub marked_workspace_label: Option<String>,
}

/// A pane that may carry the plugin's marker: not a scratch pane and, when a
/// workspace is known, in that workspace.
pub open spec fn is_marker_candidate(workspace: Option<Seq<char>>, p: PaneView) -> bool {
    &&& !is_scratch_view(p)
    &&& (workspace matches Some(w) ==> p.workspace_id == Some(w))
}

pub open spec fn marker_candidate_pred(workspace: Option<Seq<char>>) -> spec_fn(PaneView) -> bool {
    |p: PaneView| is_marker_candidate(workspace, p)
}

/// The workspace a marker target is looked for in: the recorded one, else the
/// current pane's.
pub open spec fn marker_workspace(state: Option<ScratchState>, current: PaneView) -> Option<Seq<char>> {
    match state {
        Some(s) => match s.workspace_id {
            Some(w) => Some(w@),
            None => current.workspace_id,
        },
        None => current.workspace_id,
    }
}

/// The pane whose marker is cleared: the recorded host pane while it is listed;
/// else the first listed non-scratch pane of the marker workspace; else the
/// current pane unless it is a scratch pane.
pub open spec fn marker_target(state: Option<ScratchState>, panes: Seq<PaneView>, current: PaneView) -> Option<Seq<char>> {
    if state is Some && exists|i: int| 0 <= i < panes.len() && (#[trigger] panes[i]).pane_id == state->0.host_pane_id@ {
        Some(state->0.host_pane_id@)
    } else {
        match first_match(panes, marker_candidate_pred(marker_workspace(state, current))) {
            Some(i) => Some(panes[i].pane_id),
            None => if is_scratch_view(current) {
                None
            } else {
                Some(current.pane_id)
            },
        }
    }
}

pub open spec fn opt_ref_state(state: Option<&ScratchState>) -> Option<ScratchState> {
    match state {
        Some(s) => Some(*s),
        None => None,
    }
}

fn pane_listed(panes: &[PaneInfo], pane_id: &str) -> (listed: bool)
    ensures
        listed == exists|i: int| 0 <= i < panes@.len() && (#[trigger] panes_view(panes@)[i]).pane_id == pane_id@,
{
    let ghost pv = panes_view(panes@);
    let mut i: usize = 0;
    while i < panes.len()
        invariant
            i <= panes@.len(),
            pv == panes_view(panes@),
            forall|j: int| 0 <= j < i ==> (#[trigger] pv[j]).pane_id != pane_id@,
        decreases panes@.len() - i,
    {
        assert(pv[i as int] == panes@[i as int]@);
        if str_equal(panes[i].pane_id.as_str(), pane_id) {
            return true;
        }
        i = i + 1;
    }
    false
}

/// Chooses the pane whose legacy marker is cleared.
pub fn choose_marker_target(state: Option<&ScratchState>, panes: &[PaneInfo], current: &PaneInfo) -> (target: Option<String>)
    ensures
        opt_string_view(target) == marker_target(opt_ref_state(state), panes_view(panes@), current@),
{
    if let Some(s) = state {
        if pane_listed(panes, s.host_pane_id.as_str()) {
            return Some(s.host_pane_id.clone());
        }
    }
    let workspace: Option<String> = match state {
        Some(s) => match &s.workspace_id {
            Some(w) => Some(w.clone()),
            None => current.workspace_id.clone(),
        },
        None => current.workspace_id.clone(),
    };
    let ghost ws = marker_workspace(opt_ref_state(state), current@);
    assert(opt_string_view(workspace) == ws);
    let ghost pv = panes_view(panes@);
    let ghost pred = marker_candidate_pred(ws);
    let ghost host_listed = opt_ref_state(state) is Some && exists|i: int| 0 <= i < pv.len() && (#[trigger] pv[i]).pane_id == opt_ref_state(state)->0.host_pane_id@;
    assert(!host_listed);
    let mut i: usize = 0;
    while i < panes.len()
        invariant
            i <= panes@.len(),
            pv == panes_view(panes@),
            pred == marker_candidate_pred(ws),
            opt_string_view(workspace) == ws,
            !host_listed,
            host_listed == (opt_ref_state(state) is Some && exists|i: int| 0 <= i < pv.len() && (#[trigger] pv[i]).pane_id == opt_ref_state(state)->0.host_pane_id@),
            ws == marker_workspace(opt_ref_state(state), current@),
            forall|j: int| 0 <= j < i ==> !pred(#[trigger] pv[j]),
        decreases panes@.len() - i,
    {
        let pane = &panes[i];
        assert(pv[i as int] == pane@);
        let in_workspace = match &workspace {
            Some(w) => match &pane.workspace_id {
                Some(pw) => str_equal(pw.as_str(), w.as_str()),
                None => false,
            },
            None => true,
        };
        if !is_scratch(pane) && in_workspace {
            proof {
                lemma_first_match_found(pv, pred, i as int);
            }
            return Some(pane.pane_id.clone());
        }
        i = i + 1;
    }
    proof {
        lemma_first_match_none(pv, pred);
    }
    if is_scratch(current) {
        None
    } else {
        Some(current.pane_id.clone())
    }
}

/// `dir` joined with a relative file name, as a Unix path.
pub open spec fn path_join(dir: Seq<char>, file: Seq<char>) -> Seq<char> {
    if dir.len() == 0 {
        file
    } else if dir.last() == '/' {
        dir + file
    } else {
        dir + "/"@ + file
    }
}

/// Joins a relative file name onto a directory the way a Unix path join does.
pub fn join_path(dir: &str, file: &str) -> (path: String)
    ensures
        path@ == path_join(dir@, file@),
{
    proof {
        reveal_strlit("/");
    }
    if dir.unicode_len() == 0 {
        return file.to_owned();
    }
    if ends_with_str(dir, "/") {
        assert(dir@.subrange(dir@.len() - 1, dir@.len() as int)[0] == dir@.last());
        dir.to_owned().concat(file)
    } else {
        assert(dir@.last() != '/') by {
            if dir@.last() == '/' {
                assert(dir@.subrange(dir@.len() - 1, dir@.len() as int) =~= "/"@);
            }
        }
        dir.to_owned().concat("/").concat(file)
    }
}

/// The file that holds the scratch state of a scope.
pub fn state_path(state_dir: &str, scope: Scope, workspace_id: Option<&str>, server_id: Option<&str>) -> (path: String)
    ensures
        path@ == path_join(state_dir@, session_name_of(scope, opt_str_view(workspace_id), opt_str_view(server_id)) + ".json"@),
{
    let name = session_name(scope, workspace_id, server_id).concat(".json");
    join_path(state_dir, name.as_str())
}

/// The socket of the legacy dtach runtime for a scope.
pub fn dtach_socket_path(state_dir: &str, scope: Scope, workspace_id: Option<&str>, server_id: Option<&str>) -> (path: String)
    ensures
        path@ == path_join(state_dir@, session_name_of(scope, opt_str_view(workspace_id), opt_str_view(server_id)) + ".dtach"@),
{
    let name = session_name(scope, workspace_id, server_id).concat(".dtach");
    join_path(state_dir, name.as_str())
}

/// The pane whose legacy marker is cleared is the recorded host pane, or a
/// pane that is not a scratch pane: a listed one of the marker workspace, or
/// the current one.
pub proof fn marker_target_avoids_scratch_panes(state: Option<ScratchState>, panes: Seq<PaneView>, current: PaneView)
    ensures
        marker_target(state, panes, current) matches Some(id) ==> (state is Some && id == state->0.host_pane_id@)
            || (exists|i: int| 0 <= i < panes.len() && (#[trigger] panes[i]).pane_id == id && !is_scratch_view(panes[i]))
            || (id == current.pane_id && !is_scratch_view(current)),
{
    let pred = marker_candidate_pred(marker_workspace(state, current));
    if first_match(panes, pred) is Some {
        let i = first_match(panes, pred)->0;
        assert(is_first_match(panes, pred, i));
        assert(pred(panes[i]));
    }
}

/// The state recorded when a scratch pane is opened: the current workspace,
/// the marker target as host pane (the current pane when there is none), and no
/// workspace labels yet.
pub fn opened_state(scope: Scope, current: &PaneInfo, panes: &[PaneInfo], scratch_pane_id: Option<String>) -> (state: ScratchState)
    ensures
        state.scope == scope,
        opt_string_view(state.workspace_id) == current@.workspace_id,
        state.host_pane_id@ == (match marker_target(None, panes_view(panes@), current@) {
            Some(id) => id,
            None => current@.pane_id,
        }),
        state.scratch_pane_id == scratch_pane_id,
        state.original_workspace_label is None,
        state.marked_workspace_label is None,
{
    let host = match choose_marker_target(None, panes, current) {
        Some(id) => id,
        None => current.pane_id.clone(),
    };
    ScratchState {
        scope,
        workspace_id: current.workspace_id.clone(),
        host_pane_id: host,
        scratch_pane_id,
        original_workspace_label: None,
        marked_workspace_label: None,
    }
}

/// The state assumed when a scratch pane is closed with nothing recorded: the
/// current pane is its host.
pub fn closing_state(scope: Scope, current: &PaneInfo, pane_id: &str) -> (state: ScratchState)
    ensures
        state.scope == scope,
        opt_string_view(state.workspace_id) == current@.workspace_id,
        state.host_pane_id@ == current@.pane_id,
        opt_string_view(state.scratch_pane_id) == Some(pane_id@),
        state.original_workspace_label is None,
        state.marked_workspace_label is None,
{
    ScratchState {
        scope,
        workspace_id: current.workspace_id.clone(),
        host_pane_id: current.pane_id.clone(),
        scratch_pane_id: Some(pane_id.to_owned()),
        original_workspace_label: None,
        marked_workspace_label: None,
    }
}

/// What becomes of a scope's state file after a step of the plugin.
#[derive(Debug, Clone, Copy, PartialEq, Eq)]
pub enum StateFileStep {
    /// The file is left as it is on disk.
    Keep,
    /// The state in hand is written to the file.
    Write,
    /// The file is removed.
    Remove,
}

/// After the popup failed to open: the state written for it is taken back,
/// unless a state file was there before the attempt.
pub fn state_step_after_failed_open(existed_before: bool) -> (step: StateFileStep)
    ensures
        step == (if existed_before { StateFileStep::Keep } else { StateFileStep::Remove }),
{
    if existed_before {
        StateFileStep::Keep
    } else {
        StateFileStep::Remove
    }
}

/// After the background marker was cleared: the state is written back while
/// the scratch session's socket is there, and removed once it is gone.
pub fn state_step_after_clearing(socket_exists: bool) -> (step: StateFileStep)
    ensures
        step == (if socket_exists { StateFileStep::Write } else { StateFileStep::Remove }),
{
    if socket_exists {
        StateFileStep::Write
    } else {
        StateFileStep::Remove
    }
}

} // verus!
