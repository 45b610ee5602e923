//! The decisions the plugin takes from Herdr's view of the panes: what a
//! toggle does, what a minimize closes, and where a new scratch pane opens.

use vstd::prelude::*;
use crate::herdr::{PaneInfo, PaneView, panes_view};
use crate::scope::{Scope, scratch_label, scratch_label_of, opt_string_view};
use crate::text::str_equal;

verus! {

// ---------------------------------------------------------------------------
// First match in a list of panes
// ---------------------------------------------------------------------------

/// `i` is the first index of `s` whose pane satisfies `pred`.
pub open spec fn is_first_match(s: Seq<PaneView>, pred: spec_fn(PaneView) -> bool, i: int) -> bool {
    &&& 0 <= i < s.len()
    &&& pred(s[i])
    &&& forall|j: int| 0 <= j < i ==> !pred(#[trigger] s[j])
}

/// The index of the first pane of `s` that satisfies `pred`, if any.
pub open spec fn first_match(s: Seq<PaneView>, pred: spec_fn(PaneView) -> bool) -> Option<int> {
    if exists|i: int| is_first_match(s, pred, i) {
        Some(choose|i: int| is_first_match(s, pred, i))
    } else {
        None
    }
}

pub proof fn lemma_first_match_found(s: Seq<PaneView>, pred: spec_fn(PaneView) -> bool, i: int)
    requires
        is_first_match(s, pred, i),
    ensures
        first_match(s, pred) == Some(i),
{
    let k = choose|k: int| is_first_match(s, pred, k);
    assert(is_first_match(s, pred, k));
    if k < i {
        assert(!pred(s[k]));
    } else if i < k {
        assert(!pred(s[i]));
    }
}

pub proof fn lemma_first_match_none(s: Seq<PaneView>, pred: spec_fn(PaneView) -> bool)
    requires
        forall|j: int| 0 <= j < s.len() ==> !pred(#[trigger] s[j]),
    ensures
        first_match(s, pred) is None,
{
    if exists|i: int| is_first_match(s, pred, i) {
        let k = choose|i: int| is_first_match(s, pred, i);
        assert(pred(s[k]));
    }
}

pub proof fn lemma_no_first_match(s: Seq<PaneView>, pred: spec_fn(PaneView) -> bool)
    ensures
        first_match(s, pred) is None ==> forall|j: int| 0 <= j < s.len() ==> !pred(#[trigger] s[j]),
{
    if first_match(s, pred) is None {
        assert forall|j: int| 0 <= j < s.len() implies !pred(#[trigger] s[j]) by {
            if pred(s[j]) {
                lemma_least_match(s, pred, j);
            }
        }
    }
}

proof fn lemma_least_match(s: Seq<PaneView>, pred: spec_fn(PaneView) -> bool, j: int)
    requires
        0 <= j < s.len(),
        pred(s[j]),
    ensures
        exists|k: int| is_first_match(s, pred, k),
    decreases j,
{
    if forall|m: int| 0 <= m < j ==> !pred(#[trigger] s[m]) {
        assert(is_first_match(s, pred, j));
    } else {
        let m = choose|m: int| 0 <= m < j && pred(#[trigger] s[m]);
        lemma_least_match(s, pred, m);
    }
}

pub proof fn lemma_first_match_is_first(s: Seq<PaneView>, pred: spec_fn(PaneView) -> bool)
    ensures
        first_match(s, pred) matches Some(i) ==> is_first_match(s, pred, i),
{
}

// ---------------------------------------------------------------------------
// Pane classification
// ---------------------------------------------------------------------------

/// A scratch pane of either scope, recognised by its label.
pub open spec fn is_scratch_view(p: PaneView) -> bool {
    p.label == Some(scratch_label_of(Scope::Workspace)) || p.label == Some(scratch_label_of(Scope::Session))
}

/// A pane labelled by the earlier floating-pane prototype.
pub open spec fn is_floating_view(p: PaneView) -> bool {
    p.label == Some("⌂ floating workspace"@) || p.label == Some("⌂ floating session"@)
}

pub(crate) fn label_is(label: &Option<String>, expected: &str) -> (same: bool)
    ensures
        same == (opt_string_view(*label) == Some(expected@)),
{
    match label {
        Some(l) => str_equal(l.as_str(), expected),
        None => false,
    }
}

pub(crate) fn opt_string_equal(a: &Option<String>, b: &Option<String>) -> (same: bool)
    ensures
        same == (opt_string_view(*a) == opt_string_view(*b)),
{
    match (a, b) {
        (Some(x), Some(y)) => str_equal(x.as_str(), y.as_str()),
        (None, None) => true,
        _ => false,
    }
}

/// Whether the pane is a scratch pane of either scope.
pub fn is_scratch(pane: &PaneInfo) -> (scratch: bool)
    ensures
        scratch == is_scratch_view(pane@),
{
    label_is(&pane.label, scratch_label(Scope::Workspace)) || label_is(
        &pane.label,
        scratch_label(Scope::Session),
    )
}

/// Whether the pane carries a label of the earlier floating-pane prototype.
pub fn is_floating(pane: &PaneInfo) -> (floating: bool)
    ensures
        floating == is_floating_view(pane@),
{
    label_is(&pane.label, "⌂ floating workspace") || label_is(&pane.label, "⌂ floating session")
}

// ---------------------------------------------------------------------------
// Toggle
// ---------------------------------------------------------------------------

#[derive(Debug, Clone, PartialEq, Eq)]
pub struct ToggleInputs {
    pub scope: Scope,
    pub current: PaneInfo,
    pub panes: Vec<PaneInfo>,
    pub server_id: Option<String>,
}

#[derive(Debug, Clone, PartialEq, Eq)]
pub enum ToggleDecision {
    Open { scope: Scope },
    Reveal { pane_id: String },
    Close { pane_id: String },
    CloseThenOpen { close_pane_id: String, scope: Scope },
}

pub ghost enum ToggleDecisionView {
    Open { scope: Scope },
    Reveal { pane_id: Seq<char> },
    Close { pane_id: Seq<char> },
    CloseThenOpen { close_pane_id: Seq<char>, scope: Scope },
}

impl View for ToggleDecision {
    type V = ToggleDecisionView;

    open spec fn view(&self) -> ToggleDecisionView {
        match self {
            ToggleDecision::Open { scope } => ToggleDecisionView::Open { scope: *scope },
            ToggleDecision::Reveal { pane_id } => ToggleDecisionView::Reveal { pane_id: pane_id@ },
            ToggleDecision::Close { pane_id } => ToggleDecisionView::Close { pane_id: pane_id@ },
            ToggleDecision::CloseThenOpen { close_pane_id, scope } => ToggleDecisionView::CloseThenOpen {
                close_pane_id: close_pane_id@,
                scope: *scope,
            },
        }
    }
}

/// The scratch pane that a toggle of `scope` acts on: labelled for the scope and,
/// for a workspace scope, in the current workspace.
pub open spec fn is_toggle_target(scope: Scope, current_workspace: Option<Seq<char>>, p: PaneView) -> bool {
    &&& p.label == Some(scratch_label_of(scope))
    &&& (scope == Scope::Workspace ==> p.workspace_id == current_workspace)
}

/// A focused scratch pane that is not of the toggled scope's label.
pub open spec fn is_other_visible(scope: Scope, p: PaneView) -> bool {
    &&& p.focused
    &&& is_scratch_view(p)
    &&& p.label != Some(scratch_label_of(scope))
}

pub open spec fn toggle_target_pred(scope: Scope, current_workspace: Option<Seq<char>>) -> spec_fn(PaneView) -> bool {
    |p: PaneView| is_toggle_target(scope, current_workspace, p)
}

pub open spec fn other_visible_pred(scope: Scope) -> spec_fn(PaneView) -> bool {
    |p: PaneView| is_other_visible(scope, p)
}

/// What a toggle of `scope` does, given the current pane and all panes.
pub open spec fn toggle_outcome(scope: Scope, current: PaneView, panes: Seq<PaneView>) -> ToggleDecisionView {
    let target = first_match(panes, toggle_target_pred(scope, current.workspace_id));
    let other = first_match(panes, other_visible_pred(scope));
    if target is Some && (panes[target->0].focused || panes[target->0].pane_id == current.pane_id) {
        ToggleDecisionView::Close { pane_id: panes[target->0].pane_id }
    } else if other is Some {
        ToggleDecisionView::CloseThenOpen { close_pane_id: panes[other->0].pane_id, scope }
    } else if target is Some {
        if scope == Scope::Session && panes[target->0].workspace_id != current.workspace_id {
            ToggleDecisionView::CloseThenOpen { close_pane_id: panes[target->0].pane_id, scope }
        } else {
            ToggleDecisionView::Reveal { pane_id: panes[target->0].pane_id }
        }
    } else {
        ToggleDecisionView::Open { scope }
    }
}

fn find_toggle_target(panes: &Vec<PaneInfo>, scope: Scope, current_workspace: &Option<String>) -> (found: Option<usize>)
    ensures
        found matches Some(i) ==> first_match(panes_view(panes@), toggle_target_pred(scope, opt_string_view(*current_workspace))) == Some(i as int),
        found is None ==> first_match(panes_view(panes@), toggle_target_pred(scope, opt_string_view(*current_workspace))) is None,
        found matches Some(i) ==> i < panes@.len(),
{
    let ghost pv = panes_view(panes@);
    let ghost pred = toggle_target_pred(scope, opt_string_view(*current_workspace));
    let target_label = scratch_label(scope);
    let mut i: usize = 0;
    while i < panes.len()
        invariant
            i <= panes@.len(),
            pv == panes_view(panes@),
            target_label@ == scratch_label_of(scope),
            pred == toggle_target_pred(scope, opt_string_view(*current_workspace)),
            forall|j: int| 0 <= j < i ==> !pred(#[trigger] pv[j]),
        decreases panes@.len() - i,
    {
        let pane = &panes[i];
        assert(pv[i as int] == pane@);
        let in_scope = match scope {
            Scope::Workspace => opt_string_equal(&pane.workspace_id, current_workspace),
            Scope::Session => true,
        };
        if label_is(&pane.label, target_label) && in_scope {
            proof {
                assert(is_toggle_target(scope, opt_string_view(*current_workspace), pv[i as int]));
                assert(pred(pv[i as int]));
                lemma_first_match_found(pv, pred, i as int);
            }
            return Some(i);
        }
        assert(!is_toggle_target(scope, opt_string_view(*current_workspace), pv[i as int]));
        assert(!pred(pv[i as int]));
        i = i + 1;
    }
    proof {
        lemma_first_match_none(pv, pred);
    }
    None
}

fn find_other_visible(panes: &Vec<PaneInfo>, scope: Scope) -> (found: Option<usize>)
    ensures
        found matches Some(i) ==> first_match(panes_view(panes@), other_visible_pred(scope)) == Some(i as int),
        found is None ==> first_match(panes_view(panes@), other_visible_pred(scope)) is None,
        found matches Some(i) ==> i < panes@.len(),
{
    let ghost pv = panes_view(panes@);
    let ghost pred = other_visible_pred(scope);
    let target_label = scratch_label(scope);
    let mut i: usize = 0;
    while i < panes.len()
        invariant
            i <= panes@.len(),
            pv == panes_view(panes@),
            target_label@ == scratch_label_of(scope),
            pred == other_visible_pred(scope),
            forall|j: int| 0 <= j < i ==> !pred(#[trigger] pv[j]),
        decreases panes@.len() - i,
    {
        let pane = &panes[i];
        assert(pv[i as int] == pane@);
        if pane.focused && is_scratch(pane) && !label_is(&pane.label, target_label) {
            proof {
                assert(pred(pv[i as int]));
                lemma_first_match_found(pv, pred, i as int);
            }
            return Some(i);
        }
        assert(!pred(pv[i as int]));
        i = i + 1;
    }
    proof {
        lemma_first_match_none(pv, pred);
    }
    None
}

/// Decides what toggling the scratch pane of `input.scope` does.
pub fn decide_toggle(input: ToggleInputs) -> (decision: ToggleDecision)
    ensures
        decision@ == toggle_outcome(input.scope, input.current@, panes_view(input.panes@)),
{
    let scope = input.scope;
    let ghost pv = panes_view(input.panes@);
    let target = find_toggle_target(&input.panes, scope, &input.current.workspace_id);
    if let Some(t) = target {
        let pane = &input.panes[t];
        assert(pv[t as int] == pane@);
        if pane.focused || str_equal(pane.pane_id.as_str(), input.current.pane_id.as_str()) {
            assert(toggle_outcome(scope, input.current@, pv) == ToggleDecisionView::Close { pane_id: pane.pane_id@ });
            return ToggleDecision::Close { pane_id: pane.pane_id.clone() };
        }
    }
    if let Some(o) = find_other_visible(&input.panes, scope) {
        return ToggleDecision::CloseThenOpen {
            close_pane_id: input.panes[o].pane_id.clone(),
            scope,
        };
    }
    if let Some(t) = target {
        let pane = &input.panes[t];
        if scope == Scope::Session && !opt_string_equal(&pane.workspace_id, &input.current.workspace_id) {
            return ToggleDecision::CloseThenOpen { close_pane_id: pane.pane_id.clone(), scope };
        }
        return ToggleDecision::Reveal { pane_id: pane.pane_id.clone() };
    }
    ToggleDecision::Open { scope }
}

// ---------------------------------------------------------------------------
// Minimize and open target
// ---------------------------------------------------------------------------

#[derive(Debug, Clone, PartialEq, Eq)]
pub enum MinimizeDecision {
    Close { pane_id: String },
    NotifyNoVisiblePane,
}

pub ghost enum MinimizeDecisionView {
    Close { pane_id: Seq<char> },
    NotifyNoVisiblePane,
}

impl View for MinimizeDecision {
    type V = MinimizeDecisionView;

    open spec fn view(&self) -> MinimizeDecisionView {
        match self {
            MinimizeDecision::Close { pane_id } => MinimizeDecisionView::Close { pane_id: pane_id@ },
            MinimizeDecision::NotifyNoVisiblePane => MinimizeDecisionView::NotifyNoVisiblePane,
        }
    }
}

pub open spec fn focused_scratch_pred() -> spec_fn(PaneView) -> bool {
    |p: PaneView| p.focused && is_scratch_view(p)
}

/// What a minimize closes: the current pane when it is a scratch pane, else the
/// first focused scratch pane; with neither, the user is told so.
pub open spec fn minimize_outcome(current: PaneView, panes: Seq<PaneView>) -> MinimizeDecisionView {
    if is_scratch_view(current) {
        MinimizeDecisionView::Close { pane_id: current.pane_id }
    } else {
        match first_match(panes, focused_scratch_pred()) {
            Some(i) => MinimizeDecisionView::Close { pane_id: panes[i].pane_id },
            None => MinimizeDecisionView::NotifyNoVisiblePane,
        }
    }
}

pub fn minimize_decision(current: &PaneInfo, panes: &[PaneInfo]) -> (decision: MinimizeDecision)
    ensures
        decision@ == minimize_outcome(current@, panes_view(panes@)),
{
    if is_scratch(current) || label_is(&current.label, scratch_label(Scope::Workspace)) {
        return MinimizeDecision::Close { pane_id: current.pane_id.clone() };
    }
    let ghost pv = panes_view(panes@);
    let ghost pred = focused_scratch_pred();
    let mut i: usize = 0;
    while i < panes.len()
        invariant
            i <= panes@.len(),
            pv == panes_view(panes@),
            pred == focused_scratch_pred(),
            !is_scratch_view(current@),
            forall|j: int| 0 <= j < i ==> !pred(#[trigger] pv[j]),
        decreases panes@.len() - i,
    {
        let pane = &panes[i];
        assert(pv[i as int] == pane@);
        if pane.focused && is_scratch(pane) {
            proof {
                lemma_first_match_found(pv, pred, i as int);
                assert(minimize_outcome(current@, pv) == MinimizeDecisionView::Close { pane_id: pane.pane_id@ });
            }
            return MinimizeDecision::Close { pane_id: pane.pane_id.clone() };
        }
        i = i + 1;
    }
    proof {
        lemma_first_match_none(pv, pred);
    }
    MinimizeDecision::NotifyNoVisiblePane
}

/// The pane a new scratch pane opens next to: the current pane, unless it is
/// itself a scratch pane.
pub fn open_target_for_current(current: &PaneInfo) -> (target: Option<String>)
    ensures
        opt_string_view(target) == (if is_scratch_view(current@) {
            None
        } else {
            Some(current@.pane_id)
        }),
{
    if is_scratch(current) {
        None
    } else {
        Some(current.pane_id.clone())
    }
}

/// The scope of a scratch pane, read from its label.
pub open spec fn scope_of_label(label: Option<Seq<char>>) -> Option<Scope> {
    if label == Some(scratch_label_of(Scope::Workspace)) {
        Some(Scope::Workspace)
    } else if label == Some(scratch_label_of(Scope::Session)) {
        Some(Scope::Session)
    } else {
        None
    }
}

pub fn scope_from_scratch_pane(pane: &PaneInfo) -> (scope: Option<Scope>)
    ensures
        scope == scope_of_label(pane@.label),
{
    if label_is(&pane.label, scratch_label(Scope::Workspace)) {
        Some(Scope::Workspace)
    } else if label_is(&pane.label, scratch_label(Scope::Session)) {
        Some(Scope::Session)
    } else {
        None
    }
}

pub open spec fn pane_id_pred(pane_id: Seq<char>) -> spec_fn(PaneView) -> bool {
    |p: PaneView| p.pane_id == pane_id
}

/// The index of the first pane with the given id.
pub fn find_pane(panes: &[PaneInfo], pane_id: &str) -> (found: Option<usize>)
    ensures
        found matches Some(i) ==> first_match(panes_view(panes@), pane_id_pred(pane_id@)) == Some(i as int),
        found is None ==> first_match(panes_view(panes@), pane_id_pred(pane_id@)) is None,
        found matches Some(i) ==> i < panes@.len(),
{
    let ghost pv = panes_view(panes@);
    let ghost pred = pane_id_pred(pane_id@);
    let mut i: usize = 0;
    while i < panes.len()
        invariant
            i <= panes@.len(),
            pv == panes_view(panes@),
            pred == pane_id_pred(pane_id@),
            forall|j: int| 0 <= j < i ==> !pred(#[trigger] pv[j]),
        decreases panes@.len() - i,
    {
        let pane = &panes[i];
        assert(pv[i as int] == pane@);
        if str_equal(pane.pane_id.as_str(), pane_id) {
            proof {
                lemma_first_match_found(pv, pred, i as int);
            }
            return Some(i);
        }
        i = i + 1;
    }
    proof {
        lemma_first_match_none(pv, pred);
    }
    None
}

/// The scope of the scratch pane that a toggle closes before opening another:
/// read from the label of the first listed pane with that id.
pub open spec fn closed_pane_scope(panes: Seq<PaneView>, pane_id: Seq<char>) -> Option<Scope> {
    match first_match(panes, pane_id_pred(pane_id)) {
        Some(i) => scope_of_label(panes[i].label),
        None => None,
    }
}

pub fn scope_of_closed_pane(panes: &[PaneInfo], pane_id: &str) -> (scope: Option<Scope>)
    ensures
        scope == closed_pane_scope(panes_view(panes@), pane_id@),
{
    match find_pane(panes, pane_id) {
        Some(i) => scope_from_scratch_pane(&panes[i]),
        None => None,
    }
}

/// The scope a minimize closes: that of the listed pane with the id, else of the
/// current pane when it has the id; a workspace scope when neither tells.
pub open spec fn minimized_pane_scope(current: PaneView, panes: Seq<PaneView>, pane_id: Seq<char>) -> Scope {
    let label = match first_match(panes, pane_id_pred(pane_id)) {
        Some(i) => Some(panes[i].label),
        None => if current.pane_id == pane_id { Some(current.label) } else { None },
    };
    match label {
        Some(l) => match scope_of_label(l) {
            Some(s) => s,
            None => Scope::Workspace,
        },
        None => Scope::Workspace,
    }
}

pub fn minimize_scope(current: &PaneInfo, panes: &[PaneInfo], pane_id: &str) -> (scope: Scope)
    ensures
        scope == minimized_pane_scope(current@, panes_view(panes@), pane_id@),
{
    let found = match find_pane(panes, pane_id) {
        Some(i) => scope_from_scratch_pane(&panes[i]),
        None => if str_equal(current.pane_id.as_str(), pane_id) {
            scope_from_scratch_pane(current)
        } else {
            None
        },
    };
    match found {
        Some(s) => s,
        None => Scope::Workspace,
    }
}

// ---------------------------------------------------------------------------
// Laws
// ---------------------------------------------------------------------------

/// A listed pane with the id that is a scratch pane.
pub open spec fn lists_scratch_pane(panes: Seq<PaneView>, pane_id: Seq<char>) -> bool {
    exists|i: int| 0 <= i < panes.len() && (#[trigger] panes[i]).pane_id == pane_id && is_scratch_view(panes[i])
}

/// A toggle only ever closes or reveals a listed scratch pane; what it closes
/// as itself, or reveals, carries the toggled scope's label; and it opens a new
/// pane only of the toggled scope.
pub proof fn toggle_touches_only_scratch_panes(scope: Scope, current: PaneView, panes: Seq<PaneView>)
    ensures
        match toggle_outcome(scope, current, panes) {
            ToggleDecisionView::Open { scope: s } => s == scope,
            ToggleDecisionView::Reveal { pane_id } => lists_scratch_pane(panes, pane_id) && exists|i: int|
                0 <= i < panes.len() && (#[trigger] panes[i]).pane_id == pane_id && panes[i].label == Some(scratch_label_of(scope)),
            ToggleDecisionView::Close { pane_id } => lists_scratch_pane(panes, pane_id) && exists|i: int|
                0 <= i < panes.len() && (#[trigger] panes[i]).pane_id == pane_id && panes[i].label == Some(scratch_label_of(scope)),
            ToggleDecisionView::CloseThenOpen { close_pane_id, scope: s } => s == scope && lists_scratch_pane(panes, close_pane_id),
        },
{
    lemma_first_match_is_first(panes, toggle_target_pred(scope, current.workspace_id));
    lemma_first_match_is_first(panes, other_visible_pred(scope));
    let target = first_match(panes, toggle_target_pred(scope, current.workspace_id));
    let other = first_match(panes, other_visible_pred(scope));
    if target is Some {
        let t = target->0;
        assert(toggle_target_pred(scope, current.workspace_id)(panes[t]));
        assert(panes[t].label == Some(scratch_label_of(scope)));
        assert(is_scratch_view(panes[t])) by {
            match scope {
                Scope::Workspace => {},
                Scope::Session => {},
            }
        }
    }
    if other is Some {
        let o = other->0;
        assert(other_visible_pred(scope)(panes[o]));
    }
}

/// A minimize closes only a scratch pane: the current one or a listed, focused one.
pub proof fn minimize_closes_only_scratch_panes(current: PaneView, panes: Seq<PaneView>)
    ensures
        minimize_outcome(current, panes) matches MinimizeDecisionView::Close { pane_id } ==> (pane_id == current.pane_id
            && is_scratch_view(current)) || exists|i: int|
            0 <= i < panes.len() && (#[trigger] panes[i]).pane_id == pane_id && panes[i].focused && is_scratch_view(panes[i]),
{
    lemma_first_match_is_first(panes, focused_scratch_pred());
    if !is_scratch_view(current) {
        if first_match(panes, focused_scratch_pred()) is Some {
            let i = first_match(panes, focused_scratch_pred())->0;
            assert(focused_scratch_pred()(panes[i]));
        }
    }
}

/// Only one scratch popup is visible at a time: a toggle opens a new popup
/// only when no scratch pane is focused, apart from a workspace scratch pane of
/// another workspace when a workspace scratch pane is toggled.
pub proof fn toggle_opens_only_without_a_visible_popup(scope: Scope, current: PaneView, panes: Seq<PaneView>)
    ensures
        toggle_outcome(scope, current, panes) is Open ==> forall|i: int|
            0 <= i < panes.len() && (#[trigger] panes[i]).focused && is_scratch_view(panes[i]) ==> scope
                == Scope::Workspace && panes[i].label == Some(scratch_label_of(Scope::Workspace))
                && panes[i].workspace_id != current.workspace_id,
{
    let tp = toggle_target_pred(scope, current.workspace_id);
    let op = other_visible_pred(scope);
    lemma_no_first_match(panes, tp);
    lemma_no_first_match(panes, op);
    if toggle_outcome(scope, current, panes) is Open {
        assert forall|i: int|
            0 <= i < panes.len() && (#[trigger] panes[i]).focused && is_scratch_view(panes[i]) implies scope
                == Scope::Workspace && panes[i].label == Some(scratch_label_of(Scope::Workspace))
                && panes[i].workspace_id != current.workspace_id by {
            assert(!op(panes[i]));
            assert(!tp(panes[i]));
            reveal_strlit("⌂ scratch workspace");
            reveal_strlit("⌂ scratch session");
            assert(scratch_label_of(Scope::Workspace) != scratch_label_of(Scope::Session)) by {
                assert(scratch_label_of(Scope::Workspace).len() != scratch_label_of(Scope::Session).len());
            }
        }
    }
}

/// A toggle closes a pane and opens a new popup only to move a popup: the
/// closed pane is either a focused scratch pane of the other scope, or a
/// session scratch pane of another workspace when the session scope is
/// toggled. A scratch pane already in the current workspace is never closed
/// to be opened again.
pub proof fn toggle_reopens_only_to_move_a_popup(scope: Scope, current: PaneView, panes: Seq<PaneView>)
    ensures
        toggle_outcome(scope, current, panes) matches ToggleDecisionView::CloseThenOpen { close_pane_id, scope: s } ==> {
            &&& s == scope
            &&& exists|i: int|
                0 <= i < panes.len() && (#[trigger] panes[i]).pane_id == close_pane_id && {
                    ||| (panes[i].focused && is_scratch_view(panes[i]) && panes[i].label != Some(scratch_label_of(scope)))
                    ||| (scope == Scope::Session && panes[i].label == Some(scratch_label_of(Scope::Session))
                        && panes[i].workspace_id != current.workspace_id)
                }
        },
{
    lemma_first_match_is_first(panes, toggle_target_pred(scope, current.workspace_id));
    lemma_first_match_is_first(panes, other_visible_pred(scope));
    let target = first_match(panes, toggle_target_pred(scope, current.workspace_id));
    let other = first_match(panes, other_visible_pred(scope));
    if target is Some {
        assert(toggle_target_pred(scope, current.workspace_id)(panes[target->0]));
    }
    if other is Some {
        assert(other_visible_pred(scope)(panes[other->0]));
    }
}

/// A toggle reveals the first pane carrying the toggled scope's scratch label
/// when it lies in the current workspace, is neither focused nor the current
/// pane, and no scratch pane of the other scope is focused.
pub proof fn toggle_reveals_a_hidden_pane_of_this_workspace(scope: Scope, current: PaneView, panes: Seq<PaneView>, i: int)
    requires
        0 <= i < panes.len(),
        panes[i].label == Some(scratch_label_of(scope)),
        panes[i].workspace_id == current.workspace_id,
        !panes[i].focused,
        panes[i].pane_id != current.pane_id,
        forall|j: int| 0 <= j < i ==> (#[trigger] panes[j]).label != Some(scratch_label_of(scope)),
        forall|j: int|
            0 <= j < panes.len() && (#[trigger] panes[j]).focused && is_scratch_view(panes[j]) ==> panes[j].label == Some(
                scratch_label_of(scope),
            ),
    ensures
        toggle_outcome(scope, current, panes) == (ToggleDecisionView::Reveal { pane_id: panes[i].pane_id }),
{
    let tp = toggle_target_pred(scope, current.workspace_id);
    let op = other_visible_pred(scope);
    assert(tp(panes[i]));
    assert forall|j: int| 0 <= j < i implies !tp(#[trigger] panes[j]) by {}
    assert(is_first_match(panes, tp, i));
    lemma_first_match_found(panes, tp, i);
    assert forall|j: int| 0 <= j < panes.len() implies !op(#[trigger] panes[j]) by {}
    lemma_first_match_none(panes, op);
}

} // verus!
