//! What the plugin knows of Herdr's panes and workspaces, and the reading of
//! Herdr's JSON replies that stays in the library.

use vstd::prelude::*;
use crate::scope::opt_string_view;

verus! {

/// A pane as reported by `herdr pane current` and `herdr pane list`.
#[derive(Debug, Clone, PartialEq, Eq)]
pub struct PaneInfo {
    pub pane_id: String,
    pub workspace_id: Option<String>,
    pub cwd: Option<String>,
    pub label: Option<String>,
    pub focused: bool,
}

/// A workspace as reported by `herdr workspace get`.
#[derive(Debug, Clone, PartialEq, Eq)]
pub struct WorkspaceInfo {
    pub workspace_id: String,
    pub label: Option<String>,
}

pub ghost struct PaneView {
    pub pane_id: Seq<char>,
    pub workspace_id: Option<Seq<char>>,
    pub cwd: Option<Seq<char>>,
    pub label: Option<Seq<char>>,
    pub focused: bool,
}

impl View for PaneInfo {
    type V = PaneView;

    open spec fn view(&self) -> PaneView {
        PaneView {
            pane_id: self.pane_id@,
            workspace_id: opt_string_view(self.workspace_id),
            cwd: opt_string_view(self.cwd),
            label: opt_string_view(self.label),
            focused: self.focused,
        }
    }
}

/// The views of a list of panes.
pub open spec fn panes_view(panes: Seq<PaneInfo>) -> Seq<PaneView> {
    panes.map_values(|p: PaneInfo| p@)
}

// ---------------------------------------------------------------------------
// The pane id in Herdr's reply to `plugin pane open`
// ---------------------------------------------------------------------------

pub open spec fn opt_opt_view(value: Option<Option<String>>) -> Option<Option<Seq<char>>> {
    match value {
        Some(inner) => Some(opt_string_view(inner)),
        None => None,
    }
}

/// What the JSON text `input` holds at the JSON pointer `pointer`: nothing when
/// the text is not JSON or has no value there; the string when the value is a
/// string; `Some(None)` for any other value.
pub uninterp spec fn json_text_at(input: Seq<char>, pointer: Seq<char>) -> Option<Option<Seq<char>>>;

/// Looks a value up in a JSON text.
///
/// Trusted: parses `input` with `serde_json::from_str` into a
/// `serde_json::Value`, looks `pointer` up with `Value::pointer` and reads a
/// string with `Value::as_str`. The contract claims only that the result is a
/// function of the two texts, named `json_text_at`.
#[verifier::external_body]
fn json_string_at(input: &str, pointer: &str) -> (found: Option<Option<String>>)
    ensures
        opt_opt_view(found) == json_text_at(input@, pointer@),
{
    let value: serde_json::Value = serde_json::from_str(input).ok()?;
    let found = value.pointer(pointer)?;
    Some(found.as_str().map(str::to_owned))
}

/// The pane id Herdr reports for a newly opened plugin pane: the value found
/// under `result.plugin_pane.pane.pane_id` if there is one, else the one under
/// `result.pane.pane_id`; a value that is not a string gives no id.
pub open spec fn chosen_pane_id(plugin_pane: Option<Option<Seq<char>>>, pane: Option<Option<Seq<char>>>) -> Option<Seq<char>> {
    match plugin_pane {
        Some(found) => found,
        None => match pane {
            Some(found) => found,
            None => None,
        },
    }
}

/// Picks the new pane's id from the two places Herdr may report it.
pub fn select_opened_pane_id(plugin_pane: Option<Option<String>>, pane: Option<Option<String>>) -> (id: Option<String>)
    ensures
        opt_string_view(id) == chosen_pane_id(opt_opt_view(plugin_pane), opt_opt_view(pane)),
{
    match plugin_pane {
        Some(found) => found,
        None => match pane {
            Some(found) => found,
            None => None,
        },
    }
}

/// The pane id in Herdr's JSON reply to `plugin pane open`.
pub fn parse_opened_pane_id(input: &str) -> (id: Option<String>)
    ensures
        opt_string_view(id) == chosen_pane_id(
            json_text_at(input@, "/result/plugin_pane/pane/pane_id"@),
            json_text_at(input@, "/result/pane/pane_id"@),
        ),
{
    let plugin_pane = json_string_at(input, "/result/plugin_pane/pane/pane_id");
    let pane = json_string_at(input, "/result/pane/pane_id");
    select_opened_pane_id(plugin_pane, pane)
}

} // verus!
