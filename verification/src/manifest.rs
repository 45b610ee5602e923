//! The Herdr plugin manifest (`herdr-plugin.toml`): the two scratch
//! entrypoints open as native popups of the same size the toggle asks for.

use vstd::prelude::*;
use crate::commands::{PLUGIN_ID, POPUP_HEIGHT, POPUP_WIDTH, entrypoint_name};
use crate::scope::{Scope, scope_name};

verus! {

pub const MIN_HERDR_VERSION: &'static str = "0.7.4";

/// The manifest entry of a scratch entrypoint.
pub open spec fn entrypoint_section(scope: Scope) -> Seq<char> {
    "\n[[entrypoints]]\nid = \""@ + entrypoint_name(scope) + "\"\ncommand = [\"target/release/"@
        + "herdr-scratch-pane"@ + "\", \"run-pane\", \"--scope\", \""@ + scope_name(scope)
        + "\"]\nplacement = \"popup\"\nwidth = \""@ + "85%"@ + "\"\nheight = \""@ + "80%"@ + "\"\n"@
}

/// The whole manifest.
pub open spec fn manifest_text() -> Seq<char> {
    "name = \""@ + "herdr-scratch-pane"@ + "\"\nversion = \"0.1.2\"\nmin_herdr_version = \""@ + "0.7.4"@
        + "\"\n"@ + entrypoint_section(Scope::Workspace) + entrypoint_section(Scope::Session)
        + "\n[[actions]]\nid = \"install-keybindings\"\ncommand = [\"target/release/"@
        + "herdr-scratch-pane"@ + "\", \"install-keybindings\"]\n"@
}

fn entrypoint_text(scope: Scope) -> (text: String)
    ensures
        text@ == entrypoint_section(scope),
{
    let id = match scope {
        Scope::Workspace => "workspace-scratch",
        Scope::Session => "session-scratch",
    };
    String::from_str("\n[[entrypoints]]\nid = \"").concat(id).concat("\"\ncommand = [\"target/release/")
        .concat(PLUGIN_ID).concat("\", \"run-pane\", \"--scope\", \"").concat(scope.as_str())
        .concat("\"]\nplacement = \"popup\"\nwidth = \"").concat(POPUP_WIDTH).concat("\"\nheight = \"")
        .concat(POPUP_HEIGHT).concat("\"\n")
}

/// The text of `herdr-plugin.toml`.
pub fn plugin_manifest_text() -> (text: String)
    ensures
        text@ == manifest_text(),
{
    let workspace = entrypoint_text(Scope::Workspace);
    let session = entrypoint_text(Scope::Session);
    String::from_str("name = \"").concat(PLUGIN_ID).concat("\"\nversion = \"0.1.2\"\nmin_herdr_version = \"")
        .concat(MIN_HERDR_VERSION).concat("\"\n").concat(workspace.as_str()).concat(session.as_str())
        .concat("\n[[actions]]\nid = \"install-keybindings\"\ncommand = [\"target/release/")
        .concat(PLUGIN_ID).concat("\", \"install-keybindings\"]\n")
}

} // verus!
