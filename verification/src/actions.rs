//! Commands of the earlier plugin-pane runtime, which opened the scratch pane as
//! a split placed by Herdr's plugin API.

use vstd::prelude::*;
use crate::commands::{
    PLUGIN_ID, append_args, entrypoint_name, env_args, optional_env, optional_env_args,
    push_text, strings_view, two_args, three_args, four_args,
};
use crate::scope::{Scope, scope_name, opt_string_view};

pub use crate::decisions::{MinimizeDecision, minimize_decision, open_target_for_current};

verus! {

/// What opening a scratch plugin pane needs to know.
#[derive(Debug, Clone, PartialEq, Eq)]
pub struct OpenPaneRequest {
    pub scope: Scope,
    pub target_pane_id: Option<String>,
    pub cwd: Option<String>,
}

pub open spec fn plugin_pane_args_of(r: OpenPaneRequest) -> Seq<Seq<char>> {
    seq![
        "plugin"@, "pane"@, "open"@, "--plugin"@, "herdr-scratch-pane"@,
        "--entrypoint"@, entrypoint_name(r.scope), "--placement"@, "split"@,
        "--direction"@, "right"@, "--focus"@,
    ]
        + (match r.target_pane_id {
            Some(t) => seq!["--target-pane"@, t@],
            None => Seq::empty(),
        })
        + seq!["--env"@, "HERDR_SCRATCH_PANE_SCOPE="@ + scope_name(r.scope)]
        + optional_env("HERDR_SCRATCH_PANE_CWD="@, opt_string_view(r.cwd))
}

/// The plugin entrypoint that runs a scratch pane of the scope.
fn entrypoint(scope: Scope) -> (name: &'static str)
    ensures
        name@ == entrypoint_name(scope),
{
    match scope {
        Scope::Workspace => "workspace-scratch",
        Scope::Session => "session-scratch",
    }
}

/// The arguments of `herdr plugin pane open` for a split scratch plugin pane.
pub fn open_pane_args(request: OpenPaneRequest) -> (args: Vec<String>)
    ensures
        strings_view(args@) == plugin_pane_args_of(request),
{
    let mut args = four_args("plugin", "pane", "open", "--plugin");
    append_args(&mut args, four_args(PLUGIN_ID, "--entrypoint", entrypoint(request.scope), "--placement"));
    append_args(&mut args, four_args("split", "--direction", "right", "--focus"));
    assert(strings_view(args@) =~= seq![
        "plugin"@, "pane"@, "open"@, "--plugin"@, "herdr-scratch-pane"@,
        "--entrypoint"@, entrypoint_name(request.scope), "--placement"@, "split"@,
        "--direction"@, "right"@, "--focus"@,
    ]);
    let mut target: Vec<String> = Vec::new();
    if let Some(t) = &request.target_pane_id {
        push_text(&mut target, "--target-pane");
        push_text(&mut target, t.as_str());
        assert(strings_view(target@) =~= seq!["--target-pane"@, t@]);
    } else {
        assert(strings_view(target@) =~= Seq::<Seq<char>>::empty());
    }
    append_args(&mut args, target);
    append_args(&mut args, env_args("HERDR_SCRATCH_PANE_SCOPE=", request.scope.as_str()));
    append_args(&mut args, optional_env_args("HERDR_SCRATCH_PANE_CWD=", &request.cwd));
    args
}

pub fn close_pane_args(pane_id: &str) -> (args: Vec<String>)
    ensures
        strings_view(args@) == seq!["plugin"@, "pane"@, "close"@, pane_id@],
{
    four_args("plugin", "pane", "close", pane_id)
}

pub fn zoom_pane_args(pane_id: &str) -> (args: Vec<String>)
    ensures
        strings_view(args@) == seq!["pane"@, "zoom"@, pane_id@, "--on"@],
{
    four_args("pane", "zoom", pane_id, "--on")
}

pub fn pane_list_args() -> (args: Vec<String>)
    ensures
        strings_view(args@) == seq!["pane"@, "list"@],
{
    two_args("pane", "list")
}

pub fn pane_current_args() -> (args: Vec<String>)
    ensures
        strings_view(args@) == seq!["pane"@, "current"@],
{
    two_args("pane", "current")
}

pub fn pane_get_args(pane_id: &str) -> (args: Vec<String>)
    ensures
        strings_view(args@) == seq!["pane"@, "get"@, pane_id@],
{
    three_args("pane", "get", pane_id)
}

pub fn notification_args(message: &str) -> (args: Vec<String>)
    ensures
        strings_view(args@) == seq!["notification"@, "show"@, message@],
{
    three_args("notification", "show", message)
}

} // verus!
