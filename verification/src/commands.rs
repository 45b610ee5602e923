//! The argument lists of the Herdr commands the plugin runs.

use vstd::prelude::*;
use crate::scope::{Scope, scope_name, scratch_label, scratch_label_of, opt_string_view};
use crate::text::{chars_of, string_from_chars};

verus! {

pub const PLUGIN_ID: &'static str = "herdr-scratch-pane";
pub const POPUP_WIDTH: &'static str = "85%";
pub const POPUP_HEIGHT: &'static str = "80%";

/// The views of a list of strings.
pub open spec fn strings_view(v: Seq<String>) -> Seq<Seq<char>> {
    v.map_values(|s: String| s@)
}

/// Appends a copy of `s` to `args`.
pub fn push_text(args: &mut Vec<String>, s: &str)
    ensures
        strings_view(final(args)@) == strings_view(old(args)@).push(s@),
{
    args.push(s.to_owned());
    assert(strings_view(args@) =~= strings_view(old(args)@).push(s@));
}

/// Appends `s` to `args`.
pub fn push_owned(args: &mut Vec<String>, s: String)
    ensures
        strings_view(final(args)@) == strings_view(old(args)@).push(s@),
{
    let ghost v = s@;
    args.push(s);
    assert(strings_view(args@) =~= strings_view(old(args)@).push(v));
}

/// `prefix` followed by `value`, as one string.
pub(crate) fn joined(prefix: &str, value: &str) -> (s: String)
    ensures
        s@ == prefix@ + value@,
{
    prefix.to_owned().concat(value)
}

// ---------------------------------------------------------------------------
// Shell quoting
// ---------------------------------------------------------------------------

/// Characters a shell word may hold without quoting.
pub open spec fn is_shell_safe(c: char) -> bool {
    ||| ('a' as u32 <= c as u32 && c as u32 <= 'z' as u32)
    ||| ('A' as u32 <= c as u32 && c as u32 <= 'Z' as u32)
    ||| ('0' as u32 <= c as u32 && c as u32 <= '9' as u32)
    ||| c == '/'
    ||| c == '.'
    ||| c == '_'
    ||| c == '-'
}

/// `s` with each single quote written as `'\''`.
pub open spec fn escape_single_quotes(s: Seq<char>) -> Seq<char>
    decreases s.len(),
{
    if s.len() == 0 {
        Seq::empty()
    } else if s.last() == '\'' {
        escape_single_quotes(s.drop_last()) + seq!['\'', '\\', '\'', '\'']
    } else {
        escape_single_quotes(s.drop_last()).push(s.last())
    }
}

/// `s` as one shell word: unchanged when every character is safe, else wrapped
/// in single quotes.
pub open spec fn shell_quoted(s: Seq<char>) -> Seq<char> {
    if forall|i: int| 0 <= i < s.len() ==> is_shell_safe(#[trigger] s[i]) {
        s
    } else {
        seq!['\''] + escape_single_quotes(s) + seq!['\'']
    }
}

fn is_shell_safe_exec(c: char) -> (safe: bool)
    ensures
        safe == is_shell_safe(c),
{
    ('a' <= c && c <= 'z') || ('A' <= c && c <= 'Z') || ('0' <= c && c <= '9') || c == '/' || c
        == '.' || c == '_' || c == '-'
}

/// Quotes `value` for a POSIX shell.
pub fn shell_quote(value: &str) -> (quoted: String)
    ensures
        quoted@ == shell_quoted(value@),
{
    let chars = chars_of(value);
    let mut i: usize = 0;
    let mut safe = true;
    while i < chars.len()
        invariant
            i <= chars@.len(),
            chars@ == value@,
            safe == forall|j: int| 0 <= j < i ==> is_shell_safe(#[trigger] chars@[j]),
        decreases chars@.len() - i,
    {
        if !is_shell_safe_exec(chars[i]) {
            safe = false;
        }
        i = i + 1;
    }
    if safe {
        return value.to_owned();
    }
    let mut out: Vec<char> = Vec::new();
    out.push('\'');
    let mut k: usize = 0;
    while k < chars.len()
        invariant
            k <= chars@.len(),
            out@ == seq!['\''] + escape_single_quotes(chars@.take(k as int)),
        decreases chars@.len() - k,
    {
        let c = chars[k];
        assert(chars@.take(k + 1).drop_last() == chars@.take(k as int));
        if c == '\'' {
            out.push('\'');
            out.push('\\');
            out.push('\'');
            out.push('\'');
        } else {
            out.push(c);
        }
        k = k + 1;
    }
    assert(chars@.take(chars@.len() as int) == chars@);
    out.push('\'');
    string_from_chars(&out, 0, out.len())
}

// ---------------------------------------------------------------------------
// Popup and split panes
// ---------------------------------------------------------------------------

/// What opening a scratch popup needs to know.
#[derive(Debug, Clone, PartialEq, Eq)]
pub struct PopupOpenRequest {
    pub scope: Scope,
    pub workspace_id: Option<String>,
    pub session_id: String,
    pub state_dir: String,
    pub cwd: Option<String>,
    pub tmux_prefix: String,
}

pub open spec fn entrypoint_name(scope: Scope) -> Seq<char> {
    match scope {
        Scope::Workspace => "workspace-scratch"@,
        Scope::Session => "session-scratch"@,
    }
}

/// `--env NAME=value` for an optional value.
pub open spec fn optional_env(name: Seq<char>, value: Option<Seq<char>>) -> Seq<Seq<char>> {
    match value {
        Some(v) => seq!["--env"@, name + v],
        None => Seq::empty(),
    }
}

pub open spec fn popup_open_args_of(r: PopupOpenRequest) -> Seq<Seq<char>> {
    seq![
        "plugin"@, "pane"@, "open"@, "--plugin"@, "herdr-scratch-pane"@,
        "--entrypoint"@, entrypoint_name(r.scope), "--placement"@, "popup"@,
        "--width"@, "85%"@, "--height"@, "80%"@,
    ]
        + (match r.cwd {
            Some(c) => seq!["--cwd"@, c@],
            None => Seq::empty(),
        })
        + seq!["--env"@, "HERDR_SCRATCH_PANE_SCOPE="@ + scope_name(r.scope)]
        + optional_env("HERDR_WORKSPACE_ID="@, opt_string_view(r.workspace_id))
        + seq!["--env"@, "HERDR_SCRATCH_PANE_SESSION_ID="@ + r.session_id@]
        + seq!["--env"@, "HERDR_SCRATCH_PANE_STATE_DIR="@ + r.state_dir@]
        + optional_env("HERDR_SCRATCH_PANE_CWD="@, opt_string_view(r.cwd))
        + seq!["--env"@, "HERDR_SCRATCH_PANE_PREFIX="@ + r.tmux_prefix@, "--focus"@]
}

/// Appends all of `more` to `args`.
pub fn append_args(args: &mut Vec<String>, more: Vec<String>)
    ensures
        strings_view(final(args)@) == strings_view(old(args)@) + strings_view(more@),
{
    let mut more = more;
    let ghost m = more@;
    args.append(&mut more);
    assert(strings_view(args@) =~= strings_view(old(args)@) + strings_view(m));
}

/// `--env NAME=value`.
pub(crate) fn env_args(name: &str, value: &str) -> (args: Vec<String>)
    ensures
        strings_view(args@) == seq!["--env"@, name@ + value@],
{
    let mut args: Vec<String> = Vec::new();
    push_text(&mut args, "--env");
    push_owned(&mut args, joined(name, value));
    assert(strings_view(args@) =~= seq!["--env"@, name@ + value@]);
    args
}

/// `--env NAME=value` when there is a value, else nothing.
pub(crate) fn optional_env_args(name: &str, value: &Option<String>) -> (args: Vec<String>)
    ensures
        strings_view(args@) == optional_env(name@, opt_string_view(*value)),
{
    match value {
        Some(v) => env_args(name, v.as_str()),
        None => {
            let args: Vec<String> = Vec::new();
            assert(strings_view(args@) =~= Seq::<Seq<char>>::empty());
            args
        },
    }
}

/// `flag value` when there is a value, else nothing.
pub(crate) fn optional_flag_args(flag: &str, value: &Option<String>) -> (args: Vec<String>)
    ensures
        strings_view(args@) == (match value {
            Some(v) => seq![flag@, v@],
            None => Seq::<Seq<char>>::empty(),
        }),
{
    let mut args: Vec<String> = Vec::new();
    if let Some(v) = value {
        push_text(&mut args, flag);
        push_text(&mut args, v.as_str());
        assert(strings_view(args@) =~= seq![flag@, v@]);
    } else {
        assert(strings_view(args@) =~= Seq::<Seq<char>>::empty());
    }
    args
}

fn popup_base_args(scope: Scope) -> (args: Vec<String>)
    ensures
        strings_view(args@) == seq![
            "plugin"@, "pane"@, "open"@, "--plugin"@, "herdr-scratch-pane"@,
            "--entrypoint"@, entrypoint_name(scope), "--placement"@, "popup"@,
            "--width"@, "85%"@, "--height"@, "80%"@,
        ],
{
    let entrypoint = match scope {
        Scope::Workspace => "workspace-scratch",
        Scope::Session => "session-scratch",
    };
    let mut args: Vec<String> = Vec::new();
    push_text(&mut args, "plugin");
    push_text(&mut args, "pane");
    push_text(&mut args, "open");
    push_text(&mut args, "--plugin");
    push_text(&mut args, PLUGIN_ID);
    push_text(&mut args, "--entrypoint");
    push_text(&mut args, entrypoint);
    push_text(&mut args, "--placement");
    push_text(&mut args, "popup");
    push_text(&mut args, "--width");
    push_text(&mut args, POPUP_WIDTH);
    push_text(&mut args, "--height");
    push_text(&mut args, POPUP_HEIGHT);
    assert(strings_view(args@) =~= seq![
        "plugin"@, "pane"@, "open"@, "--plugin"@, "herdr-scratch-pane"@,
        "--entrypoint"@, entrypoint_name(scope), "--placement"@, "popup"@,
        "--width"@, "85%"@, "--height"@, "80%"@,
    ]);
    args
}

/// The arguments of `herdr plugin pane open` for a scratch popup.
pub fn open_popup_args(request: PopupOpenRequest) -> (args: Vec<String>)
    ensures
        strings_view(args@) == popup_open_args_of(request),
{
    let mut args = popup_base_args(request.scope);
    append_args(&mut args, optional_flag_args("--cwd", &request.cwd));
    append_args(&mut args, env_args("HERDR_SCRATCH_PANE_SCOPE=", request.scope.as_str()));
    append_args(&mut args, optional_env_args("HERDR_WORKSPACE_ID=", &request.workspace_id));
    append_args(&mut args, env_args("HERDR_SCRATCH_PANE_SESSION_ID=", request.session_id.as_str()));
    append_args(&mut args, env_args("HERDR_SCRATCH_PANE_STATE_DIR=", request.state_dir.as_str()));
    append_args(&mut args, optional_env_args("HERDR_SCRATCH_PANE_CWD=", &request.cwd));
    let mut tail = env_args("HERDR_SCRATCH_PANE_PREFIX=", request.tmux_prefix.as_str());
    push_text(&mut tail, "--focus");
    assert(strings_view(tail@) =~= seq!["--env"@, "HERDR_SCRATCH_PANE_PREFIX="@ + request.tmux_prefix@, "--focus"@]);
    append_args(&mut args, tail);
    args
}

/// What opening a scratch pane as a split of a host pane needs to know.
#[derive(Debug, Clone, PartialEq, Eq)]
pub struct OpenPaneRequest {
    pub scope: Scope,
    pub target_pane_id: Option<String>,
    pub cwd: Option<String>,
}

pub open spec fn split_pane_args_of(r: OpenPaneRequest) -> Seq<Seq<char>> {
    seq!["pane"@, "split"@]
        + (match r.target_pane_id {
            Some(t) => seq!["--pane"@, t@],
            None => seq!["--current"@],
        })
        + seq!["--direction"@, "right"@]
        + (match r.cwd {
            Some(c) => seq!["--cwd"@, c@],
            None => Seq::empty(),
        })
        + seq!["--env"@, "HERDR_SCRATCH_PANE_SCOPE="@ + scope_name(r.scope)]
        + optional_env("HERDR_SCRATCH_PANE_CWD="@, opt_string_view(r.cwd))
        + seq!["--focus"@]
}

/// The arguments of `herdr pane split` that open a scratch pane beside its host.
pub fn open_pane_args(request: OpenPaneRequest) -> (args: Vec<String>)
    ensures
        strings_view(args@) == split_pane_args_of(request),
{
    let mut args: Vec<String> = Vec::new();
    push_text(&mut args, "pane");
    push_text(&mut args, "split");
    assert(strings_view(args@) =~= seq!["pane"@, "split"@]);
    let mut target: Vec<String> = Vec::new();
    match &request.target_pane_id {
        Some(t) => {
            push_text(&mut target, "--pane");
            push_text(&mut target, t.as_str());
            assert(strings_view(target@) =~= seq!["--pane"@, t@]);
        },
        None => {
            push_text(&mut target, "--current");
            assert(strings_view(target@) =~= seq!["--current"@]);
        },
    }
    append_args(&mut args, target);
    let mut direction: Vec<String> = Vec::new();
    push_text(&mut direction, "--direction");
    push_text(&mut direction, "right");
    assert(strings_view(direction@) =~= seq!["--direction"@, "right"@]);
    append_args(&mut args, direction);
    append_args(&mut args, optional_flag_args("--cwd", &request.cwd));
    append_args(&mut args, env_args("HERDR_SCRATCH_PANE_SCOPE=", request.scope.as_str()));
    append_args(&mut args, optional_env_args("HERDR_SCRATCH_PANE_CWD=", &request.cwd));
    let mut focus: Vec<String> = Vec::new();
    push_text(&mut focus, "--focus");
    assert(strings_view(focus@) =~= seq!["--focus"@]);
    append_args(&mut args, focus);
    args
}

/// The shell command a scratch pane runs: the plugin binary in pane mode.
pub fn pane_run_command(binary_path: &str, scope: Scope) -> (command: String)
    ensures
        command@ == "exec "@ + shell_quoted(binary_path@) + " run-pane --scope "@ + scope_name(scope),
{
    let quoted = shell_quote(binary_path);
    String::from_str("exec ").concat(quoted.as_str()).concat(" run-pane --scope ").concat(scope.as_str())
}

pub(crate) fn two_args(a: &str, b: &str) -> (args: Vec<String>)
    ensures
        strings_view(args@) == seq![a@, b@],
{
    let mut args: Vec<String> = Vec::new();
    push_text(&mut args, a);
    push_text(&mut args, b);
    assert(strings_view(args@) =~= seq![a@, b@]);
    args
}

pub(crate) fn three_args(a: &str, b: &str, c: &str) -> (args: Vec<String>)
    ensures
        strings_view(args@) == seq![a@, b@, c@],
{
    let mut args = two_args(a, b);
    push_text(&mut args, c);
    assert(strings_view(args@) =~= seq![a@, b@, c@]);
    args
}

pub(crate) fn four_args(a: &str, b: &str, c: &str, d: &str) -> (args: Vec<String>)
    ensures
        strings_view(args@) == seq![a@, b@, c@, d@],
{
    let mut args = three_args(a, b, c);
    push_text(&mut args, d);
    assert(strings_view(args@) =~= seq![a@, b@, c@, d@]);
    args
}

pub fn run_pane_args(pane_id: &str, command: &str) -> (args: Vec<String>)
    ensures
        strings_view(args@) == seq!["pane"@, "run"@, pane_id@, command@],
{
    four_args("pane", "run", pane_id, command)
}

pub fn rename_scratch_pane_args(pane_id: &str, scope: Scope) -> (args: Vec<String>)
    ensures
        strings_view(args@) == seq!["pane"@, "rename"@, pane_id@, scratch_label_of(scope)],
{
    four_args("pane", "rename", pane_id, scratch_label(scope))
}

pub fn close_pane_args(pane_id: &str) -> (args: Vec<String>)
    ensures
        strings_view(args@) == seq!["pane"@, "close"@, pane_id@],
{
    three_args("pane", "close", pane_id)
}

pub fn zoom_pane_args(pane_id: &str) -> (args: Vec<String>)
    ensures
        strings_view(args@) == seq!["pane"@, "zoom"@, pane_id@, "--on"@],
{
    four_args("pane", "zoom", pane_id, "--on")
}

pub fn pane_list_args() -> (args: Vec<String>)
    ensures
        strings_view(args@) == seq!["pane"@, "list"@],
{
    two_args("pane", "list")
}

pub fn pane_current_args() -> (args: Vec<String>)
    ensures
        strings_view(args@) == seq!["pane"@, "current"@],
{
    two_args("pane", "current")
}

pub fn workspace_get_args(workspace_id: &str) -> (args: Vec<String>)
    ensures
        strings_view(args@) == seq!["workspace"@, "get"@, workspace_id@],
{
    three_args("workspace", "get", workspace_id)
}

pub fn workspace_rename_args(workspace_id: &str, label: &str) -> (args: Vec<String>)
    ensures
        strings_view(args@) == seq!["workspace"@, "rename"@, workspace_id@, label@],
{
    four_args("workspace", "rename", workspace_id, label)
}

pub fn notification_args(message: &str) -> (args: Vec<String>)
    ensures
        strings_view(args@) == seq!["notification"@, "show"@, message@],
{
    three_args("notification", "show", message)
}

/// Clears pane metadata written by early floating-pane prototypes.
///
/// New scratch state is represented by workspace labels and JSON state files;
/// this command exists only to remove stale titles/custom status from users who
/// tested older builds.
pub fn clear_legacy_marker_args(pane_id: &str) -> (args: Vec<String>)
    ensures
        strings_view(args@) == seq![
            "pane"@, "report-metadata"@, pane_id@, "--source"@, "herdr-scratch-pane"@,
            "--clear-title"@, "--clear-custom-status"@,
        ],
{
    let mut args = four_args("pane", "report-metadata", pane_id, "--source");
    append_args(&mut args, three_args(PLUGIN_ID, "--clear-title", "--clear-custom-status"));
    assert(strings_view(args@) =~= seq![
        "pane"@, "report-metadata"@, pane_id@, "--source"@, "herdr-scratch-pane"@,
        "--clear-title"@, "--clear-custom-status"@,
    ]);
    args
}

/// The popup request for opening a scratch pane from the current pane: the
/// session id is `default` when Herdr gives none, and the working directory is
/// the current pane's, else `fallback_cwd`.
pub fn popup_request(
    scope: Scope,
    workspace_id: &Option<String>,
    current_cwd: &Option<String>,
    fallback_cwd: Option<String>,
    session_id: Option<String>,
    state_dir: &str,
    tmux_prefix: String,
) -> (request: PopupOpenRequest)
    ensures
        request.scope == scope,
        opt_string_view(request.workspace_id) == opt_string_view(*workspace_id),
        request.session_id@ == (match session_id {
            Some(id) => id@,
            None => "default"@,
        }),
        request.state_dir@ == state_dir@,
        opt_string_view(request.cwd) == (match current_cwd {
            Some(c) => Some(c@),
            None => opt_string_view(fallback_cwd),
        }),
        request.tmux_prefix == tmux_prefix,
{
    PopupOpenRequest {
        scope,
        workspace_id: workspace_id.clone(),
        session_id: match session_id {
            Some(id) => id,
            None => String::from_str("default"),
        },
        state_dir: state_dir.to_owned(),
        cwd: match current_cwd {
            Some(c) => Some(c.clone()),
            None => fallback_cwd,
        },
        tmux_prefix,
    }
}

/// A popup opens the entrypoint of its own scope: the argument after
/// `--entrypoint` is `workspace-scratch` for a workspace request and
/// `session-scratch` for a session request, the scope's name followed by
/// `-scratch`, the same name the popup is told as its scope.
pub proof fn popup_opens_its_own_entrypoint(request: PopupOpenRequest)
    ensures
        popup_open_args_of(request)[5] == "--entrypoint"@,
        popup_open_args_of(request)[6] == (match request.scope {
            Scope::Workspace => "workspace-scratch"@,
            Scope::Session => "session-scratch"@,
        }),
        popup_open_args_of(request)[6] == scope_name(request.scope) + "-scratch"@,
{
    reveal_strlit("workspace-scratch");
    reveal_strlit("session-scratch");
    reveal_strlit("workspace");
    reveal_strlit("session");
    reveal_strlit("-scratch");
    assert("workspace-scratch"@ =~= "workspace"@ + "-scratch"@);
    assert("session-scratch"@ =~= "session"@ + "-scratch"@);
}

} // verus!
