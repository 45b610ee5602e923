//! The commands that run a scratch pane: the tmux client of the current runtime
//! and the dtach command of the legacy one.

use vstd::prelude::*;
use crate::commands::{append_args, push_text, strings_view, two_args, three_args, four_args};
use crate::scope::{Scope, opt_str_view, session_name, session_name_of};
use crate::state::{StateFileStep, dtach_socket_path, path_join};

verus! {

pub const TMUX_SERVER_NAME: &'static str = "herdr-scratch-pane";

/// The legacy dtach command, kept so hidden sessions of earlier releases can be
/// recovered by hand.
#[derive(Debug, Clone, PartialEq, Eq)]
pub struct DtachCommand {
    pub program: String,
    pub args: Vec<String>,
    pub cwd: Option<String>,
}

/// A tmux client invocation and the directory its server socket lives in.
#[derive(Debug, Clone, PartialEq, Eq)]
pub struct TmuxCommand {
    pub program: String,
    pub args: Vec<String>,
    pub tmux_tmpdir: String,
}

pub open spec fn dtach_args_of(
    scope: Scope,
    workspace_id: Option<Seq<char>>,
    server_id: Option<Seq<char>>,
    state_dir: Seq<char>,
    shell: Seq<char>,
) -> Seq<Seq<char>> {
    seq![
        "-A"@, path_join(state_dir, session_name_of(scope, workspace_id, server_id) + ".dtach"@),
        "-r"@, "winch"@, "-z"@, shell, "-l"@,
    ]
}

/// The legacy dtach command of a scope.
pub fn dtach_command(
    scope: Scope,
    workspace_id: Option<&str>,
    server_id: Option<&str>,
    state_dir: &str,
    shell: &str,
    cwd: Option<&str>,
) -> (command: DtachCommand)
    ensures
        command.program@ == "dtach"@,
        strings_view(command.args@) == dtach_args_of(scope, opt_str_view(workspace_id), opt_str_view(server_id), state_dir@, shell@),
        command.cwd matches Some(c) ==> cwd matches Some(d) && c@ == d@,
        command.cwd is None ==> cwd is None,
{
    let socket = dtach_socket_path(state_dir, scope, workspace_id, server_id);
    let mut args = two_args("-A", socket.as_str());
    append_args(&mut args, four_args("-r", "winch", "-z", shell));
    push_text(&mut args, "-l");
    assert(strings_view(args@) =~= dtach_args_of(scope, opt_str_view(workspace_id), opt_str_view(server_id), state_dir@, shell@));
    DtachCommand {
        program: String::from_str("dtach"),
        args,
        cwd: match cwd {
            Some(c) => Some(c.to_owned()),
            None => None,
        },
    }
}

/// `; set-option <flag> <name> <value>`.
pub open spec fn set_option(flag: Seq<char>, name: Seq<char>, value: Seq<char>) -> Seq<Seq<char>> {
    seq![";"@, "set-option"@, flag, name, value]
}

/// The server options every scratch tmux client sets.
pub open spec fn tmux_options(prefix: Option<Seq<char>>) -> Seq<Seq<char>> {
    seq!["-L"@, "herdr-scratch-pane"@, "-f"@, "/dev/null"@, "start-server"@]
        + set_option("-g"@, "status"@, "off"@)
        + set_option("-g"@, "prefix"@, match prefix {
            Some(p) => p,
            None => "None"@,
        })
        + set_option("-g"@, "prefix2"@, "None"@)
        + set_option("-g"@, "mouse"@, "off"@)
        + set_option("-s"@, "escape-time"@, "0"@)
        + set_option("-g"@, "default-terminal"@, "tmux-256color"@)
        + set_option("-g"@, "remain-on-exit"@, "off"@)
}

/// The popup key table: `f`/`F` detach, `x` asks before killing the session,
/// the prefix pressed again sends the prefix.
pub open spec fn popup_bindings(prefix: Seq<char>) -> Seq<Seq<char>> {
    seq![";"@, "unbind-key"@, "-a"@, "-T"@, "prefix"@]
        + seq![";"@, "bind-key"@, "-T"@, "prefix"@, "f"@, "detach-client"@]
        + seq![";"@, "bind-key"@, "-T"@, "prefix"@, "F"@, "detach-client"@]
        + seq![
            ";"@, "bind-key"@, "-T"@, "prefix"@, "x"@, "confirm-before"@, "-p"@,
            "Kill scratch session? (y/n)"@, "kill-session"@,
        ]
        + seq![";"@, "bind-key"@, "-T"@, "prefix"@, prefix, "send-prefix"@]
}

pub open spec fn tmux_args_of(
    session: Seq<char>,
    shell: Seq<char>,
    start_dir: Option<Seq<char>>,
    prefix: Option<Seq<char>>,
) -> Seq<Seq<char>> {
    tmux_options(prefix)
        + (match prefix {
            Some(p) => popup_bindings(p),
            None => Seq::empty(),
        })
        + seq![";"@, "new-session"@, "-A"@, "-s"@, session]
        + (match start_dir {
            Some(d) => seq!["-c"@, d],
            None => Seq::empty(),
        })
        + seq![shell, "-l"@]
}

fn set_option_args(flag: &str, name: &str, value: &str) -> (args: Vec<String>)
    ensures
        strings_view(args@) == set_option(flag@, name@, value@),
{
    let mut args = two_args(";", "set-option");
    append_args(&mut args, three_args(flag, name, value));
    assert(strings_view(args@) =~= set_option(flag@, name@, value@));
    args
}

fn tmux_option_args(prefix: Option<&str>) -> (args: Vec<String>)
    ensures
        strings_view(args@) == tmux_options(opt_str_view(prefix)),
{
    let mut args = four_args("-L", TMUX_SERVER_NAME, "-f", "/dev/null");
    push_text(&mut args, "start-server");
    assert(strings_view(args@) =~= seq!["-L"@, "herdr-scratch-pane"@, "-f"@, "/dev/null"@, "start-server"@]);
    append_args(&mut args, set_option_args("-g", "status", "off"));
    let prefix_value = match prefix {
        Some(p) => p,
        None => "None",
    };
    append_args(&mut args, set_option_args("-g", "prefix", prefix_value));
    append_args(&mut args, set_option_args("-g", "prefix2", "None"));
    append_args(&mut args, set_option_args("-g", "mouse", "off"));
    append_args(&mut args, set_option_args("-s", "escape-time", "0"));
    append_args(&mut args, set_option_args("-g", "default-terminal", "tmux-256color"));
    append_args(&mut args, set_option_args("-g", "remain-on-exit", "off"));
    args
}

fn popup_binding_args(prefix: &str) -> (args: Vec<String>)
    ensures
        strings_view(args@) == popup_bindings(prefix@),
{
    let mut unbind = three_args(";", "unbind-key", "-a");
    append_args(&mut unbind, two_args("-T", "prefix"));
    assert(strings_view(unbind@) =~= seq![";"@, "unbind-key"@, "-a"@, "-T"@, "prefix"@]);
    let mut hide = three_args(";", "bind-key", "-T");
    append_args(&mut hide, three_args("prefix", "f", "detach-client"));
    assert(strings_view(hide@) =~= seq![";"@, "bind-key"@, "-T"@, "prefix"@, "f"@, "detach-client"@]);
    let mut hide_shifted = three_args(";", "bind-key", "-T");
    append_args(&mut hide_shifted, three_args("prefix", "F", "detach-client"));
    assert(strings_view(hide_shifted@) =~= seq![";"@, "bind-key"@, "-T"@, "prefix"@, "F"@, "detach-client"@]);
    let mut close = four_args(";", "bind-key", "-T", "prefix");
    append_args(&mut close, three_args("x", "confirm-before", "-p"));
    append_args(&mut close, two_args("Kill scratch session? (y/n)", "kill-session"));
    assert(strings_view(close@) =~= seq![
        ";"@, "bind-key"@, "-T"@, "prefix"@, "x"@, "confirm-before"@, "-p"@,
        "Kill scratch session? (y/n)"@, "kill-session"@,
    ]);
    let mut send = three_args(";", "bind-key", "-T");
    append_args(&mut send, three_args("prefix", prefix, "send-prefix"));
    assert(strings_view(send@) =~= seq![";"@, "bind-key"@, "-T"@, "prefix"@, prefix@, "send-prefix"@]);
    let mut args = unbind;
    append_args(&mut args, hide);
    append_args(&mut args, hide_shifted);
    append_args(&mut args, close);
    append_args(&mut args, send);
    args
}

/// The tmux client command of a scope, starting in `start_dir` when given and,
/// with a prefix, binding the popup keys.
pub fn build_tmux_command(
    scope: Scope,
    workspace_id: Option<&str>,
    server_id: Option<&str>,
    state_dir: &str,
    shell: &str,
    start_dir: Option<&str>,
    prefix: Option<&str>,
) -> (command: TmuxCommand)
    ensures
        command.program@ == "tmux"@,
        command.tmux_tmpdir@ == state_dir@,
        strings_view(command.args@) == tmux_args_of(
            session_name_of(scope, opt_str_view(workspace_id), opt_str_view(server_id)),
            shell@,
            opt_str_view(start_dir),
            opt_str_view(prefix),
        ),
{
    let mut args = tmux_option_args(prefix);
    let mut bindings: Vec<String> = Vec::new();
    if let Some(p) = prefix {
        bindings = popup_binding_args(p);
    } else {
        assert(strings_view(bindings@) =~= Seq::<Seq<char>>::empty());
    }
    append_args(&mut args, bindings);
    let session = session_name(scope, workspace_id, server_id);
    let mut new_session = four_args(";", "new-session", "-A", "-s");
    push_text(&mut new_session, session.as_str());
    assert(strings_view(new_session@) =~= seq![";"@, "new-session"@, "-A"@, "-s"@, session@]);
    append_args(&mut args, new_session);
    let mut dir: Vec<String> = Vec::new();
    if let Some(d) = start_dir {
        dir = two_args("-c", d);
    } else {
        assert(strings_view(dir@) =~= Seq::<Seq<char>>::empty());
    }
    append_args(&mut args, dir);
    append_args(&mut args, two_args(shell, "-l"));
    TmuxCommand { program: String::from_str("tmux"), args, tmux_tmpdir: state_dir.to_owned() }
}

/// Whether `path` names an existing directory.
///
/// Trusted: calls `std::path::Path::is_dir`, whose answer depends on the file
/// system at the time of the call; nothing is stated of it.
#[verifier::external_body]
fn directory_exists(path: &str) -> bool {
    std::path::Path::new(path).is_dir()
}

/// The starting directory handed to tmux: `cwd` when it names an existing
/// directory. Whether it does is read from the file system at the time of the
/// call, so the contract says only that the result is `cwd` or nothing.
fn usable_start_dir(cwd: Option<&str>) -> (dir: Option<&str>)
    ensures
        dir is None || dir == cwd,
{
    match cwd {
        Some(path) => if directory_exists(path) {
            Some(path)
        } else {
            None
        },
        None => None,
    }
}

/// The tmux client command of a scope, without popup key bindings.
pub fn tmux_command(
    scope: Scope,
    workspace_id: Option<&str>,
    server_id: Option<&str>,
    state_dir: &str,
    shell: &str,
    cwd: Option<&str>,
) -> (command: TmuxCommand)
    ensures
        command.program@ == "tmux"@,
        command.tmux_tmpdir@ == state_dir@,
        strings_view(command.args@) == tmux_args_of(
            session_name_of(scope, opt_str_view(workspace_id), opt_str_view(server_id)),
            shell@,
            None,
            None,
        ) || strings_view(command.args@) == tmux_args_of(
            session_name_of(scope, opt_str_view(workspace_id), opt_str_view(server_id)),
            shell@,
            opt_str_view(cwd),
            None,
        ),
{
    build_tmux_command(scope, workspace_id, server_id, state_dir, shell, usable_start_dir(cwd), None)
}

/// The tmux client command of a scope with the popup key bindings for `prefix`.
pub fn popup_tmux_command(
    scope: Scope,
    workspace_id: Option<&str>,
    server_id: Option<&str>,
    state_dir: &str,
    shell: &str,
    cwd: Option<&str>,
    prefix: &str,
) -> (command: TmuxCommand)
    ensures
        command.program@ == "tmux"@,
        command.tmux_tmpdir@ == state_dir@,
        strings_view(command.args@) == tmux_args_of(
            session_name_of(scope, opt_str_view(workspace_id), opt_str_view(server_id)),
            shell@,
            None,
            Some(prefix@),
        ) || strings_view(command.args@) == tmux_args_of(
            session_name_of(scope, opt_str_view(workspace_id), opt_str_view(server_id)),
            shell@,
            opt_str_view(cwd),
            Some(prefix@),
        ),
{
    build_tmux_command(scope, workspace_id, server_id, state_dir, shell, usable_start_dir(cwd), Some(prefix))
}

/// How the tmux client left the scratch session.
#[derive(Debug, Clone, Copy, PartialEq, Eq)]
pub enum SessionDisposition {
    /// The client detached; the session goes on in the background.
    Detached,
    /// The session itself ended.
    Ended,
}

/// The client detached when the session still runs after it returned, and
/// the session ended otherwise.
pub fn session_disposition(still_running: bool) -> (disposition: SessionDisposition)
    ensures
        disposition == (if still_running { SessionDisposition::Detached } else { SessionDisposition::Ended }),
{
    if still_running {
        SessionDisposition::Detached
    } else {
        SessionDisposition::Ended
    }
}

/// What becomes of the state file once the client returned: a detached
/// session keeps its state, written back with its workspace marked; the state
/// of an ended session is removed.
pub fn state_step_after_client(disposition: SessionDisposition) -> (step: StateFileStep)
    ensures
        step == (match disposition {
            SessionDisposition::Detached => StateFileStep::Write,
            SessionDisposition::Ended => StateFileStep::Remove,
        }),
{
    match disposition {
        SessionDisposition::Detached => StateFileStep::Write,
        SessionDisposition::Ended => StateFileStep::Remove,
    }
}

} // verus!
