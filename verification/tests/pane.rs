use herdr_scratch_pane::pane::{dtach_command, popup_tmux_command, tmux_command, TMUX_SERVER_NAME};
use herdr_scratch_pane::scope::Scope;

#[test]
fn legacy_dtach_command_remains_available_for_recovery() {
    let command = dtach_command(
        Scope::Workspace,
        Some("workspace/a:b"),
        Some("server 1"),
        "/tmp/state",
        "/bin/zsh",
        Some("/tmp/project"),
    );

    assert_eq!(command.program, "dtach");
    assert_eq!(
        command.args,
        vec![
            "-A",
            "/tmp/state/workspace-workspace-a-b.dtach",
            "-r",
            "winch",
            "-z",
            "/bin/zsh",
            "-l"
        ]
    );
    assert_eq!(command.cwd.as_deref(), Some("/tmp/project"));
}

#[test]
fn tmux_command_omits_invalid_starting_directory() {
    let command = tmux_command(
        Scope::Session,
        Some("workspace"),
        Some("server 1"),
        "/tmp/state",
        "/bin/zsh",
        Some("/path/that/does/not/exist"),
    );

    assert!(!command.args.iter().any(|arg| arg == "-c"));
    assert!(command
        .args
        .ends_with(&["session-server-1".into(), "/bin/zsh".into(), "-l".into(),]));
}

#[test]
fn popup_tmux_command_binds_hide_confirmed_close_and_send_prefix() {
    let command = popup_tmux_command(
        Scope::Workspace,
        Some("w1"),
        Some("server"),
        "/tmp/state",
        "/bin/zsh",
        None,
        "C-b",
    );
    let joined = command.args.join(" ");

    assert!(joined.contains("set-option -g prefix C-b"));
    assert!(joined.contains("unbind-key -a -T prefix"));
    assert!(joined.contains("bind-key -T prefix f detach-client"));
    assert!(joined.contains("bind-key -T prefix F detach-client"));
    assert!(joined.contains(
        "bind-key -T prefix x confirm-before -p Kill scratch session? (y/n) kill-session"
    ));
    assert!(joined.contains("bind-key -T prefix C-b send-prefix"));
}

#[test]
fn tmux_command_uses_transparent_server_scope_cwd_and_login_shell() {
    let cwd = "/tmp";
    let command = tmux_command(
        Scope::Workspace,
        Some("workspace/a:b"),
        Some("server 1"),
        "/tmp/state",
        "/bin/zsh",
        Some(cwd),
    );

    assert_eq!(command.program, "tmux");
    assert_eq!(command.tmux_tmpdir, "/tmp/state");
    assert_eq!(
        command.args,
        vec![
            "-L",
            TMUX_SERVER_NAME,
            "-f",
            "/dev/null",
            "start-server",
            ";",
            "set-option",
            "-g",
            "status",
            "off",
            ";",
            "set-option",
            "-g",
            "prefix",
            "None",
            ";",
            "set-option",
            "-g",
            "prefix2",
            "None",
            ";",
            "set-option",
            "-g",
            "mouse",
            "off",
            ";",
            "set-option",
            "-s",
            "escape-time",
            "0",
            ";",
            "set-option",
            "-g",
            "default-terminal",
            "tmux-256color",
            ";",
            "set-option",
            "-g",
            "remain-on-exit",
            "off",
            ";",
            "new-session",
            "-A",
            "-s",
            "workspace-workspace-a-b",
            "-c",
            cwd,
            "/bin/zsh",
            "-l",
        ]
    );
}

