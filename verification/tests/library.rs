use herdr_scratch_pane::actions;
use herdr_scratch_pane::commands::{
    clear_legacy_marker_args, close_pane_args, notification_args, pane_current_args,
    pane_list_args, popup_request, rename_scratch_pane_args, shell_quote, zoom_pane_args,
};
use herdr_scratch_pane::config::{format_rgb, parse_rgb, AppConfig, Rgb};
use herdr_scratch_pane::decisions::{
    decide_toggle, is_floating, is_scratch, minimize_scope, scope_from_scratch_pane,
    scope_of_closed_pane, ToggleDecision, ToggleInputs,
};
use herdr_scratch_pane::geometry::{box_inner, box_rect, Rect};
use herdr_scratch_pane::herdr::{parse_opened_pane_id, select_opened_pane_id, PaneInfo, WorkspaceInfo};
use herdr_scratch_pane::keybindings::{
    install_popup_keybindings_text, normalize_tmux_prefix, tmux_base_key, tmux_prefix_from_config,
    ConfigError, PrefixError,
};
use herdr_scratch_pane::mouse::{hit_test, HitZone};
use herdr_scratch_pane::pane::{
    build_tmux_command, session_disposition, state_step_after_client, tmux_command, SessionDisposition,
};
use herdr_scratch_pane::scope::{session_identity, session_name, Scope};
use herdr_scratch_pane::state::{
    choose_marker_target, closing_state, dtach_socket_path, join_path, opened_state, state_path,
    state_step_after_clearing, state_step_after_failed_open, ScratchState, StateFileStep,
};
use herdr_scratch_pane::workspace_marker::{
    marked_state, marked_workspace_label, marker_workspace_id, original_workspace_label,
    restore_workspace_label, restored_state, workspace_mark,
};

fn pane(id: &str, workspace: Option<&str>, label: Option<&str>, focused: bool) -> PaneInfo {
    PaneInfo {
        pane_id: id.into(),
        workspace_id: workspace.map(|w| w.to_string()),
        cwd: None,
        label: label.map(|l| l.to_string()),
        focused,
    }
}

fn state(original: Option<&str>, marked: Option<&str>) -> ScratchState {
    ScratchState {
        scope: Scope::Workspace,
        workspace_id: Some("w1".into()),
        host_pane_id: "host".into(),
        scratch_pane_id: Some("scratch".into()),
        original_workspace_label: original.map(|l| l.to_string()),
        marked_workspace_label: marked.map(|l| l.to_string()),
    }
}

#[test]
fn session_names_fall_back_to_default_and_trim_separators() {
    assert_eq!(session_name(Scope::Workspace, None, None), "workspace-default");
    assert_eq!(session_name(Scope::Session, None, None), "session-default");
    assert_eq!(session_name(Scope::Workspace, Some("///"), None), "workspace-default");
    assert_eq!(session_name(Scope::Workspace, Some("--a--"), None), "workspace-a");
    assert_eq!(session_name(Scope::Workspace, Some("a--b"), None), "workspace-a--b");
    assert_eq!(session_name(Scope::Workspace, Some("a//b::c"), None), "workspace-a-b-c");
    assert_eq!(session_name(Scope::Session, None, Some("é x")), "session-x");
}

#[test]
fn workspace_and_session_names_differ_for_equal_ids() {
    assert_ne!(
        session_name(Scope::Workspace, Some("same"), Some("same")),
        session_name(Scope::Session, Some("same"), Some("same"))
    );
}

#[test]
fn session_identity_prefers_server_id() {
    assert_eq!(session_identity(Some("srv"), Some("/sock")), Some("srv".into()));
    assert_eq!(session_identity(None, Some("/sock")), Some("/sock".into()));
    assert_eq!(session_identity(None, None), None);
}

#[test]
fn state_files_live_in_the_state_dir() {
    assert_eq!(
        state_path("/tmp/state", Scope::Workspace, Some("w1"), None),
        "/tmp/state/workspace-w1.json"
    );
    assert_eq!(
        state_path("/tmp/state/", Scope::Session, None, Some("srv 1")),
        "/tmp/state/session-srv-1.json"
    );
    assert_eq!(state_path("", Scope::Session, None, None), "session-default.json");
    assert_eq!(
        dtach_socket_path("/s", Scope::Workspace, None, None),
        "/s/workspace-default.dtach"
    );
    assert_eq!(join_path("a", "b"), "a/b");
}

#[test]
fn marking_twice_and_unmarking_round_trip() {
    let marked = marked_workspace_label("dev");
    assert_eq!(marked, "dev [scratch-on]");
    assert_eq!(marked_workspace_label(&marked), marked);
    assert_eq!(original_workspace_label(&marked), "dev");
    assert_eq!(original_workspace_label("dev"), "dev");
    assert_eq!(original_workspace_label(" [scratch-on]"), "");
}

#[test]
fn restore_ignores_partial_records() {
    assert_eq!(restore_workspace_label(&state(Some("a"), None), "a [scratch-on]"), None);
    assert_eq!(restore_workspace_label(&state(None, None), "plain"), None);
}

#[test]
fn workspace_mark_plans_the_rename() {
    let workspace = WorkspaceInfo { workspace_id: "w1".into(), label: Some("dev".into()) };
    let mark = workspace_mark(&None, &workspace);
    assert_eq!(mark.original, "dev");
    assert_eq!(mark.marked, "dev [scratch-on]");
    assert!(mark.rename);

    let already = WorkspaceInfo { workspace_id: "w1".into(), label: Some("dev [scratch-on]".into()) };
    let mark = workspace_mark(&Some("dev".into()), &already);
    assert_eq!(mark.original, "dev");
    assert!(!mark.rename);

    let unlabelled = WorkspaceInfo { workspace_id: "w9".into(), label: None };
    let mark = workspace_mark(&None, &unlabelled);
    assert_eq!(mark.marked, "w9 [scratch-on]");
}

#[test]
fn marker_target_falls_back_to_current_pane() {
    let current = pane("cur", Some("w2"), Some("main"), true);
    assert_eq!(choose_marker_target(None, &[], &current), Some("cur".into()));
    let scratch = pane("s", Some("w2"), Some("⌂ scratch session"), true);
    assert_eq!(choose_marker_target(None, &[], &scratch), None);
    let other_workspace = pane("o", Some("w3"), Some("main"), false);
    assert_eq!(
        choose_marker_target(None, &[other_workspace.clone()], &scratch),
        None
    );
    let no_workspace = pane("nw", None, None, false);
    assert_eq!(
        choose_marker_target(None, &[no_workspace], &pane("c", None, None, true)),
        Some("nw".into())
    );
}

#[test]
fn toggle_of_session_scope_moves_popup_from_other_workspace() {
    let current = pane("c", Some("w2"), Some("main"), true);
    let session = pane("fs", Some("w1"), Some("⌂ scratch session"), false);
    let decision = decide_toggle(ToggleInputs {
        scope: Scope::Session,
        current,
        panes: vec![session],
        server_id: None,
    });
    assert_eq!(
        decision,
        ToggleDecision::CloseThenOpen { close_pane_id: "fs".into(), scope: Scope::Session }
    );
}

#[test]
fn toggle_of_workspace_scope_ignores_other_workspaces() {
    let current = pane("c", Some("w2"), Some("main"), true);
    let elsewhere = pane("fw", Some("w1"), Some("⌂ scratch workspace"), false);
    let decision = decide_toggle(ToggleInputs {
        scope: Scope::Workspace,
        current,
        panes: vec![elsewhere],
        server_id: None,
    });
    assert_eq!(decision, ToggleDecision::Open { scope: Scope::Workspace });
}

#[test]
fn scratch_pane_classification() {
    assert!(is_scratch(&pane("a", None, Some("⌂ scratch workspace"), false)));
    assert!(!is_scratch(&pane("a", None, Some("⌂ floating workspace"), false)));
    assert!(is_floating(&pane("a", None, Some("⌂ floating session"), false)));
    assert!(!is_floating(&pane("a", None, None, false)));
    assert_eq!(
        scope_from_scratch_pane(&pane("a", None, Some("⌂ scratch session"), false)),
        Some(Scope::Session)
    );
    assert_eq!(scope_from_scratch_pane(&pane("a", None, Some("main"), false)), None);
}

#[test]
fn closing_and_minimizing_read_scope_from_labels() {
    let panes = vec![
        pane("fs", Some("w1"), Some("⌂ scratch session"), true),
        pane("p", Some("w1"), Some("main"), false),
    ];
    assert_eq!(scope_of_closed_pane(&panes, "fs"), Some(Scope::Session));
    assert_eq!(scope_of_closed_pane(&panes, "p"), None);
    assert_eq!(scope_of_closed_pane(&panes, "missing"), None);
    let current = pane("cur", Some("w1"), Some("⌂ scratch session"), true);
    assert_eq!(minimize_scope(&current, &panes, "fs"), Scope::Session);
    assert_eq!(minimize_scope(&current, &panes, "cur"), Scope::Session);
    assert_eq!(minimize_scope(&current, &panes, "p"), Scope::Workspace);
}

#[test]
fn legacy_plugin_pane_commands() {
    let args = actions::open_pane_args(actions::OpenPaneRequest {
        scope: Scope::Session,
        target_pane_id: Some("p1".into()),
        cwd: Some("/w".into()),
    });
    assert_eq!(
        args,
        vec![
            "plugin", "pane", "open", "--plugin", "herdr-scratch-pane", "--entrypoint",
            "session-scratch", "--placement", "split", "--direction", "right", "--focus",
            "--target-pane", "p1", "--env", "HERDR_SCRATCH_PANE_SCOPE=session", "--env",
            "HERDR_SCRATCH_PANE_CWD=/w",
        ]
    );
    assert_eq!(actions::close_pane_args("p"), vec!["plugin", "pane", "close", "p"]);
    assert_eq!(actions::pane_get_args("p"), vec!["pane", "get", "p"]);
    assert_eq!(actions::zoom_pane_args("p"), vec!["pane", "zoom", "p", "--on"]);
    assert_eq!(actions::notification_args("m"), vec!["notification", "show", "m"]);
    assert_eq!(actions::pane_list_args(), vec!["pane", "list"]);
    assert_eq!(actions::pane_current_args(), vec!["pane", "current"]);
}

#[test]
fn herdr_command_arguments() {
    assert_eq!(close_pane_args("p"), vec!["pane", "close", "p"]);
    assert_eq!(zoom_pane_args("p"), vec!["pane", "zoom", "p", "--on"]);
    assert_eq!(pane_list_args(), vec!["pane", "list"]);
    assert_eq!(pane_current_args(), vec!["pane", "current"]);
    assert_eq!(notification_args("hi"), vec!["notification", "show", "hi"]);
    assert_eq!(
        rename_scratch_pane_args("p", Scope::Session),
        vec!["pane", "rename", "p", "⌂ scratch session"]
    );
    assert_eq!(
        clear_legacy_marker_args("p"),
        vec![
            "pane", "report-metadata", "p", "--source", "herdr-scratch-pane", "--clear-title",
            "--clear-custom-status",
        ]
    );
}

#[test]
fn shell_quoting_edge_cases() {
    assert_eq!(shell_quote(""), "");
    assert_eq!(shell_quote("/usr/bin/x_y-1.2"), "/usr/bin/x_y-1.2");
    assert_eq!(shell_quote("a b"), "'a b'");
    assert_eq!(shell_quote("''"), "''\\'''\\'''");
}

#[test]
fn tmux_command_starts_in_an_existing_directory() {
    let command = tmux_command(Scope::Workspace, Some("w1"), None, "/tmp/state", "/bin/sh", Some("/"));
    let n = command.args.len();
    assert_eq!(command.args[n - 4..].to_vec(), vec!["-c", "/", "/bin/sh", "-l"]);
    assert_eq!(command.program, "tmux");
    assert_eq!(command.tmux_tmpdir, "/tmp/state");
}

#[test]
fn tmux_command_layout_without_prefix() {
    let command = build_tmux_command(Scope::Workspace, Some("w1"), None, "/st", "/bin/zsh", Some("/d"), None);
    assert_eq!(
        command.args,
        vec![
            "-L", "herdr-scratch-pane", "-f", "/dev/null", "start-server", ";", "set-option", "-g",
            "status", "off", ";", "set-option", "-g", "prefix", "None", ";", "set-option", "-g",
            "prefix2", "None", ";", "set-option", "-g", "mouse", "off", ";", "set-option", "-s",
            "escape-time", "0", ";", "set-option", "-g", "default-terminal", "tmux-256color", ";",
            "set-option", "-g", "remain-on-exit", "off", ";", "new-session", "-A", "-s",
            "workspace-w1", "-c", "/d", "/bin/zsh", "-l",
        ]
    );
}

#[test]
fn rgb_colours_read_back_and_reject_bad_text() {
    let colour = Rgb(0x0d, 0x2b, 0x1d);
    assert_eq!(format_rgb(colour), "#0d2b1d");
    assert_eq!(parse_rgb(&format_rgb(colour)), Some(colour));
    assert_eq!(parse_rgb("  ##FFa0B1 \n"), Some(Rgb(0xff, 0xa0, 0xb1)));
    assert_eq!(parse_rgb("#12345"), None);
    assert_eq!(parse_rgb("#12345g"), None);
    assert_eq!(parse_rgb(""), None);
}

#[test]
fn config_sizes_are_clamped_and_hints_restored() {
    let cfg = AppConfig::default();
    assert_eq!(cfg.width_pct, 94);
    assert_eq!(cfg.height_pct, 92);
    assert_eq!(cfg.key_hint_minimize, "prefix+cmd+z");
    assert_eq!(cfg.backdrop, Rgb(0x0d, 0x2b, 0x1d));
    let small = cfg.with_size(5, 250);
    assert_eq!((small.width_pct, small.height_pct), (20, 100));
    assert_eq!(small.key_hint_workspace, "prefix+f");
    let mut blank = AppConfig {
        width_pct: 0,
        height_pct: 60,
        key_hint_workspace: String::new(),
        key_hint_session: "x".into(),
        key_hint_minimize: String::new(),
        backdrop: Rgb(1, 2, 3),
        forward_inner_mouse: false,
    };
    blank.normalize();
    assert_eq!(blank.width_pct, 20);
    assert_eq!(blank.height_pct, 60);
    assert_eq!(blank.key_hint_workspace, "prefix+f");
    assert_eq!(blank.key_hint_session, "x");
    assert_eq!(blank.key_hint_minimize, "prefix+cmd+z");
    assert!(!blank.forward_inner_mouse);
    let once = blank.clone();
    blank.normalize();
    assert_eq!(blank, once);
    let mut defaults = AppConfig::default();
    defaults.normalize();
    assert_eq!(defaults, AppConfig::default());
}

#[test]
fn box_is_centred_inside_the_area() {
    let cfg = AppConfig::default();
    let area = Rect::new(0, 0, 100, 50);
    assert_eq!(box_rect(area, &cfg), Rect::new(3, 2, 94, 46));
    assert_eq!(box_inner(area, &cfg), Rect::new(4, 3, 92, 44));
    let tiny = Rect::new(10, 10, 10, 3);
    assert_eq!(box_rect(tiny, &cfg), Rect::new(10, 10, 10, 3));
    let r = Rect::new(5, 5, 0, 0);
    assert_eq!((r.right(), r.bottom()), (5, 5));
    assert!(r.contains(5, 5));
    assert!(!r.contains(6, 5));
}

#[test]
fn hit_test_finds_edges_corners_and_minimize() {
    let cfg = AppConfig::default();
    let area = Rect::new(0, 0, 100, 50);
    assert_eq!(hit_test(area, &cfg, 0, 0), HitZone::Backdrop);
    assert_eq!(hit_test(area, &cfg, 3, 2), HitZone::ResizeTopLeft);
    assert_eq!(hit_test(area, &cfg, 96, 2), HitZone::ResizeTopRight);
    assert_eq!(hit_test(area, &cfg, 91, 2), HitZone::Minimize);
    assert_eq!(hit_test(area, &cfg, 50, 2), HitZone::ResizeTop);
    assert_eq!(hit_test(area, &cfg, 3, 47), HitZone::ResizeBottomLeft);
    assert_eq!(hit_test(area, &cfg, 3, 20), HitZone::ResizeLeft);
    assert_eq!(hit_test(area, &cfg, 50, 20), HitZone::Inner);
    assert!(HitZone::ResizeBottom.is_resize());
    assert!(!HitZone::Minimize.is_resize());
}

#[test]
fn tmux_prefixes_for_modifiers_and_named_keys() {
    assert_eq!(normalize_tmux_prefix(" CTRL+B ").unwrap(), "C-b");
    assert_eq!(normalize_tmux_prefix("esc").unwrap(), "Escape");
    assert_eq!(normalize_tmux_prefix("f+5").unwrap(), "F5");
    assert_eq!(normalize_tmux_prefix("f1").unwrap(), "F1");
    assert_eq!(normalize_tmux_prefix("alt+shift+x").unwrap(), "M-X");
    assert_eq!(normalize_tmux_prefix("shift+space").unwrap(), "S-Space");
    assert_eq!(normalize_tmux_prefix("control+option+shift+tab").unwrap(), "C-M-S-Tab");
    assert_eq!(normalize_tmux_prefix("ctrl+return").unwrap(), "C-Enter");
    assert_eq!(normalize_tmux_prefix("a").unwrap(), "a");
    assert_eq!(tmux_base_key("backspace").unwrap(), "BSpace");
    assert_eq!(tmux_base_key("delete").unwrap(), "DC");
}

#[test]
fn tmux_prefix_errors_name_the_problem() {
    assert_eq!(normalize_tmux_prefix("  "), Err(PrefixError::Empty));
    assert_eq!(
        normalize_tmux_prefix("Cmd+b"),
        Err(PrefixError::CommandModifier { prefix: "Cmd+b".into() })
    );
    assert_eq!(
        normalize_tmux_prefix("hyper+b"),
        Err(PrefixError::UnsupportedModifier { modifier: "hyper".into(), prefix: "hyper+b".into() })
    );
    assert_eq!(
        normalize_tmux_prefix("f25"),
        Err(PrefixError::UnsupportedKey { key: "f25".into() })
    );
    assert_eq!(
        normalize_tmux_prefix("ctrl+foo").unwrap_err().message(),
        "unsupported Herdr prefix key `foo`"
    );
    assert_eq!(PrefixError::Empty.message(), "Herdr prefix cannot be empty");
    assert_eq!(
        normalize_tmux_prefix("super+x").unwrap_err().message(),
        "Herdr prefix `super+x` uses Command/Super, which tmux cannot receive"
    );
}

#[test]
fn prefix_config_errors_and_inline_tables() {
    assert!(matches!(tmux_prefix_from_config("[keys"), Err(ConfigError::Toml(_))));
    assert!(matches!(
        tmux_prefix_from_config("[keys]\nprefix = \"\"\n"),
        Err(ConfigError::Prefix(PrefixError::Empty))
    ));
    assert_eq!(tmux_prefix_from_config("keys = { prefix = \"f12\" }\n").unwrap(), "C-b");
    assert_eq!(tmux_prefix_from_config("[keys]\nprefix = 5\n").unwrap(), "C-b");
}

#[test]
fn keybinding_install_rejects_invalid_toml_and_resets_inline_keys() {
    assert!(matches!(
        install_popup_keybindings_text("[keys", "prefix+f", "prefix+shift+f", "/tmp/herdr-scratch-pane"),
        Err(ConfigError::Toml(_))
    ));
    let out = install_popup_keybindings_text(
        "keys = { prefix = \"ctrl+a\" }\n",
        "prefix+f",
        "prefix+shift+f",
        "/tmp/herdr-scratch-pane",
    )
    .unwrap();
    assert!(!out.contains("ctrl+a"));
    assert!(out.contains("key = \"prefix+shift+f\""));
    assert!(out.ends_with("# herdr-scratch-pane:keybindings\n"));
}

#[test]
fn keybinding_install_keeps_existing_keys_of_managed_bindings() {
    let initial = r#"[keys]

[[keys.command]]
key = ["  prefix+w ", "", "prefix+q"]
type = "shell"
command = "/old/herdr-scratch-pane toggle --scope workspace"
"#;
    let out = install_popup_keybindings_text(initial, "prefix+f", "prefix+shift+f", "/tmp/herdr-scratch-pane").unwrap();
    assert!(out.contains("key = \"prefix+w\""));
    assert!(out.contains("key = \"prefix+q\""));
    assert!(!out.contains("key = \"prefix+f\""));
    assert!(out.contains("key = \"prefix+shift+f\""));
    assert!(!out.contains("/old/"));
    let again = install_popup_keybindings_text(&out, "x", "y", "/tmp/herdr-scratch-pane").unwrap();
    assert_eq!(again, out);
}

#[test]
fn keybinding_install_does_not_recognise_binaries_without_the_plugin_name() {
    let first = install_popup_keybindings_text("", "prefix+f", "prefix+shift+f", "/usr/bin/scratch").unwrap();
    let second = install_popup_keybindings_text(&first, "prefix+f", "prefix+shift+f", "/usr/bin/scratch").unwrap();
    assert_eq!(second.matches("toggle --scope workspace").count(), 2);
}

#[test]
fn opened_pane_id_needs_a_string_and_json() {
    assert_eq!(
        parse_opened_pane_id(r#"{"result":{"plugin_pane":{"pane":{"pane_id":5}},"pane":{"pane_id":"x"}}}"#),
        None
    );
    assert_eq!(parse_opened_pane_id("not json"), None);
    assert_eq!(select_opened_pane_id(None, Some(Some("b".into()))), Some("b".into()));
    assert_eq!(select_opened_pane_id(Some(None), Some(Some("b".into()))), None);
}

#[test]
fn recorded_states_name_the_host_pane() {
    let current = pane("cur", Some("w1"), Some("⌂ scratch workspace"), true);
    let host = pane("h", Some("w1"), Some("main"), false);
    let opened = opened_state(Scope::Workspace, &current, &[current.clone(), host], None);
    assert_eq!(opened.host_pane_id, "h");
    assert_eq!(opened.workspace_id.as_deref(), Some("w1"));
    assert_eq!(opened.scratch_pane_id, None);
    let alone = opened_state(Scope::Session, &current, &[], Some("s".into()));
    assert_eq!(alone.host_pane_id, "cur");
    assert_eq!(alone.scratch_pane_id.as_deref(), Some("s"));
    let closing = closing_state(Scope::Session, &current, "fs");
    assert_eq!(closing.host_pane_id, "cur");
    assert_eq!(closing.scratch_pane_id.as_deref(), Some("fs"));
    assert_eq!(closing.original_workspace_label, None);
}

#[test]
fn popup_request_defaults() {
    let request = popup_request(
        Scope::Session,
        &None,
        &None,
        Some("/home".into()),
        None,
        "/st",
        "C-a".into(),
    );
    assert_eq!(request.session_id, "default");
    assert_eq!(request.cwd.as_deref(), Some("/home"));
    assert_eq!(request.state_dir, "/st");
    let request = popup_request(
        Scope::Workspace,
        &Some("w".into()),
        &Some("/p".into()),
        Some("/home".into()),
        Some("srv".into()),
        "/st",
        "C-b".into(),
    );
    assert_eq!(request.session_id, "srv");
    assert_eq!(request.cwd.as_deref(), Some("/p"));
    assert_eq!(request.workspace_id.as_deref(), Some("w"));
}

#[test]
fn keybinding_install_keeps_the_rest_of_the_document() {
    let initial = "# my herdr config\ntheme = \"dark\" # kept\n\n[ui]\nborder = 2\n\n[keys]\nprefix = \"ctrl+a\"\n";
    let out = install_popup_keybindings_text(initial, "prefix+f", "prefix+shift+f", "/tmp/herdr-scratch-pane").unwrap();
    assert!(out.starts_with("# my herdr config\ntheme = \"dark\" # kept\n\n[ui]\nborder = 2\n\n[keys]\nprefix = \"ctrl+a\"\n"));
    assert!(out.contains("type = \"shell\""));
    assert!(out.contains("description = \"Toggle workspace scratch pane\""));
    assert!(out.contains("description = \"Toggle session scratch pane\""));
}

#[test]
fn state_file_steps_follow_what_was_there() {
    assert_eq!(state_step_after_failed_open(true), StateFileStep::Keep);
    assert_eq!(state_step_after_failed_open(false), StateFileStep::Remove);
    assert_eq!(state_step_after_clearing(true), StateFileStep::Write);
    assert_eq!(state_step_after_clearing(false), StateFileStep::Remove);
}

#[test]
fn client_disposition_decides_the_state_file() {
    assert_eq!(session_disposition(true), SessionDisposition::Detached);
    assert_eq!(session_disposition(false), SessionDisposition::Ended);
    assert_eq!(state_step_after_client(SessionDisposition::Detached), StateFileStep::Write);
    assert_eq!(state_step_after_client(SessionDisposition::Ended), StateFileStep::Remove);
}

#[test]
fn marking_and_restoring_update_the_recorded_state() {
    let state = ScratchState {
        scope: Scope::Workspace,
        workspace_id: None,
        host_pane_id: "p1".into(),
        scratch_pane_id: Some("s1".into()),
        original_workspace_label: None,
        marked_workspace_label: None,
    };
    assert_eq!(marker_workspace_id(&state, Some("w2")), Some("w2".to_string()));
    assert_eq!(marker_workspace_id(&state, None), None);
    let workspace = WorkspaceInfo { workspace_id: "w2".into(), label: Some("test".into()) };
    let mark = workspace_mark(&state.original_workspace_label, &workspace);
    let marked = marked_state(state.clone(), "w2".into(), mark);
    assert_eq!(marked.workspace_id.as_deref(), Some("w2"));
    assert_eq!(marked.original_workspace_label.as_deref(), Some("test"));
    assert_eq!(marked.marked_workspace_label.as_deref(), Some("test [scratch-on]"));
    assert_eq!(marked.host_pane_id, "p1");
    assert_eq!(marker_workspace_id(&marked, Some("w9")), Some("w2".to_string()));
    let restored = restored_state(marked);
    assert_eq!(restored.original_workspace_label, None);
    assert_eq!(restored.marked_workspace_label, None);
    assert_eq!(restored.workspace_id.as_deref(), Some("w2"));
    assert_eq!(restored.scratch_pane_id.as_deref(), Some("s1"));
}

#[test]
fn keybinding_install_keeps_custom_tables_whole() {
    let initial = "[keys]\n\n[[keys.command]]\n# my own action\nkey = \"prefix+o\"\ntype = \"plugin\"\ncommand = \"other.open\"\ndescription = \"Open other\"\nextra = 3\n";
    let out = install_popup_keybindings_text(initial, "prefix+f", "prefix+shift+f", "/tmp/herdr-scratch-pane").unwrap();
    assert!(out.contains("# my own action\nkey = \"prefix+o\"\ntype = \"plugin\"\ncommand = \"other.open\"\ndescription = \"Open other\"\nextra = 3\n"));
}
