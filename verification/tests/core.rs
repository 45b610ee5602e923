use herdr_scratch_pane::decisions::{decide_toggle, ToggleDecision, ToggleInputs};
use herdr_scratch_pane::herdr::PaneInfo;
use herdr_scratch_pane::scope::{scratch_label, session_name, Scope};

#[test]
fn scope_names_are_stable_and_filename_safe() {
    assert_eq!(scratch_label(Scope::Workspace), "⌂ scratch workspace");
    assert_eq!(scratch_label(Scope::Session), "⌂ scratch session");
    assert_eq!(
        session_name(Scope::Workspace, Some("ws/a:b"), Some("srv 1")),
        "workspace-ws-a-b"
    );
    assert_eq!(
        session_name(Scope::Session, Some("ws/a:b"), Some("srv 1")),
        "session-srv-1"
    );
}

#[test]
fn toggle_decision_opens_reveals_closes_and_enforces_mutual_exclusion() {
    let ctx = PaneInfo {
        pane_id: "current".into(),
        workspace_id: Some("w1".into()),
        cwd: Some("/tmp/proj".into()),
        label: Some("main".into()),
        focused: true,
    };

    let open = decide_toggle(ToggleInputs {
        scope: Scope::Workspace,
        current: ctx.clone(),
        panes: vec![],
        server_id: Some("server".into()),
    });
    assert_eq!(
        open,
        ToggleDecision::Open {
            scope: Scope::Workspace
        }
    );

    let target = PaneInfo {
        pane_id: "fw".into(),
        workspace_id: Some("w1".into()),
        cwd: None,
        label: Some("⌂ scratch workspace".into()),
        focused: true,
    };
    let close = decide_toggle(ToggleInputs {
        scope: Scope::Workspace,
        current: target.clone(),
        panes: vec![target],
        server_id: Some("server".into()),
    });
    assert_eq!(
        close,
        ToggleDecision::Close {
            pane_id: "fw".into()
        }
    );

    let hidden_target = PaneInfo {
        pane_id: "fw".into(),
        workspace_id: Some("w1".into()),
        cwd: None,
        label: Some("⌂ scratch workspace".into()),
        focused: false,
    };
    let reveal = decide_toggle(ToggleInputs {
        scope: Scope::Workspace,
        current: ctx.clone(),
        panes: vec![hidden_target],
        server_id: Some("server".into()),
    });
    assert_eq!(
        reveal,
        ToggleDecision::Reveal {
            pane_id: "fw".into()
        }
    );

    let other_visible = PaneInfo {
        pane_id: "fs".into(),
        workspace_id: Some("w1".into()),
        cwd: None,
        label: Some("⌂ scratch session".into()),
        focused: true,
    };
    let switch = decide_toggle(ToggleInputs {
        scope: Scope::Workspace,
        current: other_visible.clone(),
        panes: vec![other_visible],
        server_id: Some("server".into()),
    });
    assert_eq!(
        switch,
        ToggleDecision::CloseThenOpen {
            close_pane_id: "fs".into(),
            scope: Scope::Workspace
        }
    );
}
