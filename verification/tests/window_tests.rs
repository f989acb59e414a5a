use niri_workspaces::event::{dispatch_step, is_refresh_trigger, EventKind, LoopState};
use niri_workspaces::window::{window_to_workspace, windows_to_workspaces, WindowInfo};
use niri_workspaces::workspace::{Visibility, Workspace};

fn win(
    id: u64,
    title: Option<&str>,
    app_id: Option<&str>,
    output: Option<&str>,
    is_focused: bool,
) -> WindowInfo {
    WindowInfo {
        id,
        title: title.map(|s| s.to_string()),
        app_id: app_id.map(|s| s.to_string()),
        output: output.map(|s| s.to_string()),
        is_focused,
    }
}

#[test]
fn name_prefers_title() {
    let w = window_to_workspace(&win(1, Some("title"), Some("app"), Some("DP-1"), false), 0);
    assert_eq!(w.name, "title");
}

#[test]
fn name_falls_back_to_app_id() {
    let w = window_to_workspace(&win(1, None, Some("app"), Some("DP-1"), false), 0);
    assert_eq!(w.name, "app");
}

#[test]
fn name_falls_back_to_placeholder() {
    let w = window_to_workspace(&win(1, None, None, Some("DP-1"), false), 0);
    assert_eq!(w.name, "Window");
}

#[test]
fn unknown_output_becomes_empty_monitor() {
    let w = window_to_workspace(&win(1, Some("t"), None, None, false), 0);
    assert_eq!(w.monitor, "");
}

#[test]
fn focus_flag_decides_visibility() {
    let focused = window_to_workspace(&win(1, Some("t"), None, None, true), 0);
    assert_eq!(focused.visibility, Visibility::Focused);
    let plain = window_to_workspace(&win(1, Some("t"), None, None, false), 0);
    assert_eq!(plain.visibility, Visibility::Visible);
}

#[test]
fn list_conversion_assigns_positions_as_indices() {
    let windows = vec![
        win(10, Some("a"), None, Some("DP-1"), true),
        win(11, None, Some("b"), None, false),
    ];
    let list: Vec<Workspace> = windows_to_workspaces(&windows);
    assert_eq!(
        list,
        vec![
            Workspace {
                id: 10,
                index: 0,
                name: "a".to_string(),
                monitor: "DP-1".to_string(),
                visibility: Visibility::Focused,
            },
            Workspace {
                id: 11,
                index: 1,
                name: "b".to_string(),
                monitor: "".to_string(),
                visibility: Visibility::Visible,
            },
        ]
    );
}

#[test]
fn trigger_events_force_refresh() {
    assert!(is_refresh_trigger(&EventKind::WindowsChanged));
    assert!(is_refresh_trigger(&EventKind::WindowOpenedOrChanged));
    assert!(is_refresh_trigger(&EventKind::WindowClosed));
    assert!(is_refresh_trigger(&EventKind::WindowFocusChanged));
    assert!(is_refresh_trigger(&EventKind::WorkspacesChanged));
    assert!(is_refresh_trigger(&EventKind::WorkspaceActivated));
    assert!(!is_refresh_trigger(&EventKind::Other));
}

#[test]
fn dispatch_refreshes_on_trigger_and_ignores_catch_all() {
    assert_eq!(
        dispatch_step(LoopState::Listening, Some(EventKind::WindowClosed)),
        (LoopState::Listening, true)
    );
    assert_eq!(
        dispatch_step(LoopState::Listening, Some(EventKind::Other)),
        (LoopState::Listening, false)
    );
}

#[test]
fn dispatch_terminates_on_read_error_and_stays_terminated() {
    assert_eq!(
        dispatch_step(LoopState::Listening, None),
        (LoopState::Terminated, false)
    );
    assert_eq!(
        dispatch_step(LoopState::Terminated, Some(EventKind::WindowsChanged)),
        (LoopState::Terminated, false)
    );
}
