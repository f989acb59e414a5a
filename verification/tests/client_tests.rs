use niri_workspaces::client::Client;
use niri_workspaces::window::WindowInfo;
use niri_workspaces::workspace::{Visibility, Workspace, WorkspaceUpdate};

fn win(id: u64, title: &str, focused: bool) -> WindowInfo {
    WindowInfo {
        id,
        title: Some(title.to_string()),
        app_id: None,
        output: Some("DP-1".to_string()),
        is_focused: focused,
    }
}

fn ws(id: i64, index: i64, name: &str, focused: bool) -> Workspace {
    Workspace {
        id,
        index,
        name: name.to_string(),
        monitor: "DP-1".to_string(),
        visibility: if focused {
            Visibility::Focused
        } else {
            Visibility::Visible
        },
    }
}

#[test]
fn new_client_has_empty_store() {
    let client = Client::new();
    assert!(client.current().is_empty());
}

#[test]
fn initial_refresh_broadcasts_init_snapshot() {
    let mut client = Client::new();
    let mut rx = client.subscribe();
    client.refresh_windows(&vec![win(5, "term", true)], true);
    assert_eq!(
        rx.try_recv().unwrap(),
        WorkspaceUpdate::Init(vec![ws(5, 0, "term", true)])
    );
    assert!(rx.try_recv().is_err());
    assert_eq!(client.current(), &vec![ws(5, 0, "term", true)]);
}

#[test]
fn refresh_broadcasts_diff_updates_in_order() {
    let mut client = Client::new();
    let mut rx = client.subscribe();
    client.refresh_windows(&vec![win(1, "a", true)], true);
    let _ = rx.try_recv().unwrap();
    client.refresh_windows(&vec![win(2, "b", true)], false);
    assert_eq!(
        rx.try_recv().unwrap(),
        WorkspaceUpdate::Add(ws(2, 0, "b", true))
    );
    assert_eq!(rx.try_recv().unwrap(), WorkspaceUpdate::Remove(1));
    assert!(rx.try_recv().is_err());
}

#[test]
fn subscribe_on_empty_store_replays_nothing() {
    let mut client = Client::new();
    let mut rx = client.subscribe();
    assert!(rx.try_recv().is_err());
}

#[test]
fn subscribe_replays_snapshot_to_every_subscriber() {
    let mut client = Client::new();
    client.refresh_windows(&vec![win(1, "a", true), win(2, "b", false)], true);
    let expected = WorkspaceUpdate::Init(vec![ws(1, 0, "a", true), ws(2, 1, "b", false)]);

    // the first subscriber gets the snapshot replayed on its own arrival
    let mut rx1 = client.subscribe();
    assert_eq!(rx1.try_recv().unwrap(), expected);
    assert!(rx1.try_recv().is_err());

    // a second subscription replays the snapshot to both subscribers
    let mut rx2 = client.subscribe();
    assert_eq!(rx1.try_recv().unwrap(), expected);
    assert_eq!(rx2.try_recv().unwrap(), expected);
    assert!(rx1.try_recv().is_err());
    assert!(rx2.try_recv().is_err());
}
