use niri_workspaces::diff::diff;
use niri_workspaces::workspace::{Visibility, Workspace, WorkspaceUpdate};

fn ws(id: i64, index: i64, name: &str, monitor: &str, visibility: Visibility) -> Workspace {
    Workspace {
        id,
        index,
        name: name.to_string(),
        monitor: monitor.to_string(),
        visibility,
    }
}

#[test]
fn initial_refresh_emits_single_init() {
    let old: Vec<Workspace> = vec![];
    let new = vec![ws(5, 0, "term", "DP-1", Visibility::Focused)];
    let updates = diff(&old, &new, true);
    assert_eq!(
        updates,
        vec![WorkspaceUpdate::Init(vec![ws(5, 0, "term", "DP-1", Visibility::Focused)])]
    );
}

#[test]
fn diff_against_self_is_empty() {
    let list = vec![
        ws(1, 0, "a", "DP-1", Visibility::Focused),
        ws(2, 1, "b", "DP-1", Visibility::Visible),
        ws(3, 2, "c", "HDMI-1", Visibility::Visible),
    ];
    let updates = diff(&list, &list, false);
    assert_eq!(updates, vec![]);
}

#[test]
fn diff_of_empty_lists_is_empty() {
    let updates = diff(&vec![], &vec![], false);
    assert_eq!(updates, vec![]);
}

#[test]
fn new_id_yields_add_and_gone_id_yields_remove() {
    let old = vec![
        ws(1, 0, "a", "DP-1", Visibility::Visible),
        ws(2, 1, "b", "DP-1", Visibility::Visible),
    ];
    let new = vec![
        ws(2, 0, "b", "DP-1", Visibility::Visible),
        ws(3, 1, "c", "DP-1", Visibility::Visible),
    ];
    let updates = diff(&old, &new, false);
    // id 2 moved from index 1 to 0, id 3 is new, id 1 is gone
    assert_eq!(
        updates,
        vec![
            WorkspaceUpdate::Move(ws(2, 0, "b", "DP-1", Visibility::Visible)),
            WorkspaceUpdate::Add(ws(3, 1, "c", "DP-1", Visibility::Visible)),
            WorkspaceUpdate::Remove(1),
        ]
    );
}

#[test]
fn updates_follow_new_list_order_and_removals_come_last() {
    let old = vec![
        ws(1, 0, "a", "DP-1", Visibility::Visible),
        ws(2, 1, "b", "DP-1", Visibility::Visible),
    ];
    let new = vec![
        ws(3, 0, "c", "DP-1", Visibility::Visible),
        ws(1, 1, "renamed", "DP-1", Visibility::Visible),
        ws(4, 2, "d", "DP-1", Visibility::Visible),
    ];
    let updates = diff(&old, &new, false);
    assert_eq!(
        updates,
        vec![
            WorkspaceUpdate::Add(ws(3, 0, "c", "DP-1", Visibility::Visible)),
            WorkspaceUpdate::Rename {
                id: 1,
                name: "renamed".to_string(),
            },
            WorkspaceUpdate::Move(ws(1, 1, "renamed", "DP-1", Visibility::Visible)),
            WorkspaceUpdate::Add(ws(4, 2, "d", "DP-1", Visibility::Visible)),
            WorkspaceUpdate::Remove(2),
        ]
    );
}

#[test]
fn losing_focus_alone_emits_nothing() {
    let old = vec![ws(1, 0, "a", "DP-1", Visibility::Focused)];
    let new = vec![ws(1, 0, "a", "DP-1", Visibility::Visible)];
    let updates = diff(&old, &new, false);
    assert_eq!(updates, vec![]);
}

#[test]
fn gaining_focus_emits_one_focus_update() {
    let old = vec![ws(1, 0, "a", "DP-1", Visibility::Visible)];
    let new = vec![ws(1, 0, "a", "DP-1", Visibility::Focused)];
    let updates = diff(&old, &new, false);
    assert_eq!(
        updates,
        vec![WorkspaceUpdate::Focus {
            old: Some(ws(1, 0, "a", "DP-1", Visibility::Visible)),
            new: ws(1, 0, "a", "DP-1", Visibility::Focused),
        }]
    );
}

#[test]
fn rename_and_move_are_independent() {
    let old = vec![ws(7, 0, "before", "DP-1", Visibility::Visible)];
    let new = vec![ws(7, 0, "after", "HDMI-1", Visibility::Visible)];
    let updates = diff(&old, &new, false);
    assert_eq!(
        updates,
        vec![
            WorkspaceUpdate::Rename {
                id: 7,
                name: "after".to_string(),
            },
            WorkspaceUpdate::Move(ws(7, 0, "after", "HDMI-1", Visibility::Visible)),
        ]
    );
}

#[test]
fn index_change_alone_emits_move() {
    let old = vec![ws(7, 0, "a", "DP-1", Visibility::Visible)];
    let new = vec![ws(7, 3, "a", "DP-1", Visibility::Visible)];
    let updates = diff(&old, &new, false);
    assert_eq!(
        updates,
        vec![WorkspaceUpdate::Move(ws(7, 3, "a", "DP-1", Visibility::Visible))]
    );
}

#[test]
fn rename_move_and_focus_all_fire_for_one_id() {
    let old = vec![ws(9, 0, "before", "DP-1", Visibility::Visible)];
    let new = vec![ws(9, 1, "after", "DP-1", Visibility::Focused)];
    let updates = diff(&old, &new, false);
    assert_eq!(
        updates,
        vec![
            WorkspaceUpdate::Rename {
                id: 9,
                name: "after".to_string(),
            },
            WorkspaceUpdate::Move(ws(9, 1, "after", "DP-1", Visibility::Focused)),
            WorkspaceUpdate::Focus {
                old: Some(ws(9, 0, "before", "DP-1", Visibility::Visible)),
                new: ws(9, 1, "after", "DP-1", Visibility::Focused),
            },
        ]
    );
}

#[test]
fn example_scenario_add_without_focus_for_unmatched_id() {
    // The previously focused entity loses focus (no event) and a new focused
    // entity appears (an Add only: the focus check applies to matched ids).
    let old = vec![ws(1, 0, "A", "M1", Visibility::Focused)];
    let new = vec![
        ws(1, 0, "A", "M1", Visibility::Visible),
        ws(2, 1, "B", "M1", Visibility::Focused),
    ];
    let updates = diff(&old, &new, false);
    assert_eq!(
        updates,
        vec![WorkspaceUpdate::Add(ws(2, 1, "B", "M1", Visibility::Focused))]
    );
}
