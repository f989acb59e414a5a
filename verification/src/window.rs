//! Mapping from fetched compositor windows to tracked entities: each window
//! becomes one workspace record, in list order.

use vstd::prelude::*;

use crate::workspace::{workspace_models, Visibility, Workspace, WorkspaceModel};

verus! {

/// The plain values the mapping logic reads from one compositor window.
#[derive(Debug, PartialEq, Eq)]
pub struct WindowInfo {
    /// Stable window id assigned by the compositor.
    pub id: u64,
    /// Window title, if set.
    pub title: Option<String>,
    /// Application identifier, if set.
    pub app_id: Option<String>,
    /// Name of the output the window is shown on, if known.
    pub output: Option<String>,
    /// Whether the window currently holds focus.
    pub is_focused: bool,
}

/// Mathematical model of a `WindowInfo`.
pub struct WindowInfoModel {
    pub id: u64,
    pub title: Option<Seq<char>>,
    pub app_id: Option<Seq<char>>,
    pub output: Option<Seq<char>>,
    pub is_focused: bool,
}

impl View for WindowInfo {
    type V = WindowInfoModel;

    open spec fn view(&self) -> WindowInfoModel {
        WindowInfoModel {
            id: self.id,
            title: match self.title {
                Some(t) => Some(t@),
                None => None,
            },
            app_id: match self.app_id {
                Some(a) => Some(a@),
                None => None,
            },
            output: match self.output {
                Some(o) => Some(o@),
                None => None,
            },
            is_focused: self.is_focused,
        }
    }
}

/// The models of a sequence of windows.
pub open spec fn window_models(s: Seq<WindowInfo>) -> Seq<WindowInfoModel> {
    s.map_values(|w: WindowInfo| w@)
}

/// The display label of a window: title, falling back to the application
/// identifier, falling back to a fixed placeholder.
pub open spec fn spec_display_name(v: WindowInfoModel) -> Seq<char> {
    match v.title {
        Some(t) => t,
        None => match v.app_id {
            Some(a) => a,
            None => "Window"@,
        },
    }
}

/// Whether a window id fits the signed representation of the published model.
pub open spec fn window_fits(v: WindowInfoModel) -> bool {
    v.id <= i64::MAX as u64
}

/// The workspace record of one window at position `index`.
pub open spec fn spec_window_to_workspace(v: WindowInfoModel, index: i64) -> WorkspaceModel {
    WorkspaceModel {
        id: v.id as i64,
        index: index,
        name: spec_display_name(v),
        monitor: match v.output {
            Some(o) => o,
            None => Seq::<char>::empty(),
        },
        visibility: if v.is_focused {
            Visibility::Focused
        } else {
            Visibility::Visible
        },
    }
}

/// The workspace records of a whole window list, in list order.
pub open spec fn spec_windows_to_workspaces(ws: Seq<WindowInfoModel>) -> Seq<WorkspaceModel> {
    Seq::new(ws.len(), |i: int| spec_window_to_workspace(ws[i], i as i64))
}

/// Builds the workspace record of one window: the window id becomes the
/// entity id, the given position its index, and the focus flag decides
/// between the focused and the plain visible state.
pub fn window_to_workspace(window: &WindowInfo, index: i64) -> (w: Workspace)
    requires
        window_fits(window@),
    ensures
        w@ == spec_window_to_workspace(window@, index),
{
    let name = match &window.title {
        Some(t) => t.clone(),
        None => match &window.app_id {
            Some(a) => a.clone(),
            None => "Window".to_owned(),
        },
    };
    let monitor = match &window.output {
        Some(o) => o.clone(),
        None => String::new(),
    };
    Workspace {
        id: window.id as i64,
        index,
        name,
        monitor,
        visibility: if window.is_focused {
            Visibility::Focused
        } else {
            Visibility::Visible
        },
    }
}

/// Converts a freshly fetched window list, giving each entity its position in
/// the list as its index.
pub fn windows_to_workspaces(windows: &Vec<WindowInfo>) -> (r: Vec<Workspace>)
    requires
        windows@.len() <= i64::MAX as nat,
        forall|i: int| 0 <= i < windows@.len() ==> window_fits(#[trigger] windows@[i]@),
    ensures
        workspace_models(r@) == spec_windows_to_workspaces(window_models(windows@)),
{
    let ghost target = spec_windows_to_workspaces(window_models(windows@));
    let mut r: Vec<Workspace> = Vec::new();
    let mut i: usize = 0;
    while i < windows.len()
        invariant
            i <= windows@.len(),
            windows@.len() <= i64::MAX as nat,
            forall|j: int| 0 <= j < windows@.len() ==> window_fits(#[trigger] windows@[j]@),
            target == spec_windows_to_workspaces(window_models(windows@)),
            r@.len() == i,
            workspace_models(r@) == target.take(i as int),
        decreases windows@.len() - i,
    {
        let w = window_to_workspace(&windows[i], i as i64);
        r.push(w);
        proof {
            assert(window_models(windows@)[i as int] == windows@[i as int]@);
            assert(r@[i as int] == w);
            assert(w@ == spec_window_to_workspace(windows@[i as int]@, i as i64));
            assert(i as i64 == (i as int) as i64);
            assert(target[i as int] == spec_window_to_workspace(
                window_models(windows@)[i as int],
                (i as int) as i64,
            ));
            assert(workspace_models(r@) =~= target.take(i + 1));
        }
        i += 1;
    }
    proof {
        assert(target.take(windows@.len() as int) =~= target);
    }
    r
}

} // verus!
