//! The data model: tracked entities (windows published under a workspace
//! vocabulary) and the typed update events describing state transitions.

use vstd::prelude::*;

verus! {

/// Visibility of a tracked entity. At most one entity per refresh is
/// `Focused`; `Hidden` is reserved for other backends and never produced by
/// the current mapping logic.
#[derive(Clone, Copy, Debug, PartialEq, Eq, Structural)]
pub enum Visibility {
    Focused,
    Visible,
    Hidden,
}

impl Visibility {
    /// Whether this visibility state is the focused one.
    pub open spec fn spec_is_focused(&self) -> bool {
        self is Focused
    }

    #[verifier::when_used_as_spec(spec_is_focused)]
    pub fn is_focused(&self) -> (r: bool)
        ensures
            r == self.spec_is_focused(),
    {
        matches!(self, Visibility::Focused)
    }
}

/// A tracked entity: one compositor window, exposed as a workspace record.
/// `id` is the sole identity key across refreshes.
#[derive(Debug, PartialEq, Eq)]
pub struct Workspace {
    /// Stable identifier assigned by the compositor to the window.
    pub id: i64,
    /// Position within the authoritative list for the current refresh.
    pub index: i64,
    /// Display label: window title, falling back to an application id,
    /// falling back to a fixed placeholder.
    pub name: String,
    /// Output the entity is shown on; empty if unknown.
    pub monitor: String,
    /// Current visibility state.
    pub visibility: Visibility,
}

/// Mathematical model of a `Workspace`: strings become character sequences.
pub struct WorkspaceModel {
    pub id: i64,
    pub index: i64,
    pub name: Seq<char>,
    pub monitor: Seq<char>,
    pub visibility: Visibility,
}

impl View for Workspace {
    type V = WorkspaceModel;

    open spec fn view(&self) -> WorkspaceModel {
        WorkspaceModel {
            id: self.id,
            index: self.index,
            name: self.name@,
            monitor: self.monitor@,
            visibility: self.visibility,
        }
    }
}

impl Clone for Workspace {
    fn clone(&self) -> (r: Self)
        ensures
            r == *self,
    {
        Workspace {
            id: self.id,
            index: self.index,
            name: self.name.clone(),
            monitor: self.monitor.clone(),
            visibility: self.visibility,
        }
    }
}

/// One emitted state-change event.
#[derive(Debug, PartialEq, Eq)]
pub enum WorkspaceUpdate {
    /// Full-state snapshot: the complete ordered entity list.
    Init(Vec<Workspace>),
    /// An entity whose id was not present in the previous list.
    Add(Workspace),
    /// The id of an entity absent from the new list.
    Remove(i64),
    /// An entity whose position or monitor changed.
    Move(Workspace),
    /// An entity whose display label changed.
    Rename { id: i64, name: String },
    /// An entity that transitioned into focus; `old` carries its previously
    /// known state.
    Focus { old: Option<Workspace>, new: Workspace },
}

/// Mathematical model of a `WorkspaceUpdate`.
pub enum UpdateModel {
    Init(Seq<WorkspaceModel>),
    Add(WorkspaceModel),
    Remove(i64),
    Move(WorkspaceModel),
    Rename { id: i64, name: Seq<char> },
    Focus { old: Option<WorkspaceModel>, new: WorkspaceModel },
}

impl View for WorkspaceUpdate {
    type V = UpdateModel;

    open spec fn view(&self) -> UpdateModel {
        match self {
            WorkspaceUpdate::Init(list) => UpdateModel::Init(workspace_models(list@)),
            WorkspaceUpdate::Add(w) => UpdateModel::Add(w@),
            WorkspaceUpdate::Remove(id) => UpdateModel::Remove(*id),
            WorkspaceUpdate::Move(w) => UpdateModel::Move(w@),
            WorkspaceUpdate::Rename { id, name } => UpdateModel::Rename {
                id: *id,
                name: name@,
            },
            WorkspaceUpdate::Focus { old, new } => UpdateModel::Focus {
                old: match old {
                    Some(w) => Some(w@),
                    None => None,
                },
                new: new@,
            },
        }
    }
}

impl Clone for WorkspaceUpdate {
    fn clone(&self) -> (r: Self)
        ensures
            r@ == self@,
    {
        match self {
            WorkspaceUpdate::Init(list) => {
                let copied = list.clone();
                proof {
                    assert forall|i: int| 0 <= i < list@.len() implies copied@[i] == list@[i] by {
                        assert(cloned(list@[i], copied@[i]));
                    }
                    assert(copied@ =~= list@);
                }
                WorkspaceUpdate::Init(copied)
            },
            WorkspaceUpdate::Add(w) => WorkspaceUpdate::Add(w.clone()),
            WorkspaceUpdate::Remove(id) => WorkspaceUpdate::Remove(*id),
            WorkspaceUpdate::Move(w) => WorkspaceUpdate::Move(w.clone()),
            WorkspaceUpdate::Rename { id, name } => WorkspaceUpdate::Rename {
                id: *id,
                name: name.clone(),
            },
            WorkspaceUpdate::Focus { old, new } => WorkspaceUpdate::Focus {
                old: match old {
                    Some(w) => Some(w.clone()),
                    None => None,
                },
                new: new.clone(),
            },
        }
    }
}

/// The models of a sequence of workspaces.
pub open spec fn workspace_models(s: Seq<Workspace>) -> Seq<WorkspaceModel> {
    s.map_values(|w: Workspace| w@)
}

/// The models of a sequence of updates.
pub open spec fn update_models(s: Seq<WorkspaceUpdate>) -> Seq<UpdateModel> {
    s.map_values(|u: WorkspaceUpdate| u@)
}

/// Whether some entity in `s` carries the identifier `id`.
pub open spec fn has_id(s: Seq<WorkspaceModel>, id: i64) -> bool {
    exists|i: int| 0 <= i < s.len() && s[i].id == id
}

/// Whether the entities of `s` carry pairwise distinct identifiers.
pub open spec fn distinct_ids(s: Seq<WorkspaceModel>) -> bool {
    forall|i: int, j: int| 0 <= i < j < s.len() ==> s[i].id != s[j].id
}

} // verus!
