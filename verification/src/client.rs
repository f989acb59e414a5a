//! The client: the store of tracked entities, the sending side of the
//! broadcast hub, and a ghost log of every update handed to the channel.
//!
//! The surrounding runtime owns the connections and the dispatch loop; it
//! feeds fetched window lists into `refresh_windows` and hands receivers out
//! through `subscribe`.

use vstd::prelude::*;

use crate::diff::{diff, refresh_updates};
use crate::hub::{new_channel, send_update, subscribe_receiver};
use crate::window::{
    spec_windows_to_workspaces, window_fits, window_models, windows_to_workspaces, WindowInfo,
};
use crate::workspace::{
    update_models, workspace_models, UpdateModel, Workspace, WorkspaceModel, WorkspaceUpdate,
};

verus! {

/// Capacity of the broadcast channel: pending updates buffered per
/// subscriber before the oldest are dropped for that subscriber.
pub const CHANNEL_CAPACITY: usize = 32;

/// Compositor client state. The entity list is replaced wholesale on every
/// successful refresh and never re-sorted; subscribers receive the computed
/// updates through the shared broadcast channel.
pub struct Client {
    tx: tokio::sync::broadcast::Sender<WorkspaceUpdate>,
    keep_alive: tokio::sync::broadcast::Receiver<WorkspaceUpdate>,
    store: Vec<Workspace>,
    published: Ghost<Seq<UpdateModel>>,
}

impl Client {
    /// The entities of the last successful refresh, in compositor order.
    pub closed spec fn store_models(&self) -> Seq<WorkspaceModel> {
        workspace_models(self.store@)
    }

    /// Everything handed to the broadcast channel so far, in order.
    pub closed spec fn published_log(&self) -> Seq<UpdateModel> {
        self.published@
    }

    /// Creates a client with an empty store and a fresh broadcast channel;
    /// the client keeps one receiver alive so that publishing never finds
    /// the channel closed.
    pub fn new() -> (c: Client)
        ensures
            c.store_models() == Seq::<WorkspaceModel>::empty(),
            c.published_log() == Seq::<UpdateModel>::empty(),
    {
        let (tx, rx) = new_channel(CHANNEL_CAPACITY);
        let c = Client {
            tx,
            keep_alive: rx,
            store: Vec::new(),
            published: Ghost(Seq::empty()),
        };
        proof {
            assert(workspace_models(c.store@) =~= Seq::<WorkspaceModel>::empty());
        }
        c
    }

    /// Hands one update to the broadcast channel and records it in the log.
    fn publish(&mut self, update: WorkspaceUpdate)
        ensures
            final(self).published_log() == old(self).published_log().push(update@),
            final(self).store_models() == old(self).store_models(),
    {
        let ghost u = update@;
        send_update(&self.tx, update);
        self.published = Ghost(self.published@.push(u));
    }

    /// One refresh: converts the freshly fetched window list, publishes the
    /// updates describing the transition from the stored list (a single
    /// snapshot on the initial refresh), and replaces the store.
    pub fn refresh_windows(&mut self, windows: &Vec<WindowInfo>, is_init: bool)
        requires
            windows@.len() <= i64::MAX as nat,
            forall|i: int| 0 <= i < windows@.len() ==> window_fits(#[trigger] windows@[i]@),
        ensures
            final(self).store_models() == spec_windows_to_workspaces(window_models(windows@)),
            final(self).published_log() == old(self).published_log() + refresh_updates(
                old(self).store_models(),
                spec_windows_to_workspaces(window_models(windows@)),
                is_init,
            ),
    {
        let new_list = windows_to_workspaces(windows);
        let mut updates = diff(&self.store, &new_list, is_init);
        self.store = new_list;
        let ghost base = self.published@;
        let ghost all = update_models(updates@);
        while updates.len() > 0
            invariant
                self.published@ + update_models(updates@) == base + all,
                self.store_models() == spec_windows_to_workspaces(window_models(windows@)),
            decreases updates@.len(),
        {
            let ghost before = updates@;
            let u = updates.remove(0);
            self.publish(u);
            proof {
                assert(update_models(before) =~= seq![before[0]@] + update_models(updates@));
                assert(self.published@ + update_models(updates@) =~= base + all);
            }
        }
        proof {
            assert(update_models(updates@) =~= Seq::<UpdateModel>::empty());
            assert(self.published@ =~= base + all);
        }
    }

    /// Registers a new subscriber. If the store is non-empty, a full-state
    /// snapshot is immediately published through the shared channel — so
    /// every current subscriber, not only the new one, observes it.
    pub fn subscribe(&mut self) -> (rx: tokio::sync::broadcast::Receiver<WorkspaceUpdate>)
        ensures
            final(self).store_models() == old(self).store_models(),
            final(self).published_log() == if old(self).store_models().len() > 0 {
                old(self).published_log().push(UpdateModel::Init(old(self).store_models()))
            } else {
                old(self).published_log()
            },
    {
        let rx = subscribe_receiver(&self.tx);
        if self.store.len() > 0 {
            let snapshot = self.store.clone();
            proof {
                assert(snapshot@ =~= self.store@);
            }
            self.publish(WorkspaceUpdate::Init(snapshot));
        }
        rx
    }

    /// The stored entity list of the last successful refresh.
    pub fn current(&self) -> (r: &Vec<Workspace>)
        ensures
            workspace_models(r@) == self.store_models(),
    {
        &self.store
    }
}

} // verus!
