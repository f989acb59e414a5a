//! Tracks the live set of compositor windows and republishes them as an
//! ordered stream of incremental workspace update events.
//!
//! The compositor only signals that "something changed", so the core of the
//! library is a diff engine: given the previously stored entity list and a
//! freshly fetched one, it computes the exact sequence of typed updates that
//! describes the transition. Around it stand the mapping from fetched
//! windows to tracked entities, the classification of pushed events, the
//! dispatch-loop decision, and the client that owns the store and the
//! broadcast side of the update channel.

pub mod client;
pub mod diff;
pub mod event;
pub mod hub;
pub mod laws;
pub mod window;
pub mod workspace;
