//! The state of the whole backend, owned by the server and handed to every
//! operation explicitly.

use crate::auth::sessions::SessionAuthenticator;
use crate::hub::{RoomRegistry, DEFAULT_CAPACITY};
use crate::message_log::MessageLog;
use crate::models::relationships::RelationshipGraph;
use crate::room_directory::RoomDirectory;
use vstd::prelude::*;

verus! {
/// For how long a channel without subscribers is kept, in seconds, unless
/// the state is made with another grace period.
pub const DEFAULT_GRACE_SECS: i64 = 60;

/// Everything the backend holds.
pub struct AppState {
    /// Users and sessions.
    pub auth: SessionAuthenticator,
    /// The relationship graph.
    pub relationships: RelationshipGraph,
    /// Rooms and memberships.
    pub directory: RoomDirectory,
    /// The message log.
    pub log: MessageLog,
    /// The room registry and fan-out hub.
    pub rooms: RoomRegistry,
}

impl AppState {
    /// Every component is well formed.
    pub open spec fn wf(&self) -> bool {
        &&& self.auth.wf()
        &&& self.relationships.wf()
        &&& self.directory.wf()
        &&& self.log.wf()
        &&& self.rooms.wf()
    }

    /// The empty state, with the default buffer capacity and grace period.
    pub fn new() -> (s: AppState)
        ensures
            s.wf(),
            s.auth@.users.len() == 0,
            s.auth@.sessions.len() == 0,
            s.relationships@.dom().len() == 0,
            s.directory@.rooms.len() == 0,
            s.directory@.members.len() == 0,
            s.log@.room_messages.len() == 0,
            s.log@.direct_messages.len() == 0,
            s.rooms@.channels.len() == 0,
            s.rooms@.capacity == DEFAULT_CAPACITY,
            s.rooms@.grace_secs == DEFAULT_GRACE_SECS,
            s.rooms@.next_subscription == 0,
    {
        AppState {
            auth: SessionAuthenticator::new(),
            relationships: RelationshipGraph::new(),
            directory: RoomDirectory::new(),
            log: MessageLog::new(),
            rooms: RoomRegistry::new(DEFAULT_CAPACITY, DEFAULT_GRACE_SECS),
        }
    }
}
} // verus!
