//! The operations that clients invoke, one function per request.

pub mod friendships;
pub mod me;
pub mod messages;
pub mod relationships;
pub mod req_friends;
pub mod room;
pub mod rooms;
pub mod users;
pub mod ws;
