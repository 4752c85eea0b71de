//! Verified core of a real-time chat backend.
//!
//! The crate holds the four pieces on which the correctness of the backend
//! rests, each with its contract, and the operations built on them:
//!
//! - [`auth`]: the credential store and the session authenticator. A
//!   request is authorized only if its bearer credential verifies and the
//!   session it names is alive.
//! - [`hub`]: the room registry and fan-out hub, which delivers every
//!   published frame to all subscribers of a room in one order.
//! - [`message_log`]: the append-only log of room and direct messages.
//! - [`models::relationships`] and [`route_handlers::relationships`]: the
//!   relationship graph and its state machine.
//!
//! [`route_handlers`] holds one function per request, and
//! [`route_handlers::ws`] the state machine of a socket connection.
//! Hashing, signing, identities, timestamps and JSON come from outside
//! crates, behind small functions whose contracts say what is taken on
//! trust.

pub mod auth;
pub mod clock;
pub mod error;
pub mod frames;
pub mod hub;
pub mod ids;
pub mod message_log;
pub mod models;
pub mod room_directory;
pub mod route_handlers;
pub mod state;
