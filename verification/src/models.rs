//! The records that the components keep and exchange.

pub mod messages;
pub mod relationships;
pub mod rooms;
pub mod user;
