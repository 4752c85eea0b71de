//! Credentials and sessions: the trust boundary of every other component.

pub mod handlers;
pub mod jwt;
pub mod middleware;
pub mod models;
pub mod password;
pub mod sessions;
