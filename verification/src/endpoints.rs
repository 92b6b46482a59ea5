//! What the service answers: the health check, user accounts, and videos with their
//! captions.

pub mod general;
pub mod users;
pub mod videos;
