//! Caption ingestion and search for videos of a third-party platform.

pub mod decimal;
pub mod endpoints;
pub mod error;
pub mod ingestion;
pub mod search;
pub mod store;
pub mod text;
pub mod utils;
