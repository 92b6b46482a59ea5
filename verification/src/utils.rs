//! The parts of an ingestion that need no store: identifiers, metadata requests and
//! captions.

pub mod captions;
pub mod identifier;
pub mod metadata;
pub mod transcriptions;
