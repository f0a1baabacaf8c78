//! The HTTP API: what its handlers decide between the storage look-ups.
pub mod changeset;
pub mod commit;
pub mod error;
pub mod options;
pub mod projects;
pub mod sessions;

