//! The radicle node: the storage model of project remotes.
pub mod control;
pub mod storage;
