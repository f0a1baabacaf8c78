//! The radicle git server: the logic of its request handling and of its hooks.
pub mod backend;
pub mod error;
pub mod hooks;
pub mod server;
