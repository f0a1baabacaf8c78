//! The org node: it follows the projects that orgs anchor on chain and
//! replicates them.
pub mod project;
pub mod client;
pub mod options;
pub mod store;
