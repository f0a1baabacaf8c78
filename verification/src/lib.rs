//! Radicle client services: the logic of the radicle git server and its hooks,
//! the HTTP API, the org node, the indexer node and the node storage types.
pub mod git_server;
pub mod http_api;
pub mod indexer;
pub mod keys;
pub mod node;
pub mod oid;
pub mod org_node;
pub mod project_meta;
pub mod refs;
pub mod text;
