//! Query strings of the commit routes.
use vstd::prelude::*;

verus! {

/// The query string of `GET /projects/:project/commits`.
#[derive(Debug, Clone)]
pub struct CommitsQueryString {
    /// The commit to start the history at; the project head when absent.
    pub parent: Option<String>,
    /// Only commits committed at or after this time (seconds).
    pub since: Option<i64>,
    /// Only commits committed before this time (seconds).
    pub until: Option<i64>,
    /// The page to return, from 0.
    pub page: Option<usize>,
    /// The number of commits per page.
    pub per_page: Option<usize>,
    /// Whether to resolve the committers of signed commits.
    pub verified: Option<bool>,
}

} // verus!
