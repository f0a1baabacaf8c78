//! Command-line options of the HTTP API, and the path extractor's errors.
use vstd::prelude::*;

use crate::text::str_eq;

verus! {

/// Log output format.
#[derive(Debug, Clone, Copy, PartialEq, Eq, Structural)]
pub enum LogFmt {
    /// Plain text.
    Plain,
}

impl LogFmt {
    /// Reads a log format: only `plain` is compiled in.
    pub fn from_str(s: &str) -> (r: Result<LogFmt, &'static str>)
        ensures
            s@ == "plain"@ ==> r == Ok::<LogFmt, &'static str>(LogFmt::Plain),
            s@ != "plain"@ ==> (r matches Err(e) && e@ == "Unrecognized log format"@),
    {
        if str_eq(s, "plain") {
            Ok(LogFmt::Plain)
        } else {
            Err("Unrecognized log format")
        }
    }
}

/// A path parameter extracted from a request.
#[derive(Debug, Clone)]
pub struct Path<T>(pub T);

/// The body of the response to a request whose path parameters could not
/// be read.
#[derive(Debug, Clone)]
pub struct PathError {
    pub success: bool,
    pub error: String,
}

/// The response to a request whose path parameters could not be read: a bad
/// request (400) whose body says that the request failed, and why.
pub fn path_rejection(message: String) -> (r: (u16, PathError))
    ensures
        r.0 == 400,
        !r.1.success,
        r.1.error@ == message@,
{
    (400, PathError { success: false, error: message })
}

/// The project that an alias names: the first project listed under that name.
pub fn project_of_alias(projects: &[(String, String)], alias: &str) -> (r: Option<String>)
    ensures
        r is None <==> forall|i: int| 0 <= i < projects@.len() ==> #[trigger] projects@[i].0@ != alias@,
        r matches Some(u) ==> exists|i: int|
            0 <= i < projects@.len() && #[trigger] projects@[i].0@ == alias@ && projects@[i].1@ == u@
                && forall|j: int| 0 <= j < i ==> projects@[j].0@ != alias@,
{
    let mut i: usize = 0;
    while i < projects.len()
        invariant
            i <= projects@.len(),
            forall|j: int| 0 <= j < i ==> #[trigger] projects@[j].0@ != alias@,
        decreases projects@.len() - i,
    {
        if str_eq(projects[i].0.as_str(), alias) {
            return Some(projects[i].1.clone());
        }
        i = i + 1;
    }
    None
}

/// The kind of a listed identity.
#[derive(Debug, Clone, Copy, PartialEq, Eq, Structural)]
pub enum IdentityKind {
    Project,
    Person,
}

/// The number of projects and of users among the identities of the node.
pub fn identity_counts(kinds: &[IdentityKind]) -> (r: (usize, usize))
    ensures
        r.0 == kinds@.filter(|k: IdentityKind| k == IdentityKind::Project).len(),
        r.1 == kinds@.filter(|k: IdentityKind| k == IdentityKind::Person).len(),
{
    let mut projects: usize = 0;
    let mut persons: usize = 0;
    let mut i: usize = 0;
    while i < kinds.len()
        invariant
            i <= kinds@.len(),
            projects == kinds@.take(i as int).filter(|k: IdentityKind| k == IdentityKind::Project).len(),
            persons == kinds@.take(i as int).filter(|k: IdentityKind| k == IdentityKind::Person).len(),
            projects + persons == i,
        decreases kinds@.len() - i,
    {
        proof {
            reveal(Seq::filter);
            assert(kinds@.take(i + 1).drop_last() =~= kinds@.take(i as int));
            assert(kinds@.take(i + 1).last() == kinds@[i as int]);
        }
        match kinds[i] {
            IdentityKind::Project => {
                projects = projects + 1;
            },
            IdentityKind::Person => {
                persons = persons + 1;
            },
        }
        i = i + 1;
    }
    assert(kinds@.take(i as int) =~= kinds@);
    (projects, persons)
}

} // verus!
