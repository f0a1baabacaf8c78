//! Names of the git references under which projects are stored: every
//! project lives in a namespace `refs/namespaces/<id>`, its own branches under
//! `refs/heads` and the branches of the peers it tracks under
//! `refs/remotes/<peer>/heads`.
use vstd::prelude::*;

use crate::text::{append_str, concat2, concat3, push_char};

verus! {

/// What `Path::join` gives on Unix for relative parts: the part alone when it
/// is absolute or when the base is empty, else the base and the part with
/// one `/` between them unless the base already ends with one.
pub open spec fn path_join_spec(base: Seq<char>, part: Seq<char>) -> Seq<char> {
    if part.len() > 0 && part[0] == '/' {
        part
    } else if base.len() == 0 {
        part
    } else if base.last() == '/' {
        base + part
    } else {
        base + seq!['/'] + part
    }
}

/// Joins a path and a part of it, as `Path::join` does on Unix.
pub fn path_join(base: &str, part: &str) -> (r: String)
    ensures
        r@ == path_join_spec(base@, part@),
{
    let b = crate::text::chars_of(base);
    let p = crate::text::chars_of(part);
    if p.len() > 0 && p[0] == '/' {
        return part.to_owned();
    }
    if b.len() == 0 {
        return part.to_owned();
    }
    let mut r = base.to_owned();
    if b[b.len() - 1] != '/' {
        push_char(&mut r, '/');
    }
    append_str(&mut r, part);
    r
}

/// `refs/namespaces/<namespace>`.
pub open spec fn namespace_prefix(namespace: Seq<char>) -> Seq<char> {
    "refs/namespaces/"@ + namespace
}

/// `refs/namespaces/<namespace>/refs/heads/<branch>`: the project's own branch.
pub open spec fn local_head_spec(namespace: Seq<char>, branch: Seq<char>) -> Seq<char> {
    namespace_prefix(namespace) + "/refs/heads/"@ + branch
}

/// `refs/namespaces/<namespace>/refs/remotes/<peer>/heads/<branch>`: the
/// branch of a tracked peer.
pub open spec fn remote_head_spec(namespace: Seq<char>, peer: Seq<char>, branch: Seq<char>) -> Seq<char> {
    namespace_prefix(namespace) + "/refs/remotes/"@ + peer + "/heads/"@ + branch
}

/// `refs/namespaces/<namespace>/HEAD`: the symbolic head of the project.
pub open spec fn namespace_head_spec(namespace: Seq<char>) -> Seq<char> {
    namespace_prefix(namespace) + "/HEAD"@
}

/// The reference of the head of `branch` in a namespace: the project's own
/// branch when no peer is given, else the branch of that peer.
pub fn head_ref(namespace: &str, peer: Option<&str>, branch: &str) -> (r: String)
    ensures
        peer is None ==> r@ == local_head_spec(namespace@, branch@),
        peer matches Some(p) ==> r@ == remote_head_spec(namespace@, p@, branch@),
{
    let mut r = concat2("refs/namespaces/", namespace);
    match peer {
        None => {
            append_str(&mut r, "/refs/heads/");
        },
        Some(p) => {
            append_str(&mut r, "/refs/remotes/");
            append_str(&mut r, p);
            append_str(&mut r, "/heads/");
        },
    }
    append_str(&mut r, branch);
    r
}

/// The symbolic head reference of a namespace.
pub fn namespace_head(namespace: &str) -> (r: String)
    ensures
        r@ == namespace_head_spec(namespace@),
{
    concat3("refs/namespaces/", namespace, "/HEAD")
}

} // verus!
