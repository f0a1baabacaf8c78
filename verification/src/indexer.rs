//! The indexer node: an ordered store of the repositories it knows, keyed by
//! `repo::<alias>::<urn>`, listed a page at a time, and synchronised from
//! seeds.
use vstd::prelude::*;

use crate::text::{chars_of, concat2, concat3, has_prefix, starts_with, views};

verus! {

/// Number of repositories on a page of a listing.
pub const PAGINATION: usize = 5;

/// The prefix of the keys of repositories.
pub open spec fn repo_prefix() -> Seq<char> {
    seq!['r', 'e', 'p', 'o', ':', ':']
}

/// Errors of the indexer.
#[derive(Debug, Clone)]
pub enum Error {
    /// The entity was not found.
    NotFound,
    /// An error occured while parsing a URL; its message.
    ParseError(String),
}

/// The key under which a repository is stored: `repo::` and its id.
pub fn repo_key(k: &str) -> (r: String)
    ensures
        r@ == repo_prefix() + k@,
{
    let r = concat2("repo::", k);
    proof {
        reveal_strlit("repo::");
        assert("repo::"@ =~= repo_prefix());
    }
    r
}

/// The repositories of a listing page: of the entries that the store yields
/// in key order from the start of the page, the first `limit` ones, up to the
/// first entry that is not a repository.
pub open spec fn repos_page_spec(entries: Seq<(Seq<char>, Seq<char>)>, limit: int) -> Seq<(Seq<char>, Seq<char>)>
    decreases entries.len(),
{
    if entries.len() == 0 || limit <= 0 || !has_prefix(entries[0].0, repo_prefix()) {
        Seq::empty()
    } else {
        seq![entries[0]] + repos_page_spec(entries.drop_first(), limit - 1)
    }
}

/// The pairs of views of a list of entries.
pub open spec fn entry_views(entries: Seq<(String, String)>) -> Seq<(Seq<char>, Seq<char>)> {
    entries.map_values(|e: (String, String)| (e.0@, e.1@))
}

/// Keeps the repositories of a listing page (see `repos_page_spec`).
pub fn repos_page(entries: Vec<(String, String)>, limit: usize) -> (r: Vec<(String, String)>)
    ensures
        entry_views(r@) == repos_page_spec(entry_views(entries@), limit as int),
{
    let prefix = ['r', 'e', 'p', 'o', ':', ':'];
    assert(prefix@ =~= repo_prefix());
    let ghost all = entry_views(entries@);
    let mut rest = entries;
    let mut out: Vec<(String, String)> = Vec::new();
    let mut n: usize = 0;
    let total = rest.len();
    assert(all.skip(0) =~= all);
    assert(entry_views(out@) + repos_page_spec(all, limit as int) =~= repos_page_spec(all, limit as int));
    while rest.len() > 0 && n < limit
        invariant
            all == entry_views(entries@),
            all.len() == total,
            n <= all.len(),
            n <= limit,
            entry_views(rest@) == all.skip(n as int),
            rest@.len() == all.len() - n,
            prefix@ == repo_prefix(),
            entry_views(out@) + repos_page_spec(all.skip(n as int), limit - n) == repos_page_spec(all, limit as int),
        decreases rest@.len(),
    {
        let e = rest.remove(0);
        let k = chars_of(e.0.as_str());
        proof {
            assert(all.skip(n as int)[0] == (e.0@, e.1@));
            assert(all.skip(n as int).drop_first() =~= all.skip(n + 1));
        }
        if !starts_with(k.as_slice(), prefix.as_slice()) {
            assert(repos_page_spec(all.skip(n as int), limit - n) =~= Seq::<(Seq<char>, Seq<char>)>::empty());
            assert(entry_views(out@) =~= entry_views(out@) + Seq::<(Seq<char>, Seq<char>)>::empty());
            return out;
        }
        let ghost before = out@;
        out.push(e);
        proof {
            assert(entry_views(out@) =~= entry_views(before).push((e.0@, e.1@)));
            assert(entry_views(rest@) =~= all.skip(n + 1));
            assert(entry_views(out@) + repos_page_spec(all.skip(n + 1), limit - n - 1) =~= entry_views(before)
                + repos_page_spec(all.skip(n as int), limit - n));
        }
        n = n + 1;
    }
    proof {
        assert(repos_page_spec(all.skip(n as int), limit - n) =~= Seq::<(Seq<char>, Seq<char>)>::empty());
        assert(entry_views(out@) =~= entry_views(out@) + Seq::<(Seq<char>, Seq<char>)>::empty());
    }
    out
}

/// The text of the URL that `input` names relative to the absolute URL
/// `base`, when both read as URLs.
pub uninterp spec fn url_join_text(base: Seq<char>, input: Seq<char>) -> Option<Seq<char>>;

/// Resolves `input` against the absolute URL `base` (`url::Url::join`, on the
/// URL that `url::Url::parse` reads from `base`): the text of the result is
/// named by `url_join_text`; the message of the error is handed back.
/// url's parser unwraps values that it has itself produced on the way; the
/// contract says nothing beyond what a call that returns gives.
#[verifier::external_body]
fn url_resolve(base: &str, input: &str) -> (r: Result<String, String>)
    ensures
        r is Ok <==> url_join_text(base@, input@) is Some,
        r matches Ok(t) ==> url_join_text(base@, input@) == Some(t@),
{
    match url::Url::parse(base) {
        Ok(b) => match b.join(input) {
            Ok(u) => Ok(u.as_str().to_owned()),
            Err(e) => Err(e.to_string()),
        },
        Err(e) => Err(e.to_string()),
    }
}

/// The arguments of the `git` command that fetches a project's identity from
/// a seed: `fetch --force <url> refs/rad/id:refs/namespaces/<namespace>/refs/rad/id`,
/// where the URL is the namespace resolved against `http://<seed>`; a URL
/// that does not read is a parse error.
pub fn sync_fetch_args(seed: &str, namespace: &str) -> (r: Result<Vec<String>, Error>)
    ensures
        r is Ok <==> url_join_text("http://"@ + seed@, namespace@) is Some,
        r is Err ==> r matches Err(Error::ParseError(_)),
        r matches Ok(args) ==> args@.len() == 4 && args@[0]@ == "fetch"@ && args@[1]@ == "--force"@
            && Some(args@[2]@) == url_join_text("http://"@ + seed@, namespace@)
            && args@[3]@ == "refs/rad/id:refs/namespaces/"@ + namespace@ + "/refs/rad/id"@,
{
    let base = concat2("http://", seed);
    let url = match url_resolve(base.as_str(), namespace) {
        Ok(u) => u,
        Err(e) => return Err(Error::ParseError(e)),
    };
    let mut args: Vec<String> = Vec::new();
    args.push("fetch".to_owned());
    args.push("--force".to_owned());
    args.push(url);
    args.push(concat3("refs/rad/id:refs/namespaces/", namespace, "/refs/rad/id"));
    Ok(args)
}

/// The status of the response to a rejected request: not found (404) when
/// no route matched or the entity was not found, bad request (400) otherwise.
pub fn recover_status(route_not_found: bool, error: Option<&Error>) -> (code: u16)
    ensures
        code == if route_not_found || (error matches Some(e) && *e is NotFound) {
            404u16
        } else {
            400u16
        },
{
    if route_not_found {
        404
    } else {
        match error {
            Some(Error::NotFound) => 404,
            _ => 400,
        }
    }
}

} // verus!
