//! What the project routes decide: which commits a history page holds,
//! which projects a listing page holds, which head a project has, and the
//! names under which its branches are found.
use vstd::prelude::*;

use super::error::Error;
use crate::oid::{oid_bytes_of, oid_text_ok, Oid};
use crate::text::{append_str, chars_of, concat2, concat3, has_prefix, starts_with, str_eq, string_of_range};

verus! {

// ---------------------------------------------------------------------------
// History
// ---------------------------------------------------------------------------

/// Where a history starts: the requested parent commit, else the project
/// head, in which case the response is a redirect to it (`true`).
pub fn history_start(parent: Option<String>, head: Option<String>) -> (r: Result<(String, bool), Error>)
    ensures
        parent matches Some(p) ==> (r matches Ok((s, false)) && s@ == p@),
        parent is None ==> (head matches Some(h) ==> (r matches Ok((s, true)) && s@ == h@)),
        parent is None && head is None ==> (r matches Err(Error::NoHead(why)) && why@
            == "project head is not set"@),
{
    match parent {
        Some(commit) => Ok((commit, false)),
        None => match head {
            Some(h) => Ok((h, true)),
            None => Err(Error::NoHead("project head is not set")),
        },
    }
}

/// The status of a history response: found (302) when it fell back to the
/// project head, else OK (200).
pub fn history_status(fallback_to_head: bool) -> (code: u16)
    ensures
        code == if fallback_to_head {
            302u16
        } else {
            200u16
        },
{
    if fallback_to_head {
        302
    } else {
        200
    }
}

/// The page and page size of a history request: the first page by default,
/// 30 commits a page by default, or every commit on the first page when a
/// time window is given without a page size.
pub fn history_paging(page: Option<usize>, per_page: Option<usize>, since: Option<i64>, until: Option<i64>, total: usize) -> (r: (usize, usize))
    ensures
        r.0 == match page {
            Some(p) => p,
            None => 0,
        },
        r.1 == match per_page {
            Some(n) => n,
            None => if since is Some || until is Some {
                total
            } else {
                30
            },
        },
{
    let page = match page {
        Some(p) => p,
        None => 0,
    };
    let per_page = match per_page {
        Some(n) => n,
        None => if since.is_some() || until.is_some() {
            total
        } else {
            30
        },
    };
    (page, per_page)
}

/// Page `lo / n` of `s` when pages hold `n` items: the items from position
/// `lo`, at most `n` of them (none when `lo` is past the end).
pub open spec fn page_of<A>(s: Seq<A>, lo: int, n: int) -> Seq<A> {
    let start = if lo < s.len() {
        lo
    } else {
        s.len() as int
    };
    let end = if start + n < s.len() {
        start + n
    } else {
        s.len() as int
    };
    s.subrange(start, end)
}

/// Adding an item to a list adds it to a page iff it lands on that page.
proof fn lemma_page_of_push<A>(s: Seq<A>, x: A, lo: int, n: int)
    requires
        0 <= lo,
        0 <= n,
    ensures
        page_of(s.push(x), lo, n) == if lo <= s.len() < lo + n {
            page_of(s, lo, n).push(x)
        } else {
            page_of(s, lo, n)
        },
{
    if lo <= s.len() < lo + n {
        assert(page_of(s.push(x), lo, n) =~= page_of(s, lo, n).push(x));
    } else {
        assert(page_of(s.push(x), lo, n) =~= page_of(s, lo, n));
    }
}

/// With pages of `n` items, item `i` is on page `i / n`, at position `i % n`.
pub proof fn law_item_on_one_page<A>(s: Seq<A>, n: int, i: int)
    requires
        n > 0,
        0 <= i < s.len(),
    ensures
        i % n < page_of(s, (i / n) * n, n).len(),
        page_of(s, (i / n) * n, n)[i % n] == s[i],
{
    let lo = (i / n) * n;
    assert(lo + i % n == i && 0 <= i % n < n && 0 <= lo) by (nonlinear_arith)
        requires
            n > 0,
            0 <= i,
            lo == (i / n) * n,
    ;
}

/// A commit time falls in the window: at or after `since` and before `until`,
/// where given.
pub open spec fn in_window(t: i64, since: Option<i64>, until: Option<i64>) -> bool {
    (since matches Some(s) ==> t >= s) && (until matches Some(u) ==> t < u)
}

/// The positions of the first `n` commit times that fall in the window.
pub open spec fn window_positions(times: Seq<i64>, since: Option<i64>, until: Option<i64>, n: int) -> Seq<int>
    decreases n,
{
    if n <= 0 {
        Seq::empty()
    } else {
        let before = window_positions(times, since, until, n - 1);
        if in_window(times[n - 1], since, until) {
            before.push(n - 1)
        } else {
            before
        }
    }
}

/// The positions of the commits on a history page: of the commits whose time
/// falls in the window, in order, those of page `page` of `per_page` each.
pub open spec fn page_positions(times: Seq<i64>, since: Option<i64>, until: Option<i64>, page: int, per_page: int) -> Seq<int> {
    page_of(window_positions(times, since, until, times.len() as int), page * per_page, per_page)
}

/// A time is in the window exactly when it is not before `since` (if given)
/// and before `until` (if given): a time at or after `until` is never in it,
/// whatever `since` is, nor one before `since`, whatever `until` is.
pub proof fn law_window_bounds(t: i64, since: Option<i64>, until: Option<i64>)
    ensures
        until is Some && t >= until->0 ==> !in_window(t, since, until),
        since is Some && t < since->0 ==> !in_window(t, since, until),
        (since is None || t >= since->0) && (until is None || t < until->0) ==> in_window(t, since, until),
{
}

/// The positions taken from the first `n` commits are positions below `n`,
/// in increasing order, of commits whose times fall in the window, and every
/// such commit is taken.
pub proof fn law_window_positions(times: Seq<i64>, since: Option<i64>, until: Option<i64>, n: int)
    requires
        0 <= n <= times.len(),
    ensures
        forall|k: int|
            0 <= k < window_positions(times, since, until, n).len() ==> {
                let p = #[trigger] window_positions(times, since, until, n)[k];
                &&& 0 <= p < n
                &&& (since is Some ==> times[p] >= since->0)
                &&& (until is Some ==> times[p] < until->0)
            },
        forall|k: int, l: int|
            0 <= k < l < window_positions(times, since, until, n).len() ==> window_positions(times, since, until, n)[k]
                < window_positions(times, since, until, n)[l],
        forall|p: int|
            0 <= p < n && (since is None || times[p] >= since->0) && (until is None || times[p] < until->0)
                ==> window_positions(times, since, until, n).contains(p),
    decreases n,
{
    if n > 0 {
        law_window_positions(times, since, until, n - 1);
        let before = window_positions(times, since, until, n - 1);
        let w = window_positions(times, since, until, n);
        law_window_bounds(times[n - 1], since, until);
        if in_window(times[n - 1], since, until) {
            assert(w == before.push(n - 1));
            assert forall|p: int|
                0 <= p < n && (since is None || times[p] >= since->0) && (until is None || times[p] < until->0)
                    implies w.contains(p) by {
                if p == n - 1 {
                    assert(w[before.len() as int] == p);
                } else {
                    assert(0 <= p < n - 1);
                    assert(before.contains(p));
                    let k = choose|k: int| 0 <= k < before.len() && before[k] == p;
                    assert(w[k] == p);
                }
            }
        } else {
            assert(w == before);
        }
    }
}

/// Every commit of a history page is a commit whose time falls in the
/// window: not before `since` (if given) and before `until` (if given).
pub proof fn law_history_page_in_window(
    times: Seq<i64>,
    since: Option<i64>,
    until: Option<i64>,
    page: int,
    per_page: int,
)
    requires
        0 <= page,
        0 <= per_page,
    ensures
        forall|k: int|
            0 <= k < page_positions(times, since, until, page, per_page).len() ==> {
                let p = #[trigger] page_positions(times, since, until, page, per_page)[k];
                &&& 0 <= p < times.len()
                &&& (since is Some ==> times[p] >= since->0)
                &&& (until is Some ==> times[p] < until->0)
            },
{
    let w = window_positions(times, since, until, times.len() as int);
    law_window_positions(times, since, until, times.len() as int);
    let lo = page * per_page;
    assert(page * per_page >= 0) by (nonlinear_arith)
        requires
            0 <= page,
            0 <= per_page,
    ;
    let pp = page_positions(times, since, until, page, per_page);
    let start = if lo < w.len() { lo } else { w.len() as int };
    assert forall|k: int| 0 <= k < pp.len() implies {
        let p = #[trigger] pp[k];
        &&& 0 <= p < times.len()
        &&& (since is Some ==> times[p] >= since->0)
        &&& (until is Some ==> times[p] < until->0)
    } by {
        assert(pp[k] == w[start + k]);
    }
}

/// Whether a commit time falls in the window.
pub fn time_in_window(t: i64, since: Option<i64>, until: Option<i64>) -> (r: bool)
    ensures
        r == in_window(t, since, until),
        until is Some && t >= until->0 ==> !r,
        since is Some && t < since->0 ==> !r,
        (since is None || t >= since->0) && (until is None || t < until->0) ==> r,
{
    if let (Some(since), Some(until)) = (since, until) {
        t >= since && t < until
    } else if let Some(since) = since {
        t >= since
    } else if let Some(until) = until {
        t < until
    } else {
        true
    }
}

proof fn lemma_window_positions_len(times: Seq<i64>, since: Option<i64>, until: Option<i64>, n: int)
    requires
        0 <= n,
    ensures
        window_positions(times, since, until, n).len() <= n,
    decreases n,
{
    if n > 0 {
        lemma_window_positions_len(times, since, until, n - 1);
    }
}

/// The positions, among the commits of a history, of those on the requested
/// page (see `page_positions`).
pub fn select_page(times: &[i64], since: Option<i64>, until: Option<i64>, page: usize, per_page: usize) -> (r: Vec<usize>)
    requires
        page * per_page <= usize::MAX,
    ensures
        r@.map_values(|x: usize| x as int) == page_positions(times@, since, until, page as int, per_page as int),
{
    let lo: usize = page * per_page;
    let mut out: Vec<usize> = Vec::new();
    let mut seen: usize = 0;
    let mut i: usize = 0;
    while i < times.len()
        invariant
            i <= times@.len(),
            lo == page * per_page,
            seen == window_positions(times@, since, until, i as int).len(),
            out@.map_values(|x: usize| x as int) == page_of(window_positions(times@, since, until, i as int), lo as int, per_page as int),
        decreases times@.len() - i,
    {
        proof {
            lemma_window_positions_len(times@, since, until, i as int);
        }
        let ghost before = window_positions(times@, since, until, i as int);
        if time_in_window(times[i], since, until) {
            proof {
                lemma_page_of_push(before, i as int, lo as int, per_page as int);
            }
            let ghost old_out = out@;
            if seen >= lo && seen - lo < per_page {
                out.push(i);
                assert(out@.map_values(|x: usize| x as int) =~= old_out.map_values(|x: usize| x as int).push(i as int));
            }
            seen = seen + 1;
        }
        i = i + 1;
    }
    out
}

/// Commit times within the past year (52 weeks) of `now`, in order.
pub open spec fn recent_times(times: Seq<i64>, now: i64) -> Seq<i64> {
    times.filter(|t: i64| t > now - 31449600)
}

/// The activity of a project: the times of its commits of the past year.
pub fn recent_activity(times: &[i64], now: i64) -> (r: Vec<i64>)
    requires
        now >= i64::MIN + 31449600,
    ensures
        r@ == recent_times(times@, now),
{
    let cutoff: i64 = now - 31449600;
    let mut out: Vec<i64> = Vec::new();
    let mut i: usize = 0;
    while i < times.len()
        invariant
            i <= times@.len(),
            cutoff == now - 31449600,
            out@ == recent_times(times@.take(i as int), now),
        decreases times@.len() - i,
    {
        proof {
            reveal(Seq::filter);
            assert(times@.take(i + 1).drop_last() =~= times@.take(i as int));
            assert(times@.take(i + 1).last() == times@[i as int]);
        }
        if times[i] > cutoff {
            out.push(times[i]);
        }
        i = i + 1;
    }
    assert(times@.take(i as int) =~= times@);
    out
}

// ---------------------------------------------------------------------------
// Project listings
// ---------------------------------------------------------------------------

/// An identity as the storage lists it.
#[derive(Debug, Clone)]
pub enum Listed<P> {
    /// A project.
    Project(P),
    /// Another kind of identity.
    Other,
    /// An identity that could not be read; the error's message.
    Failed(String),
}

/// The listed projects and failures, in order (other identities left out).
pub open spec fn projects_and_failures<P>(items: Seq<Listed<P>>) -> Seq<Listed<P>>
    decreases items.len(),
{
    if items.len() == 0 {
        Seq::empty()
    } else {
        let before = projects_and_failures(items.drop_last());
        match items.last() {
            Listed::Other => before,
            _ => before.push(items.last()),
        }
    }
}

/// The page and page size of a project listing: the first page and 10
/// projects a page by default.
pub fn projects_paging(page: Option<usize>, per_page: Option<usize>) -> (r: (usize, usize))
    ensures
        r.0 == match page {
            Some(p) => p,
            None => 0,
        },
        r.1 == match per_page {
            Some(n) => n,
            None => 10,
        },
{
    (
        match page {
            Some(p) => p,
            None => 0,
        },
        match per_page {
            Some(n) => n,
            None => 10,
        },
    )
}

/// The projects on a page of a listing: of the projects and failures, in
/// order, those of page `page` of `per_page` each; a failure among them fails
/// the page with the first one.
pub fn select_projects<P>(items: Vec<Listed<P>>, page: usize, per_page: usize) -> (r: Result<Vec<P>, Error>)
    requires
        page * per_page <= usize::MAX,
    ensures
        ({
            let w = page_of(projects_and_failures(items@), page * per_page, per_page as int);
            match r {
                Ok(ps) => ps@.len() == w.len() && forall|j: int|
                    0 <= j < w.len() ==> w[j] == Listed::Project(#[trigger] ps@[j]),
                Err(e) => exists|j: int|
                    #![trigger w[j]]
                    0 <= j < w.len() && (w[j] matches Listed::Failed(m) && e == Error::Other(m)) && forall|
                        i: int,
                    | 0 <= i < j ==> #[trigger] w[i] is Project,
            }
        }),
{
    let lo: usize = page * per_page;
    let ghost initial = items@;
    let mut rest = items;
    let total = rest.len();
    let mut kept: Vec<Listed<P>> = Vec::new();
    let mut n: usize = 0;
    while rest.len() > 0
        invariant
            initial.len() == total,
            n <= initial.len(),
            rest@ == initial.skip(n as int),
            rest@.len() == initial.len() - n,
            kept@ == projects_and_failures(initial.take(n as int)),
        decreases rest@.len(),
    {
        let item = rest.remove(0);
        proof {
            assert(item == initial[n as int]);
            assert(rest@ =~= initial.skip(n + 1));
            assert(initial.take(n + 1).drop_last() =~= initial.take(n as int));
            assert(initial.take(n + 1).last() == initial[n as int]);
        }
        match item {
            Listed::Other => {},
            other => {
                kept.push(other);
            },
        }
        n = n + 1;
    }
    proof {
        assert(initial.take(n as int) =~= initial);
    }
    let ghost k = projects_and_failures(initial);
    let mut out: Vec<P> = Vec::new();
    let mut i: usize = 0;
    let total2 = kept.len();
    while kept.len() > 0
        invariant
            k.len() == total2,
            initial == items@,
            kept@ == k.skip(i as int),
            kept@.len() == k.len() - i,
            i <= k.len(),
            k == projects_and_failures(initial),
            lo == page * per_page,
            out@.map_values(|p: P| Listed::Project(p)) == page_of(k.take(i as int), lo as int, per_page as int),
        decreases kept@.len(),
    {
        let item = kept.remove(0);
        proof {
            assert(item == k[i as int]);
            assert(kept@ =~= k.skip(i + 1));
            assert(k.take(i + 1) =~= k.take(i as int).push(k[i as int]));
            lemma_page_of_push(k.take(i as int), k[i as int], lo as int, per_page as int);
        }
        let ghost old_out = out@;
        if i >= lo && i - lo < per_page {
            match item {
                Listed::Project(p) => {
                    out.push(p);
                    assert(out@.map_values(|p: P| Listed::Project(p)) =~= old_out.map_values(|p: P| Listed::Project(p)).push(k[i as int]));
                },
                Listed::Failed(m) => {
                    proof {
                        let w = page_of(k, lo as int, per_page as int);
                        let ii = (i - lo) as int;
                        assert(w[ii] == k[i as int]);
                        assert(page_of(k.take(i as int), lo as int, per_page as int).len() == ii);
                        assert(old_out.len() == ii);
                        assert forall|jj: int| 0 <= jj < ii implies #[trigger] w[jj] is Project by {
                            assert(page_of(k.take(i as int), lo as int, per_page as int)[jj] == w[jj]);
                            assert(old_out.map_values(|p: P| Listed::Project(p))[jj] == Listed::Project(old_out[jj]));
                        }
                        assert(w == page_of(projects_and_failures(initial), page * per_page, per_page as int));
                        assert(exists|j: int|
                            #![trigger w[j]]
                            0 <= j < w.len() && (w[j] matches Listed::Failed(mm) && Error::Other(m) == Error::Other(mm)) && forall|
                                i: int,
                            | 0 <= i < j ==> #[trigger] w[i] is Project);
                    }
                    return Err(Error::Other(m));
                },
                Listed::Other => {
                    proof {
                        lemma_no_other(initial, i as int);
                    }
                },
            }
        }
        i = i + 1;
    }
    proof {
        assert(k.take(i as int) =~= k);
        assert forall|j: int| 0 <= j < out@.len() implies page_of(k, lo as int, per_page as int)[j] == Listed::Project(#[trigger] out@[j]) by {
            assert(out@.map_values(|p: P| Listed::Project(p))[j] == Listed::Project(out@[j]));
        }
    }
    Ok(out)
}

/// No other identity is among the projects and failures.
proof fn lemma_no_other<P>(items: Seq<Listed<P>>, i: int)
    requires
        0 <= i < projects_and_failures(items).len(),
    ensures
        !(projects_and_failures(items)[i] is Other),
    decreases items.len(),
{
    if items.len() > 0 {
        let before = projects_and_failures(items.drop_last());
        if i < before.len() {
            lemma_no_other(items.drop_last(), i);
        }
    }
}

/// The values of the results that succeeded, in order: the information of
/// each project that could be gathered.
pub fn successes<T>(results: Vec<Result<T, Error>>) -> (r: Vec<T>)
    ensures
        r@ == results@.filter(|x: Result<T, Error>| x is Ok).map_values(|x: Result<T, Error>| x->Ok_0),
{
    let ghost initial = results@;
    let mut rest = results;
    let total = rest.len();
    let mut out: Vec<T> = Vec::new();
    let mut n: usize = 0;
    while rest.len() > 0
        invariant
            initial.len() == total,
            n <= initial.len(),
            rest@ == initial.skip(n as int),
            rest@.len() == initial.len() - n,
            out@ == initial.take(n as int).filter(|x: Result<T, Error>| x is Ok).map_values(|x: Result<T, Error>| x->Ok_0),
        decreases rest@.len(),
    {
        let item = rest.remove(0);
        proof {
            reveal(Seq::filter);
            assert(item == initial[n as int]);
            assert(rest@ =~= initial.skip(n + 1));
            assert(initial.take(n + 1).drop_last() =~= initial.take(n as int));
            assert(initial.take(n + 1).last() == initial[n as int]);
        }
        match item {
            Ok(v) => {
                out.push(v);
                assert(out@ =~= initial.take(n + 1).filter(|x: Result<T, Error>| x is Ok).map_values(|x: Result<T, Error>| x->Ok_0));
            },
            Err(_) => {},
        }
        n = n + 1;
    }
    assert(initial.take(n as int) =~= initial);
    out
}

// ---------------------------------------------------------------------------
// Heads
// ---------------------------------------------------------------------------

/// A delegate of a project: a key, or an identity with its keys. Keys are
/// given as the text of their peer id.
#[derive(Debug, Clone)]
pub enum Delegate {
    Direct { id: String },
    Indirect { urn: String, ids: Vec<String> },
}

/// The delegate whose branch is the head of a project without a local head:
/// its sole delegate, or the sole key of its sole indirect delegate.
pub fn default_delegate(delegates: &[Delegate]) -> (r: Result<String, Error>)
    ensures
        delegates@.len() == 1 ==> match delegates@[0] {
            Delegate::Direct { id } => r matches Ok(p) && p@ == id@,
            Delegate::Indirect { ids, .. } => if ids@.len() == 1 {
                r matches Ok(p) && p@ == ids@[0]@
            } else {
                r matches Err(Error::NoHead(why)) && why@
                    == "project has single indirect delegate with zero or more than one direct delegate"@
            },
        },
        delegates@.len() > 1 ==> (r matches Err(Error::NoHead(why)) && why@ == "project has multiple delegates"@),
        delegates@.len() == 0 ==> (r matches Err(Error::NoHead(why)) && why@ == "project has no delegates"@),
{
    if delegates.len() == 1 {
        match &delegates[0] {
            Delegate::Direct { id } => Ok(id.clone()),
            Delegate::Indirect { ids, .. } => {
                if ids.len() == 1 {
                    Ok(ids[0].clone())
                } else {
                    Err(
                        Error::NoHead(
                            "project has single indirect delegate with zero or more than one direct delegate",
                        ),
                    )
                }
            },
        }
    } else if delegates.len() > 1 {
        Err(Error::NoHead("project has multiple delegates"))
    } else {
        Err(Error::NoHead("project has no delegates"))
    }
}

/// The peer of the delegate whose branch stands in for a missing local head,
/// where there is one.
pub open spec fn sole_delegate(delegates: Seq<Delegate>) -> Option<Seq<char>> {
    if delegates.len() == 1 {
        match delegates[0] {
            Delegate::Direct { id } => Some(id@),
            Delegate::Indirect { ids, .. } => if ids@.len() == 1 {
                Some(ids@[0]@)
            } else {
                None
            },
        }
    } else {
        None
    }
}

/// Why a project without a local head has no head either.
pub open spec fn no_head_reason(delegates: Seq<Delegate>) -> Seq<char> {
    if delegates.len() > 1 {
        "project has multiple delegates"@
    } else if delegates.len() == 0 {
        "project has no delegates"@
    } else {
        "project has single indirect delegate with zero or more than one direct delegate"@
    }
}

/// The reference looked up for the head of a project that has no local
/// branch `branch`: that branch of its sole delegate's peer.
pub fn fallback_head_ref(namespace: &str, branch: &str, delegates: &[Delegate]) -> (r: Result<String, Error>)
    ensures
        sole_delegate(delegates@) matches Some(p) ==> (r matches Ok(s) && s@
            == crate::refs::remote_head_spec(namespace@, p, branch@)),
        sole_delegate(delegates@) is None ==> (r matches Err(Error::NoHead(why)) && why@ == no_head_reason(
            delegates@,
        )),
{
    proof {
        reveal_strlit("project has multiple delegates");
        reveal_strlit("project has no delegates");
        reveal_strlit("project has single indirect delegate with zero or more than one direct delegate");
    }
    match default_delegate(delegates) {
        Ok(peer) => Ok(crate::refs::head_ref(namespace, Some(peer.as_str()), branch)),
        Err(e) => Err(e),
    }
}

/// Where the head of a project is looked up first: its own branch `branch`.
pub fn local_head_ref(namespace: &str, branch: &str) -> (r: String)
    ensures
        r@ == crate::refs::local_head_spec(namespace@, branch@),
{
    crate::refs::head_ref(namespace, None, branch)
}

/// The index of the first entry of `fingerprints` whose key is `fp`.
pub open spec fn first_key_index(fingerprints: Seq<(String, String)>, fp: Seq<char>) -> int
    decreases fingerprints.len(),
{
    if fingerprints.len() == 0 {
        -1
    } else if fingerprints.last().0@ == fp && first_key_index(fingerprints.drop_last(), fp) == -1 {
        fingerprints.len() - 1
    } else {
        first_key_index(fingerprints.drop_last(), fp)
    }
}

/// The committer shown with a commit: the peer registered for the key that
/// signed it, when a verified listing is asked for, the project has key
/// fingerprints registered and the commit's signing key is known.
pub open spec fn committer_spec(
    verified: Option<bool>,
    fingerprints: Option<&[(String, String)]>,
    fp: Option<&str>,
) -> Option<Seq<char>> {
    if verified == Some(true) && fingerprints is Some && fp is Some {
        let fps = fingerprints->0@;
        let f = fp->0@;
        if first_key_index(fps, f) >= 0 {
            Some(fps[first_key_index(fps, f)].1@)
        } else {
            None
        }
    } else {
        None
    }
}

proof fn lemma_first_key_index(fingerprints: Seq<(String, String)>, fp: Seq<char>)
    ensures
        -1 <= first_key_index(fingerprints, fp) < fingerprints.len(),
        first_key_index(fingerprints, fp) >= 0 ==> fingerprints[first_key_index(fingerprints, fp)].0@ == fp,
        forall|j: int|
            0 <= j < fingerprints.len() && (first_key_index(fingerprints, fp) == -1 || j < first_key_index(
                fingerprints,
                fp,
            )) ==> (#[trigger] fingerprints[j]).0@ != fp,
    decreases fingerprints.len(),
{
    if fingerprints.len() > 0 {
        let init = fingerprints.drop_last();
        lemma_first_key_index(init, fp);
        assert forall|j: int|
            0 <= j < fingerprints.len() && (first_key_index(fingerprints, fp) == -1 || j < first_key_index(
                fingerprints,
                fp,
            )) implies (#[trigger] fingerprints[j]).0@ != fp by {
            if j < fingerprints.len() - 1 {
                assert(fingerprints[j] == init[j]);
            }
        }
    }
}

/// The committer of a commit in a listing, by the fingerprints registered
/// for the project (fingerprint, then peer) and the fingerprint of the key
/// that signed the commit.
pub fn committer(verified: Option<bool>, fingerprints: Option<&[(String, String)]>, fp: Option<&str>) -> (r: Option<String>)
    ensures
        r is Some <==> committer_spec(verified, fingerprints, fp) is Some,
        r matches Some(p) ==> committer_spec(verified, fingerprints, fp) == Some(p@),
{
    match verified {
        Some(true) => {},
        _ => return None,
    }
    let fps = match fingerprints {
        Some(fps) => fps,
        None => return None,
    };
    let f = match fp {
        Some(f) => f,
        None => return None,
    };
    let mut i: usize = 0;
    proof {
        lemma_first_key_index(fps@, f@);
    }
    while i < fps.len()
        invariant
            i <= fps.len(),
            verified == Some(true),
            fingerprints == Some(fps),
            fp == Some(f),
            -1 <= first_key_index(fps@, f@) < fps@.len(),
            first_key_index(fps@, f@) >= 0 ==> fps@[first_key_index(fps@, f@)].0@ == f@,
            forall|j: int|
                0 <= j < fps@.len() && (first_key_index(fps@, f@) == -1 || j < first_key_index(fps@, f@))
                    ==> (#[trigger] fps@[j]).0@ != f@,
            forall|j: int| 0 <= j < i ==> (#[trigger] fps@[j]).0@ != f@,
        decreases fps.len() - i,
    {
        if str_eq(fps[i].0.as_str(), f) {
            assert(fps@[i as int].0@ == f@);
            let peer = fps[i].1.clone();
            assert(peer@ == fps@[i as int].1@);
            assert(first_key_index(fps@, f@) == i);
            return Some(peer);
        }
        i = i + 1;
    }
    None
}

/// Whether a project is delegated to the identity `delegate`: one of its
/// indirect delegates is that identity.
pub fn delegated_to(delegates: &[Delegate], delegate: &str) -> (r: bool)
    ensures
        r == exists|i: int| 0 <= i < delegates@.len() && (#[trigger] delegates@[i] matches Delegate::Indirect { urn, .. } && urn@ == delegate@),
{
    let mut i: usize = 0;
    while i < delegates.len()
        invariant
            i <= delegates@.len(),
            forall|j: int| 0 <= j < i ==> !(#[trigger] delegates@[j] matches Delegate::Indirect { urn, .. } && urn@ == delegate@),
        decreases delegates@.len() - i,
    {
        match &delegates[i] {
            Delegate::Indirect { urn, .. } => {
                if str_eq(urn.as_str(), delegate) {
                    return true;
                }
            },
            Delegate::Direct { .. } => {},
        }
        i = i + 1;
    }
    false
}

/// The prefix of the branches of a peer in a project:
/// `refs/namespaces/<namespace>/refs/remotes/<peer>/heads/`.
pub fn remote_heads_prefix(namespace: &str, peer: &str) -> (r: String)
    ensures
        r@ == "refs/namespaces/"@ + namespace@ + "/refs/remotes/"@ + peer@ + "/heads/"@,
{
    let mut r = concat3("refs/namespaces/", namespace, "/refs/remotes/");
    append_str(&mut r, peer);
    append_str(&mut r, "/heads/");
    r
}

/// A reference as the repository lists it: its name and target, either of
/// which may be missing.
#[derive(Debug, Clone)]
pub struct ListedRef {
    pub name: Option<String>,
    pub target: Option<Oid>,
}

/// The branch of a listed reference under `prefix`: its name without the
/// prefix, and its target in hexadecimal.
pub open spec fn branch_of(r: ListedRef, prefix: Seq<char>) -> Option<(Seq<char>, Seq<char>)> {
    match (r.name, r.target) {
        (Some(n), Some(t)) => if has_prefix(n@, prefix) {
            Some((n@.skip(prefix.len() as int), crate::oid::hex_lower(t.bytes@)))
        } else {
            None
        },
        _ => None,
    }
}

/// The branches of a peer, in order: each listed reference under the prefix
/// with a name and a target, as its branch name and target.
pub fn remote_branches(refs: &[ListedRef], prefix: &str) -> (r: Vec<(String, String)>)
    ensures
        ({
            let bs = refs@.map_values(|x: ListedRef| branch_of(x, prefix@)).filter(|b: Option<(Seq<char>, Seq<char>)>| b is Some);
            r@.len() == bs.len() && forall|j: int| 0 <= j < bs.len() ==> bs[j] == Some(((#[trigger] r@[j]).0@, r@[j].1@))
        }),
{
    let p = chars_of(prefix);
    let mut out: Vec<(String, String)> = Vec::new();
    let mut i: usize = 0;
    let ghost all = refs@.map_values(|x: ListedRef| branch_of(x, prefix@));
    while i < refs.len()
        invariant
            i <= refs@.len(),
            p@ == prefix@,
            all == refs@.map_values(|x: ListedRef| branch_of(x, prefix@)),
            ({
                let bs = all.take(i as int).filter(|b: Option<(Seq<char>, Seq<char>)>| b is Some);
                out@.len() == bs.len() && forall|j: int| 0 <= j < bs.len() ==> bs[j] == Some(((#[trigger] out@[j]).0@, out@[j].1@))
            }),
        decreases refs@.len() - i,
    {
        proof {
            reveal(Seq::filter);
            assert(all.take(i + 1).drop_last() =~= all.take(i as int));
            assert(all.take(i + 1).last() == all[i as int]);
        }
        let ghost before = out@;
        if let (Some(name), Some(target)) = (&refs[i].name, &refs[i].target) {
            let n = chars_of(name.as_str());
            if starts_with(n.as_slice(), p.as_slice()) {
                let branch = string_of_range(n.as_slice(), p.len(), n.len());
                let hex = target.to_hex();
                assert(branch@ =~= name@.skip(prefix@.len() as int));
                out.push((branch, hex));
                proof {
                    let bs = all.take(i + 1).filter(|b: Option<(Seq<char>, Seq<char>)>| b is Some);
                    assert forall|j: int| 0 <= j < bs.len() implies bs[j] == Some(((#[trigger] out@[j]).0@, out@[j].1@)) by {
                        if j < before.len() {
                            assert(out@[j] == before[j]);
                        }
                    }
                }
            }
        }
        i = i + 1;
    }
    assert(all.take(i as int) =~= all);
    out
}

// ---------------------------------------------------------------------------
// Sources
// ---------------------------------------------------------------------------

/// The path of a tree or blob request without its leading `/`, which it must have.
pub fn strip_leading_slash(path: &str) -> (r: Result<String, Error>)
    ensures
        path@.len() > 0 && path@[0] == '/' ==> (r matches Ok(p) && p@ == path@.skip(1)),
        !(path@.len() > 0 && path@[0] == '/') ==> r matches Err(Error::NotFound),
{
    let v = chars_of(path);
    if v.len() > 0 && v[0] == '/' {
        let p = string_of_range(v.as_slice(), 1, v.len());
        assert(p@ =~= path@.skip(1));
        Ok(p)
    } else {
        Err(Error::NotFound)
    }
}

/// The syntax highlighting theme of a blob: when highlighting, the requested
/// theme or else the server's; none otherwise.
pub fn blob_theme(highlight: bool, theme: Option<String>, default_theme: &str) -> (r: Option<String>)
    ensures
        !highlight ==> r is None,
        highlight ==> (r matches Some(t) && t@ == match theme {
            Some(q) => q@,
            None => default_theme@,
        }),
{
    if highlight {
        match theme {
            Some(t) => Some(t),
            None => Some(default_theme.to_owned()),
        }
    } else {
        None
    }
}

/// The files tried, in order, for a project's readme.
pub fn readme_paths() -> (r: Vec<String>)
    ensures
        r@.len() == 6,
        r@[0]@ == "README"@,
        r@[1]@ == "README.md"@,
        r@[2]@ == "README.markdown"@,
        r@[3]@ == "README.txt"@,
        r@[4]@ == "README.rst"@,
        r@[5]@ == "Readme.md"@,
{
    let mut r: Vec<String> = Vec::new();
    r.push("README".to_owned());
    r.push("README.md".to_owned());
    r.push("README.markdown".to_owned());
    r.push("README.txt".to_owned());
    r.push("README.rst".to_owned());
    r.push("Readme.md".to_owned());
    r
}

/// A revision to browse.
#[derive(Debug, Clone)]
pub enum Revision {
    /// A commit.
    Commit(Oid),
    /// A branch of a peer: `heads/<branch>` of the peer.
    RemoteBranch { name: String, peer: String },
}

/// The remote branch `heads/<branch>` of a peer.
pub fn remote_branch(branch: &str, peer: &str) -> (r: Revision)
    ensures
        r matches Revision::RemoteBranch { name, peer: p } && name@ == "heads/"@ + branch@ && p@ == peer@,
{
    Revision::RemoteBranch { name: concat2("heads/", branch), peer: peer.to_owned() }
}

/// The revision a reference names: a commit when its name is an object id,
/// else the branch of its peer, which it must then have.
pub fn browse_revision(name: &str, remote: Option<String>) -> (r: Result<Revision, Error>)
    ensures
        oid_text_ok(name@) ==> (r matches Ok(Revision::Commit(o)) && o.bytes@ == oid_bytes_of(name@)),
        !oid_text_ok(name@) && remote is None ==> r matches Err(Error::NotFound),
        !oid_text_ok(name@) ==> (remote matches Some(p) ==> (r matches Ok(Revision::RemoteBranch { name: n, peer: q }) && n@ == "heads/"@ + name@ && q@ == p@)),
{
    match Oid::from_str(name) {
        Some(o) => Ok(Revision::Commit(o)),
        None => match remote {
            Some(p) => Ok(remote_branch(name, p.as_str())),
            None => Err(Error::NotFound),
        },
    }
}

} // verus!
