//! # POST-RECEIVE HOOK
//!
//! After the refs of a push were updated, git runs the `post-receive` hook
//! with one line `old SP new SP refname` per updated ref. The radicle hook
//! moves the project head to the default branch pushed by its delegate,
//! initializes or updates the project identity, tracks the pushing peers and
//! hands the branch updates to a custom hook.
use vstd::prelude::*;

use super::types::ReceivePackEnv;
use super::CertSignerDetails;
use crate::git_server::error::Error;
use crate::git_server::server::{accepts, decides, parse_ref, ref_peer, ref_rest, ref_splits, remotes_prefix};
use crate::oid::{hex_lower, oid_bytes_of, oid_text_ok, Oid};
use crate::org_node::client::Delegation;
use crate::refs::{head_ref, local_head_spec, namespace_head, namespace_head_spec};
use crate::text::{
    append_str, chars_of, concat2, concat3, contains_str, ends_with, first_index, has_prefix,
    has_suffix, split_on, split_str, starts_with, str_eq, string_of_range, views,
};

verus! {

/// The identity reference of a project, relative to its `refs/`.
pub const RAD_ID_REF: &'static str = "rad/id";

/// A ref update: the refname, the old and the new object.
pub type RefUpdate = (String, Oid, Oid);

// ---------------------------------------------------------------------------
// Refnames of remotes
// ---------------------------------------------------------------------------

/// `parse_ref` accepts the refname: `refs/remotes/<peer>/<rest>`, where the
/// peer decodes as a peer id.
pub open spec fn remote_ref_ok<F: Fn(&str) -> bool>(is_peer_id: F, s: Seq<char>) -> bool {
    ref_splits(s) && accepts(is_peer_id, ref_peer(s))
}

/// The peer of a remote refname.
pub open spec fn remote_ref_peer(s: Seq<char>) -> Seq<char> {
    ref_peer(s)
}

/// What follows the peer in a remote refname.
pub open spec fn remote_ref_rest(s: Seq<char>) -> Seq<char> {
    ref_rest(s)
}

/// A remote refname built from a peer id (without `/`) and the rest of the
/// name reads back as that peer and that rest.
pub proof fn law_remote_ref_round_trip(peer: Seq<char>, rest: Seq<char>)
    requires
        !peer.contains('/'),
    ensures
        ref_splits(remotes_prefix() + peer + seq!['/'] + rest),
        remote_ref_peer(remotes_prefix() + peer + seq!['/'] + rest) == peer,
        remote_ref_rest(remotes_prefix() + peer + seq!['/'] + rest) == rest,
{
    let s = remotes_prefix() + peer + seq!['/'] + rest;
    let t = s.skip(remotes_prefix().len() as int);
    assert(s.take(remotes_prefix().len() as int) =~= remotes_prefix());
    assert(t =~= peer + seq!['/'] + rest);
    assert forall|i: int| 0 <= i < peer.len() implies t[i] != '/' by {
        assert(t[i] == peer[i]);
    }
    assert(t[peer.len() as int] == '/');
    crate::text::lemma_first_index_at(t, '/', peer.len() as int);
    assert(t.take(peer.len() as int) =~= peer);
    assert(t.skip(peer.len() as int + 1) =~= rest);
}

/// The refnames of a list of updates.
pub open spec fn refnames(updates: Seq<RefUpdate>) -> Seq<Seq<char>> {
    updates.map_values(|u: RefUpdate| u.0@)
}

/// Parses a remote refname into its peer and the rest.
fn split_remote_ref<F: Fn(&str) -> bool>(s: &String, is_peer_id: &F) -> (r: Result<(String, String), Error>)
    requires
        decides(*is_peer_id),
    ensures
        remote_ref_ok(*is_peer_id, s@) ==> (r matches Ok((p, t)) && p@ == remote_ref_peer(s@) && t@
            == remote_ref_rest(s@)),
        !remote_ref_ok(*is_peer_id, s@) ==> r matches Err(Error::Io(_)),
{
    parse_ref(s.as_str(), is_peer_id)
}

// ---------------------------------------------------------------------------
// Reading the hook's input
// ---------------------------------------------------------------------------

/// Reads one input line `old SP new SP refname`.
pub fn parse_update(line: &str) -> (r: Result<RefUpdate, Error>)
    requires
        split_on(line@, ' ').len() >= 3,
    ensures
        ({
            let w = split_on(line@, ' ');
            if !oid_text_ok(w[0]) {
                r matches Err(Error::Git2Error(t)) && t@ == w[0]
            } else if !oid_text_ok(w[1]) {
                r matches Err(Error::Git2Error(t)) && t@ == w[1]
            } else {
                r matches Ok(u) && u.0@ == w[2] && u.1.bytes@ == oid_bytes_of(w[0]) && u.2.bytes@
                    == oid_bytes_of(w[1])
            }
        }),
{
    let input = split_str(line, ' ');
    assert(views(input@)[0] == input@[0]@);
    assert(views(input@)[1] == input@[1]@);
    assert(views(input@)[2] == input@[2]@);
    let old = match Oid::from_str(input[0].as_str()) {
        Some(o) => o,
        None => return Err(Error::Git2Error(input[0].clone())),
    };
    let new = match Oid::from_str(input[1].as_str()) {
        Some(o) => o,
        None => return Err(Error::Git2Error(input[1].clone())),
    };
    Ok((input[2].clone(), old, new))
}

/// Every line holds at least three words.
pub open spec fn lines_ok(lines: Seq<String>) -> bool {
    forall|i: int| 0 <= i < lines.len() ==> split_on(#[trigger] lines[i]@, ' ').len() >= 3
}

/// Reads the hook's input lines, in order; the first line that does not
/// hold two object ids fails the whole input.
pub fn parse_updates(lines: &[String]) -> (r: Result<Vec<RefUpdate>, Error>)
    requires
        lines_ok(lines@),
    ensures
        r matches Ok(us) ==> us@.len() == lines@.len() && forall|i: int|
            0 <= i < us@.len() ==> {
                let w = split_on(lines@[i]@, ' ');
                &&& (#[trigger] us@[i]).0@ == w[2]
                &&& us@[i].1.bytes@ == oid_bytes_of(w[0])
                &&& us@[i].2.bytes@ == oid_bytes_of(w[1])
            },
        r is Ok <==> forall|i: int|
            0 <= i < lines@.len() ==> oid_text_ok(split_on(#[trigger] lines@[i]@, ' ')[0]) && oid_text_ok(
                split_on(lines@[i]@, ' ')[1],
            ),
{
    let mut out: Vec<RefUpdate> = Vec::new();
    let mut i: usize = 0;
    while i < lines.len()
        invariant
            i <= lines@.len(),
            lines_ok(lines@),
            out@.len() == i,
            forall|j: int|
                0 <= j < i ==> {
                    let w = split_on(lines@[j]@, ' ');
                    &&& (#[trigger] out@[j]).0@ == w[2]
                    &&& out@[j].1.bytes@ == oid_bytes_of(w[0])
                    &&& out@[j].2.bytes@ == oid_bytes_of(w[1])
                },
            forall|j: int|
                0 <= j < i ==> oid_text_ok(split_on(#[trigger] lines@[j]@, ' ')[0]) && oid_text_ok(
                    split_on(lines@[j]@, ' ')[1],
                ),
        decreases lines@.len() - i,
    {
        assert(split_on(lines@[i as int]@, ' ').len() >= 3);
        let u = parse_update(lines[i].as_str());
        match u {
            Ok(u) => {
                out.push(u);
            },
            Err(e) => {
                return Err(e);
            },
        }
        i = i + 1;
    }
    Ok(out)
}

/// The delegates of `RADICLE_DELEGATES`: its comma-separated peer ids, or
/// none when it is not set.
pub fn split_delegates(keys: &Option<String>) -> (r: Vec<String>)
    ensures
        keys matches Some(k) ==> views(r@) == split_on(k@, ','),
        keys is None ==> r@.len() == 0,
{
    match keys {
        Some(k) => split_str(k.as_str(), ','),
        None => Vec::new(),
    }
}

/// The key that signed the push certificate, which must be available.
pub fn key_fingerprint(env: &ReceivePackEnv) -> (r: Result<String, Error>)
    ensures
        env.cert_key matches Some(k) ==> (r matches Ok(f) && f@ == k@),
        env.cert_key is None ==> (r matches Err(Error::PostReceive(why)) && why@
            == "push certificate is not available"@),
{
    match &env.cert_key {
        Some(k) => Ok(k.clone()),
        None => Err(Error::PostReceive("push certificate is not available")),
    }
}

// ---------------------------------------------------------------------------
// The hook
// ---------------------------------------------------------------------------

/// `PostReceive` provides access to the standard input values passed into the
/// `post-receive` git hook, as well as the environmental variables used to
/// process the hook.
#[derive(Debug, Clone)]
pub struct PostReceive {
    /// Project URN being pushed: the id of its namespace.
    pub urn: String,
    /// Project delegates: their peer ids.
    pub delegates: Vec<String>,
    /// Fingerprint of the key of the pusher.
    pub key_fingerprint: String,
    /// Ref updates.
    pub updates: Vec<RefUpdate>,
    /// Environmental variables.
    pub env: ReceivePackEnv,
}

// use cert signer details default utility implementations.
impl CertSignerDetails for PostReceive {

}

/// The refnames whose update moves the project head, in order, up to the
/// first refname that is not a remote ref: those of a sole delegate on the
/// default branch (`suffix` is `heads/<default branch>`).
pub open spec fn head_targets<F: Fn(&str) -> bool>(is_peer_id: F, names: Seq<Seq<char>>, delegates: Seq<Seq<char>>, suffix: Seq<char>) -> Seq<
    Seq<char>,
>
    decreases names.len(),
{
    if names.len() == 0 || !remote_ref_ok(is_peer_id, names[0]) {
        Seq::empty()
    } else {
        let here = if delegates.contains(remote_ref_peer(names[0])) && remote_ref_rest(names[0]) == suffix
            && delegates.len() == 1 {
            seq![names[0]]
        } else {
            Seq::empty()
        };
        here + head_targets(is_peer_id, names.drop_first(), delegates, suffix)
    }
}

/// The refname at position `i` of the chosen ones is a pushed remote ref of
/// the sole delegate on the branch `suffix`.
proof fn lemma_head_target_at<F: Fn(&str) -> bool>(
    is_peer_id: F,
    names: Seq<Seq<char>>,
    delegates: Seq<Seq<char>>,
    suffix: Seq<char>,
    i: int,
)
    requires
        0 <= i < head_targets(is_peer_id, names, delegates, suffix).len(),
    ensures
        names.contains(head_targets(is_peer_id, names, delegates, suffix)[i]),
        remote_ref_ok(is_peer_id, head_targets(is_peer_id, names, delegates, suffix)[i]),
        delegates.len() == 1,
        remote_ref_peer(head_targets(is_peer_id, names, delegates, suffix)[i]) == delegates[0],
        remote_ref_rest(head_targets(is_peer_id, names, delegates, suffix)[i]) == suffix,
    decreases names.len(),
{
    let rest = names.drop_first();
    let t = head_targets(is_peer_id, names, delegates, suffix);
    let tr = head_targets(is_peer_id, rest, delegates, suffix);
    let chosen = delegates.len() == 1 && remote_ref_rest(names[0]) == suffix && delegates.contains(
        remote_ref_peer(names[0]),
    );
    let here: Seq<Seq<char>> = if chosen { seq![names[0]] } else { Seq::empty() };
    assert(t == here + tr);
    if i < here.len() {
        assert(t[i] == names[0]);
        assert(names.contains(names[0])) by {
            assert(names[0] == names[0]);
        }
        let j = choose|j: int| 0 <= j < delegates.len() && delegates[j] == remote_ref_peer(names[0]);
        assert(j == 0);
    } else {
        assert(t[i] == tr[i - here.len()]);
        lemma_head_target_at(is_peer_id, rest, delegates, suffix, i - here.len());
        let e = tr[i - here.len()];
        let k = choose|k: int| 0 <= k < rest.len() && rest[k] == e;
        assert(names[k + 1] == e);
    }
}

/// Only the sole delegate's pushes to the default branch move the head: every
/// refname chosen is a remote ref among the pushed refnames, of the one peer
/// that is the project's only delegate, on the branch `suffix`. Conversely,
/// when every pushed refname is a remote ref, each one of the sole delegate
/// on that branch is chosen.
pub proof fn law_only_the_delegate_moves_head<F: Fn(&str) -> bool>(
    is_peer_id: F,
    names: Seq<Seq<char>>,
    delegates: Seq<Seq<char>>,
    suffix: Seq<char>,
)
    ensures
        forall|i: int|
            0 <= i < head_targets(is_peer_id, names, delegates, suffix).len() ==> names.contains(
                #[trigger] head_targets(is_peer_id, names, delegates, suffix)[i],
            ) && remote_ref_ok(is_peer_id, head_targets(is_peer_id, names, delegates, suffix)[i])
                && delegates.len() == 1 && remote_ref_peer(head_targets(is_peer_id, names, delegates, suffix)[i])
                == delegates[0] && remote_ref_rest(head_targets(is_peer_id, names, delegates, suffix)[i]) == suffix,
        (forall|j: int| 0 <= j < names.len() ==> remote_ref_ok(is_peer_id, #[trigger] names[j])) ==> forall|j: int|
            0 <= j < names.len() && delegates.len() == 1 && delegates.contains(remote_ref_peer(#[trigger] names[j]))
                && remote_ref_rest(names[j]) == suffix ==> head_targets(is_peer_id, names, delegates, suffix).contains(
                names[j],
            ),
{
    assert forall|i: int| 0 <= i < head_targets(is_peer_id, names, delegates, suffix).len() implies names.contains(
        #[trigger] head_targets(is_peer_id, names, delegates, suffix)[i],
    ) && remote_ref_ok(is_peer_id, head_targets(is_peer_id, names, delegates, suffix)[i])
        && delegates.len() == 1 && remote_ref_peer(head_targets(is_peer_id, names, delegates, suffix)[i])
        == delegates[0] && remote_ref_rest(head_targets(is_peer_id, names, delegates, suffix)[i]) == suffix by {
        lemma_head_target_at(is_peer_id, names, delegates, suffix, i);
    }
    if forall|j: int| 0 <= j < names.len() ==> remote_ref_ok(is_peer_id, #[trigger] names[j]) {
        assert forall|j: int|
            0 <= j < names.len() && delegates.len() == 1 && delegates.contains(remote_ref_peer(#[trigger] names[j]))
                && remote_ref_rest(names[j]) == suffix implies head_targets(is_peer_id, names, delegates, suffix).contains(
            names[j],
        ) by {
            lemma_head_target_chosen(is_peer_id, names, delegates, suffix, j);
        }
    }
}

/// A remote ref of the sole delegate on the branch `suffix`, pushed before any
/// refname that is not a remote ref, is chosen.
proof fn lemma_head_target_chosen<F: Fn(&str) -> bool>(
    is_peer_id: F,
    names: Seq<Seq<char>>,
    delegates: Seq<Seq<char>>,
    suffix: Seq<char>,
    j: int,
)
    requires
        0 <= j < names.len(),
        forall|m: int| 0 <= m <= j ==> remote_ref_ok(is_peer_id, #[trigger] names[m]),
        delegates.len() == 1,
        delegates.contains(remote_ref_peer(names[j])),
        remote_ref_rest(names[j]) == suffix,
    ensures
        head_targets(is_peer_id, names, delegates, suffix).contains(names[j]),
    decreases names.len(),
{
    let rest = names.drop_first();
    let t = head_targets(is_peer_id, names, delegates, suffix);
    let tr = head_targets(is_peer_id, rest, delegates, suffix);
    assert(remote_ref_ok(is_peer_id, names[0]));
    let chosen = delegates.len() == 1 && remote_ref_rest(names[0]) == suffix && delegates.contains(
        remote_ref_peer(names[0]),
    );
    let here: Seq<Seq<char>> = if chosen { seq![names[0]] } else { Seq::empty() };
    assert(t == here + tr);
    if j == 0 {
        assert(t[0] == names[0]);
    } else {
        assert(rest[j - 1] == names[j]);
        assert forall|m: int| 0 <= m <= j - 1 implies remote_ref_ok(is_peer_id, #[trigger] rest[m]) by {
            assert(rest[m] == names[m + 1]);
        }
        lemma_head_target_chosen(is_peer_id, rest, delegates, suffix, j - 1);
        let m = choose|m: int| 0 <= m < tr.len() && tr[m] == names[j];
        assert(t[here.len() + m] == names[j]);
    }
}

/// Some refname is not a remote ref.
pub open spec fn some_not_remote<F: Fn(&str) -> bool>(is_peer_id: F, names: Seq<Seq<char>>) -> bool {
    exists|i: int| 0 <= i < names.len() && !remote_ref_ok(is_peer_id, #[trigger] names[i])
}

/// The lines handed to the custom receive hook, in order, up to the first
/// refname that is not a remote ref: `<peer> <old> <new> <branch>` for each
/// update of a branch.
pub open spec fn hook_lines<F: Fn(&str) -> bool>(is_peer_id: F, updates: Seq<RefUpdate>) -> Seq<Seq<char>>
    decreases updates.len(),
{
    if updates.len() == 0 || !remote_ref_ok(is_peer_id, updates[0].0@) {
        Seq::empty()
    } else {
        let u = updates[0];
        let rest = remote_ref_rest(u.0@);
        let here = if has_prefix(rest, "heads/"@) {
            seq![
                remote_ref_peer(u.0@) + " "@ + hex_lower(u.1.bytes@) + " "@ + hex_lower(u.2.bytes@)
                    + " "@ + rest.skip(6),
            ]
        } else {
            Seq::empty()
        };
        here + hook_lines(is_peer_id, updates.drop_first())
    }
}

/// Index of the first update of the identity ref (its refname ends with
/// `rad/id`), or the number of updates when there is none.
pub open spec fn identity_update_index(updates: Seq<RefUpdate>) -> int
    decreases updates.len(),
{
    if updates.len() == 0 {
        0
    } else if has_suffix(updates[0].0@, "rad/id"@) {
        0
    } else {
        1 + identity_update_index(updates.drop_first())
    }
}

/// The keys of a list of delegations, in order.
pub open spec fn delegation_keys(ds: Seq<Delegation>) -> Seq<Seq<char>>
    decreases ds.len(),
{
    if ds.len() == 0 {
        Seq::empty()
    } else {
        let here = match ds[0] {
            Delegation::Direct(k) => seq![k@],
            Delegation::Indirect(ks) => views(ks@),
        };
        here + delegation_keys(ds.drop_first())
    }
}

/// An identity document, as its delegations.
#[derive(Debug, Clone)]
pub enum IdentityDoc {
    /// A person: its keys.
    Person(Vec<String>),
    /// A project: its delegations.
    Project(Vec<Delegation>),
    /// Another kind of identity.
    Other,
}

/// The kind of an identity document.
#[derive(Debug, Clone, Copy, PartialEq, Eq)]
pub enum IdentityKind {
    Person,
    Project,
    Other,
}

impl PostReceive {
    /// `refs/namespaces/<namespace>/refs/<refname>`.
    pub fn namespace_ref(&self, refname: &str) -> (r: String)
        ensures
            r@ == "refs/namespaces/"@ + self.env.git_namespace@ + "/refs/"@ + refname@,
    {
        let mut r = concat3("refs/namespaces/", self.env.git_namespace.as_str(), "/refs/");
        append_str(&mut r, refname);
        r
    }

    /// The refs whose update moves the project head to the default branch,
    /// in order, and the error that stops the scan: a refname that is not a
    /// remote ref. Only a sole delegate updating `heads/<default branch>`
    /// moves the head; without a default branch (a personal identity) there
    /// is nothing to do.
    pub fn head_updates<F: Fn(&str) -> bool>(&self, is_peer_id: &F) -> (r: (Vec<String>, Option<Error>))
        requires
            decides(*is_peer_id),
        ensures
            self.env.default_branch is None ==> r.0@.len() == 0 && r.1 is None,
            self.env.default_branch matches Some(b) ==> views(r.0@) == head_targets(
                *is_peer_id,
                refnames(self.updates@),
                views(self.delegates@),
                "heads/"@ + b@,
            ) && (r.1 is Some <==> some_not_remote(*is_peer_id, refnames(self.updates@))) && (r.1 is Some ==> r.1
                matches Some(Error::Io(_))),
            forall|i: int| 0 <= i < r.0@.len() ==> refnames(self.updates@).contains(#[trigger] r.0@[i]@),
            r.0@.len() > 0 ==> self.delegates@.len() == 1,
            forall|i: int| 0 <= i < r.0@.len() ==> views(self.delegates@).contains(remote_ref_peer(#[trigger] r.0@[i]@)),
            self.env.default_branch is Some ==> forall|i: int|
                0 <= i < r.0@.len() ==> remote_ref_rest(#[trigger] r.0@[i]@) == "heads/"@ + self.env.default_branch->0@,
    {
        let branch = match &self.env.default_branch {
            None => return (Vec::new(), None),
            Some(b) => b,
        };
        let suffix = concat2("heads/", branch.as_str());
        let ghost names = refnames(self.updates@);
        let ghost ds = views(self.delegates@);
        proof {
            law_only_the_delegate_moves_head(*is_peer_id, names, ds, suffix@);
            assert(ds.len() == self.delegates@.len());
        }
        let mut out: Vec<String> = Vec::new();
        let mut i: usize = 0;
        assert(names.skip(0) =~= names);
        while i < self.updates.len()
            invariant
                i <= self.updates@.len(),
                names == refnames(self.updates@),
                ds == views(self.delegates@),
                self.env.default_branch is Some,
                branch@ == self.env.default_branch->0@,
                suffix@ == "heads/"@ + self.env.default_branch->0@,
                views(out@) + head_targets(*is_peer_id, names.skip(i as int), ds, suffix@) == head_targets(
                    *is_peer_id,
                    names,
                    ds,
                    suffix@,
                ),
                forall|j: int| 0 <= j < i ==> remote_ref_ok(*is_peer_id, #[trigger] names[j]),
                decides(*is_peer_id),
            decreases self.updates@.len() - i,
        {
            let refname = &self.updates[i].0;
            assert(names[i as int] == refname@);
            assert(names.skip(i as int)[0] == names[i as int]);
            assert(names.skip(i as int).drop_first() =~= names.skip(i + 1));
            match split_remote_ref(refname, is_peer_id) {
                Err(e) => {
                    proof {
                        assert(head_targets(*is_peer_id, names.skip(i as int), ds, suffix@) =~= Seq::<Seq<char>>::empty());
                        assert(views(out@) =~= views(out@) + Seq::<Seq<char>>::empty());
                        assert(!remote_ref_ok(*is_peer_id, names[i as int]));
                        law_only_the_delegate_moves_head(*is_peer_id, names, ds, suffix@);
                        assert(views(out@) == head_targets(*is_peer_id, names, ds, suffix@));
            assert forall|k: int| 0 <= k < out@.len() implies {
                &&& names.contains(#[trigger] out@[k]@)
                &&& self.delegates@.len() == 1
                &&& ds.contains(remote_ref_peer(out@[k]@))
                &&& remote_ref_rest(out@[k]@) == suffix@
            } by {
                assert(views(out@)[k] == out@[k]@);
                assert(head_targets(*is_peer_id, names, ds, suffix@)[k] == out@[k]@);
            }
            assert forall|k: int| 0 <= k < out@.len() implies {
                &&& refnames(self.updates@).contains(#[trigger] out@[k]@)
                &&& self.delegates@.len() == 1
                &&& views(self.delegates@).contains(remote_ref_peer(out@[k]@))
                &&& remote_ref_rest(out@[k]@) == "heads/"@ + branch@
            } by {
                assert(names.contains(out@[k]@));
            }
            assert("heads/"@ + branch@ == "heads/"@ + self.env.default_branch->0@);
            assert(ds.len() == self.delegates@.len());
            if out@.len() > 0 {
                assert(head_targets(*is_peer_id, names, ds, suffix@)[0] == out@[0]@);
            }

                    }
                    return (out, Some(e));
                },
                Ok((peer, rest)) => {
                    let is_delegate = contains_str(self.delegates.as_slice(), peer.as_str());
                    let on_branch = str_eq(rest.as_str(), suffix.as_str());
                    let ghost before = out@;
                    if is_delegate && on_branch && self.delegates.len() == 1 {
                        out.push(refname.clone());
                        proof {
                            assert(views(out@) =~= views(before).push(refname@));
                        }
                    }
                    proof {
                        assert(views(out@) + head_targets(*is_peer_id, names.skip(i + 1), ds, suffix@) =~= views(
                            before,
                        ) + head_targets(*is_peer_id, names.skip(i as int), ds, suffix@));
                    }
                },
            }
            i = i + 1;
        }
        proof {
            assert(names.skip(i as int).len() == 0);
            assert(views(out@) =~= views(out@) + head_targets(*is_peer_id, names.skip(i as int), ds, suffix@));
            assert(!some_not_remote(*is_peer_id, names));
            law_only_the_delegate_moves_head(*is_peer_id, names, ds, suffix@);
            assert(views(out@) == head_targets(*is_peer_id, names, ds, suffix@));
            assert forall|k: int| 0 <= k < out@.len() implies {
                &&& names.contains(#[trigger] out@[k]@)
                &&& self.delegates@.len() == 1
                &&& ds.contains(remote_ref_peer(out@[k]@))
                &&& remote_ref_rest(out@[k]@) == suffix@
            } by {
                assert(views(out@)[k] == out@[k]@);
                assert(head_targets(*is_peer_id, names, ds, suffix@)[k] == out@[k]@);
            }
            assert forall|k: int| 0 <= k < out@.len() implies {
                &&& refnames(self.updates@).contains(#[trigger] out@[k]@)
                &&& self.delegates@.len() == 1
                &&& views(self.delegates@).contains(remote_ref_peer(out@[k]@))
                &&& remote_ref_rest(out@[k]@) == "heads/"@ + branch@
            } by {
                assert(names.contains(out@[k]@));
            }
            assert("heads/"@ + branch@ == "heads/"@ + self.env.default_branch->0@);
            assert(ds.len() == self.delegates@.len());
            if out@.len() > 0 {
                assert(head_targets(*is_peer_id, names, ds, suffix@)[0] == out@[0]@);
            }

        }
        (out, None)
    }

    /// The references that moving the project head writes, for the remote
    /// branch `branch_ref` (relative to the namespace) of the default branch
    /// `branch`: the full remote ref to read, the project's own branch, which
    /// is set to the same object, and the symbolic head, which points to it.
    pub fn set_head_refs(&self, branch_ref: &str, branch: &str) -> (r: (String, String, String))
        ensures
            r.0@ == "refs/namespaces/"@ + self.urn@ + "/"@ + branch_ref@,
            r.1@ == local_head_spec(self.urn@, branch@),
            r.2@ == namespace_head_spec(self.urn@),
    {
        let mut remote = concat3("refs/namespaces/", self.urn.as_str(), "/");
        append_str(&mut remote, branch_ref);
        let local = head_ref(self.urn.as_str(), None, branch);
        let head = namespace_head(self.urn.as_str());
        (remote, local, head)
    }

    /// The new object of the first update of the identity ref, if any.
    pub fn find_identity_update(&self) -> (r: Option<Oid>)
        ensures
            ({
                let k = identity_update_index(self.updates@);
                &&& 0 <= k <= self.updates@.len()
                &&& (k == self.updates@.len() <==> r is None)
                &&& (r matches Some(o) ==> o.bytes@ == self.updates@[k].2.bytes@)
            }),
    {
        let mut i: usize = 0;
        assert(self.updates@.skip(0) =~= self.updates@);
        proof {
            lemma_identity_index_bound(self.updates@);
        }
        while i < self.updates.len()
            invariant
                i <= self.updates@.len(),
                identity_update_index(self.updates@) == i + identity_update_index(self.updates@.skip(i as int)),
                0 <= identity_update_index(self.updates@.skip(i as int)) <= self.updates@.len() - i,
            decreases self.updates@.len() - i,
        {
            let v = chars_of(self.updates[i].0.as_str());
            let id = chars_of(RAD_ID_REF);
            proof {
                reveal_strlit("rad/id");
                assert(self.updates@.skip(i as int)[0] == self.updates@[i as int]);
                assert(self.updates@.skip(i as int).drop_first() =~= self.updates@.skip(i + 1));
                lemma_identity_index_bound(self.updates@.skip(i + 1));
            }
            if ends_with(v.as_slice(), id.as_slice()) {
                return Some(self.updates[i].2);
            }
            i = i + 1;
        }
        None
    }

    /// The identity object that a push of a new identity creates: an update
    /// of the identity ref must be among the updates, and every update must
    /// create its ref.
    pub fn identity_to_initialize(&self) -> (r: Result<Oid, Error>)
        ensures
            ({
                let k = identity_update_index(self.updates@);
                if k == self.updates@.len() {
                    r matches Err(Error::PostReceive(why)) && why@
                        == "identity ref 'rad/id' not found in updates"@
                } else if exists|i: int|
                    0 <= i < self.updates@.len() && !(forall|j: int|
                        0 <= j < 20 ==> (#[trigger] self.updates@[i]).1.bytes@[j] == 0) {
                    r matches Err(Error::PostReceive(why)) && why@ == "identity old ref already exists"@
                } else {
                    r matches Ok(o) && o.bytes@ == self.updates@[k].2.bytes@
                }
            }),
    {
        let oid = match self.find_identity_update() {
            Some(o) => o,
            None => return Err(Error::PostReceive("identity ref 'rad/id' not found in updates")),
        };
        let mut i: usize = 0;
        while i < self.updates.len()
            invariant
                i <= self.updates@.len(),
                identity_update_index(self.updates@) != self.updates@.len(),
                oid.bytes@ == self.updates@[identity_update_index(self.updates@)].2.bytes@,
                forall|j: int| 0 <= j < i ==> forall|b: int| 0 <= b < 20 ==> (#[trigger] self.updates@[j]).1.bytes@[b] == 0,
            decreases self.updates@.len() - i,
        {
            if !self.updates[i].1.is_zero() {
                proof {
                    let ii = i as int;
                    assert(!(forall|b: int| 0 <= b < 20 ==> self.updates@[ii].1.bytes@[b] == 0));
                    assert(0 <= ii < self.updates@.len());
                }
                return Err(Error::PostReceive("identity old ref already exists"));
            }
            i = i + 1;
        }
        Ok(oid)
    }

    /// Checks the identity document found under the pushed identity object:
    /// it must be of this project, and a person or a project, whose
    /// verification is then up to the caller.
    pub fn check_identity(&self, identity_urn: &str, kind: IdentityKind) -> (r: Result<IdentityKind, Error>)
        ensures
            identity_urn@ != self.urn@ ==> (r matches Err(Error::PostReceive(why)) && why@
                == "identity document doesn't match project id"@),
            identity_urn@ == self.urn@ && kind == IdentityKind::Other ==> (r matches Err(
                Error::PostReceive(why),
            ) && why@ == "unknown identity type"@),
            identity_urn@ == self.urn@ && kind != IdentityKind::Other ==> r == Ok::<IdentityKind, Error>(kind),
    {
        if !str_eq(identity_urn, self.urn.as_str()) {
            return Err(Error::PostReceive("identity document doesn't match project id"));
        }
        match kind {
            IdentityKind::Other => Err(Error::PostReceive("unknown identity type")),
            k => Ok(k),
        }
    }

    /// The reflog message of setting the identity ref: `set-id (<key fingerprint>)`.
    pub fn set_id_message(&self) -> (r: String)
        ensures
            r@ == "set-id ("@ + self.key_fingerprint@ + ")"@,
    {
        concat3("set-id (", self.key_fingerprint.as_str(), ")")
    }

    /// The pusher: the peer of the first update, if there is one.
    pub fn pusher<F: Fn(&str) -> bool>(&self, is_peer_id: &F) -> (r: Result<Option<String>, Error>)
        requires
            decides(*is_peer_id),
        ensures
            self.updates@.len() == 0 ==> r matches Ok(None),
            self.updates@.len() > 0 ==> if remote_ref_ok(*is_peer_id, self.updates@[0].0@) {
                r matches Ok(Some(p)) && p@ == remote_ref_peer(self.updates@[0].0@)
            } else {
                r matches Err(Error::Io(_))
            },
    {
        if self.updates.len() == 0 {
            return Ok(None);
        }
        let (peer, _rest) = split_remote_ref(&self.updates[0].0, is_peer_id)?;
        Ok(Some(peer))
    }

    /// The lines handed to the custom receive hook on its standard input, in
    /// order, and the error that stops them: a refname that is not a remote
    /// ref.
    pub fn receive_hook_lines<F: Fn(&str) -> bool>(&self, is_peer_id: &F) -> (r: (Vec<String>, Option<Error>))
        requires
            decides(*is_peer_id),
        ensures
            views(r.0@) == hook_lines(*is_peer_id, self.updates@),
            r.1 is Some <==> some_not_remote(*is_peer_id, refnames(self.updates@)),
            r.1 is Some ==> r.1 matches Some(Error::Io(_)),
    {
        let mut out: Vec<String> = Vec::new();
        let mut i: usize = 0;
        let heads = ['h', 'e', 'a', 'd', 's', '/'];
        proof {
            reveal_strlit("heads/");
            assert(heads@ =~= "heads/"@);
        }
        assert(self.updates@.skip(0) =~= self.updates@);
        while i < self.updates.len()
            invariant
                i <= self.updates@.len(),
                heads@ == "heads/"@,
                views(out@) + hook_lines(*is_peer_id, self.updates@.skip(i as int)) == hook_lines(*is_peer_id, self.updates@),
                forall|j: int| 0 <= j < i ==> remote_ref_ok(*is_peer_id, #[trigger] refnames(self.updates@)[j]),
                decides(*is_peer_id),
            decreases self.updates@.len() - i,
        {
            let ghost us = self.updates@.skip(i as int);
            assert(us[0] == self.updates@[i as int]);
            assert(us.drop_first() =~= self.updates@.skip(i + 1));
            assert(refnames(self.updates@)[i as int] == self.updates@[i as int].0@);
            let (refname, old, new) = (&self.updates[i].0, &self.updates[i].1, &self.updates[i].2);
            match split_remote_ref(refname, is_peer_id) {
                Err(e) => {
                    proof {
                        assert(hook_lines(*is_peer_id, us) =~= Seq::<Seq<char>>::empty());
                        assert(views(out@) =~= views(out@) + Seq::<Seq<char>>::empty());
                    }
                    return (out, Some(e));
                },
                Ok((peer, rest)) => {
                    let rv = chars_of(rest.as_str());
                    let ghost before = out@;
                    if starts_with(rv.as_slice(), heads.as_slice()) {
                        let branch = string_of_range(rv.as_slice(), 6, rv.len());
                        let mut line = peer.clone();
                        append_str(&mut line, " ");
                        append_str(&mut line, old.to_hex().as_str());
                        append_str(&mut line, " ");
                        append_str(&mut line, new.to_hex().as_str());
                        append_str(&mut line, " ");
                        append_str(&mut line, branch.as_str());
                        proof {
                            assert(branch@ =~= rest@.skip(6));
                        }
                        out.push(line);
                        proof {
                            assert(views(out@) =~= views(before).push(line@));
                        }
                    }
                    proof {
                        assert(views(out@) + hook_lines(*is_peer_id, self.updates@.skip(i + 1)) =~= views(before)
                            + hook_lines(*is_peer_id, us));
                    }
                },
            }
            i = i + 1;
        }
        proof {
            assert(self.updates@.skip(i as int).len() == 0);
            assert(views(out@) =~= views(out@) + hook_lines(*is_peer_id, self.updates@.skip(i as int)));
            assert(!some_not_remote(*is_peer_id, refnames(self.updates@))) by {
                if some_not_remote(*is_peer_id, refnames(self.updates@)) {
                    let j = choose|j: int| 0 <= j < refnames(self.updates@).len() && !remote_ref_ok(
                        *is_peer_id,
                        #[trigger] refnames(self.updates@)[j],
                    );
                    assert(remote_ref_ok(*is_peer_id, refnames(self.updates@)[j]));
                }
            }
        }
        (out, None)
    }
}

/// `identity_update_index` stays within the updates.
proof fn lemma_identity_index_bound(updates: Seq<RefUpdate>)
    ensures
        0 <= identity_update_index(updates) <= updates.len(),
    decreases updates.len(),
{
    if updates.len() > 0 {
        lemma_identity_index_bound(updates.drop_first());
    }
}

/// The peers to track for a newly pushed identity: the keys of a person, or
/// the keys of a project's delegations in order; none for another identity.
pub fn delegates_to_track(identity: Option<IdentityDoc>) -> (r: Result<Vec<String>, Error>)
    ensures
        identity is None ==> (r matches Err(Error::PostReceive(why)) && why@ == "identity could not be found"@),
        identity matches Some(IdentityDoc::Person(keys)) ==> (r matches Ok(ks) && views(ks@) == views(keys@)),
        identity matches Some(IdentityDoc::Project(ds)) ==> (r matches Ok(ks) && views(ks@) == delegation_keys(ds@)),
        identity matches Some(IdentityDoc::Other) ==> (r matches Ok(ks) && ks@.len() == 0),
{
    match identity {
        None => Err(Error::PostReceive("identity could not be found")),
        Some(IdentityDoc::Person(keys)) => Ok(keys),
        Some(IdentityDoc::Other) => Ok(Vec::new()),
        Some(IdentityDoc::Project(ds)) => {
            let mut out: Vec<String> = Vec::new();
            let mut i: usize = 0;
            assert(ds@.skip(0) =~= ds@);
            while i < ds.len()
                invariant
                    i <= ds@.len(),
                    views(out@) + delegation_keys(ds@.skip(i as int)) == delegation_keys(ds@),
                decreases ds@.len() - i,
            {
                let ghost before = out@;
                assert(ds@.skip(i as int)[0] == ds@[i as int]);
                assert(ds@.skip(i as int).drop_first() =~= ds@.skip(i + 1));
                match &ds[i] {
                    Delegation::Direct(k) => {
                        out.push(k.clone());
                        assert(views(out@) =~= views(before) + seq![k@]);
                    },
                    Delegation::Indirect(ks) => {
                        let mut j: usize = 0;
                        while j < ks.len()
                            invariant
                                j <= ks@.len(),
                                views(out@) == views(before) + views(ks@).take(j as int),
                            decreases ks@.len() - j,
                        {
                            let ghost mid = out@;
                            out.push(ks[j].clone());
                            assert(views(out@) =~= views(mid).push(ks@[j as int]@));
                            assert(views(ks@).take(j + 1) =~= views(ks@).take(j as int).push(ks@[j as int]@));
                            j = j + 1;
                        }
                        assert(views(ks@).take(j as int) =~= views(ks@));
                    },
                }
                assert(views(out@) + delegation_keys(ds@.skip(i + 1)) =~= views(before) + delegation_keys(
                    ds@.skip(i as int),
                ));
                i = i + 1;
            }
            assert(ds@.skip(i as int).len() == 0);
            assert(views(out@) =~= views(out@) + delegation_keys(ds@.skip(i as int)));
            Ok(out)
        },
    }
}

} // verus!
