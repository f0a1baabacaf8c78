//! Request handling of the git server: what it hands to `git http-backend`
//! and how it reads what the backend answers.
use vstd::prelude::*;

use crate::git_server::error::Error;
use crate::text::{
    chars_of, find_char, first_index, has_prefix, push_char, starts_with, str_eq, string_of_range, views,
};

verus! {

// ---------------------------------------------------------------------------
// Random values
// ---------------------------------------------------------------------------

/// A random number generator (`fastrand::Rng`).
#[verifier::external_type_specification]
#[verifier::external_body]
pub struct ExRng(fastrand::Rng);

/// A generator seeded by fastrand (`fastrand::Rng::new`).
#[verifier::external_body]
pub(crate) fn new_rng() -> fastrand::Rng {
    fastrand::Rng::new()
}

/// An ASCII letter or digit.
pub open spec fn is_alphanumeric(c: char) -> bool {
    ('0' <= c && c <= '9') || ('a' <= c && c <= 'z') || ('A' <= c && c <= 'Z')
}

/// A random ASCII letter or digit (`fastrand::Rng::alphanumeric`): fastrand
/// picks it from the 62 characters A-Z, a-z and 0-9.
#[verifier::external_body]
pub(crate) fn random_alphanumeric(rng: &fastrand::Rng) -> (c: char)
    ensures
        is_alphanumeric(c),
{
    rng.alphanumeric()
}

/// Length of the generated certificate nonce seed.
pub const RANDOM_STRING_LEN: usize = 12;

/// Helper method to generate random string for cert nonce: twelve random ASCII
/// letters and digits.
pub fn gen_random_string() -> (s: String)
    ensures
        s@.len() == RANDOM_STRING_LEN,
        forall|i: int| 0 <= i < s@.len() ==> is_alphanumeric(#[trigger] s@[i]),
{
    let rng = new_rng();
    let mut out = String::new();
    let mut i: usize = 0;
    while i < RANDOM_STRING_LEN
        invariant
            i <= RANDOM_STRING_LEN,
            out@.len() == i,
            forall|j: int| 0 <= j < out@.len() ==> is_alphanumeric(#[trigger] out@[j]),
        decreases RANDOM_STRING_LEN - i,
    {
        let c = random_alphanumeric(&rng);
        push_char(&mut out, c);
        i = i + 1;
    }
    out
}

// ---------------------------------------------------------------------------
// Git configuration of the root repository
// ---------------------------------------------------------------------------

/// The git configuration field `receive.advertisePushOptions` and the value
/// `true`, which lets users pass push options with `-o`.
pub fn advertise_push_options_setting() -> (r: (String, String))
    ensures
        r.0@ == "receive.advertisePushOptions"@,
        r.1@ == "true"@,
{
    ("receive.advertisePushOptions".to_owned(), "true".to_owned())
}

/// The git configuration field `gpg.ssh.allowedSignersFile` and the value
/// `/dev/null`, which disables the allowed signers file.
pub fn disable_signers_file_setting() -> (r: (String, String))
    ensures
        r.0@ == "gpg.ssh.allowedSignersFile"@,
        r.1@ == "/dev/null"@,
{
    ("gpg.ssh.allowedSignersFile".to_owned(), "/dev/null".to_owned())
}

/// The git configuration field `receive.certNonceSlop` and the value `60`
/// (seconds).
pub fn cert_nonce_slop_setting() -> (r: (String, String))
    ensures
        r.0@ == "receive.certNonceSlop"@,
        r.1@ == "60"@,
{
    ("receive.certNonceSlop".to_owned(), "60".to_owned())
}

/// The git configuration field `receive.certNonceSeed` and its value: the
/// configured seed, or a fresh random string when none is configured.
pub fn cert_nonce_seed_setting(configured: Option<String>) -> (r: (String, String))
    ensures
        r.0@ == "receive.certNonceSeed"@,
        configured matches Some(seed) ==> r.1@ == seed@,
        configured is None ==> r.1@.len() == RANDOM_STRING_LEN && forall|i: int|
            0 <= i < r.1@.len() ==> is_alphanumeric(#[trigger] r.1@[i]),
{
    let value = match configured {
        Some(seed) => seed,
        None => gen_random_string(),
    };
    ("receive.certNonceSeed".to_owned(), value)
}

// ---------------------------------------------------------------------------
// Authorized keys
// ---------------------------------------------------------------------------

/// No two entries of `v` are equal.
pub open spec fn no_duplicates(v: Seq<Seq<char>>) -> bool {
    forall|i: int, j: int| 0 <= i < j < v.len() ==> v[i] != v[j]
}

/// The keys of an authorized keys file, given its lines: every non-empty line,
/// each once.
pub fn authorized_keys_from_lines(lines: &[String]) -> (keys: Vec<String>)
    ensures
        no_duplicates(views(keys@)),
        forall|i: int| 0 <= i < keys@.len() ==> keys@[i]@.len() > 0 && views(lines@).contains(
            #[trigger] keys@[i]@,
        ),
        forall|i: int|
            0 <= i < lines@.len() && (#[trigger] lines@[i])@.len() > 0 ==> views(keys@).contains(
                lines@[i]@,
            ),
{
    let mut keys: Vec<String> = Vec::new();
    let mut i: usize = 0;
    while i < lines.len()
        invariant
            i <= lines.len(),
            no_duplicates(views(keys@)),
            forall|k: int| 0 <= k < keys@.len() ==> keys@[k]@.len() > 0 && views(lines@).contains(
                #[trigger] keys@[k]@,
            ),
            forall|k: int|
                0 <= k < i && (#[trigger] lines@[k])@.len() > 0 ==> views(keys@).contains(
                    lines@[k]@,
                ),
        decreases lines.len() - i,
    {
        let line = &lines[i];
        if !line.as_str().is_empty() {
            let mut seen = false;
            let mut j: usize = 0;
            while j < keys.len()
                invariant
                    j <= keys.len(),
                    seen == exists|k: int| 0 <= k < j && keys@[k]@ == line@,
                decreases keys.len() - j,
            {
                if str_eq(keys[j].as_str(), line.as_str()) {
                    seen = true;
                }
                j = j + 1;
            }
            let ghost before = keys@;
            if !seen {
                keys.push(line.clone());
                proof {
                    assert(views(keys@) =~= views(before).push(line@));
                }
            }
            proof {
                assert(views(lines@)[i as int] == line@);
                if seen {
                    let k = choose|k: int| 0 <= k < keys@.len() && keys@[k]@ == line@;
                    assert(views(keys@)[k] == line@);
                } else {
                    assert(views(keys@)[before.len() as int] == line@);
                }
                assert forall|k: int| 0 <= k < i && (#[trigger] lines@[k])@.len() > 0 implies views(keys@).contains(lines@[k]@) by {
                    assert(views(before).contains(lines@[k]@));
                    let w = choose|w: int| 0 <= w < views(before).len() && views(before)[w] == lines@[k]@;
                    assert(views(keys@)[w] == lines@[k]@);
                }
            }
        }
        i = i + 1;
    }
    keys
}

// ---------------------------------------------------------------------------
// Parsing refs
// ---------------------------------------------------------------------------

/// The prefix of the refs that hold the branches of remote peers.
pub open spec fn remotes_prefix() -> Seq<char> {
    seq!['r', 'e', 'f', 's', '/', 'r', 'e', 'm', 'o', 't', 'e', 's', '/']
}

/// `is_peer_id` gives the same answer for texts with the same characters.
pub open spec fn decides<F: Fn(&str) -> bool>(is_peer_id: F) -> bool {
    &&& forall|t: &str| call_requires(is_peer_id, (t,))
    &&& forall|t1: &str, t2: &str, b1: bool, b2: bool|
        #![trigger call_ensures(is_peer_id, (t1,), b1), call_ensures(is_peer_id, (t2,), b2)]
        t1@ == t2@ && call_ensures(is_peer_id, (t1,), b1) && call_ensures(is_peer_id, (t2,), b2) ==> b1 == b2
}

/// `is_peer_id` accepts the text `t`: it decodes as a peer id.
pub open spec fn accepts<F: Fn(&str) -> bool>(is_peer_id: F, t: Seq<char>) -> bool {
    exists|s: &str| s@ == t && #[trigger] call_ensures(is_peer_id, (s,), true)
}

/// Asks `is_peer_id` whether `t` decodes as a peer id.
pub fn decodes_as_peer<F: Fn(&str) -> bool>(is_peer_id: &F, t: &str) -> (r: bool)
    requires
        decides(*is_peer_id),
    ensures
        r == accepts(*is_peer_id, t@),
{
    let r = is_peer_id(t);
    proof {
        if !r {
            if accepts(*is_peer_id, t@) {
                let s = choose|s: &str| s@ == t@ && #[trigger] call_ensures(*is_peer_id, (s,), true);
                assert(call_ensures(*is_peer_id, (t,), false));
            }
        }
    }
    r
}

/// Splits a remote git ref into the text of its peer and the remaining input.
///
/// Eg. `refs/remotes/<peer>/heads/master` gives `<peer>` and `heads/master`.
/// The peer is the text between the prefix and the next `/`.
pub fn split_ref(input: &str) -> (r: Result<(String, String), Error>)
    ensures
        ({
            let s = input@;
            let rest = s.skip(remotes_prefix().len() as int);
            let k = first_index(rest, '/');
            if has_prefix(s, remotes_prefix()) && k < rest.len() {
                r matches Ok((peer, tail)) && peer@ == rest.take(k) && tail@ == rest.skip(k + 1)
            } else {
                r matches Err(Error::Io(_))
            }
        }),
{
    let v = chars_of(input);
    let prefix = ['r', 'e', 'f', 's', '/', 'r', 'e', 'm', 'o', 't', 'e', 's', '/'];
    assert(prefix@ =~= remotes_prefix());
    if !starts_with(v.as_slice(), prefix.as_slice()) {
        return Err(Error::Io("invalid input parameter".to_owned()));
    }
    let rest = string_of_range(v.as_slice(), 13, v.len());
    let rv = chars_of(rest.as_str());
    assert(rv@ =~= input@.skip(13));
    match find_char(rv.as_slice(), '/') {
        Some(k) => {
            let peer = string_of_range(rv.as_slice(), 0, k);
            let tail = string_of_range(rv.as_slice(), k + 1, rv.len());
            assert(peer@ =~= rv@.take(k as int));
            assert(tail@ =~= rv@.skip(k + 1));
            Ok((peer, tail))
        },
        None => Err(Error::Io("invalid input parameter".to_owned())),
    }
}

/// The ref `s` reads as a remote ref: `refs/remotes/<peer>/<rest>`.
pub open spec fn ref_splits(s: Seq<char>) -> bool {
    let rest = s.skip(remotes_prefix().len() as int);
    has_prefix(s, remotes_prefix()) && first_index(rest, '/') < rest.len()
}

/// The peer text of a remote ref.
pub open spec fn ref_peer(s: Seq<char>) -> Seq<char> {
    let rest = s.skip(remotes_prefix().len() as int);
    rest.take(first_index(rest, '/'))
}

/// What follows the peer in a remote ref.
pub open spec fn ref_rest(s: Seq<char>) -> Seq<char> {
    let rest = s.skip(remotes_prefix().len() as int);
    rest.skip(first_index(rest, '/') + 1)
}

/// Parse a remote git ref into a peer and the remaining input.
///
/// Eg. `refs/remotes/<peer>/heads/master` gives `<peer>` and `heads/master`.
/// The peer must decode as a peer id, as `is_peer_id` decides (its default
/// encoding); it is handed back as that text. Any other input is refused as
/// an invalid input.
pub fn parse_ref<F: Fn(&str) -> bool>(input: &str, is_peer_id: &F) -> (r: Result<(String, String), Error>)
    requires
        decides(*is_peer_id),
    ensures
        ref_splits(input@) && accepts(*is_peer_id, ref_peer(input@)) ==> (r matches Ok((peer, tail))
            && peer@ == ref_peer(input@) && tail@ == ref_rest(input@)),
        !(ref_splits(input@) && accepts(*is_peer_id, ref_peer(input@))) ==> r matches Err(Error::Io(_)),
{
    let (peer, tail) = split_ref(input)?;
    if !decodes_as_peer(is_peer_id, peer.as_str()) {
        return Err(Error::Io("invalid input parameter".to_owned()));
    }
    Ok((peer, tail))
}

// ---------------------------------------------------------------------------
// Rejections and project metadata
// ---------------------------------------------------------------------------

/// The status of the response to a rejected request: not found (404) when no
/// route matched, the error's own status when it failed with one, bad
/// request (400) otherwise.
pub fn recover_status(not_found: bool, error: Option<&Error>) -> (code: u16)
    ensures
        not_found ==> code == 404,
        !not_found ==> code == match error {
            Some(e) => crate::git_server::error::status_of(*e),
            None => 400,
        },
{
    if not_found {
        404
    } else {
        match error {
            Some(e) => e.status(),
            None => 400,
        }
    }
}

/// An identity document, as its name, its default branch and its delegations.
#[derive(Debug, Clone)]
pub enum MetaDoc {
    /// A person: its name and keys.
    Person { name: String, keys: Vec<String> },
    /// A project: its name, default branch and delegations.
    Project { name: String, default_branch: Option<String>, delegations: Vec<crate::org_node::client::Delegation> },
    /// Another kind of identity.
    Other,
}

/// The name, delegate peers and default branch of an identity: a person has
/// its keys and no default branch; a project must have a default branch, and
/// has the keys of its delegations in order; any other identity, or none,
/// has nothing.
pub fn identity_meta(doc: Option<MetaDoc>) -> (r: Result<(Option<String>, Vec<String>, Option<String>), Error>)
    ensures
        match doc {
            None | Some(MetaDoc::Other) => r matches Ok((None, ks, None)) && ks@.len() == 0,
            Some(MetaDoc::Person { name, keys }) => r matches Ok((Some(n), ks, None)) && n@ == name@ && views(ks@) == views(keys@),
            Some(MetaDoc::Project { name, default_branch, delegations }) => match default_branch {
                None => r matches Err(Error::NoDefaultBranch),
                Some(b) => r matches Ok((Some(n), ks, Some(d))) && n@ == name@ && d@ == b@
                    && views(ks@) == crate::git_server::hooks::post_receive::delegation_keys(delegations@),
            },
        },
{
    match doc {
        None | Some(MetaDoc::Other) => Ok((None, Vec::new(), None)),
        Some(MetaDoc::Person { name, keys }) => Ok((Some(name), keys, None)),
        Some(MetaDoc::Project { name, default_branch, delegations }) => {
            let branch = match default_branch {
                None => return Err(Error::NoDefaultBranch),
                Some(b) => b,
            };
            let keys = match crate::git_server::hooks::post_receive::delegates_to_track(
                Some(crate::git_server::hooks::post_receive::IdentityDoc::Project(delegations)),
            ) {
                Ok(ks) => ks,
                Err(e) => return Err(e),
            };
            Ok((Some(name), keys, Some(branch)))
        },
    }
}

/// The file, in the monorepo's git directory, that lists the authorized keys.
pub const AUTHORIZED_KEYS_FILE: &'static str = "authorized-keys";

/// The hook that git runs after a push was received.
pub const POST_RECEIVE_OK_HOOK: &'static str = "post-receive-ok";

/// The path of the hook run after a push, in the monorepo's git directory:
/// `<git root>/hooks/post-receive-ok`.
pub fn receive_hook_path(git_root: &str) -> (r: String)
    ensures
        r@ == crate::refs::path_join_spec(crate::refs::path_join_spec(git_root@, "hooks"@), POST_RECEIVE_OK_HOOK@),
{
    let hooks = crate::refs::path_join(git_root, "hooks");
    crate::refs::path_join(hooks.as_str(), POST_RECEIVE_OK_HOOK)
}

/// The path of the authorized keys file in the monorepo's git directory.
pub fn authorized_keys_path(git_dir: &str) -> (r: String)
    ensures
        r@ == crate::refs::path_join_spec(git_dir@, AUTHORIZED_KEYS_FILE@),
{
    crate::refs::path_join(git_dir, AUTHORIZED_KEYS_FILE)
}

} // verus!
