//! The decisions of the org node's protocol client.
//!
//! The client talks to the network and to the git storage; what it decides
//! between those calls is here: which project head to set, how to answer
//! gossip, and the steps of tracking a project and a peer. The caller performs
//! each action and hands back what came of it.
use vstd::prelude::*;

use crate::oid::Oid;
use crate::refs::{path_join, path_join_spec};
use crate::text::{contains_str, views};

verus! {

/// Errors of the client.
#[derive(Debug, Clone)]
pub enum Error {
    /// The project is not valid: its URN and why.
    Project(String, &'static str),
    /// The project head could not be set.
    SetHead(String),
    /// The refs could not be signed.
    SignRefs(String),
    /// The project could not be fetched from a peer.
    Replication(String),
    /// The tracking relationship could not be stored.
    Track(String),
    /// The storage could not be reached.
    Storage(String),
    /// Sending a reply failed.
    Reply(String),
    /// Project head was not found.
    ProjectHeadNotFound,
    /// Project peer failed to be tracked and fetched.
    TrackPeer(String),
}

/// Protocol limits.
#[derive(Debug, Clone, Copy)]
pub struct Limits {
    /// Amount of in-flight requests.
    pub request_queue_size: usize,
    /// Milliseconds after which a request is considered failed.
    pub request_timeout_ms: u64,
}

impl Default for Limits {
    /// 64 requests in flight, a minute before a request fails.
    fn default() -> (r: Self)
        ensures
            r.request_queue_size == 64,
            r.request_timeout_ms == 60_000,
    {
        Limits { request_queue_size: 64, request_timeout_ms: 60_000 }
    }
}

impl Limits {
    /// How long a track request looks for peers that provide the project:
    /// half the request timeout.
    pub fn provider_timeout_ms(&self) -> (t: u64)
        ensures
            t == self.request_timeout_ms / 2,
    {
        self.request_timeout_ms / 2
    }
}

/// Client configuration.
#[derive(Debug, Clone)]
pub struct Config {
    /// List of bootstrap peers: peer id and socket address.
    pub bootstrap: Vec<(String, String)>,
    /// Knobs to tune timeouts and internal queues.
    pub limits: Limits,
    /// Listen address.
    pub listen: String,
    /// Track a list of peers.
    pub peers: Vec<String>,
    /// Allow tracking unknown peers.
    pub allow_unknown_peers: bool,
}

impl Default for Config {
    /// No bootstrap peers, default limits, any address and port, no peers,
    /// unknown peers not allowed.
    fn default() -> (r: Self)
        ensures
            r.bootstrap@.len() == 0,
            r.limits.request_queue_size == 64,
            r.limits.request_timeout_ms == 60_000,
            r.listen@ == "0.0.0.0:0"@,
            r.peers@.len() == 0,
            !r.allow_unknown_peers,
    {
        Config {
            bootstrap: Vec::new(),
            limits: Limits::default(),
            listen: "0.0.0.0:0".to_owned(),
            peers: Vec::new(),
            allow_unknown_peers: false,
        }
    }
}

/// A head reference: the maintainer's remote and the default branch.
#[derive(Debug, Clone)]
pub struct Head {
    pub remote: String,
    pub branch: String,
}

/// Error when using the track-project request.
#[derive(Debug, Clone, Copy, PartialEq, Eq)]
pub enum TrackProjectError {
    /// The project was not found after querying all connected peers.
    NotFound,
}

// ---------------------------------------------------------------------------
// Project heads
// ---------------------------------------------------------------------------

/// A delegation of a project: a key, or an identity with its keys. Keys are
/// given as the text of their peer id.
#[derive(Debug, Clone)]
pub enum Delegation {
    Direct(String),
    Indirect(Vec<String>),
}

/// A project identity as the storage holds it.
#[derive(Debug, Clone)]
pub struct ProjectIdentity {
    /// The project URN, as text.
    pub urn: String,
    /// Its delegations, in order.
    pub delegations: Vec<Delegation>,
    /// Its default branch, if it has one.
    pub default_branch: Option<String>,
}

/// The first key of the delegations, each identity taken as its keys in order.
pub open spec fn first_key(ds: Seq<Delegation>) -> Option<Seq<char>>
    decreases ds.len(),
{
    if ds.len() == 0 {
        None
    } else {
        match ds[0] {
            Delegation::Direct(k) => Some(k@),
            Delegation::Indirect(ks) => if ks@.len() > 0 {
                Some(ks@[0]@)
            } else {
                first_key(ds.drop_first())
            },
        }
    }
}

/// The first delegated key.
fn first_maintainer(ds: &[Delegation]) -> (r: Option<String>)
    ensures
        r is None <==> first_key(ds@) is None,
        r matches Some(k) ==> first_key(ds@) == Some(k@),
{
    let mut i: usize = 0;
    assert(ds@.skip(0) =~= ds@);
    while i < ds.len()
        invariant
            i <= ds@.len(),
            first_key(ds@) == first_key(ds@.skip(i as int)),
        decreases ds@.len() - i,
    {
        assert(ds@.skip(i as int).drop_first() =~= ds@.skip(i + 1));
        assert(ds@.skip(i as int)[0] == ds@[i as int]);
        match &ds[i] {
            Delegation::Direct(k) => {
                return Some(k.clone());
            },
            Delegation::Indirect(ks) => {
                if ks.len() > 0 {
                    return Some(ks[0].clone());
                }
            },
        }
        i = i + 1;
    }
    assert(ds@.skip(i as int).len() == 0);
    None
}

/// The head of a project: its first delegated key as the maintainer, and its
/// default branch. `None` when the project is not stored.
pub fn project_head(project: Option<ProjectIdentity>) -> (r: Result<Option<Head>, Error>)
    ensures
        project is None ==> r matches Ok(None),
        project matches Some(p) ==> match first_key(p.delegations@) {
            None => r matches Err(Error::Project(u, why)) && u@ == p.urn@ && why@
                == "project has no maintainer"@,
            Some(k) => match p.default_branch {
                None => r matches Err(Error::Project(u, why)) && u@ == p.urn@ && why@
                    == "project has no default branch"@,
                Some(b) => r matches Ok(Some(h)) && h.remote@ == k && h.branch@ == b@,
            },
        },
{
    let p = match project {
        None => return Ok(None),
        Some(p) => p,
    };
    let maintainer = first_maintainer(p.delegations.as_slice());
    let maintainer = match maintainer {
        None => return Err(Error::Project(p.urn, "project has no maintainer")),
        Some(m) => m,
    };
    match p.default_branch {
        None => Err(Error::Project(p.urn, "project has no default branch")),
        Some(branch) => Ok(Some(Head { remote: maintainer, branch })),
    }
}

// ---------------------------------------------------------------------------
// References set for a project head
// ---------------------------------------------------------------------------

/// `refs/namespaces/<namespace>`, built as `Path::join` does.
pub open spec fn namespace_path(namespace: Seq<char>) -> Seq<char> {
    path_join_spec(path_join_spec("refs"@, "namespaces"@), namespace)
}

/// The references that setting the head of a project writes.
#[derive(Debug, Clone)]
pub struct HeadRefs {
    /// The maintainer's branch: `<namespace>/refs/remotes/<maintainer>/heads/<branch>`.
    pub remote_branch: String,
    /// The project's own branch: `<namespace>/refs/heads/<branch>`.
    pub local_branch: String,
    /// The symbolic head: `<namespace>/HEAD`, which points to the local branch.
    pub head: String,
}

/// The references that setting the head of the project in `namespace` to
/// `branch` of `maintainer` reads and writes: the maintainer's branch is
/// copied to the project's own branch, and the project's `HEAD` is pointed to
/// that branch.
pub fn head_refs(namespace: &str, maintainer: &str, branch: &str) -> (r: HeadRefs)
    ensures
        r.remote_branch@ == path_join_spec(
            path_join_spec(
                path_join_spec(
                    path_join_spec(path_join_spec(namespace_path(namespace@), "refs"@), "remotes"@),
                    maintainer@,
                ),
                "heads"@,
            ),
            branch@,
        ),
        r.local_branch@ == path_join_spec(
            path_join_spec(path_join_spec(namespace_path(namespace@), "refs"@), "heads"@),
            branch@,
        ),
        r.head@ == path_join_spec(namespace_path(namespace@), "HEAD"@),
{
    let ns = path_join(path_join("refs", "namespaces").as_str(), namespace);
    let refs = path_join(ns.as_str(), "refs");
    let remotes = path_join(refs.as_str(), "remotes");
    let remote = path_join(remotes.as_str(), maintainer);
    let remote_heads = path_join(remote.as_str(), "heads");
    let remote_branch = path_join(remote_heads.as_str(), branch);
    let heads = path_join(refs.as_str(), "heads");
    let local_branch = path_join(heads.as_str(), branch);
    let head = path_join(ns.as_str(), "HEAD");
    HeadRefs { remote_branch, local_branch, head }
}

/// The symbolic head and the branch it is to point to after the refs of a
/// project were updated: the project's `HEAD` and its own default branch.
pub fn updated_head_refs(urn: &str, namespace: &str, head: Option<Head>) -> (r: Result<
    (String, String),
    Error,
>)
    ensures
        head is None ==> (r matches Err(Error::Project(u, why)) && u@ == urn@ && why@
            == "failed to find project"@),
        head matches Some(h) ==> (r matches Ok((sym, target)) && sym@ == path_join_spec(
            namespace_path(namespace@),
            "HEAD"@,
        ) && target@ == path_join_spec(
            path_join_spec(path_join_spec(namespace_path(namespace@), "refs"@), "heads"@),
            h.branch@,
        )),
{
    match head {
        None => Err(Error::Project(urn.to_owned(), "failed to find project")),
        Some(h) => {
            let refs = head_refs(namespace, h.remote.as_str(), h.branch.as_str());
            Ok((refs.head, refs.local_branch))
        },
    }
}

// ---------------------------------------------------------------------------
// Gossip
// ---------------------------------------------------------------------------

/// A gossip message about a project revision.
#[derive(Debug, Clone)]
pub enum Gossip {
    /// An update that was applied to the local storage: the project URN, the
    /// revision and the peer it originates from.
    Applied { urn: String, oid: Oid, origin: String },
    /// An update of a project that is not tracked locally: the project URN,
    /// the revision, the peer it originates from and the peer that provides it.
    Uninteresting { urn: String, oid: Oid, origin: String, provider: String },
    /// Any other message.
    Other,
}

/// What to do with a gossip message.
#[derive(Debug, Clone, Copy, PartialEq, Eq)]
pub enum GossipAction {
    /// Nothing.
    Ignore,
    /// Look up the project head, then decide with `applied_update`.
    LookupHead,
    /// Track the project from the provider and notify the websocket clients.
    TrackAndNotify,
}

/// What a gossip message calls for: an applied update leads to a look at the
/// project head; an update of an untracked project leads to tracking it from
/// its provider, when the provider is a known peer or unknown peers are allowed.
pub fn gossip_action(gossip: &Gossip, known_peers: &[String], allow_unknown_peers: bool) -> (r:
    GossipAction)
    ensures
        gossip is Applied ==> r == GossipAction::LookupHead,
        gossip matches Gossip::Uninteresting { provider, .. } ==> r == if views(known_peers@).contains(
            provider@,
        ) || allow_unknown_peers {
            GossipAction::TrackAndNotify
        } else {
            GossipAction::Ignore
        },
        gossip is Other ==> r == GossipAction::Ignore,
{
    match gossip {
        Gossip::Applied { .. } => GossipAction::LookupHead,
        Gossip::Uninteresting { provider, .. } => {
            if !contains_str(known_peers, provider.as_str()) && !allow_unknown_peers {
                GossipAction::Ignore
            } else {
                GossipAction::TrackAndNotify
            }
        },
        Gossip::Other => GossipAction::Ignore,
    }
}

/// Whether an applied update moves the project head: only when it originates
/// from the maintainer of the stored project. The head to set (and announce)
/// is returned.
pub fn applied_update(origin: &str, head: Option<Head>) -> (r: Option<Head>)
    ensures
        r is Some <==> (head matches Some(h) && h.remote@ == origin@),
        r matches Some(h) ==> (head matches Some(g) && h.remote@ == g.remote@ && h.branch@ == g.branch@),
{
    match head {
        Some(h) => {
            if crate::text::str_eq(h.remote.as_str(), origin) {
                Some(h)
            } else {
                None
            }
        },
        None => None,
    }
}

// ---------------------------------------------------------------------------
// Track-project requests
// ---------------------------------------------------------------------------

/// Where a track-project request stands.
#[derive(Debug, Clone, Copy, PartialEq, Eq)]
pub enum TrackStage {
    /// Waiting for the local project head.
    Start,
    /// The project is stored locally; its head is being set.
    SettingHead,
    /// The refs of the stored project are being signed.
    SigningRefs,
    /// The project is not stored; peers that provide it are being asked.
    AskingProviders,
    /// The request was answered.
    Done,
}

/// What came of the last action of a track-project request.
#[derive(Debug)]
pub enum TrackEvent {
    /// The local project head, or the error of looking it up.
    Head(Result<Option<Head>, Error>),
    /// The head was set, or not.
    HeadSet(Result<(), Error>),
    /// The refs were signed, or not.
    Signed(Result<(), Error>),
    /// The project was tracked from a provider (with the peer it was newly
    /// tracked from), or not.
    Provider(Result<Option<String>, Error>),
    /// No provider is left.
    NoMoreProviders,
}

/// The next action of a track-project request.
#[derive(Debug)]
pub enum TrackAction {
    /// Set the project head.
    SetHead(Head),
    /// Sign the project refs.
    SignRefs,
    /// Track the project from the next provider.
    NextProvider,
    /// Answer the request.
    Reply(Result<Option<String>, TrackProjectError>),
    /// Fail the request with an error.
    Fail(Error),
    /// The event does not belong to this stage: nothing to do.
    Ignore,
}

/// The step of a track-project request from a stage and the outcome of its
/// last action. A project that is stored locally gets its head (re-)set and
/// its refs signed, and the request is answered with no peer; a failure to
/// set the head is tolerated. A project that is not stored is tracked from
/// the providers in turn until one succeeds, whose answer is the reply; when
/// none is left the project was not found.
pub fn track_request_step(stage: TrackStage, event: TrackEvent) -> (r: (TrackStage, TrackAction))
    ensures
        (stage != TrackStage::Done && r.0 == TrackStage::Done) <==> (r.1 is Reply || r.1 is Fail),
        r.1 is Ignore ==> r.0 == stage,
        match (stage, event) {
            (TrackStage::Start, TrackEvent::Head(Err(e))) => r.0 == TrackStage::Done && r.1 == TrackAction::Fail(e),
            (TrackStage::Start, TrackEvent::Head(Ok(Some(h)))) => r.0 == TrackStage::SettingHead && r.1
                == TrackAction::SetHead(h),
            (TrackStage::Start, TrackEvent::Head(Ok(None))) => r.0 == TrackStage::AskingProviders
                && r.1 is NextProvider,
            (TrackStage::SettingHead, TrackEvent::HeadSet(Ok(()))) => r.0 == TrackStage::SigningRefs
                && r.1 is SignRefs,
            (TrackStage::SettingHead, TrackEvent::HeadSet(Err(Error::SetHead(_)))) => r.0
                == TrackStage::SigningRefs && r.1 is SignRefs,
            (TrackStage::SettingHead, TrackEvent::HeadSet(Err(e))) => r.0 == TrackStage::Done && r.1 == TrackAction::Fail(e),
            (TrackStage::SigningRefs, TrackEvent::Signed(Ok(()))) => r.1 matches TrackAction::Reply(
                Ok(None),
            ),
            (TrackStage::SigningRefs, TrackEvent::Signed(Err(e))) => r.0 == TrackStage::Done && r.1 == TrackAction::Fail(e),
            (TrackStage::AskingProviders, TrackEvent::Provider(Ok(p))) => r.1 matches TrackAction::Reply(
                Ok(q),
            ) && q == p,
            (TrackStage::AskingProviders, TrackEvent::Provider(Err(_))) => r.0
                == TrackStage::AskingProviders && r.1 is NextProvider,
            (TrackStage::AskingProviders, TrackEvent::NoMoreProviders) => r.1 matches TrackAction::Reply(
                Err(TrackProjectError::NotFound),
            ),
            _ => r.1 is Ignore,
        },
{
    match (stage, event) {
        (TrackStage::Start, TrackEvent::Head(Err(e))) => (TrackStage::Done, TrackAction::Fail(e)),
        (TrackStage::Start, TrackEvent::Head(Ok(Some(h)))) => (
            TrackStage::SettingHead,
            TrackAction::SetHead(h),
        ),
        (TrackStage::Start, TrackEvent::Head(Ok(None))) => (
            TrackStage::AskingProviders,
            TrackAction::NextProvider,
        ),
        (TrackStage::SettingHead, TrackEvent::HeadSet(Ok(()))) => (
            TrackStage::SigningRefs,
            TrackAction::SignRefs,
        ),
        (TrackStage::SettingHead, TrackEvent::HeadSet(Err(Error::SetHead(_)))) => (
            TrackStage::SigningRefs,
            TrackAction::SignRefs,
        ),
        (TrackStage::SettingHead, TrackEvent::HeadSet(Err(e))) => (
            TrackStage::Done,
            TrackAction::Fail(e),
        ),
        (TrackStage::SigningRefs, TrackEvent::Signed(Ok(()))) => (
            TrackStage::Done,
            TrackAction::Reply(Ok(None)),
        ),
        (TrackStage::SigningRefs, TrackEvent::Signed(Err(e))) => (
            TrackStage::Done,
            TrackAction::Fail(e),
        ),
        (TrackStage::AskingProviders, TrackEvent::Provider(Ok(p))) => (
            TrackStage::Done,
            TrackAction::Reply(Ok(p)),
        ),
        (TrackStage::AskingProviders, TrackEvent::Provider(Err(_))) => (
            TrackStage::AskingProviders,
            TrackAction::NextProvider,
        ),
        (TrackStage::AskingProviders, TrackEvent::NoMoreProviders) => (
            TrackStage::Done,
            TrackAction::Reply(Err(TrackProjectError::NotFound)),
        ),
        (s, _) => (s, TrackAction::Ignore),
    }
}

// ---------------------------------------------------------------------------
// Tracking a project from a peer
// ---------------------------------------------------------------------------

/// Where the tracking of a project from a peer stands.
#[derive(Debug, Clone, Copy, PartialEq, Eq)]
pub enum PeerStage {
    /// The tracking relationship is being stored.
    Tracking,
    /// The project is being fetched from the peer.
    Fetching,
    /// The project head is being looked up.
    LookingUpHead,
    /// The project head is being set.
    SettingHead,
    /// The project refs are being signed.
    SigningRefs,
    /// The tracking was acknowledged.
    Done,
}

/// What came of the last action of tracking a project from a peer.
#[derive(Debug)]
pub enum PeerEvent {
    /// The relationship was stored (`true`) or existed already (`false`), or
    /// storing it failed.
    Stored(Result<bool, Error>),
    /// The project was fetched, or not.
    Fetched(Result<(), Error>),
    /// The project head, or the error of looking it up.
    Head(Result<Option<Head>, Error>),
    /// The head was set, or not.
    HeadSet(Result<(), Error>),
    /// The refs were signed, or not.
    Signed(Result<(), Error>),
}

/// The next action of tracking a project from a peer.
#[derive(Debug)]
pub enum PeerAction {
    /// Fetch the project from the peer.
    Fetch,
    /// Look up the project head.
    LookupHead,
    /// Set the project head.
    SetHead(Head),
    /// Sign the project refs.
    SignRefs,
    /// Acknowledge the tracking: the peer when it was newly tracked, or the error.
    Ack(Result<Option<String>, Error>),
    /// The event does not belong to this stage: nothing to do.
    Ignore,
}

/// The tracking of a project from one peer.
#[derive(Debug, Clone)]
pub struct PeerTracking {
    /// Where it stands.
    pub stage: PeerStage,
    /// The peer the project is tracked from.
    pub peer: String,
    /// The answer on success: the peer if the relationship is new.
    pub response: Option<String>,
}

impl PeerTracking {
    /// The tracking of a project from `peer`, at its start.
    pub fn new(peer: String) -> (r: Self)
        ensures
            r.stage == PeerStage::Tracking,
            r.peer@ == peer@,
            r.response is None,
    {
        PeerTracking { stage: PeerStage::Tracking, peer, response: None }
    }

    /// The step of the tracking from the outcome of its last action: store
    /// the relationship, fetch the project, look up its head, set it, sign the
    /// refs, and acknowledge with the peer if the relationship is new. The
    /// first failure is acknowledged, and so is a project without a head.
    pub fn step(&mut self, event: PeerEvent) -> (a: PeerAction)
        ensures
            (old(self).stage != PeerStage::Done && final(self).stage == PeerStage::Done) <==> a is Ack,
            a is Ignore ==> final(self).stage == old(self).stage,
            final(self).peer@ == old(self).peer@,
            !(old(self).stage == PeerStage::Tracking && event is Stored) ==> final(self).response
                == old(self).response,
            match (old(self).stage, event) {
                (PeerStage::Tracking, PeerEvent::Stored(Ok(new))) => final(self).stage
                    == PeerStage::Fetching && a is Fetch && (if new {
                    final(self).response matches Some(p) && p@ == old(self).peer@
                } else {
                    final(self).response is None
                }),
                (PeerStage::Tracking, PeerEvent::Stored(Err(e))) => a == PeerAction::Ack(Err(e)),
                (PeerStage::Fetching, PeerEvent::Fetched(Ok(()))) => final(self).stage
                    == PeerStage::LookingUpHead && a is LookupHead,
                (PeerStage::Fetching, PeerEvent::Fetched(Err(e))) => a == PeerAction::Ack(Err(e)),
                (PeerStage::LookingUpHead, PeerEvent::Head(Ok(Some(h)))) => final(self).stage
                    == PeerStage::SettingHead && a == PeerAction::SetHead(h),
                (PeerStage::LookingUpHead, PeerEvent::Head(Ok(None))) => a matches PeerAction::Ack(
                    Err(Error::ProjectHeadNotFound),
                ),
                (PeerStage::LookingUpHead, PeerEvent::Head(Err(e))) => a == PeerAction::Ack(Err(e)),
                (PeerStage::SettingHead, PeerEvent::HeadSet(Ok(()))) => final(self).stage
                    == PeerStage::SigningRefs && a is SignRefs,
                (PeerStage::SettingHead, PeerEvent::HeadSet(Err(e))) => a == PeerAction::Ack(Err(e)),
                (PeerStage::SigningRefs, PeerEvent::Signed(Ok(()))) => a matches PeerAction::Ack(Ok(p))
                    && p == old(self).response,
                (PeerStage::SigningRefs, PeerEvent::Signed(Err(e))) => a == PeerAction::Ack(Err(e)),
                _ => a is Ignore,
            },
    {
        match (self.stage, event) {
            (PeerStage::Tracking, PeerEvent::Stored(Ok(new))) => {
                self.stage = PeerStage::Fetching;
                self.response = if new {
                    Some(self.peer.clone())
                } else {
                    None
                };
                PeerAction::Fetch
            },
            (PeerStage::Tracking, PeerEvent::Stored(Err(e))) => {
                self.stage = PeerStage::Done;
                PeerAction::Ack(Err(e))
            },
            (PeerStage::Fetching, PeerEvent::Fetched(Ok(()))) => {
                self.stage = PeerStage::LookingUpHead;
                PeerAction::LookupHead
            },
            (PeerStage::Fetching, PeerEvent::Fetched(Err(e))) => {
                self.stage = PeerStage::Done;
                PeerAction::Ack(Err(e))
            },
            (PeerStage::LookingUpHead, PeerEvent::Head(Ok(Some(h)))) => {
                self.stage = PeerStage::SettingHead;
                PeerAction::SetHead(h)
            },
            (PeerStage::LookingUpHead, PeerEvent::Head(Ok(None))) => {
                self.stage = PeerStage::Done;
                PeerAction::Ack(Err(Error::ProjectHeadNotFound))
            },
            (PeerStage::LookingUpHead, PeerEvent::Head(Err(e))) => {
                self.stage = PeerStage::Done;
                PeerAction::Ack(Err(e))
            },
            (PeerStage::SettingHead, PeerEvent::HeadSet(Ok(()))) => {
                self.stage = PeerStage::SigningRefs;
                PeerAction::SignRefs
            },
            (PeerStage::SettingHead, PeerEvent::HeadSet(Err(e))) => {
                self.stage = PeerStage::Done;
                PeerAction::Ack(Err(e))
            },
            (PeerStage::SigningRefs, PeerEvent::Signed(Ok(()))) => {
                self.stage = PeerStage::Done;
                PeerAction::Ack(Ok(self.response.clone()))
            },
            (PeerStage::SigningRefs, PeerEvent::Signed(Err(e))) => {
                self.stage = PeerStage::Done;
                PeerAction::Ack(Err(e))
            },
            _ => PeerAction::Ignore,
        }
    }
}

} // verus!
