//! Project remotes and the git references that each remote publishes.
//!
//! A remote carries a marker of whether its signed references were checked
//! against its key (`Verified`) or not (`Unverified`); moving between the two
//! states never changes what the remote holds.
use std::marker::PhantomData;

use vstd::prelude::*;

use crate::oid::Oid;

verus! {

/// Marker: the signed references were checked against the remote's key.
#[derive(Debug, Clone, Copy, PartialEq, Eq)]
pub struct Verified;

/// Marker: the signed references were not checked.
#[derive(Debug, Clone, Copy, PartialEq, Eq)]
pub struct Unverified;

/// The public key of a user.
pub type UserId = [u8; 32];

/// The id of a remote: the key of the user that publishes it.
pub type RemoteId = UserId;

/// The signature of a remote's references did not verify under its key.
#[derive(Debug, Clone, Copy, PartialEq, Eq)]
pub enum SignatureError {
    /// The signature does not match the references and the key.
    InvalidSignature,
}

/// What a remote holds, as plain values.
pub struct RemoteModel {
    pub id: Seq<u8>,
    pub refs: Seq<(Seq<char>, Seq<u8>)>,
    pub signature: Seq<u8>,
    pub delegate: bool,
}

/// Git references published under a remote, with the signature over them.
#[derive(Debug)]
pub struct SignedRefs<V> {
    /// Reference names and the objects they point to.
    pub refs: Vec<(String, Oid)>,
    /// Signature of the references by the remote's key.
    pub signature: Vec<u8>,
    verified: PhantomData<V>,
}

/// The references of a list of `(name, oid)` pairs, as plain values.
pub open spec fn refs_model(refs: Seq<(String, Oid)>) -> Seq<(Seq<char>, Seq<u8>)> {
    refs.map_values(|p: (String, Oid)| (p.0@, p.1.bytes@))
}

impl<V> SignedRefs<V> {
    /// The references, as plain values.
    pub closed spec fn refs_view(&self) -> Seq<(Seq<char>, Seq<u8>)> {
        refs_model(self.refs@)
    }

    /// The signature.
    pub closed spec fn signature_view(&self) -> Seq<u8> {
        self.signature@
    }

    /// References with their signature.
    pub fn new(refs: Vec<(String, Oid)>, signature: Vec<u8>) -> (r: Self)
        ensures
            r.refs_view() == refs_model(refs@),
            r.signature_view() == signature@,
    {
        SignedRefs { refs, signature, verified: PhantomData }
    }

    /// The same references and signature under another marker.
    fn remark<W>(self) -> (r: SignedRefs<W>)
        ensures
            r.refs_view() == self.refs_view(),
            r.signature_view() == self.signature_view(),
    {
        SignedRefs { refs: self.refs, signature: self.signature, verified: PhantomData }
    }
}

/// A project remote.
#[derive(Debug)]
pub struct Remote<V> {
    /// ID of remote.
    pub id: UserId,
    /// Git references published under this remote, and their hashes.
    pub refs: SignedRefs<V>,
    /// Whether this remote is of a project delegate.
    pub delegate: bool,
    /// Whether the remote is verified or not, ie. whether its signed refs were checked.
    verified: PhantomData<V>,
}

impl<V> Remote<V> {
    /// What the remote holds.
    pub closed spec fn model(&self) -> RemoteModel {
        RemoteModel {
            id: self.id@,
            refs: self.refs.refs_view(),
            signature: self.refs.signature_view(),
            delegate: self.delegate,
        }
    }

    /// A remote of a user that is not a delegate.
    pub fn new(id: UserId, refs: SignedRefs<V>) -> (r: Self)
        ensures
            r.model() == (RemoteModel {
                id: id@,
                refs: refs.refs_view(),
                signature: refs.signature_view(),
                delegate: false,
            }),
    {
        Remote { id, refs, delegate: false, verified: PhantomData }
    }
}

impl Remote<Unverified> {
    /// The remote as verified, given the outcome of checking the signature
    /// of its references against its key: `Ok` with the same id, references
    /// and delegate flag when the signature is valid, an error otherwise.
    pub fn verified(self, signature_valid: bool) -> (r: Result<Remote<Verified>, SignatureError>)
        ensures
            signature_valid ==> (r matches Ok(v) && v.model() == self.model()),
            !signature_valid ==> r == Err::<Remote<Verified>, SignatureError>(
                SignatureError::InvalidSignature,
            ),
    {
        if !signature_valid {
            return Err(SignatureError::InvalidSignature);
        }
        let refs: SignedRefs<Verified> = self.refs.remark();
        Ok(Remote { id: self.id, refs, delegate: self.delegate, verified: PhantomData })
    }
}

impl Remote<Verified> {
    /// The remote as unverified: the same id, references and delegate flag.
    pub fn unverified(self) -> (r: Remote<Unverified>)
        ensures
            r.model() == self.model(),
    {
        let refs: SignedRefs<Unverified> = self.refs.remark();
        Remote { id: self.id, refs, delegate: self.delegate, verified: PhantomData }
    }
}

/// Project remotes, each under its id. Tracks the git state of a project.
#[derive(Debug)]
pub struct Remotes<V> {
    entries: Vec<(RemoteId, Remote<V>)>,
}

/// The entries of a list of remotes, as plain values.
pub open spec fn entries_model<V>(entries: Seq<(RemoteId, Remote<V>)>) -> Seq<(Seq<u8>, RemoteModel)> {
    entries.map_values(|e: (RemoteId, Remote<V>)| (e.0@, e.1.model()))
}

/// No id occurs twice among the entries.
pub open spec fn distinct_ids<V>(entries: Seq<(RemoteId, Remote<V>)>) -> bool {
    forall|i: int, j: int|
        0 <= i < entries.len() && 0 <= j < entries.len() && i != j ==> entries[i].0@ != entries[j].0@
}

/// The map from id to remote that a list of entries describes; a later entry
/// replaces an earlier one under the same id.
pub open spec fn entries_map(entries: Seq<(Seq<u8>, RemoteModel)>) -> Map<Seq<u8>, RemoteModel>
    decreases entries.len(),
{
    if entries.len() == 0 {
        Map::empty()
    } else {
        entries_map(entries.drop_last()).insert(entries.last().0, entries.last().1)
    }
}

impl<V> Remotes<V> {
    /// Well-formedness: no id occurs twice.
    pub closed spec fn wf(&self) -> bool {
        distinct_ids(self.entries@)
    }

    /// The remotes, by id.
    pub closed spec fn view(&self) -> Map<Seq<u8>, RemoteModel> {
        entries_map(entries_model(self.entries@))
    }

    /// The remotes of a map from id to remote (the ids are distinct).
    pub fn new(remotes: Vec<(RemoteId, Remote<V>)>) -> (r: Self)
        requires
            distinct_ids(remotes@),
        ensures
            r.wf(),
            r.view() == entries_map(entries_model(remotes@)),
    {
        Remotes { entries: remotes }
    }

    /// No remotes.
    pub fn empty() -> (r: Self)
        ensures
            r.wf(),
            r.view() == Map::<Seq<u8>, RemoteModel>::empty(),
    {
        Remotes { entries: Vec::new() }
    }

    /// The number of remotes.
    pub fn len(&self) -> (n: usize)
        requires
            self.wf(),
        ensures
            n == self.view().len(),
    {
        proof {
            lemma_distinct_map_len(self.entries@);
        }
        self.entries.len()
    }

    /// The entries, each id with its remote.
    pub fn into_entries(self) -> (r: Vec<(RemoteId, Remote<V>)>)
        ensures
            entries_map(entries_model(r@)) == self.view(),
            self.wf() ==> distinct_ids(r@),
    {
        self.entries
    }
}

impl Remotes<Verified> {
    /// The remotes as unverified: the same ids, each with the same remote.
    pub fn unverified(self) -> (r: Remotes<Unverified>)
        requires
            self.wf(),
        ensures
            r.wf(),
            r.view() == self.view(),
    {
        let ghost initial = self.entries@;
        let mut rest = self.entries;
        let mut out: Vec<(RemoteId, Remote<Unverified>)> = Vec::new();
        while rest.len() > 0
            invariant
                distinct_ids(initial),
                entries_model(rest@) + entries_model(out@) == entries_model(initial),
                rest@.len() + out@.len() == initial.len(),
                forall|i: int| 0 <= i < out@.len() ==> #[trigger] out@[i].0@ == initial[rest@.len() + i].0@,
            decreases rest@.len(),
        {
            let ghost before_rest = rest@;
            let ghost before_out = out@;
            let (id, remote) = rest.pop().unwrap();
            out.insert(0, (id, remote.unverified()));
            proof {
                assert(entries_model(before_rest) =~= entries_model(rest@).push((id@, remote.model())));
                assert(entries_model(out@) =~= seq![(id@, remote.model())] + entries_model(before_out));
                assert(entries_model(rest@) + entries_model(out@) =~= entries_model(before_rest)
                    + entries_model(before_out));
                assert(initial[rest@.len() as int].0@ == id@) by {
                    assert(entries_model(initial)[rest@.len() as int] == entries_model(before_rest)[rest@.len() as int]);
                }
            }
        }
        proof {
            assert(entries_model(rest@) =~= Seq::<(Seq<u8>, RemoteModel)>::empty());
            assert(entries_model(out@) =~= entries_model(initial));
            assert forall|i: int, j: int|
                0 <= i < out@.len() && 0 <= j < out@.len() && i != j implies out@[i].0@ != out@[j].0@ by {
                assert(out@[i].0@ == initial[i].0@);
                assert(out@[j].0@ == initial[j].0@);
            }
        }
        Remotes { entries: out }
    }
}

/// With distinct ids, the map has one entry per element.
pub proof fn lemma_distinct_map_len<V>(entries: Seq<(RemoteId, Remote<V>)>)
    requires
        distinct_ids(entries),
    ensures
        entries_map(entries_model(entries)).len() == entries.len(),
        entries_map(entries_model(entries)).dom().finite(),
        forall|k: Seq<u8>| #[trigger] entries_map(entries_model(entries)).dom().contains(k) <==> exists|i: int|
            0 <= i < entries.len() && entries[i].0@ == k,
    decreases entries.len(),
{
    if entries.len() > 0 {
        let init = entries.drop_last();
        assert(entries_model(init) =~= entries_model(entries).drop_last());
        lemma_distinct_map_len(init);
        let k = entries.last().0@;
        assert(!entries_map(entries_model(init)).dom().contains(k)) by {
            if entries_map(entries_model(init)).dom().contains(k) {
                let i = choose|i: int| 0 <= i < init.len() && init[i].0@ == k;
                assert(entries[i].0@ == entries[entries.len() - 1].0@);
            }
        }
        assert forall|kk: Seq<u8>| #[trigger] entries_map(entries_model(entries)).dom().contains(kk) <==> exists|i: int|
            0 <= i < entries.len() && entries[i].0@ == kk by {
            if entries_map(entries_model(entries)).dom().contains(kk) && kk != k {
                let i = choose|i: int| 0 <= i < init.len() && init[i].0@ == kk;
                assert(entries[i].0@ == kk);
            }
            if exists|i: int| 0 <= i < entries.len() && entries[i].0@ == kk {
                let i = choose|i: int| 0 <= i < entries.len() && entries[i].0@ == kk;
                if i < entries.len() - 1 {
                    assert(init[i].0@ == kk);
                }
            }
        }
    }
}

} // verus!
