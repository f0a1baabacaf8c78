//! Project metadata as the project browser shows it.
use vstd::prelude::*;

use crate::text::{str_eq, views};

verus! {

/// The project has no default branch.
#[derive(Debug, Clone, Copy, PartialEq, Eq, Structural)]
pub enum MetadataError {
    MissingDefaultBranch,
}

/// Project metadata.
#[derive(Debug, Clone)]
pub struct Metadata {
    /// Project name.
    pub name: String,
    /// Project description.
    pub description: String,
    /// Default branch of project.
    pub default_branch: String,
    /// The maintainers: the identities the project delegates to, each once.
    pub maintainers: Vec<String>,
}

/// No text occurs twice.
pub open spec fn distinct(v: Seq<Seq<char>>) -> bool {
    forall|i: int, j: int| 0 <= i < j < v.len() ==> v[i] != v[j]
}

/// The texts of `v`, each once, in the order of their first occurrence.
pub fn distinct_texts(v: &[String]) -> (r: Vec<String>)
    ensures
        distinct(views(r@)),
        forall|s: Seq<char>| views(r@).contains(s) <==> views(v@).contains(s),
{
    let mut out: Vec<String> = Vec::new();
    let mut i: usize = 0;
    while i < v.len()
        invariant
            i <= v@.len(),
            distinct(views(out@)),
            forall|s: Seq<char>| views(out@).contains(s) <==> views(v@).take(i as int).contains(s),
        decreases v@.len() - i,
    {
        let mut seen = false;
        let mut j: usize = 0;
        while j < out.len()
            invariant
                i < v@.len(),
                j <= out@.len(),
                seen <==> exists|k: int| 0 <= k < j && out@[k]@ == v@[i as int]@,
            decreases out@.len() - j,
        {
            if str_eq(out[j].as_str(), v[i].as_str()) {
                seen = true;
            }
            j = j + 1;
        }
        let ghost before = out@;
        if !seen {
            out.push(v[i].clone());
        }
        proof {
            assert(views(v@).take(i + 1) =~= views(v@).take(i as int).push(v@[i as int]@));
            if !seen {
                assert(views(out@) =~= views(before).push(v@[i as int]@));
                assert forall|a: int, b: int| 0 <= a < b < views(out@).len() implies views(out@)[a] != views(out@)[b] by {
                    if b == before.len() {
                        assert(views(out@)[a] == before[a]@);
                    }
                }
            } else {
                let k = choose|k: int| 0 <= k < out@.len() && out@[k]@ == v@[i as int]@;
                assert(views(out@)[k] == v@[i as int]@);
            }
            assert forall|s: Seq<char>| views(out@).contains(s) <==> views(v@).take(i + 1).contains(s) by {
                let t = views(v@).take(i + 1);
                if t.contains(s) {
                    let w = choose|w: int| 0 <= w < t.len() && #[trigger] t[w] == s;
                    if w < i {
                        assert(views(v@).take(i as int)[w] == s);
                        assert(views(before).contains(s));
                        let q = choose|q: int| 0 <= q < views(before).len() && #[trigger] views(before)[q] == s;
                        assert(views(out@)[q] == s);
                    } else {
                        assert(s == v@[i as int]@);
                        if seen {
                            let k = choose|k: int| 0 <= k < out@.len() && out@[k]@ == v@[i as int]@;
                            assert(views(out@)[k] == s);
                        } else {
                            assert(views(out@)[before.len() as int] == s);
                        }
                    }
                }
                if views(out@).contains(s) {
                    let w = choose|w: int| 0 <= w < views(out@).len() && #[trigger] views(out@)[w] == s;
                    if w < before.len() {
                        assert(views(before)[w] == s);
                        assert(views(before).contains(s));
                        assert(views(v@).take(i as int).contains(s));
                        let q = choose|q: int| 0 <= q < views(v@).take(i as int).len() && #[trigger] views(v@).take(i as int)[q] == s;
                        assert(t[q] == s);
                    } else {
                        assert(s == v@[i as int]@);
                        assert(t[i as int] == s);
                    }
                }
            }
        }
        i = i + 1;
    }
    assert(views(v@).take(i as int) =~= views(v@));
    out
}

impl Metadata {
    /// The metadata of a project: its name, its description (empty when it
    /// has none), its default branch, which it must have, and the identities
    /// it delegates to indirectly.
    pub fn from_project(
        name: String,
        description: Option<String>,
        default_branch: Option<String>,
        indirect_urns: &[String],
    ) -> (r: Result<Metadata, MetadataError>)
        ensures
            default_branch is None ==> r == Err::<Metadata, MetadataError>(MetadataError::MissingDefaultBranch),
            default_branch matches Some(b) ==> (r matches Ok(m) && m.name@ == name@ && m.default_branch@ == b@
                && m.description@ == match description {
                Some(d) => d@,
                None => Seq::<char>::empty(),
            } && distinct(views(m.maintainers@)) && forall|s: Seq<char>|
                views(m.maintainers@).contains(s) <==> views(indirect_urns@).contains(s)),
    {
        let maintainers = distinct_texts(indirect_urns);
        let default_branch = match default_branch {
            Some(b) => b,
            None => return Err(MetadataError::MissingDefaultBranch),
        };
        let description = match description {
            Some(d) => d,
            None => String::new(),
        };
        Ok(Metadata { name, description, default_branch, maintainers })
    }
}

/// Where the profile comes from.
#[derive(Debug, Clone, Copy, PartialEq, Eq, Structural)]
pub enum ProfileSource {
    /// The active profile.
    Active,
    /// A profile created with the passphrase.
    Create,
}

/// Where the signer comes from.
#[derive(Debug, Clone, Copy, PartialEq, Eq, Structural)]
pub enum SignerSource {
    /// The secret key, unlocked with the passphrase.
    SecretKey,
    /// The ssh-agent.
    SshAgent,
}

/// The profile to use: the active one, else one created with the passphrase.
pub fn profile_source(active: bool, passphrase_given: bool) -> (r: Result<ProfileSource, &'static str>)
    ensures
        active ==> r == Ok::<ProfileSource, &'static str>(ProfileSource::Active),
        !active && passphrase_given ==> r == Ok::<ProfileSource, &'static str>(ProfileSource::Create),
        !active && !passphrase_given ==> (r matches Err(m) && m@ == "No active profile and no passphrase supplied"@),
{
    if active {
        Ok(ProfileSource::Active)
    } else if passphrase_given {
        Ok(ProfileSource::Create)
    } else {
        Err("No active profile and no passphrase supplied")
    }
}

/// The signer to use: the secret key when a passphrase is given, else the
/// ssh-agent when it runs.
pub fn signer_source(passphrase_given: bool, agent_available: bool) -> (r: Result<SignerSource, &'static str>)
    ensures
        passphrase_given ==> r == Ok::<SignerSource, &'static str>(SignerSource::SecretKey),
        !passphrase_given && agent_available ==> r == Ok::<SignerSource, &'static str>(SignerSource::SshAgent),
        !passphrase_given && !agent_available ==> (r matches Err(m) && m@
            == "No signer found: ssh-agent isn't running, and no passphrase was supplied"@),
{
    if passphrase_given {
        Ok(SignerSource::SecretKey)
    } else if agent_available {
        Ok(SignerSource::SshAgent)
    } else {
        Err("No signer found: ssh-agent isn't running, and no passphrase was supplied")
    }
}

} // verus!
