//! Values that `git-http-backend` hands to the hooks.
use vstd::prelude::*;

use crate::git_server::error::Error;
use crate::text::str_eq;

verus! {

/// `CertNonceStatus` describes the status of verifying the signed nonce from
/// the user. If it does not match "OK", the `pre-receive` hook should fail unsuccessfully
#[derive(Debug, Clone, Copy, PartialEq, Eq, Structural)]
#[allow(non_camel_case_types, clippy::upper_case_acronyms)]
pub enum CertNonceStatus {
    /// "git push --signed" sent a nonce when we did not ask it to send one.
    UNSOLICITED,
    /// "git push --signed" did not send any nonce header.
    MISSING,
    /// "git push --signed" sent a bogus nonce.
    BAD,
    /// "git push --signed" sent the nonce we asked it to send.
    OK,
    /// "git push --signed" sent a nonce different from what we asked it to send now, but in a previous session.
    /// See GIT_PUSH_CERT_NONCE_SLOP environment variable.
    SLOP,
    /// Unknown type; not associated with git.
    UNKNOWN,
}

/// The nonce status that a `GIT_PUSH_CERT_NONCE_STATUS` value names.
pub open spec fn nonce_status_of(s: Seq<char>) -> CertNonceStatus {
    if s == "UNSOLICITED"@ {
        CertNonceStatus::UNSOLICITED
    } else if s == "MISSING"@ {
        CertNonceStatus::MISSING
    } else if s == "BAD"@ {
        CertNonceStatus::BAD
    } else if s == "OK"@ {
        CertNonceStatus::OK
    } else if s == "SLOP"@ {
        CertNonceStatus::SLOP
    } else {
        CertNonceStatus::UNKNOWN
    }
}

impl Default for CertNonceStatus {
    fn default() -> (r: Self)
        ensures
            r == CertNonceStatus::UNKNOWN,
    {
        CertNonceStatus::UNKNOWN
    }
}

impl CertNonceStatus {
    /// Reads a `GIT_PUSH_CERT_NONCE_STATUS` value; any unknown value is `UNKNOWN`.
    pub fn from_str(s: &str) -> (r: Result<CertNonceStatus, Error>)
        ensures
            r == Ok::<CertNonceStatus, Error>(nonce_status_of(s@)),
    {
        Ok(
            if str_eq(s, "UNSOLICITED") {
                CertNonceStatus::UNSOLICITED
            } else if str_eq(s, "MISSING") {
                CertNonceStatus::MISSING
            } else if str_eq(s, "BAD") {
                CertNonceStatus::BAD
            } else if str_eq(s, "OK") {
                CertNonceStatus::OK
            } else if str_eq(s, "SLOP") {
                CertNonceStatus::SLOP
            } else {
                CertNonceStatus::UNKNOWN
            },
        )
    }
}

/// `CertStatus` describes the status of verifying the GPG signature.
#[derive(Debug, Clone, Copy, PartialEq, Eq, Structural)]
pub enum CertStatus {
    GoodValid,
    GoodUnknown,
    GoodExpiredSignature,
    GoodExpiredKey,
    GoodRevokedKey,
    Bad,
    Error,
    NoSignature,
    Unknown,
}

/// The signature status that a `GIT_PUSH_CERT_STATUS` letter names, with the
/// mnemonics of git's `%G?` format: "G" good, "U" good with unknown validity,
/// "X" good but expired, "Y" good by an expired key, "R" good by a revoked key,
/// "B" bad, "E" cannot be checked, "N" no signature.
pub open spec fn cert_status_of(s: Seq<char>) -> CertStatus {
    if s == "G"@ {
        CertStatus::GoodValid
    } else if s == "U"@ {
        CertStatus::GoodUnknown
    } else if s == "X"@ {
        CertStatus::GoodExpiredSignature
    } else if s == "Y"@ {
        CertStatus::GoodExpiredKey
    } else if s == "R"@ {
        CertStatus::GoodRevokedKey
    } else if s == "B"@ {
        CertStatus::Bad
    } else if s == "E"@ {
        CertStatus::Error
    } else if s == "N"@ {
        CertStatus::NoSignature
    } else {
        CertStatus::Unknown
    }
}

impl CertStatus {
    /// Check whether we should authorize this cert signature: only a good
    /// signature, valid or of unknown validity, is.
    pub fn is_ok(&self) -> (r: bool)
        ensures
            r == (*self == CertStatus::GoodValid || *self == CertStatus::GoodUnknown),
    {
        matches!(self, Self::GoodValid | Self::GoodUnknown)
    }

    /// Reads a `GIT_PUSH_CERT_STATUS` letter; any unknown value is `Unknown`.
    pub fn from_str(s: &str) -> (r: Result<CertStatus, Error>)
        ensures
            r == Ok::<CertStatus, Error>(cert_status_of(s@)),
    {
        Ok(
            if str_eq(s, "G") {
                CertStatus::GoodValid
            } else if str_eq(s, "U") {
                CertStatus::GoodUnknown
            } else if str_eq(s, "X") {
                CertStatus::GoodExpiredSignature
            } else if str_eq(s, "Y") {
                CertStatus::GoodExpiredKey
            } else if str_eq(s, "R") {
                CertStatus::GoodRevokedKey
            } else if str_eq(s, "B") {
                CertStatus::Bad
            } else if str_eq(s, "E") {
                CertStatus::Error
            } else if str_eq(s, "N") {
                CertStatus::NoSignature
            } else {
                CertStatus::Unknown
            },
        )
    }
}

/// `ReceivePackEnv` provides access to environmental variables set and used by git-http-backend
/// when a `receive-pack` event is triggered. The values are used by both the `pre-receive` and `post-receive`
/// hooks within the `receive-pack` hook lifecycle.
///
/// Certificate variables are set by the git-http-backend process, while other variables are set
/// when receiving a new git client request and passing those variables to http-backend.
#[derive(Debug, Clone, Default)]
pub struct ReceivePackEnv {
    /// `GIT_PUSH_CERT`: object id of the blob where the signed certificate exists.
    pub cert: Option<String>,
    /// `GIT_PUSH_CERT_SIGNER`: name and e-mail address of the owner of the signing key.
    pub cert_signer: Option<String>,
    /// `GIT_PUSH_CERT_KEY`: the GPG key ID of the key that signed the push certificate.
    pub cert_key: Option<String>,
    /// `GIT_PUSH_CERT_STATUS`: the status of GPG verification of the push certificate.
    pub cert_status: Option<String>,
    /// `GIT_PUSH_CERT_NONCE`: the nonce the signer was asked to include.
    pub cert_nonce: Option<String>,
    /// `GIT_PUSH_CERT_NONCE_STATUS`: only an `OK` status is accepted for authorization.
    pub cert_nonce_status: Option<String>,
    /// `GIT_PUSH_CERT_NONCE_SLOP`: how many seconds the nonce is stale.
    pub cert_nonce_slop: Option<String>,
    /// `RADICLE_AUTHORIZED_KEYS`: comma delimited list of key fingerprints authorized for the push.
    pub authorized_keys: Option<String>,
    /// `RADICLE_ALLOW_UNAUTHORIZED_KEYS`: allow unauthorized keys, ignores push certificate verification.
    pub allow_unauthorized_keys: Option<bool>,
    /// `GIT_PROJECT_ROOT`: root directory where the `git` directory is found.
    pub git_project_root: String,
    /// `GIT_NAMESPACE`: namespace of the target repository.
    pub git_namespace: String,
    /// `REMOTE_USER`: set by the git-server.
    pub remote_user: Option<String>,
    /// `REMOTE_ADDR`: remote address of the socket making the request.
    pub remote_addr: Option<String>,
    /// `GIT_COMMITTER_NAME`: should match `REMOTE_USER`.
    pub git_committer_name: Option<String>,
    /// `GIT_COMMITTER_EMAIL`: `${REMOTE_USER}@http.${REMOTE_ADDR}`.
    pub git_committer_email: Option<String>,
    /// `CONTENT_TYPE`: HTTP header set by the git-server.
    pub content_type: String,
    /// `QUERY_STRING`: HTTP query string set by the git-server.
    pub query_string: String,
    /// `GIT_DIR`: top-level git directory, set by the git-http-backend.
    pub git_dir: String,
    /// `RADICLE_STORAGE_ROOT`: radicle storage root of the server.
    pub root: Option<String>,
    /// `RADICLE_DELEGATES`: comma delimited list of the project delegates.
    pub delegates: Option<String>,
    /// `RADICLE_DEFAULT_BRANCH`: the project's default branch.
    pub default_branch: Option<String>,
    /// `RADICLE_RECEIVE_HOOK`: path of a custom hook run after a push.
    pub receive_hook: Option<String>,
}

} // verus!
