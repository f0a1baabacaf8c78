//! Errors of the git server and of its git hooks.
use vstd::prelude::*;

verus! {

/// Errors that may occur when interacting with the radicle git server or git hooks.
///
/// Errors that come from other libraries carry their message as text.
#[derive(Debug)]
pub enum Error {
    /// I/O error.
    Io(String),
    /// The content encoding is not supported.
    UnsupportedContentEncoding(&'static str),
    /// The service is not available.
    ServiceUnavailable(&'static str),
    /// HTTP error.
    Http(String),
    /// Git backend error.
    Backend,
    /// Failed certificate verification.
    FailedCertificateVerification,
    /// Unauthorized.
    Unauthorized(&'static str),
    /// Namespace not found.
    NamespaceNotFound,
    /// Reference not found.
    ReferenceNotFound,
    /// Radicle identity not found for project.
    RadicleIdentityNotFound,
    /// Environmental variable error.
    VarError(String),
    /// Git error.
    Git2Error(String),
    /// Missing certification signer credentials.
    MissingCertificateSignerCredentials(String),
    /// Missing environmental variable.
    EnvConfigError(String),
    /// Failed to parse byte data into string.
    Utf8Error,
    /// OpenPGP errors.
    PgpError(String),
    /// Profile error.
    Profile(String),
    /// Failed to connect to org-node unix socket.
    UnixSocket,
    /// An error occured with initializing read-only storage.
    Init(String),
    /// An error occured with radicle identities.
    Identities(String),
    /// An error occured with a git storage pool.
    Pool(String),
    /// Stored refs error.
    Stored(String),
    /// The project id of a request is not a valid id.
    InvalidId,
    /// A delegate is not a valid peer id.
    InvalidPeerId,
    /// No project is known under the requested alias.
    AliasNotFound,
    /// The project has no default branch.
    NoDefaultBranch,
    /// The post-receive hook refused the push.
    PostReceive(&'static str),
    /// The pushed identity document could not be verified.
    VerifyIdentity(String),
    /// The custom receive hook could not be run.
    CustomHook(String),
}

/// The HTTP status code that answers a request that failed with `e`.
pub open spec fn status_of(e: Error) -> u16 {
    match e {
        Error::UnsupportedContentEncoding(_) => 501,
        Error::ServiceUnavailable(_) => 503,
        Error::Unauthorized(_) => 401,
        _ => 500,
    }
}

impl Error {
    /// The HTTP status code that answers a request that failed with this error.
    pub fn status(&self) -> (code: u16)
        ensures
            code == status_of(*self),
    {
        match self {
            Error::UnsupportedContentEncoding(_) => 501,
            Error::ServiceUnavailable(_) => 503,
            Error::Unauthorized(_) => 401,
            _ => 500,
        }
    }
}

} // verus!
