//! Errors of the HTTP API and the responses that answer them.
use vstd::prelude::*;

verus! {

/// Errors that may occur when answering a request.
#[derive(Debug, Clone)]
pub enum Error {
    /// An error occurred when performing git operations; its message.
    Git(String),
    /// The namespace was expected in a reference but was not found.
    MissingNamespace,
    /// The project does not have a default branch.
    MissingDefaultBranch,
    /// The entity was not found.
    NotFound,
    /// No local head found and unable to resolve from delegates.
    NoHead(&'static str),
    /// An error occurred during an authentication process.
    Auth(&'static str),
    /// An error occurred while verifying the siwe message; its message.
    SiweVerification(String),
    /// An error occurred while parsing the siwe message; its message.
    SiweParse(String),
    /// An error occurred with the storage pool.
    Pool(String),
    /// An error occurred with radicle storage.
    Io(&'static str, String),
    /// Any other error of the storage, the identities or the sources; its message.
    Other(String),
}

/// The status code and message of the response to an error: not found (404)
/// for a missing entity or head, bad request (400) for a failed
/// authentication, internal server error (500) otherwise; the message of a
/// missing head, an authentication or git error is shown.
pub open spec fn response_of(e: Error) -> (u16, Option<Seq<char>>) {
    match e {
        Error::NotFound => (404, None),
        Error::NoHead(m) => (404, Some(m@)),
        Error::Auth(m) => (400, Some(m@)),
        Error::SiweParse(m) => (400, Some(m@)),
        Error::SiweVerification(m) => (400, Some(m@)),
        Error::Git(m) => (500, Some(m@)),
        _ => (500, None),
    }
}

/// `r` is the reason phrase of the status codes that the API answers with.
pub open spec fn reason_of(code: u16, r: Option<String>) -> bool {
    &&& code == 400 ==> (r matches Some(s) && s@ == "Bad Request"@)
    &&& code == 404 ==> (r matches Some(s) && s@ == "Not Found"@)
    &&& code == 500 ==> (r matches Some(s) && s@ == "Internal Server Error"@)
}

/// The reason phrase of a status code (`http::StatusCode::canonical_reason`),
/// as the HTTP standard names it.
#[verifier::external_body]
fn canonical_reason(code: u16) -> (r: Option<String>)
    requires
        100 <= code <= 999,
    ensures
        reason_of(code, r),
{
    warp::http::StatusCode::from_u16(code).ok().and_then(|s| s.canonical_reason()).map(|t| t.to_owned())
}

impl Error {
    /// The status code of the response, and the text of its `error` field:
    /// the error's message, or else the status code's reason phrase.
    pub fn response(&self) -> (r: (u16, Option<String>))
        ensures
            r.0 == response_of(*self).0,
            response_of(*self).1 matches Some(m) ==> (r.1 matches Some(t) && t@ == m),
            response_of(*self).1 is None && r.0 == 404 ==> (r.1 matches Some(t) && t@ == "Not Found"@),
            response_of(*self).1 is None && r.0 == 500 ==> (r.1 matches Some(t) && t@
                == "Internal Server Error"@),
    {
        let (code, msg): (u16, Option<String>) = match self {
            Error::NotFound => (404, None),
            Error::NoHead(m) => (404, Some((*m).to_owned())),
            Error::Auth(m) => (400, Some((*m).to_owned())),
            Error::SiweParse(m) => (400, Some(m.clone())),
            Error::SiweVerification(m) => (400, Some(m.clone())),
            Error::Git(m) => (500, Some(m.clone())),
            _ => (500, None),
        };
        match msg {
            Some(m) => (code, Some(m)),
            None => (code, canonical_reason(code)),
        }
    }
}

} // verus!
