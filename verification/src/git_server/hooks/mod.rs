//! Git hooks run by `git-receive-pack`.
pub mod post_receive;
pub mod pre_receive;
pub mod storage;
pub mod types;

use vstd::prelude::*;

use crate::git_server::error::Error;
use crate::text::{chars_of, find_char, first_index, lemma_first_index, string_of_range};

verus! {

/// Where the name of a signer ends: one character before the first `<`, or
/// one character before the end when there is no `<`.
pub open spec fn name_end(s: Seq<char>) -> int {
    first_index(s, '<') - 1
}

/// The signer's name can be cut out of `s`: the character at which it is cut
/// off is an ASCII character (the name is cut at a byte position of the text).
pub open spec fn name_cut_ok(s: Seq<char>) -> bool {
    name_end(s) >= 0 && (s[name_end(s)] as u32) < 128
}

/// Both `<` and `>` occur in `s`.
pub open spec fn email_present(s: Seq<char>) -> bool {
    first_index(s, '<') < s.len() && first_index(s, '>') < s.len()
}

/// The signer's e-mail address can be cut out of `s`: when both `<` and `>`
/// occur, the first `<` comes before the first `>`.
pub open spec fn email_cut_ok(s: Seq<char>) -> bool {
    first_index(s, '<') < s.len() && first_index(s, '>') < s.len() ==> first_index(s, '<')
        < first_index(s, '>')
}

/// Trait for shared default methods for accessing
/// GPG signed push certificate detail information, such as
/// signer name and email set in the `$GIT_PUSH_CERT_SIGNER` env.
///
/// e.g. `First Last <first.last@email.com>`
pub trait CertSignerDetails {
    /// returns the name of the GPG signer set from the `$GIT_PUSH_CERT_SIGNER` env:
    /// the text before the character that precedes the first `<`.
    fn signer_name(cert_signer: Option<String>) -> (r: Result<String, Error>)
        requires
            cert_signer matches Some(s) ==> name_cut_ok(s@),
        ensures
            cert_signer matches Some(s) ==> (r matches Ok(name) && name@ == s@.take(name_end(s@))),
            cert_signer is None ==> (r matches Err(Error::MissingCertificateSignerCredentials(what))
                && what@ == "name"@),
    {
        if let Some(signer) = cert_signer {
            let v = chars_of(signer.as_str());
            let k = match find_char(v.as_slice(), '<') {
                Some(k) => k,
                None => v.len(),
            };
            proof {
                lemma_first_index(v@, '<');
            }
            return Ok(string_of_range(v.as_slice(), 0, k - 1));
        }
        Err(Error::MissingCertificateSignerCredentials("name".to_owned()))
    }

    /// returns the email of the GPG signer set from the `$GIT_PUSH_CERT_SIGNER` env:
    /// the text between the first `<` and the first `>`.
    fn signer_email(cert_signer: Option<String>) -> (r: Result<String, Error>)
        requires
            cert_signer matches Some(s) ==> email_cut_ok(s@),
        ensures
            cert_signer matches Some(s) ==> if email_present(s@) {
                r matches Ok(email) && email@ == s@.subrange(
                    first_index(s@, '<') + 1,
                    first_index(s@, '>'),
                )
            } else {
                r matches Err(Error::MissingCertificateSignerCredentials(what)) && what@ == "email"@
            },
            cert_signer is None ==> (r matches Err(Error::MissingCertificateSignerCredentials(what))
                && what@ == "email"@),
    {
        if let Some(signer) = cert_signer {
            let v = chars_of(signer.as_str());
            if let Some(start) = find_char(v.as_slice(), '<') {
                if let Some(end) = find_char(v.as_slice(), '>') {
                    return Ok(string_of_range(v.as_slice(), start + 1, end));
                }
            }
        }
        Err(Error::MissingCertificateSignerCredentials("email".to_owned()))
    }
}

} // verus!
