//! # PRE-RECEIVE HOOK
//!
//! Before any ref is updated, git runs the `pre-receive` hook once, with one
//! line per ref to be updated on its standard input:
//!
//! `sha1-old SP sha1-new SP refname LF`
//!
//! The refname is relative to `$GIT_DIR`; refs to be created have `sha1-old`
//! equal to 0{40}, refs to be deleted have `sha1-new` equal to 0{40}.
//!
//! # Use by Radicle Git-Server
//!
//! The hook has access to the GPG certificate of a signed push, which it uses
//! to authorize the update of the repository.
use pgp::types::KeyTrait;
use pgp::Deserializable;
use vstd::prelude::*;

use super::types::{nonce_status_of, CertNonceStatus, ReceivePackEnv};
use super::CertSignerDetails;
use crate::git_server::error::Error;
use crate::oid::{hex_encode, hex_lower, oid_bytes_of, oid_text_ok, Oid};
use crate::refs::{path_join, path_join_spec};
use crate::text::{
    chars_of, contains_str, push_char, split_on, split_str, str_eq, upper_seq, uppercase_ascii, views,
};

verus! {

/// Where the public keys of a project's delegates are stored in its tree.
pub const DEFAULT_RAD_KEYS_PATH: &'static str = ".rad/keys/openpgp/";

/// The armored text is an OpenPGP public key that pgp reads.
pub uninterp spec fn pgp_parses(armored: Seq<char>) -> bool;

/// The self-signatures of the public key in the armored text check out.
pub uninterp spec fn pgp_verifies(armored: Seq<char>) -> bool;

/// The key id of the primary key in the armored text.
pub uninterp spec fn pgp_key_id(armored: Seq<char>) -> Seq<u8>;

/// The version of the primary key in the armored text (2 to 5).
pub uninterp spec fn pgp_key_version(armored: Seq<char>) -> u8;

/// The length in bytes of the RSA modulus of the primary key in the armored
/// text, when its public parameters are RSA ones.
pub uninterp spec fn pgp_rsa_modulus_len(armored: Seq<char>) -> Option<usize>;

/// pgp can compute the key id of the primary key: a version 4 key, or a
/// version 2 or 3 RSA key whose modulus has at least 8 bytes. For a version
/// 5 key pgp stops at `unimplemented!`, and for a shorter modulus its
/// subtraction `n.len() - 8` fails.
pub open spec fn pgp_key_id_defined(armored: Seq<char>) -> bool {
    ||| pgp_key_version(armored) == 4
    ||| (pgp_key_version(armored) == 2 || pgp_key_version(armored) == 3) && (pgp_rsa_modulus_len(
        armored,
    ) matches Some(n) && n >= 8)
}

/// A base64 digit other than the `=` padding.
pub open spec fn is_base64_digit(c: char) -> bool {
    ('A' <= c && c <= 'Z') || ('a' <= c && c <= 'z') || ('0' <= c && c <= '9') || c == '+' || c == '/'
}

/// The armor footer of a public key block, after the checksum line.
pub open spec fn armor_tail(checksum: Seq<char>) -> Seq<char> {
    seq!['\n', '='] + checksum + "\n-----END PGP PUBLIC KEY BLOCK-----"@
}

/// The armored text ends, but for one optional line feed, with a checksum
/// line of four base64 digits and the `END` line of a public key block.
/// pgp's armor reader marks itself done once it reads such a footer; without
/// it, reading on past the body stops the program (`invalid state`), and a
/// checksum that does not decode to at most three bytes does as well.
pub open spec fn armor_closed(text: Seq<char>) -> bool {
    let t = without_last_lf(text);
    &&& t.len() >= 41
    &&& t.skip(t.len() - 41) == armor_tail(t.subrange(t.len() - 39, t.len() - 35))
    &&& forall|i: int| t.len() - 39 <= i < t.len() - 35 ==> is_base64_digit(#[trigger] without_last_lf(text)[i])
}

/// The text without its last character when that is a line feed.
pub open spec fn without_last_lf(text: Seq<char>) -> Seq<char> {
    if text.len() > 0 && text.last() == '\n' {
        text.drop_last()
    } else {
        text
    }
}

/// Whether the armored text ends in the footer that pgp's armor reader needs.
pub fn armor_is_closed(text: &str) -> (r: bool)
    ensures
        r == armor_closed(text@),
{
    let mut v = chars_of(text);
    if v.len() > 0 && v[v.len() - 1] == '\n' {
        v.pop();
    }
    assert(v@ == without_last_lf(text@));
    if v.len() < 41 {
        return false;
    }
    let start = v.len() - 41;
    let tail = chars_of("\n-----END PGP PUBLIC KEY BLOCK-----");
    proof {
        reveal_strlit("\n-----END PGP PUBLIC KEY BLOCK-----");
    }
    assert(tail@.len() == 35);
    if v[start] != '\n' || v[start + 1] != '=' {
        proof {
            let t = v@;
            assert(armor_tail(t.subrange(t.len() - 39, t.len() - 35))[0] == '\n');
            assert(armor_tail(t.subrange(t.len() - 39, t.len() - 35))[1] == '=');
            assert(t.skip(t.len() - 41)[0] == t[start as int]);
            assert(t.skip(t.len() - 41)[1] == t[start + 1]);
        }
        return false;
    }
    let ghost tv = v@;
    let mut i: usize = 0;
    while i < 4
        invariant
            v@ == tv,
            tv == without_last_lf(text@),
            start + 41 == v.len(),
            i <= 4,
            forall|j: int| start + 2 <= j < start + 2 + i ==> is_base64_digit(#[trigger] v@[j]),
        decreases 4 - i,
    {
        let c = v[start + 2 + i];
        if !(('A' <= c && c <= 'Z') || ('a' <= c && c <= 'z') || ('0' <= c && c <= '9') || c == '+' || c == '/') {
            proof {
                let j = start + 2 + i;
                assert(!is_base64_digit(tv[j as int]));
                assert(tv.len() - 39 <= j < tv.len() - 35);
                if armor_closed(text@) {
                    assert(is_base64_digit(tv[j as int]));
                }
            }
            return false;
        }
        i = i + 1;
    }
    let mut k: usize = 0;
    while k < 35
        invariant
            v@ == tv,
            tv == without_last_lf(text@),
            tail@ == "\n-----END PGP PUBLIC KEY BLOCK-----"@,
            start + 41 == v.len(),
            tail@.len() == 35,
            k <= 35,
            forall|j: int| 0 <= j < k ==> v@[start + 6 + j] == tail@[j],
        decreases 35 - k,
    {
        if v[start + 6 + k] != tail[k] {
            proof {
                let t = v@;
                let c = t.subrange(t.len() - 39, t.len() - 35);
                assert(c.len() == 4);
                assert(armor_tail(c)[6 + k] == tail@[k as int]);
                assert(t.skip(t.len() - 41)[6 + k] == t[start + 6 + k]);
            }
            return false;
        }
        k = k + 1;
    }
    proof {
        let t = v@;
        let c = t.subrange(t.len() - 39, t.len() - 35);
        assert(t.skip(t.len() - 41) =~= armor_tail(c)) by {
            assert forall|j: int| 0 <= j < 41 implies #[trigger] t.skip(t.len() - 41)[j] == armor_tail(c)[j] by {
                if j >= 6 {
                    assert(t.skip(t.len() - 41)[j] == t[start + 6 + (j - 6)]);
                }
            }
        }
    }
    true
}

/// Reads an ASCII-armored public key (`pgp::Deserializable::from_string`):
/// whether it reads is named by `pgp_parses`; the message of the error is
/// handed back. pgp's armor reader has two `invalid state` panics; whether a
/// text can lead the packet parser to them is left unsaid here.
#[verifier::external_body]
fn pgp_read_key(content: &str) -> (r: Result<(), String>)
    requires
        armor_closed(content@),
    ensures
        r is Ok <==> pgp_parses(content@),
{
    match pgp::SignedPublicKey::from_string(content) {
        Ok(_) => Ok(()),
        Err(e) => Err(e.to_string()),
    }
}

/// The version of the primary key of the armored public key
/// (`pgp::types::KeyTrait::version` of the key read from the text), as its
/// number.
#[verifier::external_body]
fn pgp_primary_key_version(content: &str) -> (r: u8)
    requires
        armor_closed(content@),
        pgp_parses(content@),
    ensures
        r == pgp_key_version(content@),
{
    match pgp::SignedPublicKey::from_string(content) {
        Ok((key, _headers)) => match key.primary_key.version() {
            pgp::types::KeyVersion::V2 => 2,
            pgp::types::KeyVersion::V3 => 3,
            pgp::types::KeyVersion::V4 => 4,
            pgp::types::KeyVersion::V5 => 5,
        },
        Err(_) => 0,
    }
}

/// The byte length of the RSA modulus of the primary key of the armored
/// public key (`public_params` of the key read from the text), or `None`
/// when its parameters are not RSA ones.
#[verifier::external_body]
fn pgp_primary_rsa_modulus_len(content: &str) -> (r: Option<usize>)
    requires
        armor_closed(content@),
        pgp_parses(content@),
    ensures
        r == pgp_rsa_modulus_len(content@),
{
    match pgp::SignedPublicKey::from_string(content) {
        Ok((key, _headers)) => match key.primary_key.public_params() {
            pgp::types::PublicParams::RSA { n, .. } => Some(n.len()),
            _ => None,
        },
        Err(_) => None,
    }
}

/// Checks the self-signatures of the armored public key
/// (`pgp::SignedPublicKey::verify`, on the key read from the text): whether
/// they check out is named by `pgp_verifies`.
///
/// A signature with an issuer makes pgp compute the key's id, so the key id
/// must be computable.
#[verifier::external_body]
fn pgp_verify_key(content: &str) -> (r: Result<(), String>)
    requires
        armor_closed(content@),
        pgp_parses(content@),
        pgp_key_id_defined(content@),
    ensures
        r is Ok <==> pgp_verifies(content@),
{
    match pgp::SignedPublicKey::from_string(content) {
        Ok((key, _headers)) => key.verify().map_err(|e| e.to_string()),
        Err(e) => Err(e.to_string()),
    }
}

/// The key id of the primary key of the armored public key
/// (`pgp::types::KeyTrait::key_id`, on the key read from the text): pgp's
/// `KeyId` holds exactly 8 bytes.
#[verifier::external_body]
fn pgp_armored_key_id(content: &str) -> (r: Vec<u8>)
    requires
        armor_closed(content@),
        pgp_parses(content@),
        pgp_key_id_defined(content@),
    ensures
        r@ == pgp_key_id(content@),
        r@.len() == 8,
{
    match pgp::SignedPublicKey::from_string(content) {
        Ok((key, _headers)) => key.primary_key.key_id().as_ref().to_vec(),
        Err(_) => Vec::new(),
    }
}

/// The text without any occurrence of `c`.
pub open spec fn without_char(s: Seq<char>, c: char) -> Seq<char> {
    s.filter(|x: char| x != c)
}

/// Removes every occurrence of `c` from `s`, as `str::replace(c, "")` does.
pub fn remove_char(s: &str, c: char) -> (r: String)
    ensures
        r@ == without_char(s@, c),
{
    let v = chars_of(s);
    let mut r = String::new();
    let mut i: usize = 0;
    while i < v.len()
        invariant
            i <= v.len(),
            v@ == s@,
            r@ == without_char(v@.take(i as int), c),
        decreases v.len() - i,
    {
        proof {
            reveal(Seq::filter);
            assert(v@.take(i + 1).drop_last() =~= v@.take(i as int));
            assert(v@.take(i + 1).last() == v@[i as int]);
        }
        if v[i] != c {
            push_char(&mut r, v[i]);
        }
        i = i + 1;
    }
    assert(v@.take(i as int) =~= v@);
    r
}

/// The key ring of the `RADICLE_AUTHORIZED_KEYS` value: its comma-separated
/// entries, or none when it is not set.
pub open spec fn keyring_of(keys: Option<String>) -> Seq<Seq<char>> {
    match keys {
        Some(k) => split_on(k@, ','),
        None => Seq::empty(),
    }
}

/// The key id `id` is the key `key`, written in upper-case hexadecimal.
pub open spec fn key_id_is(id: Seq<u8>, key: Seq<char>) -> bool {
    upper_seq(hex_lower(id)) == key
}

/// `PreReceive` provides access to the standard input values passed into the
/// `pre-receive` git hook, as well as the environmental variables that may be
/// used to process the hook.
#[derive(Debug, Clone)]
pub struct PreReceive {
    /// Old SHA1.
    pub old: Oid,
    /// New SHA1.
    pub new: Oid,
    /// refname relative to $GIT_DIR.
    pub refname: String,
    /// Environmental variables.
    pub env: ReceivePackEnv,
}

// use cert signer details default utility implementations.
impl CertSignerDetails for PreReceive {

}

/// Parses an object id of the hook's input; the error carries the text.
fn parse_oid(s: &String) -> (r: Result<Oid, Error>)
    ensures
        oid_text_ok(s@) ==> (r matches Ok(o) && o.bytes@ == oid_bytes_of(s@)),
        !oid_text_ok(s@) ==> (r matches Err(Error::Git2Error(t)) && t@ == s@),
{
    match Oid::from_str(s.as_str()) {
        Some(o) => Ok(o),
        None => Err(Error::Git2Error(s.clone())),
    }
}

impl PreReceive {
    /// Reads the hook's input `old SP new SP refname`: the words before the
    /// first two spaces are the object ids, the third word is the refname, with
    /// its line feeds removed.
    pub fn parse(buffer: &str, env: ReceivePackEnv) -> (r: Result<PreReceive, Error>)
        requires
            split_on(buffer@, ' ').len() >= 3,
        ensures
            ({
                let w = split_on(buffer@, ' ');
                if !oid_text_ok(w[0]) {
                    r matches Err(Error::Git2Error(t)) && t@ == w[0]
                } else if !oid_text_ok(w[1]) {
                    r matches Err(Error::Git2Error(t)) && t@ == w[1]
                } else {
                    r matches Ok(p) && p.old.bytes@ == oid_bytes_of(w[0]) && p.new.bytes@
                        == oid_bytes_of(w[1]) && p.refname@ == without_char(w[2], '\n') && p.env
                        == env
                }
            }),
    {
        let input = split_str(buffer, ' ');
        assert(views(input@)[0] == input@[0]@);
        assert(views(input@)[1] == input@[1]@);
        assert(views(input@)[2] == input@[2]@);
        let old = parse_oid(&input[0])?;
        let new = parse_oid(&input[1])?;
        let refname = remove_char(input[2].as_str(), '\n');
        Ok(PreReceive { old, new, refname, env })
    }

    /// Succeeds iff the nonce status of the push certificate is `OK`.
    pub fn verify_certificate(&self) -> (r: Result<(), Error>)
        ensures
            ({
                let status = match self.env.cert_nonce_status {
                    Some(s) => s@,
                    None => Seq::empty(),
                };
                if nonce_status_of(status) == CertNonceStatus::OK {
                    r is Ok
                } else {
                    r matches Err(Error::FailedCertificateVerification)
                }
            }),
    {
        let status = match &self.env.cert_nonce_status {
            Some(s) => CertNonceStatus::from_str(s.as_str()),
            None => CertNonceStatus::from_str(""),
        };
        proof {
            reveal_strlit("");
            assert(""@ =~= Seq::<char>::empty());
        }
        match status {
            Ok(CertNonceStatus::OK) => Ok(()),
            _ => Err(Error::FailedCertificateVerification),
        }
    }

    /// The authorized keys: the comma-separated entries of `RADICLE_AUTHORIZED_KEYS`.
    pub fn authorized_keys(&self) -> (r: Result<Vec<String>, Error>)
        ensures
            r matches Ok(ks) && views(ks@) == keyring_of(self.env.authorized_keys),
    {
        match &self.env.authorized_keys {
            Some(k) => Ok(split_str(k.as_str(), ',')),
            None => Ok(Vec::new()),
        }
    }

    /// Whether the signing key must be looked up in the repository: there is
    /// a signing key and it is not in the key ring.
    pub fn needs_repository_check(&self) -> (r: bool)
        ensures
            r == (self.env.cert_key matches Some(k) && !keyring_of(self.env.authorized_keys).contains(
                k@,
            )),
    {
        match &self.env.cert_key {
            None => false,
            Some(key) => {
                let keys = match &self.env.authorized_keys {
                    Some(k) => split_str(k.as_str(), ','),
                    None => Vec::new(),
                };
                !contains_str(keys.as_slice(), key.as_str())
            },
        }
    }

    /// Checks that the key that signed the push certificate is authorized:
    /// it is in the key ring, or else the repository holds it as a delegate's
    /// key (`cert_authorized`, the outcome of that look-up, is only consulted
    /// then).
    pub fn check_authorized_key(&self, cert_authorized: Result<bool, Error>) -> (r: Result<(), Error>)
        ensures
            self.env.cert_key is None ==> r matches Err(Error::Unauthorized(_)),
            self.env.cert_key matches Some(k) ==> if keyring_of(self.env.authorized_keys).contains(k@) {
                r is Ok
            } else {
                match cert_authorized {
                    Err(e) => r == Err::<(), Error>(e),
                    Ok(true) => r is Ok,
                    Ok(false) => r matches Err(Error::Unauthorized(_)),
                }
            },
    {
        if self.needs_repository_check() {
            match cert_authorized {
                Err(e) => Err(e),
                Ok(true) => Ok(()),
                Ok(false) => Err(Error::Unauthorized("the signing key is not authorized")),
            }
        } else if self.env.cert_key.is_some() {
            Ok(())
        } else {
            Err(Error::Unauthorized("the push is not signed"))
        }
    }

    /// Authenticates the request: the push certificate is verified and its
    /// signing key is authorized.
    pub fn authenticate(&self, cert_authorized: Result<bool, Error>) -> (r: Result<(), Error>)
        ensures
            ({
                let status = match self.env.cert_nonce_status {
                    Some(s) => s@,
                    None => Seq::empty(),
                };
                if nonce_status_of(status) != CertNonceStatus::OK {
                    r matches Err(Error::FailedCertificateVerification)
                } else if self.env.cert_key is None {
                    r matches Err(Error::Unauthorized(_))
                } else if keyring_of(self.env.authorized_keys).contains(self.env.cert_key->0@) {
                    r is Ok
                } else {
                    match cert_authorized {
                        Err(e) => r == Err::<(), Error>(e),
                        Ok(true) => r is Ok,
                        Ok(false) => r matches Err(Error::Unauthorized(_)),
                    }
                }
            }),
    {
        self.verify_certificate()?;
        self.check_authorized_key(cert_authorized)
    }

    /// Decides the push once the project is known to exist: unauthorized keys
    /// may be allowed, which bypasses the certificate check; else the request
    /// is authenticated.
    pub fn authorize(&self, cert_authorized: Result<bool, Error>) -> (r: Result<(), Error>)
        ensures
            self.env.allow_unauthorized_keys == Some(true) ==> r is Ok,
            self.env.allow_unauthorized_keys != Some(true) ==> ({
                let status = match self.env.cert_nonce_status {
                    Some(s) => s@,
                    None => Seq::empty(),
                };
                if nonce_status_of(status) != CertNonceStatus::OK {
                    r matches Err(Error::FailedCertificateVerification)
                } else if self.env.cert_key is None {
                    r matches Err(Error::Unauthorized(_))
                } else if keyring_of(self.env.authorized_keys).contains(self.env.cert_key->0@) {
                    r is Ok
                } else {
                    match cert_authorized {
                        Err(e) => r == Err::<(), Error>(e),
                        Ok(true) => r is Ok,
                        Ok(false) => r matches Err(Error::Unauthorized(_)),
                    }
                }
            }),
    {
        if self.env.allow_unauthorized_keys == Some(true) {
            Ok(())
        } else {
            self.authenticate(cert_authorized)
        }
    }
}

/// Whether the project exists: the namespace can be entered, and it holds the
/// radicle identity reference `refs/rad/id`.
pub fn project_exists(namespace_set: bool, identity_found: bool) -> (r: Result<(), Error>)
    ensures
        !namespace_set ==> r matches Err(Error::NamespaceNotFound),
        namespace_set && !identity_found ==> r matches Err(Error::RadicleIdentityNotFound),
        namespace_set && identity_found ==> r is Ok,
{
    if !namespace_set {
        return Err(Error::NamespaceNotFound);
    }
    if !identity_found {
        return Err(Error::RadicleIdentityNotFound);
    }
    Ok(())
}

/// The path in a project's tree of the public key with the given id.
pub fn rad_key_path(key: &str) -> (r: String)
    ensures
        r@ == path_join_spec(DEFAULT_RAD_KEYS_PATH@, key@),
{
    path_join(DEFAULT_RAD_KEYS_PATH, key)
}

/// Whether a key id is the given key, written in upper-case hexadecimal.
pub fn key_id_matches(id: &[u8], key: &str) -> (r: bool)
    ensures
        r == key_id_is(id@, key@),
{
    let hex = hex_encode(id);
    let upper = uppercase_ascii(hex.as_str());
    str_eq(upper.as_str(), key)
}

/// Whether the armored public key stored in a project is the key that signed
/// the push: the key is read and its self-signatures checked (failures are
/// OpenPGP errors), then its key id, in upper-case hexadecimal, is compared
/// with the signing key.
pub fn key_file_matches(content: &str, key: &str) -> (r: Result<bool, Error>)
    requires
        armor_closed(content@),
        pgp_parses(content@) ==> pgp_key_id_defined(content@),
    ensures
        !pgp_parses(content@) ==> r matches Err(Error::PgpError(_)),
        pgp_parses(content@) && !pgp_verifies(content@) ==> r matches Err(Error::PgpError(_)),
        pgp_parses(content@) && pgp_verifies(content@) ==> r == Ok::<bool, Error>(
            key_id_is(pgp_key_id(content@), key@),
        ),
{
    if let Err(e) = pgp_read_key(content) {
        return Err(Error::PgpError(e));
    }
    if let Err(e) = pgp_verify_key(content) {
        return Err(Error::PgpError(e));
    }
    let id = pgp_armored_key_id(content);
    let b = key_id_matches(id.as_slice(), key);
    Ok(b)
}

/// Whether pgp can compute the key id of the armored key, asked of pgp: a
/// text that does not read has no key to ask about.
pub fn key_id_computable(content: &str) -> (r: bool)
    requires
        armor_closed(content@),
    ensures
        r == (pgp_parses(content@) ==> pgp_key_id_defined(content@)),
{
    if pgp_read_key(content).is_err() {
        return true;
    }
    let version = pgp_primary_key_version(content);
    if version == 4 {
        return true;
    }
    if version == 2 || version == 3 {
        match pgp_primary_rsa_modulus_len(content) {
            Some(n) => n >= 8,
            None => false,
        }
    } else {
        false
    }
}

/// `key_file_matches` on the texts pgp reads through and the keys whose id it
/// can compute; `None` on the others (a text without the armor footer,
/// version 5 keys, and version 2 or 3 keys with a modulus shorter than 8
/// bytes), where pgp would stop the program.
pub fn key_file_matches_checked(content: &str, key: &str) -> (r: Option<Result<bool, Error>>)
    ensures
        !armor_closed(content@) ==> r is None,
        armor_closed(content@) && !(pgp_parses(content@) ==> pgp_key_id_defined(content@)) ==> r is None,
        armor_closed(content@) && (pgp_parses(content@) ==> pgp_key_id_defined(content@)) ==> (r matches Some(m) && (
            !pgp_parses(content@) ==> m matches Err(Error::PgpError(_))) && (pgp_parses(content@)
            && !pgp_verifies(content@) ==> m matches Err(Error::PgpError(_))) && (pgp_parses(content@)
            && pgp_verifies(content@) ==> m == Ok::<bool, Error>(key_id_is(pgp_key_id(content@), key@)))),
{
    if armor_is_closed(content) && key_id_computable(content) {
        Some(key_file_matches(content, key))
    } else {
        None
    }
}

} // verus!
