use radicle_services::indexer::{recover_status, repo_key, repos_page, sync_fetch_args, Error, PAGINATION};
use radicle_services::keys::{ssh_key_blob, to_ssh_fingerprint};
use radicle_services::oid::Oid;
use radicle_services::project_meta::{profile_source, signer_source, Metadata, MetadataError, ProfileSource, SignerSource};
use radicle_services::text::{join_strings, lowercase_ascii, split_str, uppercase_ascii};

#[test]
fn object_ids() {
    let hex = "0123456789abcdef0123456789abcdef01234567";
    let oid = Oid::from_str(hex).unwrap();
    assert_eq!(oid.to_hex(), hex);
    let upper = Oid::from_str("ABCDEF").unwrap();
    assert_eq!(upper.to_hex(), format!("abcdef{}", "0".repeat(34)));
    assert!(Oid::from_str("").is_none());
    assert!(Oid::from_str("xyz").is_none());
    assert!(Oid::from_str(&"a".repeat(41)).is_none());
    assert!(Oid::from_str(&"0".repeat(40)).unwrap().is_zero());
    assert!(oid.same(&Oid::from_str(hex).unwrap()));
}

#[test]
fn ssh_fingerprints() {
    let key = [0u8; 32];
    let blob = ssh_key_blob(&key);
    assert_eq!(&blob[0..4], &[0, 0, 0, 11]);
    assert_eq!(&blob[4..15], b"ssh-ed25519");
    assert_eq!(&blob[15..19], &[0, 0, 0, 32]);
    assert_eq!(blob.len(), 51);
    let fp = to_ssh_fingerprint(&key);
    assert!(fp.starts_with("SHA256:"));
    assert!(!fp.ends_with('='));
    assert_eq!(fp.len(), 7 + 43);
    assert_eq!(fp, "SHA256:kmYcvdi2GkPeWxB6XLjrZB8JHsy2Hm8luHMFp9GMvqk");
    assert_ne!(fp, to_ssh_fingerprint(&[1u8; 32]));
}

#[test]
fn text_helpers() {
    assert_eq!(split_str("a,,b", ','), vec!["a".to_owned(), "".to_owned(), "b".to_owned()]);
    assert_eq!(join_strings(&["a".to_owned(), "b".to_owned()], ", "), "a, b");
    assert_eq!(lowercase_ascii("AbC-É"), "abc-É");
    assert_eq!(uppercase_ascii("abC-é"), "ABC-é");
}

#[test]
fn indexer_pages() {
    assert_eq!(repo_key("alias::urn"), "repo::alias::urn");
    let e = |k: &str| (k.to_owned(), "server".to_owned());
    let entries = vec![e("repo::a"), e("repo::b"), e("user::c"), e("repo::d")];
    assert_eq!(repos_page(entries.clone(), PAGINATION).len(), 2);
    assert_eq!(repos_page(entries.clone(), 1), vec![e("repo::a")]);
    assert!(repos_page(vec![e("user::x")], PAGINATION).is_empty());
    assert_eq!(recover_status(true, None), 404);
    assert_eq!(recover_status(false, Some(&Error::NotFound)), 404);
    assert_eq!(recover_status(false, Some(&Error::ParseError("p".to_owned()))), 400);
}

#[test]
fn indexer_sync_args() {
    let args = sync_fetch_args("seed.example.com:8778", "hnrkabc").unwrap();
    assert_eq!(args[0], "fetch");
    assert_eq!(args[1], "--force");
    assert_eq!(args[2], "http://seed.example.com:8778/hnrkabc");
    assert_eq!(args[3], "refs/rad/id:refs/namespaces/hnrkabc/refs/rad/id");
    assert!(matches!(sync_fetch_args("[bad", "x"), Err(Error::ParseError(_))));
}

#[test]
fn project_metadata() {
    let m = Metadata::from_project(
        "nakamoto".to_owned(),
        None,
        Some("master".to_owned()),
        &["u1".to_owned(), "u2".to_owned(), "u1".to_owned()],
    )
    .unwrap();
    assert_eq!(m.description, "");
    assert_eq!(m.default_branch, "master");
    assert_eq!(m.maintainers, vec!["u1".to_owned(), "u2".to_owned()]);
    assert!(matches!(
        Metadata::from_project("n".to_owned(), Some("d".to_owned()), None, &[]),
        Err(MetadataError::MissingDefaultBranch)
    ));
    assert_eq!(profile_source(true, false), Ok(ProfileSource::Active));
    assert_eq!(profile_source(false, true), Ok(ProfileSource::Create));
    assert!(profile_source(false, false).is_err());
    assert_eq!(signer_source(true, true), Ok(SignerSource::SecretKey));
    assert_eq!(signer_source(false, true), Ok(SignerSource::SshAgent));
    assert_eq!(signer_source(false, false), Err("No signer found: ssh-agent isn't running, and no passphrase was supplied"));
}
