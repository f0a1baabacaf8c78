use radicle_services::git_server::server::{authorized_keys_path, receive_hook_path};
use radicle_services::git_server::backend::{backend_outcome, output_cuts_badly, project_request, receive_pack_gate};
use radicle_services::git_server::backend::{is_gzip, is_receive_pack, parse_backend_output, path_info_of};
use radicle_services::git_server::error::Error;
use radicle_services::git_server::hooks::post_receive::{
    delegates_to_track, key_fingerprint, parse_update, parse_updates, split_delegates, IdentityDoc,
    IdentityKind, PostReceive,
};
use radicle_services::git_server::hooks::pre_receive::{
    armor_is_closed, key_file_matches, key_file_matches_checked, key_id_computable, key_id_matches, project_exists, rad_key_path, remove_char, PreReceive,
};
use radicle_services::git_server::hooks::storage::{
    plan, Applied, Current, PreviousError, PreviousValue, Txn, TxnAction, TxnAwait, TxnEvent, TxnRun, Update,
    Updated,
};
use radicle_services::git_server::hooks::types::{CertNonceStatus, CertStatus, ReceivePackEnv};
use radicle_services::git_server::hooks::CertSignerDetails;
use radicle_services::git_server::server::{
    authorized_keys_from_lines, gen_random_string, identity_meta, parse_ref, recover_status, MetaDoc,
};
use radicle_services::oid::Oid;
use radicle_services::org_node::client::Delegation;

const ZERO: &str = "0000000000000000000000000000000000000000";
const ONES: &str = "1111111111111111111111111111111111111111";
const AB: &str = "abababababababababababababababababababab";

fn peer() -> &'static str {
    "hyypw8z5g7tbui9ceh6tng58i1qk696isjnzix9fq9g41fzgjgqk8g"
}

fn is_peer(p: &str) -> bool {
    p == peer()
}

#[test]
fn signer_name_and_email() {
    let signer = Some("First Last <first.last@email.com>".to_owned());
    assert_eq!(PreReceive::signer_name(signer.clone()).unwrap(), "First Last");
    assert_eq!(PreReceive::signer_email(signer).unwrap(), "first.last@email.com");
    assert!(matches!(
        PostReceive::signer_name(None),
        Err(Error::MissingCertificateSignerCredentials(w)) if w == "name"
    ));
    assert!(matches!(
        PostReceive::signer_email(Some("no brackets".to_owned())),
        Err(Error::MissingCertificateSignerCredentials(w)) if w == "email"
    ));
}

#[test]
fn cert_statuses() {
    assert_eq!(CertNonceStatus::from_str("OK").unwrap(), CertNonceStatus::OK);
    assert_eq!(CertNonceStatus::from_str("SLOP").unwrap(), CertNonceStatus::SLOP);
    assert_eq!(CertNonceStatus::from_str("whatever").unwrap(), CertNonceStatus::UNKNOWN);
    assert_eq!(CertNonceStatus::default(), CertNonceStatus::UNKNOWN);
    assert!(CertStatus::from_str("G").unwrap().is_ok());
    assert!(CertStatus::from_str("U").unwrap().is_ok());
    assert!(!CertStatus::from_str("B").unwrap().is_ok());
    assert_eq!(CertStatus::from_str("Z").unwrap(), CertStatus::Unknown);
}

#[test]
fn error_statuses() {
    assert_eq!(Error::UnsupportedContentEncoding("br").status(), 501);
    assert_eq!(Error::ServiceUnavailable("x").status(), 503);
    assert_eq!(Error::Unauthorized("x").status(), 401);
    assert_eq!(Error::Backend.status(), 500);
    assert_eq!(recover_status(true, None), 404);
    assert_eq!(recover_status(false, Some(&Error::Unauthorized("x"))), 401);
    assert_eq!(recover_status(false, None), 400);
}

#[test]
fn refs_of_remotes() {
    let (p, rest) = parse_ref(&format!("refs/remotes/{}/heads/master", peer()), &is_peer).unwrap();
    assert_eq!(p, peer());
    assert_eq!(rest, "heads/master");
    assert!(matches!(parse_ref("refs/heads/master", &is_peer), Err(Error::Io(_))));
    assert!(matches!(parse_ref("refs/remotes/nopeer", &is_peer), Err(Error::Io(_))));
    assert!(matches!(parse_ref("refs/remotes/x/heads/master", &is_peer), Err(Error::Io(_))));
}

#[test]
fn random_nonce_seed() {
    let s = gen_random_string();
    assert_eq!(s.len(), 12);
    assert!(s.chars().all(|c| c.is_ascii_alphanumeric()));
}

#[test]
fn authorized_keys_dedup() {
    let lines = vec!["a".to_owned(), "".to_owned(), "b".to_owned(), "a".to_owned()];
    let keys = authorized_keys_from_lines(&lines);
    assert_eq!(keys, vec!["a".to_owned(), "b".to_owned()]);
}

#[test]
fn backend_request_helpers() {
    assert!(is_receive_pack("git-receive-pack", ""));
    assert!(is_receive_pack("info/refs", "service=git-receive-pack"));
    assert!(!is_receive_pack("info/refs", "service=git-upload-pack"));
    assert!(is_gzip(Some("gzip")));
    assert!(!is_gzip(None));
    assert_eq!(path_info_of("info/refs"), "/info/refs");
    assert_eq!(path_info_of("/info/refs"), "/info/refs");
}

#[test]
fn backend_output() {
    let out = b"Status: 404 Not Found\r\nContent-Type: text/plain\r\nExpires: never\r\nContent-Type: x\r\n\r\nhello";
    let resp = parse_backend_output(out).unwrap();
    assert_eq!(resp.status, 404);
    assert_eq!(resp.body, b"hello".to_vec());
    let ct = resp.headers.iter().find(|(n, _)| n == "Content-Type").unwrap();
    assert_eq!(ct.1, vec!["text/plain".to_owned(), "x".to_owned()]);
    assert!(resp.headers.iter().all(|(n, _)| n != "Status"));
    let ok = parse_backend_output(b"Content-Type: a\n\n").unwrap();
    assert_eq!(ok.status, 200);
    assert!(matches!(parse_backend_output(b"no colon here\n\n"), Err(Error::Backend)));
}

#[test]
fn backend_exit_status() {
    let out = b"Content-Type: a\n\nbody";
    assert!(matches!(backend_outcome(false, out), Err(Error::Backend)));
    assert_eq!(backend_outcome(true, out).unwrap().body, b"body".to_vec());
    assert!(!output_cuts_badly(out));
    assert!(output_cuts_badly(b"Content-Type:\n\n"));
    assert!(output_cuts_badly(b"X: a\nContent-Type:\xc3\xa9\n\n"));
    assert!(!output_cuts_badly(b"no colon\nContent-Type:\n\n"));
}

#[test]
fn pre_receive_parse() {
    let input = format!("{} {} refs/heads/master\n", ZERO, ONES);
    let p = PreReceive::parse(&input, ReceivePackEnv::default()).unwrap();
    assert!(p.old.is_zero());
    assert_eq!(p.new.to_hex(), ONES);
    assert_eq!(p.refname, "refs/heads/master");
    let bad = format!("{} zz refs/heads/master", ZERO);
    assert!(matches!(PreReceive::parse(&bad, ReceivePackEnv::default()), Err(Error::Git2Error(t)) if t == "zz"));
    assert_eq!(remove_char("a\nb\n", '\n'), "ab");
}

fn pre(env: ReceivePackEnv) -> PreReceive {
    PreReceive::parse(&format!("{} {} refs/heads/master", ZERO, ONES), env).unwrap()
}

#[test]
fn pre_receive_authorization() {
    let mut env = ReceivePackEnv::default();
    env.cert_nonce_status = Some("OK".to_owned());
    env.cert_key = Some("ABCD".to_owned());
    env.authorized_keys = Some("1234,ABCD".to_owned());
    let p = pre(env.clone());
    assert!(p.verify_certificate().is_ok());
    assert_eq!(p.authorized_keys().unwrap(), vec!["1234".to_owned(), "ABCD".to_owned()]);
    assert!(!p.needs_repository_check());
    assert!(p.authenticate(Ok(false)).is_ok());

    let mut other = env.clone();
    other.cert_key = Some("FFFF".to_owned());
    let q = pre(other);
    assert!(q.needs_repository_check());
    assert!(q.check_authorized_key(Ok(true)).is_ok());
    assert!(matches!(q.check_authorized_key(Ok(false)), Err(Error::Unauthorized(_))));
    assert!(matches!(q.check_authorized_key(Err(Error::ReferenceNotFound)), Err(Error::ReferenceNotFound)));

    let mut slop = env.clone();
    slop.cert_nonce_status = Some("SLOP".to_owned());
    assert!(matches!(pre(slop).authenticate(Ok(true)), Err(Error::FailedCertificateVerification)));

    let mut unsigned = env.clone();
    unsigned.cert_key = None;
    assert!(matches!(pre(unsigned.clone()).check_authorized_key(Ok(true)), Err(Error::Unauthorized(_))));

    let mut allowed = unsigned;
    allowed.cert_nonce_status = None;
    allowed.allow_unauthorized_keys = Some(true);
    assert!(pre(allowed.clone()).authorize(Ok(false)).is_ok());
    allowed.allow_unauthorized_keys = Some(false);
    assert!(matches!(pre(allowed).authorize(Ok(false)), Err(Error::FailedCertificateVerification)));
}

#[test]
fn pre_receive_project_and_keys() {
    assert!(matches!(project_exists(false, true), Err(Error::NamespaceNotFound)));
    assert!(matches!(project_exists(true, false), Err(Error::RadicleIdentityNotFound)));
    assert!(project_exists(true, true).is_ok());
    assert_eq!(rad_key_path("ABCD"), ".rad/keys/openpgp/ABCD");
    assert!(key_id_matches(&[0xab, 0xcd, 0x01], "ABCD01"));
    assert!(!key_id_matches(&[0xab, 0xcd, 0x01], "abcd01"));
    let broken = "-----BEGIN PGP PUBLIC KEY BLOCK-----\n\nAAAA\n=goRF\n-----END PGP PUBLIC KEY BLOCK-----\n";
    assert!(armor_is_closed(broken));
    assert!(matches!(key_file_matches(broken, "ABCD"), Err(Error::PgpError(_))));
    assert!(key_id_computable(broken));
    assert!(matches!(key_file_matches_checked(broken, "ABCD"), Some(Err(Error::PgpError(_)))));
    assert!(!armor_is_closed("not a key"));
    assert!(key_file_matches_checked("not a key", "ABCD").is_none());
}

fn updates_input() -> Vec<String> {
    vec![
        format!("{} {} refs/remotes/{}/heads/master", ZERO, AB, peer()),
        format!("{} {} refs/remotes/{}/heads/dev", ONES, ZERO, peer()),
        format!("{} {} refs/remotes/{}/rad/id", ZERO, ONES, peer()),
    ]
}

fn post(default_branch: Option<&str>, delegates: Vec<String>) -> PostReceive {
    let mut env = ReceivePackEnv::default();
    env.git_namespace = "hnrkfbrd7y9674d8ow8uioki16fniwcyoz67y".to_owned();
    env.default_branch = default_branch.map(|b| b.to_owned());
    env.cert_key = Some("KEY".to_owned());
    PostReceive {
        urn: "hnrkfbrd7y9674d8ow8uioki16fniwcyoz67y".to_owned(),
        delegates,
        key_fingerprint: key_fingerprint(&env).unwrap(),
        updates: parse_updates(&updates_input()).unwrap(),
        env,
    }
}

#[test]
fn post_receive_input() {
    let u = parse_update(&format!("{} {} refs/heads/x", ZERO, ONES)).unwrap();
    assert_eq!(u.0, "refs/heads/x");
    assert!(u.1.is_zero());
    assert!(matches!(parse_updates(&[format!("{} q refs/heads/x", ZERO)]), Err(Error::Git2Error(t)) if t == "q"));
    assert_eq!(split_delegates(&Some("a,b".to_owned())), vec!["a".to_owned(), "b".to_owned()]);
    assert!(split_delegates(&None).is_empty());
    assert!(matches!(key_fingerprint(&ReceivePackEnv::default()), Err(Error::PostReceive(m)) if m == "push certificate is not available"));
}

#[test]
fn post_receive_heads() {
    let p = post(Some("master"), vec![peer().to_owned()]);
    let (refs, err) = p.head_updates(&is_peer);
    assert!(err.is_none());
    assert_eq!(refs, vec![format!("refs/remotes/{}/heads/master", peer())]);
    let (remote, local, head) = p.set_head_refs(&refs[0], "master");
    assert_eq!(
        remote,
        format!("refs/namespaces/hnrkfbrd7y9674d8ow8uioki16fniwcyoz67y/refs/remotes/{}/heads/master", peer())
    );
    assert_eq!(local, "refs/namespaces/hnrkfbrd7y9674d8ow8uioki16fniwcyoz67y/refs/heads/master");
    assert_eq!(head, "refs/namespaces/hnrkfbrd7y9674d8ow8uioki16fniwcyoz67y/HEAD");

    let two = post(Some("master"), vec![peer().to_owned(), "other".to_owned()]);
    assert!(two.head_updates(&is_peer).0.is_empty());
    let none = post(None, vec![peer().to_owned()]);
    assert!(none.head_updates(&is_peer).0.is_empty());

    let mut bad = post(Some("master"), vec![peer().to_owned()]);
    bad.updates.push(("refs/heads/x".to_owned(), Oid::from_str(ZERO).unwrap(), Oid::from_str(ZERO).unwrap()));
    let (refs, err) = bad.head_updates(&is_peer);
    assert_eq!(refs.len(), 1);
    assert!(matches!(err, Some(Error::Io(_))));
}

#[test]
fn post_receive_identity() {
    let p = post(Some("master"), vec![]);
    assert_eq!(p.find_identity_update().unwrap().to_hex(), ONES);
    assert_eq!(
        p.namespace_ref("rad/id"),
        "refs/namespaces/hnrkfbrd7y9674d8ow8uioki16fniwcyoz67y/refs/rad/id"
    );
    assert!(matches!(p.identity_to_initialize(), Err(Error::PostReceive(m)) if m == "identity old ref already exists"));
    let mut fresh = post(Some("master"), vec![]);
    fresh.updates.remove(1);
    assert_eq!(fresh.identity_to_initialize().unwrap().to_hex(), ONES);
    let mut noid = post(Some("master"), vec![]);
    noid.updates.truncate(1);
    assert!(matches!(noid.identity_to_initialize(), Err(Error::PostReceive(m)) if m == "identity ref 'rad/id' not found in updates"));
    assert!(p.check_identity(&p.urn.clone(), IdentityKind::Project).is_ok());
    assert!(matches!(p.check_identity("x", IdentityKind::Project), Err(Error::PostReceive(m)) if m == "identity document doesn't match project id"));
    assert!(matches!(p.check_identity(&p.urn.clone(), IdentityKind::Other), Err(Error::PostReceive(m)) if m == "unknown identity type"));
    assert_eq!(p.set_id_message(), "set-id (KEY)");
    assert_eq!(p.pusher(&is_peer).unwrap().unwrap(), peer());
}

#[test]
fn post_receive_tracking_and_hook() {
    let doc = IdentityDoc::Project(vec![
        Delegation::Direct("a".to_owned()),
        Delegation::Indirect(vec!["b".to_owned(), "c".to_owned()]),
    ]);
    assert_eq!(delegates_to_track(Some(doc)).unwrap(), vec!["a", "b", "c"]);
    assert!(delegates_to_track(Some(IdentityDoc::Other)).unwrap().is_empty());
    assert!(matches!(delegates_to_track(None), Err(Error::PostReceive(_))));

    let p = post(Some("master"), vec![]);
    let (lines, err) = p.receive_hook_lines(&is_peer);
    assert!(err.is_none());
    assert_eq!(
        lines,
        vec![
            format!("{} {} {} master", peer(), ZERO, AB),
            format!("{} {} {} dev", peer(), ONES, ZERO),
        ]
    );
}

#[test]
fn identity_metadata() {
    let (name, keys, branch) = identity_meta(Some(MetaDoc::Project {
        name: "nakamoto".to_owned(),
        default_branch: Some("master".to_owned()),
        delegations: vec![Delegation::Indirect(vec!["k1".to_owned()]), Delegation::Direct("k2".to_owned())],
    }))
    .unwrap();
    assert_eq!(name.as_deref(), Some("nakamoto"));
    assert_eq!(keys, vec!["k1", "k2"]);
    assert_eq!(branch.as_deref(), Some("master"));
    assert!(matches!(
        identity_meta(Some(MetaDoc::Project { name: "n".to_owned(), default_branch: None, delegations: vec![] })),
        Err(Error::NoDefaultBranch)
    ));
    let (n, k, b) = identity_meta(None).unwrap();
    assert!(n.is_none() && k.is_empty() && b.is_none());
}

#[test]
fn reference_transactions() {
    let a = Oid::from_str(AB).unwrap();
    let b = Oid::from_str(ONES).unwrap();
    assert!(PreviousValue::Any.guard(Some(a)).is_none());
    assert!(matches!(PreviousValue::MustNotExist.guard(Some(a)), Some(PreviousError::DidExist(_))));
    assert!(matches!(PreviousValue::MustExist.guard(None), Some(PreviousError::DidNotExist)));
    assert!(PreviousValue::IfExistsMustMatch(a).guard(None).is_none());
    assert!(matches!(PreviousValue::MustExistAndMatch(a).guard(Some(b)), Some(PreviousError::DidNotMatch { .. })));

    let write = Update::Write { name: "refs/heads/x".to_owned(), target: b, previous: PreviousValue::MustExistAndMatch(a) };
    let s = plan(&write, Current::Direct(a));
    assert!(s.apply && !s.symbolic);
    let mut applied = Applied::new();
    applied.record(s.record.unwrap());
    assert!(matches!(&applied.updates[0], Updated::Written { name, .. } if name == "refs/heads/x"));

    let s = plan(&write, Current::Missing);
    assert!(!s.apply);
    applied.record(s.record.unwrap());
    assert_eq!(applied.rejections.len(), 1);

    let del = Update::Delete { name: "refs/heads/y".to_owned(), previous: PreviousValue::Any };
    let s = plan(&del, Current::Missing);
    assert!(!s.apply && s.record.is_none());
    let s = plan(&del, Current::Symbolic);
    assert!(s.apply && s.symbolic);
    let s = plan(&del, Current::Direct(a));
    assert!(matches!(s.record, Some(Ok(Updated::Deleted { .. }))));
    let must = Update::Delete { name: "refs/heads/y".to_owned(), previous: PreviousValue::MustExist };
    assert!(matches!(plan(&must, Current::Missing).record, Some(Err(PreviousError::DidNotExist))));
}

#[test]
fn server_paths() {
    assert_eq!(receive_hook_path("/srv/git"), "/srv/git/hooks/post-receive-ok");
    assert_eq!(authorized_keys_path("/srv/git/"), "/srv/git/authorized-keys");
}

#[test]
fn request_gates() {
    assert_eq!(project_request("nakamoto.git"), ("nakamoto".to_owned(), true));
    assert_eq!(project_request("hnrkabc"), ("hnrkabc".to_owned(), false));
    assert_eq!(receive_pack_gate("git-receive-pack", "", true).unwrap(), true);
    assert_eq!(receive_pack_gate("info/refs", "service=git-upload-pack", false).unwrap(), false);
    assert!(matches!(
        receive_pack_gate("info/refs", "service=git-receive-pack", false),
        Err(Error::ServiceUnavailable(s)) if s == "git-receive-pack"
    ));
}

#[test]
fn remote_ref_with_unknown_peer() {
    let mut p = post(Some("master"), vec![]);
    p.updates.insert(
        0,
        ("refs/remotes/x/heads/master".to_owned(), Oid::from_str(ZERO).unwrap(), Oid::from_str(AB).unwrap()),
    );
    assert!(matches!(p.pusher(&is_peer), Err(Error::Io(_))));
    let (lines, err) = p.receive_hook_lines(&is_peer);
    assert!(matches!(err, Some(Error::Io(_))));
    assert!(lines.is_empty());
}

#[test]
fn transaction_runs_updates_in_order() {
    let x = Oid::from_str(ONES).unwrap();
    let updates = vec![
        Update::Write { name: "refs/heads/a".to_owned(), target: x, previous: PreviousValue::Any },
        Update::Delete { name: "refs/heads/b".to_owned(), previous: PreviousValue::MustExist },
    ];
    let mut run = TxnRun::new();
    assert!(matches!(run.step(&updates, TxnEvent::Opened(Ok(()))), TxnAction::Lock(n) if n == "refs/heads/a"));
    assert!(matches!(run.step(&updates, TxnEvent::Locked(Ok(()))), TxnAction::Read(n) if n == "refs/heads/a"));
    assert!(matches!(
        run.step(&updates, TxnEvent::Read(Ok(Current::Missing))),
        TxnAction::Write(n, t) if n == "refs/heads/a" && t.to_hex() == ONES
    ));
    assert!(matches!(run.step(&updates, TxnEvent::Changed(Ok(()))), TxnAction::Lock(n) if n == "refs/heads/b"));
    assert!(matches!(run.step(&updates, TxnEvent::Locked(Ok(()))), TxnAction::Read(_)));
    assert!(matches!(run.step(&updates, TxnEvent::Read(Ok(Current::Missing))), TxnAction::Commit));
    assert!(matches!(run.step(&updates, TxnEvent::Committed(Ok(()))), TxnAction::Done));
    assert_eq!(run.awaiting, TxnAwait::Over);
    assert_eq!(run.applied.updates.len(), 1);
    assert!(matches!(&run.applied.updates[0], Updated::Written { name, .. } if name == "refs/heads/a"));
    assert!(matches!(run.applied.rejections[..], [PreviousError::DidNotExist]));
}

#[test]
fn transaction_stops_at_git_errors() {
    let updates = vec![Update::Delete { name: "refs/heads/c".to_owned(), previous: PreviousValue::Any }];
    let mut run = TxnRun::new();
    assert!(matches!(run.step(&updates, TxnEvent::Opened(Ok(()))), TxnAction::Lock(_)));
    assert!(matches!(
        run.step(&updates, TxnEvent::Locked(Err("busy".to_owned()))),
        TxnAction::Fail(Txn::Lock { refname, source }) if refname == "refs/heads/c" && source == "busy"
    ));

    let mut symbolic = TxnRun::new();
    symbolic.step(&updates, TxnEvent::Opened(Ok(())));
    symbolic.step(&updates, TxnEvent::Locked(Ok(())));
    assert!(matches!(symbolic.step(&updates, TxnEvent::Read(Ok(Current::Symbolic))), TxnAction::Remove(_)));
    assert!(matches!(symbolic.step(&updates, TxnEvent::Changed(Ok(()))), TxnAction::Fail(Txn::SymbolicRef(_))));

    let mut refused = TxnRun::new();
    assert!(matches!(
        refused.step(&updates, TxnEvent::Opened(Err("no".to_owned()))),
        TxnAction::Fail(Txn::Acquire(m)) if m == "no"
    ));
    let none: Vec<Update> = Vec::new();
    let mut empty = TxnRun::new();
    assert!(matches!(empty.step(&none, TxnEvent::Opened(Ok(()))), TxnAction::Commit));
    assert!(matches!(
        empty.step(&none, TxnEvent::Committed(Err("disk".to_owned()))),
        TxnAction::Fail(Txn::Commit(m)) if m == "disk"
    ));
}

const ED25519_KEY: &str = "-----BEGIN PGP PUBLIC KEY BLOCK-----\n\nmDMEavxGLxYJKwYBBAHaRw8BAQdAoWlDgUuiTixU6Fy36d0WYRhUOHIytfTje9BF\n+K9PYaO0FFRlc3QgPHRAZXhhbXBsZS5jb20+iJAEExYIADgWIQSn53OAsn4l/aLB\nBizycV4s277L6gUCavxGLwIbAwULCQgHAgYVCgkICwIEFgIDAQIeAQIXgAAKCRDy\ncV4s277L6rrVAP4wLaEZusxlfwWDT6eSqhBKKAr/7awkLiTr1Vsfum88mgD6Au5A\nz2c0FEI0jw84cEdSvtEo6fL97c93FKhj4ECQBQk=\n=goRF\n-----END PGP PUBLIC KEY BLOCK-----\n";

#[test]
fn key_file_of_a_signing_key() {
    assert!(armor_is_closed(ED25519_KEY));
    assert!(key_id_computable(ED25519_KEY));
    let open_armor = ED25519_KEY.trim_end().rsplit_once('\n').unwrap().0;
    assert!(!armor_is_closed(open_armor));
    assert!(key_file_matches_checked(open_armor, "F2715E2CDBBECBEA").is_none());
    assert_eq!(key_file_matches(ED25519_KEY, "F2715E2CDBBECBEA").unwrap(), true);
    assert_eq!(key_file_matches(ED25519_KEY, "0000000000000000").unwrap(), false);
    assert!(matches!(key_file_matches_checked(ED25519_KEY, "F2715E2CDBBECBEA"), Some(Ok(true))));
}

