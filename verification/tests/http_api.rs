use radicle_services::http_api::sessions::session_expiration;
use radicle_services::http_api::changeset::{commits_until_base, Diff, FileDiff, Hunk, LineDiff, Stats};
use radicle_services::http_api::error::Error;
use radicle_services::http_api::options::{identity_counts, path_rejection, project_of_alias, IdentityKind, LogFmt};
use radicle_services::http_api::projects::{
    committer, fallback_head_ref, local_head_ref,
    blob_theme, browse_revision, default_delegate, delegated_to, history_paging, history_start,
    history_status, projects_paging, readme_paths, recent_activity, remote_branch, remote_branches,
    remote_heads_prefix, select_page, select_projects, strip_leading_slash, successes, time_in_window,
    Delegate, Listed, ListedRef, Revision,
};
use radicle_services::http_api::sessions::{AuthState, SignInMessage, Sessions, Timestamp};
use radicle_services::oid::Oid;

#[test]
fn history_defaults() {
    let (start, fallback) = history_start(None, Some("abc".to_owned())).unwrap();
    assert_eq!(start, "abc");
    assert!(fallback);
    assert_eq!(history_status(fallback), 302);
    let (start, fallback) = history_start(Some("def".to_owned()), None).unwrap();
    assert_eq!(start, "def");
    assert!(!fallback);
    assert_eq!(history_status(fallback), 200);
    assert!(matches!(history_start(None, None), Err(Error::NoHead(m)) if m == "project head is not set"));
    assert_eq!(history_paging(None, None, None, None, 100), (0, 30));
    assert_eq!(history_paging(None, None, Some(1), None, 100), (0, 100));
    assert_eq!(history_paging(Some(2), Some(5), Some(1), None, 100), (2, 5));
}

#[test]
fn history_pages() {
    let times = [10, 20, 30, 40, 50, 60, 70];
    assert!(time_in_window(20, Some(20), Some(30)));
    assert!(!time_in_window(30, Some(20), Some(30)));
    assert_eq!(select_page(&times, None, None, 0, 3), vec![0, 1, 2]);
    assert_eq!(select_page(&times, None, None, 2, 3), vec![6]);
    assert_eq!(select_page(&times, None, None, 5, 3), Vec::<usize>::new());
    assert_eq!(select_page(&times, Some(30), Some(70), 0, 10), vec![2, 3, 4, 5]);
    assert_eq!(select_page(&times, Some(30), None, 1, 2), vec![4, 5]);
    // Every commit lands on exactly one page.
    let mut all = Vec::new();
    for page in 0..4 {
        all.extend(select_page(&times, None, None, page, 2));
    }
    assert_eq!(all, vec![0, 1, 2, 3, 4, 5, 6]);
}

#[test]
fn activity_of_past_year() {
    let now = 100_000_000;
    let times = [now, now - 31449600, now - 31449599, 0];
    assert_eq!(recent_activity(&times, now), vec![now, now - 31449599]);
}

#[test]
fn project_listing_pages() {
    assert_eq!(projects_paging(None, None), (0, 10));
    let items = vec![Listed::Project(1), Listed::Other, Listed::Project(2), Listed::Project(3), Listed::Failed("bad".to_owned())];
    assert_eq!(select_projects(items.clone(), 0, 2).unwrap(), vec![1, 2]);
    assert!(matches!(select_projects(items.clone(), 1, 2), Err(Error::Other(m)) if m == "bad"));
    assert_eq!(select_projects(items, 3, 2).unwrap(), Vec::<i32>::new());
    let results = vec![Ok(1), Err(Error::NotFound), Ok(3)];
    assert_eq!(successes(results), vec![1, 3]);
}

#[test]
fn heads_of_delegates() {
    assert_eq!(default_delegate(&[Delegate::Direct { id: "a".to_owned() }]).unwrap(), "a");
    assert_eq!(
        default_delegate(&[Delegate::Indirect { urn: "u".to_owned(), ids: vec!["b".to_owned()] }]).unwrap(),
        "b"
    );
    assert!(matches!(default_delegate(&[]), Err(Error::NoHead(m)) if m == "project has no delegates"));
    assert!(matches!(
        default_delegate(&[Delegate::Direct { id: "a".to_owned() }, Delegate::Direct { id: "b".to_owned() }]),
        Err(Error::NoHead(m)) if m == "project has multiple delegates"
    ));
    assert!(matches!(
        default_delegate(&[Delegate::Indirect { urn: "u".to_owned(), ids: vec![] }]),
        Err(Error::NoHead(m)) if m == "project has single indirect delegate with zero or more than one direct delegate"
    ));
    let ds = [Delegate::Direct { id: "a".to_owned() }, Delegate::Indirect { urn: "rad:git:x".to_owned(), ids: vec![] }];
    assert!(delegated_to(&ds, "rad:git:x"));
    assert!(!delegated_to(&ds, "a"));
}

#[test]
fn branches_of_a_remote() {
    let prefix = remote_heads_prefix("ns", "peer");
    assert_eq!(prefix, "refs/namespaces/ns/refs/remotes/peer/heads/");
    let oid = Oid::from_str("ab").unwrap();
    let refs = vec![
        ListedRef { name: Some(format!("{}master", prefix)), target: Some(oid) },
        ListedRef { name: Some("refs/other".to_owned()), target: Some(oid) },
        ListedRef { name: Some(format!("{}dev", prefix)), target: None },
        ListedRef { name: None, target: Some(oid) },
    ];
    let branches = remote_branches(&refs, &prefix);
    assert_eq!(branches, vec![("master".to_owned(), format!("ab{}", "0".repeat(38)))]);
}

#[test]
fn sources() {
    assert_eq!(strip_leading_slash("/src/main.rs").unwrap(), "src/main.rs");
    assert!(matches!(strip_leading_slash("src"), Err(Error::NotFound)));
    assert_eq!(blob_theme(true, None, "base16-ocean.dark").as_deref(), Some("base16-ocean.dark"));
    assert_eq!(blob_theme(true, Some("x".to_owned()), "d").as_deref(), Some("x"));
    assert!(blob_theme(false, Some("x".to_owned()), "d").is_none());
    assert_eq!(readme_paths()[0], "README");
    assert_eq!(readme_paths()[5], "Readme.md");
    assert!(matches!(remote_branch("master", "p"), Revision::RemoteBranch { name, peer } if name == "heads/master" && peer == "p"));
    assert!(matches!(browse_revision("abc123", None), Ok(Revision::Commit(_))));
    assert!(matches!(browse_revision("master", None), Err(Error::NotFound)));
    assert!(matches!(browse_revision("master", Some("p".to_owned())), Ok(Revision::RemoteBranch { .. })));
}

#[test]
fn changeset_stats() {
    let plain = |lines: Vec<LineDiff>| FileDiff::Plain(vec![Hunk { lines }]);
    let diff = Diff {
        created: vec![plain(vec![LineDiff::Addition, LineDiff::Addition, LineDiff::Deletion])],
        deleted: vec![plain(vec![LineDiff::Deletion, LineDiff::Addition]), FileDiff::Binary],
        modified: vec![plain(vec![LineDiff::Addition, LineDiff::Context, LineDiff::Deletion])],
    };
    assert_eq!(Stats::of_diff(&diff), Stats { additions: 3, deletions: 2 });
    let a = Oid::from_str("aa").unwrap();
    let b = Oid::from_str("bb").unwrap();
    assert_eq!(commits_until_base(&[a, a, b, a], &b), 2);
    assert_eq!(commits_until_base(&[a], &b), 1);
}

#[test]
fn error_responses() {
    assert_eq!(Error::NotFound.response(), (404, Some("Not Found".to_owned())));
    assert_eq!(Error::NoHead("x").response(), (404, Some("x".to_owned())));
    assert_eq!(Error::Auth("bad").response(), (400, Some("bad".to_owned())));
    assert_eq!(Error::Pool("p".to_owned()).response(), (500, Some("Internal Server Error".to_owned())));
    assert_eq!(Error::Git("g".to_owned()).response(), (500, Some("g".to_owned())));
    let (code, body) = path_rejection("bad param".to_owned());
    assert_eq!(code, 400);
    assert!(!body.success);
    assert_eq!(body.error, "bad param");
}

#[test]
fn options_and_aliases() {
    assert_eq!(LogFmt::from_str("plain"), Ok(LogFmt::Plain));
    assert_eq!(LogFmt::from_str("gcp"), Err("Unrecognized log format"));
    let projects = vec![("a".to_owned(), "u1".to_owned()), ("b".to_owned(), "u2".to_owned()), ("a".to_owned(), "u3".to_owned())];
    assert_eq!(project_of_alias(&projects, "a").as_deref(), Some("u1"));
    assert!(project_of_alias(&projects, "c").is_none());
    assert_eq!(identity_counts(&[IdentityKind::Project, IdentityKind::Person, IdentityKind::Project]), (2, 1));
}

fn ts(secs: i64) -> Timestamp {
    Timestamp { secs, nanos: 0 }
}

fn message(nonce: &str, domain: &str, statement: Option<&str>) -> SignInMessage {
    SignInMessage {
        domain: domain.to_owned(),
        domain_host: domain.split(':').next().unwrap().to_owned(),
        address: [0u8; 20],
        statement: statement.map(|s| s.to_owned()),
        uri: "https://example.com".to_owned(),
        version: 1,
        chain_id: 1,
        nonce: nonce.to_owned(),
        issued_at: ts(0),
        expiration_time: Some(ts(500)),
        resources: vec![],
    }
}

#[test]
fn sessions_lifecycle() {
    let mut sessions = Sessions::new();
    let (id, nonce) = sessions.create("n0nce".to_owned(), ts(100));
    assert_eq!(nonce, "n0nce");
    assert_eq!(id.len(), 64);
    assert!(id.chars().all(|c| c.is_ascii_hexdigit() && !c.is_ascii_uppercase()));
    assert!(matches!(sessions.get(&id), Some(AuthState::Unauthorized { nonce, .. }) if nonce == "n0nce"));

    let wrong = sessions.sign_in(&id, Ok(message("other", "example.com", Some("hi"))), Ok("example.com".to_owned()), Ok(()));
    assert!(matches!(wrong, Err(Error::Auth(m)) if m == "Invalid nonce"));
    let domain = sessions.sign_in(&id, Ok(message("n0nce", "other.com", Some("hi"))), Ok("example.com".to_owned()), Ok(()));
    assert!(matches!(domain, Err(Error::Auth(m)) if m == "Invalid domain"));
    let host = sessions.sign_in(&id, Ok(message("n0nce", "example.com", Some("hi"))), Ok("bad host/".to_owned()), Ok(()));
    assert!(matches!(host, Err(Error::Auth(m)) if m == "Invalid host"));
    let nostatement = sessions.sign_in(&id, Ok(message("n0nce", "example.com", None)), Ok("example.com".to_owned()), Ok(()));
    assert!(matches!(nostatement, Err(Error::Auth(m)) if m == "No statement found"));
    let unverified = sessions.sign_in(&id, Ok(message("n0nce", "example.com", Some("hi"))), Ok("example.com".to_owned()), Err("expired".to_owned()));
    assert!(matches!(unverified, Err(Error::SiweVerification(m)) if m == "expired"));

    let session = sessions
        .sign_in(&id, Ok(message("n0nce", "EXAMPLE.com", Some("hi"))), Ok("example.com".to_owned()), Ok(()))
        .unwrap();
    assert_eq!(session.statement, "hi");
    assert!(matches!(sessions.get(&id), Some(AuthState::Authorized(s)) if s.nonce == "n0nce"));
    let again = sessions.sign_in(&id, Ok(message("n0nce", "example.com", Some("hi"))), Ok("example.com".to_owned()), Ok(()));
    assert!(matches!(again, Err(Error::Auth(m)) if m == "Session already authorized"));
    assert!(matches!(sessions.sign_in("missing", Err("x".to_owned()), Err("y".to_owned()), Ok(())), Err(Error::NotFound)));

    let (id2, _) = sessions.create("second".to_owned(), ts(100));
    sessions.cleanup(ts(99));
    assert!(sessions.get(&id2).is_some());
    sessions.cleanup(ts(100));
    assert!(sessions.get(&id2).is_none());
    assert!(sessions.get(&id).is_some());
    sessions.cleanup(ts(500));
    assert!(sessions.get(&id).is_none());
}

#[test]
fn session_expiry() {
    let t = session_expiration(Timestamp { secs: 1000, nanos: 5 });
    assert_eq!(t, Timestamp { secs: 1060, nanos: 5 });
}

#[test]
fn history_committers() {
    let fps = vec![("SHA256:a".to_owned(), "peer-a".to_owned()), ("SHA256:b".to_owned(), "peer-b".to_owned())];
    assert_eq!(committer(Some(true), Some(&fps), Some("SHA256:b")), Some("peer-b".to_owned()));
    assert_eq!(committer(Some(true), Some(&fps), Some("SHA256:c")), None);
    assert_eq!(committer(Some(false), Some(&fps), Some("SHA256:a")), None);
    assert_eq!(committer(None, Some(&fps), Some("SHA256:a")), None);
    assert_eq!(committer(Some(true), None, Some("SHA256:a")), None);
    assert_eq!(committer(Some(true), Some(&fps), None), None);
}

#[test]
fn head_lookup_fallback() {
    assert_eq!(local_head_ref("ns", "master"), "refs/namespaces/ns/refs/heads/master");
    let one = vec![Delegate::Direct { id: "hyn".to_owned() }];
    assert_eq!(
        fallback_head_ref("ns", "master", &one).unwrap(),
        "refs/namespaces/ns/refs/remotes/hyn/heads/master"
    );
    let indirect = vec![Delegate::Indirect { urn: "rad:git:x".to_owned(), ids: vec!["k".to_owned()] }];
    assert_eq!(
        fallback_head_ref("ns", "dev", &indirect).unwrap(),
        "refs/namespaces/ns/refs/remotes/k/heads/dev"
    );
    assert!(matches!(fallback_head_ref("ns", "master", &[]), Err(Error::NoHead(m)) if m == "project has no delegates"));
    let two = vec![Delegate::Direct { id: "a".to_owned() }, Delegate::Direct { id: "b".to_owned() }];
    assert!(matches!(fallback_head_ref("ns", "master", &two), Err(Error::NoHead(m)) if m == "project has multiple delegates"));
}

#[test]
fn session_keeps_the_domain_host() {
    let mut sessions = Sessions::new();
    let (id, _) = sessions.create("n0nce".to_owned(), ts(100));
    let session = sessions
        .sign_in(&id, Ok(message("n0nce", "example.com:8080", Some("hi"))), Ok("example.com:8080".to_owned()), Ok(()))
        .unwrap();
    assert_eq!(session.domain, "example.com");
}
