use radicle_services::org_node::client::{head_refs, updated_head_refs, Error, Head};
use radicle_services::refs::{head_ref, namespace_head, path_join};

#[test]
fn test_local_head() {
    let branch = String::from("master");
    let local = head_ref("hnrkfbrd7y9674d8ow8uioki16fniwcyoz67y", None, branch.as_str());

    assert_eq!(
        local,
        "refs/namespaces/hnrkfbrd7y9674d8ow8uioki16fniwcyoz67y/refs/heads/master"
    );
}

#[test]
fn test_remote_head() {
    let branch = String::from("master");
    let remote = head_ref(
        "hnrkfbrd7y9674d8ow8uioki16fniwcyoz67y",
        Some("hyypw8z5g7tbui9ceh6tng58i1qk696isjnzix9fq9g41fzgjgqk8g"),
        branch.as_str(),
    );

    assert_eq!(
        remote,
        "refs/namespaces/hnrkfbrd7y9674d8ow8uioki16fniwcyoz67y/refs/remotes/hyypw8z5g7tbui9ceh6tng58i1qk696isjnzix9fq9g41fzgjgqk8g/heads/master"
    );
}

#[test]
fn path_join_like_std() {
    for (base, part) in [("refs", "namespaces"), ("refs/", "x"), ("", "a"), ("a", "/b"), ("a", "")] {
        let expected = std::path::Path::new(base).join(part);
        assert_eq!(path_join(base, part), expected.to_str().unwrap());
    }
}

#[test]
fn namespace_head_ref() {
    assert_eq!(namespace_head("abc"), "refs/namespaces/abc/HEAD");
}

#[test]
fn org_node_head_refs() {
    let r = head_refs("ns", "peer", "main");
    assert_eq!(r.remote_branch, "refs/namespaces/ns/refs/remotes/peer/heads/main");
    assert_eq!(r.local_branch, "refs/namespaces/ns/refs/heads/main");
    assert_eq!(r.head, "refs/namespaces/ns/HEAD");
}

#[test]
fn org_node_updated_head_refs() {
    let h = Head { remote: "peer".to_owned(), branch: "dev".to_owned() };
    let (sym, target) = updated_head_refs("rad:git:x", "ns", Some(h)).unwrap();
    assert_eq!(sym, "refs/namespaces/ns/HEAD");
    assert_eq!(target, "refs/namespaces/ns/refs/heads/dev");
    match updated_head_refs("rad:git:x", "ns", None) {
        Err(Error::Project(u, why)) => {
            assert_eq!(u, "rad:git:x");
            assert_eq!(why, "failed to find project");
        }
        _ => panic!("expected a project error"),
    }
}
