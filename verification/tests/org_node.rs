use radicle_services::org_node::project::{query_kind, QueryKind};
use radicle_services::org_node::client::{
    applied_update, gossip_action, project_head, track_request_step, Config, Delegation, Error, Gossip,
    GossipAction, Head, Limits, PeerAction, PeerEvent, PeerStage, PeerTracking, ProjectIdentity,
    TrackAction, TrackEvent, TrackProjectError, TrackStage,
};
use radicle_services::org_node::options::{parse_orgs, split_bootstrap};
use radicle_services::org_node::project::{parse_timestamp, Anchor, Org, ParseUrnError, Project};
use radicle_services::org_node::store::State;
use radicle_services::oid::Oid;

fn project(object_id: &str) -> Project {
    Project {
        timestamp: 1,
        anchor: Anchor { object_id: object_id.to_owned(), multihash: String::new() },
        org: Org { id: "0xorg".to_owned() },
    }
}

#[test]
fn urn_of_anchor() {
    let id = format!("0x{}{}", "00".repeat(12), "0123456789abcdef0123456789abcdef01234567");
    let urn = project(&id).urn().unwrap();
    assert_eq!(urn.id.to_hex(), "0123456789abcdef0123456789abcdef01234567");
    assert!(urn.path.is_none());
    let upper = format!("0x{}{}", "FF".repeat(12), "0123456789ABCDEF0123456789ABCDEF01234567");
    assert_eq!(project(&upper).urn().unwrap().id.to_hex(), "0123456789abcdef0123456789abcdef01234567");
    let other = format!("0x{}{}", "a1".repeat(12), "0123456789abcdef0123456789abcdef01234567");
    assert_eq!(project(&other).urn().unwrap().id.to_hex(), urn.id.to_hex());
}

#[test]
fn urn_errors() {
    assert!(matches!(project("1234").urn(), Err(ParseUrnError::Invalid(t)) if t == "1234"));
    assert!(matches!(project("0xabcd").urn(), Err(ParseUrnError::Invalid(t)) if t == "abcd"));
    assert!(matches!(project("0xzz").urn(), Err(ParseUrnError::Int)));
    assert!(matches!(project("0x+f").urn(), Err(ParseUrnError::Invalid(t)) if t == "+f"));
}

#[test]
fn timestamps() {
    assert_eq!(parse_timestamp("1650000000"), Some(1650000000));
    assert_eq!(parse_timestamp("+7"), Some(7));
    assert_eq!(parse_timestamp("18446744073709551615"), Some(u64::MAX));
    assert_eq!(parse_timestamp("18446744073709551616"), None);
    assert_eq!(parse_timestamp(""), None);
    assert_eq!(parse_timestamp("+"), None);
    assert_eq!(parse_timestamp("12a"), None);
    for s in ["0", "42", "007", "+1", "99999999999999999999", "-1"] {
        assert_eq!(parse_timestamp(s), s.parse::<u64>().ok());
    }
}

#[test]
fn state_keeps_latest_timestamp() {
    let mut state = State::default();
    assert_eq!(state.timestamp, 0);
    assert!(state.advance(10));
    assert!(!state.advance(5));
    assert_eq!(state.timestamp, 10);
    assert!(!state.advance(10));
    assert!(state.advance(11));
    assert_eq!(state.timestamp, 11);
}

#[test]
fn defaults() {
    let limits = Limits::default();
    assert_eq!(limits.request_queue_size, 64);
    assert_eq!(limits.request_timeout_ms, 60_000);
    assert_eq!(limits.provider_timeout_ms(), 30_000);
    let config = Config::default();
    assert_eq!(config.listen, "0.0.0.0:0");
    assert!(!config.allow_unknown_peers);
    assert!(config.peers.is_empty() && config.bootstrap.is_empty());
}

#[test]
fn heads_of_projects() {
    let p = ProjectIdentity {
        urn: "rad:git:p".to_owned(),
        delegations: vec![Delegation::Indirect(vec![]), Delegation::Indirect(vec!["k2".to_owned(), "k3".to_owned()])],
        default_branch: Some("master".to_owned()),
    };
    let h = project_head(Some(p.clone())).unwrap().unwrap();
    assert_eq!(h.remote, "k2");
    assert_eq!(h.branch, "master");
    assert!(project_head(None).unwrap().is_none());
    let mut nobranch = p.clone();
    nobranch.default_branch = None;
    assert!(matches!(project_head(Some(nobranch)), Err(Error::Project(_, m)) if m == "project has no default branch"));
    let mut nokeys = p;
    nokeys.delegations = vec![];
    assert!(matches!(project_head(Some(nokeys)), Err(Error::Project(_, m)) if m == "project has no maintainer"));
}

#[test]
fn gossip_decisions() {
    let oid = Oid::from_str("01").unwrap();
    let applied = Gossip::Applied { urn: "u".to_owned(), oid, origin: "o".to_owned() };
    assert_eq!(gossip_action(&applied, &[], false), GossipAction::LookupHead);
    let unint = Gossip::Uninteresting { urn: "u".to_owned(), oid, origin: "o".to_owned(), provider: "p".to_owned() };
    assert_eq!(gossip_action(&unint, &[], false), GossipAction::Ignore);
    assert_eq!(gossip_action(&unint, &[], true), GossipAction::TrackAndNotify);
    assert_eq!(gossip_action(&unint, &["p".to_owned()], false), GossipAction::TrackAndNotify);
    assert_eq!(gossip_action(&Gossip::Other, &[], true), GossipAction::Ignore);
    let head = Head { remote: "o".to_owned(), branch: "main".to_owned() };
    assert_eq!(applied_update("o", Some(head.clone())).unwrap().branch, "main");
    assert!(applied_update("x", Some(head)).is_none());
    assert!(applied_update("o", None).is_none());
}

#[test]
fn track_request_for_stored_project() {
    let head = Head { remote: "m".to_owned(), branch: "main".to_owned() };
    let (s, a) = track_request_step(TrackStage::Start, TrackEvent::Head(Ok(Some(head))));
    assert_eq!(s, TrackStage::SettingHead);
    assert!(matches!(a, TrackAction::SetHead(h) if h.remote == "m"));
    let (s, a) = track_request_step(s, TrackEvent::HeadSet(Err(Error::SetHead("x".to_owned()))));
    assert_eq!(s, TrackStage::SigningRefs);
    assert!(matches!(a, TrackAction::SignRefs));
    let (s, a) = track_request_step(s, TrackEvent::Signed(Ok(())));
    assert_eq!(s, TrackStage::Done);
    assert!(matches!(a, TrackAction::Reply(Ok(None))));
    let (_, a) = track_request_step(TrackStage::SettingHead, TrackEvent::HeadSet(Err(Error::Storage("s".to_owned()))));
    assert!(matches!(a, TrackAction::Fail(Error::Storage(_))));
}

#[test]
fn track_request_asks_providers() {
    let (s, a) = track_request_step(TrackStage::Start, TrackEvent::Head(Ok(None)));
    assert_eq!(s, TrackStage::AskingProviders);
    assert!(matches!(a, TrackAction::NextProvider));
    let (s, a) = track_request_step(s, TrackEvent::Provider(Err(Error::TrackPeer("t".to_owned()))));
    assert_eq!(s, TrackStage::AskingProviders);
    assert!(matches!(a, TrackAction::NextProvider));
    let (s2, a2) = track_request_step(s, TrackEvent::Provider(Ok(Some("peer".to_owned()))));
    assert_eq!(s2, TrackStage::Done);
    assert!(matches!(a2, TrackAction::Reply(Ok(Some(p))) if p == "peer"));
    let (_, a3) = track_request_step(TrackStage::AskingProviders, TrackEvent::NoMoreProviders);
    assert!(matches!(a3, TrackAction::Reply(Err(TrackProjectError::NotFound))));
    let (s4, a4) = track_request_step(TrackStage::Done, TrackEvent::NoMoreProviders);
    assert_eq!(s4, TrackStage::Done);
    assert!(matches!(a4, TrackAction::Ignore));
}

#[test]
fn tracking_a_peer() {
    let mut t = PeerTracking::new("peer".to_owned());
    assert!(matches!(t.step(PeerEvent::Stored(Ok(true))), PeerAction::Fetch));
    assert!(matches!(t.step(PeerEvent::Fetched(Ok(()))), PeerAction::LookupHead));
    let head = Head { remote: "m".to_owned(), branch: "main".to_owned() };
    assert!(matches!(t.step(PeerEvent::Head(Ok(Some(head)))), PeerAction::SetHead(_)));
    assert!(matches!(t.step(PeerEvent::HeadSet(Ok(()))), PeerAction::SignRefs));
    assert!(matches!(t.step(PeerEvent::Signed(Ok(()))), PeerAction::Ack(Ok(Some(p))) if p == "peer"));
    assert_eq!(t.stage, PeerStage::Done);
    assert!(matches!(t.step(PeerEvent::Fetched(Ok(()))), PeerAction::Ignore));

    let mut old = PeerTracking::new("peer".to_owned());
    old.step(PeerEvent::Stored(Ok(false)));
    old.step(PeerEvent::Fetched(Ok(())));
    assert!(matches!(old.step(PeerEvent::Head(Ok(None))), PeerAction::Ack(Err(Error::ProjectHeadNotFound))));

    let mut known = PeerTracking::new("peer".to_owned());
    known.step(PeerEvent::Stored(Ok(false)));
    known.step(PeerEvent::Fetched(Ok(())));
    known.step(PeerEvent::Head(Ok(Some(Head { remote: "m".to_owned(), branch: "main".to_owned() }))));
    known.step(PeerEvent::HeadSet(Ok(())));
    assert!(matches!(known.step(PeerEvent::Signed(Ok(()))), PeerAction::Ack(Ok(None))));
}

#[test]
fn command_line_values() {
    assert!(parse_orgs("").unwrap().is_empty());
    assert_eq!(parse_orgs("0xABC,0xdef").unwrap(), vec!["0xabc".to_owned(), "0xdef".to_owned()]);
    let peers = split_bootstrap("p1@host:1,p2@h@2");
    assert_eq!(peers, vec![("p1".to_owned(), "host:1".to_owned()), ("p2".to_owned(), "h@2".to_owned())]);
}

#[test]
fn subgraph_queries() {
    assert_eq!(query_kind(&[]), QueryKind::AllProjects);
    assert_eq!(query_kind(&["0xabc".to_owned()]), QueryKind::OrgProjects);
}
