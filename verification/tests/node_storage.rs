use radicle_services::node::control::{command_of, control_reply, pop_record, Command, DrainError};
use radicle_services::node::storage::{Remote, Remotes, SignatureError, SignedRefs, Unverified, Verified};
use radicle_services::oid::Oid;

#[test]
fn test_storage() {}

fn refs() -> SignedRefs<Verified> {
    let oid = Oid::from_str("0123456789abcdef0123456789abcdef01234567").unwrap();
    SignedRefs::new(vec![("refs/heads/master".to_owned(), oid)], vec![1, 2, 3])
}

#[test]
fn remote_new_is_not_a_delegate() {
    let r: Remote<Verified> = Remote::new([7u8; 32], refs());
    assert!(!r.delegate);
    assert_eq!(r.id, [7u8; 32]);
    assert_eq!(r.refs.refs.len(), 1);
    assert_eq!(r.refs.signature, vec![1, 2, 3]);
}

#[test]
fn remote_round_trip_keeps_everything() {
    let mut r: Remote<Verified> = Remote::new([9u8; 32], refs());
    r.delegate = true;
    let u: Remote<Unverified> = r.unverified();
    assert!(u.delegate);
    let v = u.verified(true).unwrap();
    assert_eq!(v.id, [9u8; 32]);
    assert!(v.delegate);
    assert_eq!(v.refs.refs[0].0, "refs/heads/master");
    assert_eq!(v.refs.signature, vec![1, 2, 3]);
}

#[test]
fn remote_with_bad_signature_is_refused() {
    let r: Remote<Unverified> = Remote::new([1u8; 32], SignedRefs::new(vec![], vec![]));
    assert!(matches!(r.verified(false), Err(SignatureError::InvalidSignature)));
}

#[test]
fn remotes_unverified_keeps_ids() {
    let a: Remote<Verified> = Remote::new([1u8; 32], refs());
    let b: Remote<Verified> = Remote::new([2u8; 32], refs());
    let remotes = Remotes::new(vec![([1u8; 32], a), ([2u8; 32], b)]);
    assert_eq!(remotes.len(), 2);
    let u = remotes.unverified();
    let entries = u.into_entries();
    assert_eq!(entries.len(), 2);
    assert_eq!(entries[0].0, [1u8; 32]);
    assert_eq!(entries[1].0, [2u8; 32]);
    let empty: Remotes<Verified> = Remotes::empty();
    assert_eq!(empty.len(), 0);
}

#[test]
fn control_commands() {
    let rec = vec!["update".to_owned(), "a".to_owned(), "b".to_owned()];
    let (first, rest) = pop_record(&rec);
    assert_eq!(first.as_deref(), Some("update"));
    assert_eq!(rest, vec!["a".to_owned(), "b".to_owned()]);
    match command_of(&rec) {
        Ok(Command::Update(args)) => assert_eq!(args, vec!["a".to_owned(), "b".to_owned()]),
        _ => panic!("expected an update"),
    }
    assert!(matches!(command_of(&["other_command".to_owned()]), Ok(Command::Other(a)) if a.is_empty()));
    assert!(matches!(command_of(&["nope".to_owned()]), Err(DrainError::UnknownCommand(c)) if c == "nope"));
    assert!(matches!(command_of(&[]), Err(DrainError::InvalidCommand)));
}

#[test]
fn control_replies() {
    assert_eq!(control_reply(&Ok(())), "ok");
    assert_eq!(control_reply(&Err(DrainError::InvalidCommand)), "error: invalid command");
    assert_eq!(control_reply(&Err(DrainError::UnknownCommand("foo".to_owned()))), "error: unknown command `foo`");
    assert_eq!(
        control_reply(&Err(DrainError::InvalidCommandArg("x".to_owned()))),
        "error: invalid command argument `x`"
    );
    assert_eq!(control_reply(&Err(DrainError::Client("gone".to_owned()))), "error: client error: gone");
    assert_eq!(DrainError::InvalidCommand.message(), "invalid command");
}
