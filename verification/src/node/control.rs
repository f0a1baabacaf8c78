//! Commands of the node's control socket: each record is a command word
//! followed by its arguments.
use vstd::prelude::*;

use crate::text::{concat2, concat3, str_eq, views};

verus! {

/// Default name for control socket file.
pub const DEFAULT_SOCKET_NAME: &'static str = "radicle.sock";

/// Errors of reading control commands.
#[derive(Debug, Clone)]
pub enum DrainError {
    /// Invalid command argument.
    InvalidCommandArg(String),
    /// Unknown command.
    UnknownCommand(String),
    /// Invalid command: the record is empty.
    InvalidCommand,
    /// Client error.
    Client(String),
}

impl DrainError {
    /// What the error reads as.
    pub open spec fn message_spec(&self) -> Seq<char> {
        match self {
            DrainError::InvalidCommandArg(a) => "invalid command argument `"@ + a@ + "`"@,
            DrainError::UnknownCommand(c) => "unknown command `"@ + c@ + "`"@,
            DrainError::InvalidCommand => "invalid command"@,
            DrainError::Client(e) => "client error: "@ + e@,
        }
    }

    /// What the error reads as.
    pub fn message(&self) -> (r: String)
        ensures
            r@ == self.message_spec(),
    {
        match self {
            DrainError::InvalidCommandArg(a) => concat3("invalid command argument `", a.as_str(), "`"),
            DrainError::UnknownCommand(c) => concat3("unknown command `", c.as_str(), "`"),
            DrainError::InvalidCommand => "invalid command".to_owned(),
            DrainError::Client(e) => concat2("client error: ", e.as_str()),
        }
    }
}

/// The line written back on the control socket once a stream is read: `ok`,
/// or `error: ` and what went wrong.
pub fn control_reply(outcome: &Result<(), DrainError>) -> (r: String)
    ensures
        outcome is Ok ==> r@ == "ok"@,
        outcome matches Err(e) ==> r@ == "error: "@ + e.message_spec(),
{
    match outcome {
        Ok(()) => "ok".to_owned(),
        Err(e) => {
            let m = e.message();
            concat2("error: ", m.as_str())
        },
    }
}

/// A command of the control socket, with its arguments.
#[derive(Debug, Clone)]
pub enum Command {
    /// `update`: announce an update of the projects given as arguments.
    Update(Vec<String>),
    /// `other_command`.
    Other(Vec<String>),
}

/// The first field of a record, and the record without it.
pub fn pop_record(rec: &[String]) -> (r: (Option<String>, Vec<String>))
    ensures
        rec@.len() == 0 ==> r.0 is None && r.1@.len() == 0,
        rec@.len() > 0 ==> (r.0 matches Some(f) && f@ == rec@[0]@) && views(r.1@) == views(rec@).skip(1),
{
    let mut ret: Vec<String> = Vec::new();
    let mut i: usize = 1;
    while i < rec.len()
        invariant
            1 <= i,
            rec@.len() > 0 ==> i <= rec@.len(),
            rec@.len() == 0 ==> ret@.len() == 0,
            rec@.len() > 0 ==> views(ret@) == views(rec@).subrange(1, i as int),
        decreases rec@.len() - i,
    {
        let ghost before = ret@;
        ret.push(rec[i].clone());
        assert(views(ret@) =~= views(before).push(rec@[i as int]@));
        assert(views(rec@).subrange(1, i + 1) =~= views(rec@).subrange(1, i as int).push(rec@[i as int]@));
        i = i + 1;
    }
    if rec.len() == 0 {
        (None, ret)
    } else {
        assert(views(rec@).subrange(1, i as int) =~= views(rec@).skip(1));
        (Some(rec[0].clone()), ret)
    }
}

/// The command of a record: `update` or `other_command` with the rest of
/// the record as arguments; any other word is unknown, and an empty record
/// is invalid.
pub fn command_of(rec: &[String]) -> (r: Result<Command, DrainError>)
    ensures
        rec@.len() == 0 ==> r matches Err(DrainError::InvalidCommand),
        rec@.len() > 0 && rec@[0]@ == "update"@ ==> (r matches Ok(Command::Update(args)) && views(args@)
            == views(rec@).skip(1)),
        rec@.len() > 0 && rec@[0]@ == "other_command"@ ==> (r matches Ok(Command::Other(args)) && views(
            args@,
        ) == views(rec@).skip(1)),
        rec@.len() > 0 && rec@[0]@ != "update"@ && rec@[0]@ != "other_command"@ ==> (r matches Err(
            DrainError::UnknownCommand(c),
        ) && c@ == rec@[0]@),
{
    let (cmd, args) = pop_record(rec);
    proof {
        reveal_strlit("update");
        reveal_strlit("other_command");
        assert("update"@.len() != "other_command"@.len());
    }
    match cmd {
        None => Err(DrainError::InvalidCommand),
        Some(c) => {
            if str_eq(c.as_str(), "other_command") {
                Ok(Command::Other(args))
            } else if str_eq(c.as_str(), "update") {
                Ok(Command::Update(args))
            } else {
                Err(DrainError::UnknownCommand(c))
            }
        },
    }
}

} // verus!
