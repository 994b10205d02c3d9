//! The interactive loop's state machine. The loop itself — prompting,
//! reading a line, performing the send — lives outside the library; the
//! decisions stand here.

use vstd::prelude::*;
use vstd::string::StrSliceExecFns;
use crate::errors::{CliError, ReplyOutcome};

verus! {

/// The states of an interactive session.
#[derive(Clone, Copy, PartialEq, Eq, Structural, Debug)]
pub enum ChatState {
    AwaitingInput,
    SendingRequest,
    Terminated,
}

/// The exit command: the literal token `exit` in any letter case.
pub open spec fn is_exit(s: Seq<char>) -> bool {
    s.len() == 4 && (s[0] == 'e' || s[0] == 'E') && (s[1] == 'x' || s[1] == 'X') && (s[2] == 'i'
        || s[2] == 'I') && (s[3] == 't' || s[3] == 'T')
}

/// Whether a line of input is the exit command.
pub fn exit_requested(s: &str) -> (r: bool)
    ensures
        r == is_exit(s@),
{
    let n = s.unicode_len();
    if n != 4 {
        return false;
    }
    let c0 = s.get_char(0);
    let c1 = s.get_char(1);
    let c2 = s.get_char(2);
    let c3 = s.get_char(3);
    (c0 == 'e' || c0 == 'E') && (c1 == 'x' || c1 == 'X') && (c2 == 'i' || c2 == 'I') && (c3 == 't'
        || c3 == 'T')
}

/// One line of input arrives while awaiting input: the exit command
/// terminates the session directly, without any send being attempted;
/// every other line, the empty one included, moves to sending.
pub fn on_input(s: &str) -> (st: ChatState)
    ensures
        st == if is_exit(s@) {
            ChatState::Terminated
        } else {
            ChatState::SendingRequest
        },
{
    if exit_requested(s) {
        ChatState::Terminated
    } else {
        ChatState::SendingRequest
    }
}

/// A send completes: whatever the outcome — a reply, the no-reply
/// notice, or any failure — the session returns to awaiting input. A
/// failed call never terminates the interactive session.
pub fn on_send_completed(outcome: &Result<ReplyOutcome, CliError>) -> (st: ChatState)
    ensures
        st == ChatState::AwaitingInput,
{
    match outcome {
        Result::Ok(_) => ChatState::AwaitingInput,
        Result::Err(_) => ChatState::AwaitingInput,
    }
}

} // verus!
