//! One turn of a conversational session: append the user's message, send
//! the whole transcript, and on success append the assistant's reply.
//!
//! The network call itself happens outside the library, so a turn is two
//! halves: `advance_request` appends the user entry and renders the
//! request body, and `advance_reply` records the outcome that came back.
//! A failed turn keeps the user's message: nothing is rolled back, so a
//! retried send does not duplicate it.

use vstd::prelude::*;
use crate::errors::{CliError, ReplyOutcome};
use crate::msg::{Message, MsgView, Role, Transcript};
use crate::request::{render_request, spec_render_request, RequestParams};

verus! {

/// The transcript entry one line of user input becomes.
pub open spec fn user_entry(text: Seq<char>) -> MsgView {
    MsgView { role: Role::User, content: text }
}

/// The transcript entry an assistant reply becomes.
pub open spec fn assistant_entry(text: Seq<char>) -> MsgView {
    MsgView { role: Role::Assistant, content: text }
}

/// First half of a turn: appends the user's message and renders the
/// request that carries the entire transcript so far, so the remote
/// model keeps full context.
pub fn advance_request(t: &mut Transcript, user_text: String, params: &RequestParams) -> (body:
    String)
    ensures
        final(t)@ == old(t)@.push(user_entry(user_text@)),
        body@ == spec_render_request(
            params.model@,
            params.max_tokens as int,
            params.temperature_tenths as int,
            final(t)@,
        ),
{
    t.push(Message::new(Role::User, user_text));
    render_request(params, t)
}

/// Second half of a turn: on a reply the transcript grows by exactly the
/// assistant's entry; on the no-reply notice or a failure it is left as
/// it was, and the originating error is surfaced unchanged.
pub fn advance_reply(t: &mut Transcript, outcome: Result<ReplyOutcome, CliError>) -> (r: Result<
    ReplyOutcome,
    CliError,
>)
    ensures
        match outcome {
            Result::Ok(ReplyOutcome::Text(reply)) => final(t)@ == old(t)@.push(
                assistant_entry(reply@),
            ) && r == Result::<ReplyOutcome, CliError>::Ok(ReplyOutcome::Text(reply)),
            Result::Ok(ReplyOutcome::EmptyReply) => final(t)@ == old(t)@ && r == Result::<
                ReplyOutcome,
                CliError,
            >::Ok(ReplyOutcome::EmptyReply),
            Result::Err(e) => final(t)@ == old(t)@ && r == Result::<ReplyOutcome, CliError>::Err(
                e,
            ),
        },
{
    match outcome {
        Result::Ok(ReplyOutcome::Text(reply)) => {
            t.push(Message::new(Role::Assistant, reply.clone()));
            Result::Ok(ReplyOutcome::Text(reply))
        },
        Result::Ok(ReplyOutcome::EmptyReply) => Result::Ok(ReplyOutcome::EmptyReply),
        Result::Err(e) => Result::Err(e),
    }
}

/// A successful turn grows the transcript by exactly two entries: the
/// new user message and then the returned assistant reply, with
/// everything before them unchanged.
pub proof fn lemma_turn_success(t0: Seq<MsgView>, user_text: Seq<char>, reply: Seq<char>)
    ensures
        ({
            let t2 = t0.push(user_entry(user_text)).push(assistant_entry(reply));
            &&& t2.len() == t0.len() + 2
            &&& t2[t2.len() - 2] == user_entry(user_text)
            &&& t2[t2.len() - 1] == assistant_entry(reply)
            &&& t2.subrange(0, t0.len() as int) == t0
        }),
{
    let t2 = t0.push(user_entry(user_text)).push(assistant_entry(reply));
    assert(t2.subrange(0, t0.len() as int) =~= t0);
}

/// A failed turn grows the transcript by exactly the user's message:
/// it is retained, no assistant entry appears, and everything before it
/// is unchanged.
pub proof fn lemma_turn_failure(t0: Seq<MsgView>, user_text: Seq<char>)
    ensures
        t0.push(user_entry(user_text)).len() == t0.len() + 1,
        t0.push(user_entry(user_text))[t0.len() as int] == user_entry(user_text),
        t0.push(user_entry(user_text)).subrange(0, t0.len() as int) == t0,
{
    assert(t0.push(user_entry(user_text)).subrange(0, t0.len() as int) =~= t0);
}

} // verus!
