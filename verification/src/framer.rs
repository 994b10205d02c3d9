//! Framing one-shot tasks: a fixed instruction and one piece of input
//! text become the sole user message of a fresh single-turn transcript,
//! which is discarded after the exchange.

use vstd::prelude::*;
use vstd::string::StringExecFns;
use crate::msg::{Message, MsgView, Role, Transcript};
use crate::request::{render_request, spec_render_request, RequestParams};
use crate::session::user_entry;

verus! {

/// The combined one-shot prompt: the instruction, a blank line, the input.
pub open spec fn spec_combined_prompt(instruction: Seq<char>, input: Seq<char>) -> Seq<char> {
    instruction + "\n\n"@ + input
}

/// Builds the combined prompt text.
pub fn combine_prompt(instruction: &str, input_text: &str) -> (r: String)
    ensures
        r@ == spec_combined_prompt(instruction@, input_text@),
{
    let mut s = String::from_str(instruction);
    s.append("\n\n");
    s.append(input_text);
    s
}

/// The fixed instruction of the summarize task.
pub fn summarize_instruction() -> (r: String)
    ensures
        r@ == "Summarize the following text briefly:"@,
{
    String::from_str("Summarize the following text briefly:")
}

/// The instruction of the translate task for a target language code:
/// the fixed wording around the code, verbatim.
pub fn translate_instruction(to: &str) -> (r: String)
    ensures
        r@ == "Translate the following text into "@ + to@ + ":"@,
{
    let mut s = String::from_str("Translate the following text into ");
    s.append(to);
    s.append(":");
    s
}

/// The default parameters of a one-shot call; the model is the caller's.
pub fn one_shot_params(model: String) -> (p: RequestParams)
    ensures
        p.model == model,
        p.max_tokens == 200,
        p.temperature_tenths == 7,
{
    RequestParams { model, max_tokens: 200, temperature_tenths: 7 }
}

/// Frames a one-shot task: a fresh transcript holding exactly one user
/// message, the combined prompt.
pub fn frame_one_shot(instruction: &str, input_text: &str) -> (t: Transcript)
    ensures
        t@ =~= seq![user_entry(spec_combined_prompt(instruction@, input_text@))],
{
    let mut t = Transcript::new();
    t.push(Message::new(Role::User, combine_prompt(instruction, input_text)));
    t
}

/// Prepares one whole one-shot request: the framed transcript and the
/// request body to send. The transcript is discarded after the exchange;
/// one-shot tasks keep no state across invocations.
pub fn prepare_one_shot(instruction: &str, input_text: &str, params: &RequestParams) -> (r: (
    Transcript,
    String,
))
    ensures
        r.0@ =~= seq![user_entry(spec_combined_prompt(instruction@, input_text@))],
        r.1@ == spec_render_request(
            params.model@,
            params.max_tokens as int,
            params.temperature_tenths as int,
            r.0@,
        ),
{
    let t = frame_one_shot(instruction, input_text);
    let body = render_request(params, &t);
    (t, body)
}

/// One-shot framing shares no state between calls: any two framed
/// transcripts of the same instruction and input are the same value, so
/// two runs with a stubbed transport returning a fixed reply behave
/// identically.
pub proof fn lemma_one_shot_stateless(
    instruction: Seq<char>,
    input: Seq<char>,
    t1: Seq<MsgView>,
    t2: Seq<MsgView>,
)
    requires
        t1 =~= seq![user_entry(spec_combined_prompt(instruction, input))],
        t2 =~= seq![user_entry(spec_combined_prompt(instruction, input))],
    ensures
        t1 == t2,
{
    assert(t1 =~= t2);
}

} // verus!
