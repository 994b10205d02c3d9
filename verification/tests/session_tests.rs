use ai_cli::chat::{exit_requested, on_input, on_send_completed, ChatState};
use ai_cli::errors::{CliError, ReplyOutcome};
use ai_cli::framer::{
    combine_prompt, frame_one_shot, one_shot_params, prepare_one_shot, summarize_instruction,
    translate_instruction,
};
use ai_cli::msg::{Message, Role, Transcript};
use ai_cli::session::{advance_reply, advance_request};

fn params_for(model: &str) -> ai_cli::request::RequestParams {
    one_shot_params(model.to_string())
}

#[test]
fn successful_turn_grows_transcript_by_two() {
    let mut t = Transcript::new();
    t.push(Message::new(Role::User, "hi".to_string()));
    t.push(Message::new(Role::Assistant, "hello".to_string()));
    let p = params_for("gpt-4o-mini");
    let _body = advance_request(&mut t, "how are you?".to_string(), &p);
    assert_eq!(t.len(), 3);
    let r = advance_reply(&mut t, Ok(ReplyOutcome::Text("fine".to_string())));
    assert_eq!(r, Ok(ReplyOutcome::Text("fine".to_string())));
    assert_eq!(t.len(), 4);
    assert_eq!(t.get(2).role, Role::User);
    assert_eq!(t.get(2).content, "how are you?");
    assert_eq!(t.get(3).role, Role::Assistant);
    assert_eq!(t.get(3).content, "fine");
    assert_eq!(t.get(0).content, "hi");
    assert_eq!(t.get(1).content, "hello");
}

#[test]
fn failed_turn_keeps_user_message_and_surfaces_error() {
    let mut t = Transcript::new();
    t.push(Message::new(Role::User, "a".to_string()));
    let p = params_for("gpt-4o-mini");
    let _body = advance_request(&mut t, "b".to_string(), &p);
    assert_eq!(t.len(), 2);
    let err = CliError::TransportFailure("connection refused".to_string());
    let r = advance_reply(&mut t, Err(err.clone()));
    assert_eq!(r, Err(err));
    assert_eq!(t.len(), 2);
    assert_eq!(t.get(1).role, Role::User);
    assert_eq!(t.get(1).content, "b");
}

#[test]
fn empty_reply_leaves_transcript_at_user_message() {
    let mut t = Transcript::new();
    let p = params_for("gpt-4o-mini");
    let _body = advance_request(&mut t, "hello".to_string(), &p);
    let r = advance_reply(&mut t, Ok(ReplyOutcome::EmptyReply));
    assert_eq!(r, Ok(ReplyOutcome::EmptyReply));
    assert_eq!(t.len(), 1);
}

#[test]
fn exit_any_case_terminates_without_send() {
    assert_eq!(on_input("exit"), ChatState::Terminated);
    assert_eq!(on_input("EXIT"), ChatState::Terminated);
    assert_eq!(on_input("Exit"), ChatState::Terminated);
    assert_eq!(on_input("eXiT"), ChatState::Terminated);
    assert!(exit_requested("exit"));
    assert!(!exit_requested("exits"));
    assert!(!exit_requested("quit"));
    assert!(!exit_requested(""));
    assert_eq!(on_input("hello"), ChatState::SendingRequest);
    assert_eq!(on_input(""), ChatState::SendingRequest);
}

#[test]
fn send_completion_always_returns_to_prompt() {
    assert_eq!(
        on_send_completed(&Ok(ReplyOutcome::Text("x".to_string()))),
        ChatState::AwaitingInput
    );
    assert_eq!(on_send_completed(&Ok(ReplyOutcome::EmptyReply)), ChatState::AwaitingInput);
    assert_eq!(
        on_send_completed(&Err(CliError::RemoteError(401, "invalid_api_key".to_string()))),
        ChatState::AwaitingInput
    );
    assert_eq!(
        on_send_completed(&Err(CliError::TransportFailure("dns".to_string()))),
        ChatState::AwaitingInput
    );
}

#[test]
fn summarize_framing_builds_exact_prompt() {
    let t = frame_one_shot(&summarize_instruction(), "The quick brown fox.");
    assert_eq!(t.len(), 1);
    assert_eq!(t.get(0).role, Role::User);
    assert_eq!(
        t.get(0).content,
        "Summarize the following text briefly:\n\nThe quick brown fox."
    );
}

#[test]
fn translate_instruction_is_verbatim() {
    assert_eq!(translate_instruction("fr"), "Translate the following text into fr:");
    assert_eq!(translate_instruction("es"), "Translate the following text into es:");
}

#[test]
fn combine_prompt_joins_with_blank_line() {
    assert_eq!(combine_prompt("Do this:", "to that"), "Do this:\n\nto that");
}

#[test]
fn one_shot_runs_share_no_state() {
    let p = params_for("gpt-4o-mini");
    let (t1, body1) = prepare_one_shot(&summarize_instruction(), "Same input.", &p);
    let (t2, body2) = prepare_one_shot(&summarize_instruction(), "Same input.", &p);
    assert_eq!(body1, body2);
    assert_eq!(t1.len(), t2.len());
    assert_eq!(t1.get(0).content, t2.get(0).content);
    assert_eq!(t1.get(0).role, t2.get(0).role);
}

#[test]
fn one_shot_default_parameters() {
    let p = one_shot_params("gpt-4o-mini".to_string());
    assert_eq!(p.model, "gpt-4o-mini");
    assert_eq!(p.max_tokens, 200);
    assert_eq!(p.temperature_tenths, 7);
}
