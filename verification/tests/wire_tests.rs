use ai_cli::errors::{CliError, ReplyOutcome};
use ai_cli::msg::{Message, Role, Transcript};
use ai_cli::request::{
    read_messages, render_messages_string, render_request, RequestParams,
};
use ai_cli::chat::{on_input, on_send_completed, ChatState};
use ai_cli::response::{interpret_response, read_response};
use ai_cli::session::{advance_reply, advance_request};

fn one_user_transcript(text: &str) -> Transcript {
    let mut t = Transcript::new();
    t.push(Message::new(Role::User, text.to_string()));
    t
}

#[test]
fn request_body_has_expected_shape() {
    let p = RequestParams {
        model: "gpt-4o-mini".to_string(),
        max_tokens: 200,
        temperature_tenths: 7,
    };
    let t = one_user_transcript("Hi");
    let body = render_request(&p, &t);
    assert_eq!(
        body,
        "{\"model\":\"gpt-4o-mini\",\"messages\":[{\"role\":\"user\",\"content\":\"Hi\"}],\"max_tokens\":200,\"temperature\":0.7}"
    );
}

#[test]
fn request_body_renders_edge_parameters() {
    let p = RequestParams {
        model: "m".to_string(),
        max_tokens: 0,
        temperature_tenths: 20,
    };
    let t = one_user_transcript("x");
    let body = render_request(&p, &t);
    assert!(body.ends_with("\"max_tokens\":0,\"temperature\":2.0}"));
}

#[test]
fn request_body_parses_as_json() {
    let p = RequestParams {
        model: "gpt-4o-mini".to_string(),
        max_tokens: 150,
        temperature_tenths: 12,
    };
    let mut t = Transcript::new();
    t.push(Message::new(Role::User, "line one\nline \"two\"\\".to_string()));
    t.push(Message::new(Role::Assistant, "ok\tdone".to_string()));
    let body = render_request(&p, &t);
    let v: serde_json::Value = serde_json::from_str(&body).expect("rendered body must be JSON");
    assert_eq!(v["model"], "gpt-4o-mini");
    assert_eq!(v["max_tokens"], 150);
    assert_eq!(v["temperature"], 1.2);
    let msgs = v["messages"].as_array().expect("messages array");
    assert_eq!(msgs.len(), 2);
    assert_eq!(msgs[0]["role"], "user");
    assert_eq!(msgs[0]["content"], "line one\nline \"two\"\\");
    assert_eq!(msgs[1]["role"], "assistant");
    assert_eq!(msgs[1]["content"], "ok\tdone");
}

#[test]
fn messages_round_trip_exactly() {
    let mut t = Transcript::new();
    t.push(Message::new(Role::User, "quote \" backslash \\ newline \n".to_string()));
    t.push(Message::new(Role::Assistant, "tab\tret\rctrl\u{1}end".to_string()));
    t.push(Message::new(Role::User, "plain".to_string()));
    let rendered = render_messages_string(&t);
    let back = read_messages(&rendered).expect("rendered messages must read back");
    assert_eq!(back.len(), 3);
    assert_eq!(back[0].role, Role::User);
    assert_eq!(back[0].content, "quote \" backslash \\ newline \n");
    assert_eq!(back[1].role, Role::Assistant);
    assert_eq!(back[1].content, "tab\tret\rctrl\u{1}end");
    assert_eq!(back[2].role, Role::User);
    assert_eq!(back[2].content, "plain");
}

#[test]
fn empty_transcript_round_trips() {
    let t = Transcript::new();
    let rendered = render_messages_string(&t);
    assert_eq!(rendered, "[]");
    let back = read_messages(&rendered).expect("empty array reads back");
    assert_eq!(back.len(), 0);
}

#[test]
fn read_messages_rejects_trailing_garbage() {
    assert!(read_messages("[]x").is_none());
    assert!(read_messages("").is_none());
    assert!(read_messages("[{\"role\":\"user\",\"content\":\"a\"}").is_none());
}

#[test]
fn response_with_reply_is_read_and_trimmed() {
    let body = "{\"id\":\"chatcmpl-1\",\"object\":\"chat.completion\",\"choices\":[{\"index\":0,\"message\":{\"role\":\"assistant\",\"content\":\"  Hello there!\\n\"},\"finish_reason\":\"stop\"}],\"usage\":{\"total_tokens\":12}}";
    let r = interpret_response(200, body);
    assert_eq!(r, Ok(ReplyOutcome::Text("Hello there!".to_string())));
}

#[test]
fn response_reader_keeps_choice_order() {
    let body = "{\"choices\": [ {\"message\": {\"content\": \"first\"}}, {\"message\": {\"content\": \"second\"}} ]}";
    let list = read_response(body).expect("well-formed response");
    assert_eq!(list, vec!["first".to_string(), "second".to_string()]);
    let r = interpret_response(204, body);
    assert_eq!(r, Ok(ReplyOutcome::Text("first".to_string())));
}

#[test]
fn empty_choices_is_soft_no_reply() {
    let r = interpret_response(200, "{\"choices\": []}");
    assert_eq!(r, Ok(ReplyOutcome::EmptyReply));
}

#[test]
fn unauthorized_status_surfaces_status_and_body() {
    let r = interpret_response(401, "invalid_api_key");
    assert_eq!(r, Err(CliError::RemoteError(401, "invalid_api_key".to_string())));
}

#[test]
fn session_survives_remote_error() {
    let mut t = Transcript::new();
    let p = RequestParams {
        model: "gpt-4o-mini".to_string(),
        max_tokens: 200,
        temperature_tenths: 7,
    };
    let _body = advance_request(&mut t, "hello".to_string(), &p);
    let outcome = interpret_response(401, "invalid_api_key");
    let r = advance_reply(&mut t, outcome);
    assert_eq!(r, Err(CliError::RemoteError(401, "invalid_api_key".to_string())));
    assert_eq!(on_send_completed(&r), ChatState::AwaitingInput);
    assert_eq!(on_input("next question"), ChatState::SendingRequest);
    assert_eq!(t.len(), 1);
}

#[test]
fn malformed_bodies_are_classified() {
    assert_eq!(
        interpret_response(200, "not json at all"),
        Err(CliError::MalformedResponse)
    );
    assert_eq!(interpret_response(200, "{}"), Err(CliError::MalformedResponse));
    assert_eq!(
        interpret_response(200, "{\"choices\": 3}"),
        Err(CliError::MalformedResponse)
    );
    assert_eq!(
        interpret_response(200, "{\"choices\":[{\"message\":{}}]}"),
        Err(CliError::MalformedResponse)
    );
    assert_eq!(
        interpret_response(200, "{\"choices\":[{}]}"),
        Err(CliError::MalformedResponse)
    );
}

#[test]
fn error_messages_are_exact() {
    assert_eq!(
        CliError::MissingCredential.message(),
        "API key not set. Please export AI_API_KEY before running."
    );
    assert_eq!(
        CliError::TransportFailure("connection reset".to_string()).message(),
        "Network request failed: connection reset"
    );
    assert_eq!(
        CliError::RemoteError(401, "invalid_api_key".to_string()).message(),
        "API returned error: 401 - invalid_api_key"
    );
    assert_eq!(CliError::MalformedResponse.message(), "Failed to parse response");
}

#[test]
fn unknown_members_are_ignored_everywhere() {
    let body = "{\"created\":123,\"choices\":[{\"extra\":[1,2,{\"a\":null}],\"message\":{\"refusal\":null,\"content\":\"ok\",\"role\":\"assistant\"}}],\"flag\":true,\"note\":\"x\"}";
    let r = interpret_response(200, body);
    assert_eq!(r, Ok(ReplyOutcome::Text("ok".to_string())));
}

#[test]
fn escaped_content_in_response_is_decoded() {
    let body = "{\"choices\":[{\"message\":{\"content\":\"a\\\"b\\\\c\\nd\\u0041\"}}]}";
    let r = interpret_response(200, body);
    assert_eq!(r, Ok(ReplyOutcome::Text("a\"b\\c\nd".to_string() + "A")));
}
