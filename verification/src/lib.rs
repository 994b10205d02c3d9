//! A verified core for a chat-completion command-line client.
//!
//! The library owns the conversational session model: messages and the
//! append-only transcript, rendering a transcript into the outbound JSON
//! request body, reading the endpoint's JSON response, classifying the
//! outcome of an exchange, framing one-shot tasks (summarize, translate),
//! and the interactive loop's state machine. All I/O (argument handling,
//! the HTTP call, the credential environment variable, terminal output)
//! lives outside the library and hands it plain values.

pub mod chat;
pub mod codec;
pub mod errors;
pub mod framer;
pub mod msg;
pub mod request;
pub mod response;
pub mod session;
pub mod text;
