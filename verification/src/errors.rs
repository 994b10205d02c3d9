//! The error taxonomy of an exchange with the remote endpoint, and the
//! outcome type of a successful exchange.

use vstd::prelude::*;
use vstd::string::StringExecFns;
use crate::text::{chars_to_string, dec_chars, push_decimal, str_to_chars};

verus! {

/// Why an exchange failed. One-shot commands propagate these to the
/// process boundary; the interactive loop reports them and continues.
#[derive(Clone, Debug, PartialEq, Eq)]
pub enum CliError {
    /// The required credential is absent from the process environment.
    /// Fatal, and resolved before any network activity.
    MissingCredential,
    /// The request could not be sent or no response was received;
    /// carries the transport's detail text.
    TransportFailure(String),
    /// The endpoint answered with a non-success HTTP status; carries the
    /// status code and the response body text for diagnostics.
    RemoteError(u16, String),
    /// The response body did not match the expected schema.
    MalformedResponse,
}

/// The diagnostic line an error is reported with.
pub open spec fn spec_message(e: CliError) -> Seq<char> {
    match e {
        CliError::MissingCredential => "API key not set. Please export AI_API_KEY before running."@,
        CliError::TransportFailure(d) => "Network request failed: "@ + d@,
        CliError::RemoteError(status, body) => "API returned error: "@ + dec_chars(status as int)
            + " - "@ + body@,
        CliError::MalformedResponse => "Failed to parse response"@,
    }
}

impl CliError {
    /// The diagnostic text shown to the operator.
    pub fn message(&self) -> (r: String)
        ensures
            r@ == spec_message(*self),
    {
        match self {
            CliError::MissingCredential => String::from_str(
                "API key not set. Please export AI_API_KEY before running.",
            ),
            CliError::TransportFailure(d) => {
                let mut s = String::from_str("Network request failed: ");
                s.append(d.as_str());
                s
            },
            CliError::RemoteError(status, body) => {
                let mut digits: Vec<char> = str_to_chars("API returned error: ");
                push_decimal(&mut digits, *status as u32);
                let mut s = chars_to_string(&digits);
                s.append(" - ");
                s.append(body.as_str());
                s
            },
            CliError::MalformedResponse => String::from_str("Failed to parse response"),
        }
    }
}

/// What a successful exchange yielded: the assistant's reply text, or the
/// explicit no-reply notice for a response whose `choices` list is empty.
/// The empty case is a soft condition, deliberately not an error, so that
/// an interactive session stays usable.
#[derive(Clone, Debug, PartialEq, Eq)]
pub enum ReplyOutcome {
    Text(String),
    EmptyReply,
}

} // verus!
