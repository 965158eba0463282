//! The error taxonomy of a model turn: transport failures, typed API
//! rejections, malformed replies, and protocol violations.

use vstd::prelude::*;
use super::api::APIError;
use super::api::spec_api_error_message;
use crate::strings::concat_str;

verus! {

/// A terminal error for one turn of the dispatch loop.
#[derive(Debug, PartialEq)]
pub enum Error {
    /// The transport could not reach the remote model or read its reply.
    Transport { message: String },
    /// The reply could not be decoded.
    Json { message: String },
    /// The remote model rejected the request.
    Api { error: APIError },
    /// The remote model emitted a content block it never may (an image
    /// or a tool result).
    Protocol { message: String },
    /// The defensive cap on tool rounds within one turn was reached.
    TurnLimit { message: String },
}

/// The rendered description of an error.
pub open spec fn spec_error_message(e: Error) -> Seq<char> {
    match e {
        Error::Transport { message } => "HTTP Error: "@ + message@,
        Error::Json { message } => "JSON Error: "@ + message@,
        Error::Api { error } => "API Error: "@ + spec_api_error_message(error),
        Error::Protocol { message } => "Protocol Error: "@ + message@,
        Error::TurnLimit { message } => "Turn Error: "@ + message@,
    }
}

impl Error {
    /// Render this error as one human-readable line.
    pub fn message(&self) -> (r: String)
        ensures
            r@ == spec_error_message(*self),
    {
        match self {
            Error::Transport { message } => concat_str(
                "HTTP Error: ".to_owned(),
                message.as_str(),
            ),
            Error::Json { message } => concat_str("JSON Error: ".to_owned(), message.as_str()),
            Error::Api { error } => concat_str("API Error: ".to_owned(), error.message()),
            Error::Protocol { message } => concat_str(
                "Protocol Error: ".to_owned(),
                message.as_str(),
            ),
            Error::TurnLimit { message } => concat_str(
                "Turn Error: ".to_owned(),
                message.as_str(),
            ),
        }
    }
}

} // verus!
