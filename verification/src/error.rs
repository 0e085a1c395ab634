//! The typed failures of a network exchange. Every variant is non-fatal:
//! tasks fold them into user-visible actions, nothing network-related may
//! panic the process.

use vstd::prelude::*;
use crate::text::{chars_to_string, push_str_chars};

verus! {

/// Why an exchange with the server failed.
#[derive(Clone, Debug, PartialEq, Eq)]
pub enum TabbyApiError {
    /// The server could not be reached before any byte of a response arrived.
    ConnectionError(String),
    /// A response frame held invalid UTF-8 or a malformed record; the whole
    /// stream fails, no resynchronization is attempted.
    DecodeError(String),
    /// The connection dropped mid-stream, after at least one delivered chunk.
    /// Chunks already delivered are not retracted.
    TransportInterrupted(String),
}

/// The user-visible description of an error.
pub open spec fn error_text_spec(e: TabbyApiError) -> Seq<char> {
    match e {
        TabbyApiError::ConnectionError(m) => "request failed: "@ + m@,
        TabbyApiError::DecodeError(m) => "decode failed: "@ + m@,
        TabbyApiError::TransportInterrupted(m) => "stream interrupted: "@ + m@,
    }
}

impl TabbyApiError {
    /// The user-visible error text: what the assistant message shows when an
    /// exchange fails.
    pub fn describe(&self) -> (r: String)
        ensures
            r@ == error_text_spec(*self),
    {
        let mut out: Vec<char> = Vec::new();
        match self {
            TabbyApiError::ConnectionError(m) => {
                push_str_chars(&mut out, "request failed: ");
                push_str_chars(&mut out, m.as_str());
            },
            TabbyApiError::DecodeError(m) => {
                push_str_chars(&mut out, "decode failed: ");
                push_str_chars(&mut out, m.as_str());
            },
            TabbyApiError::TransportInterrupted(m) => {
                push_str_chars(&mut out, "stream interrupted: ");
                push_str_chars(&mut out, m.as_str());
            },
        }
        chars_to_string(&out)
    }
}

/// Sorts a transport failure by when it struck: before any chunk was
/// delivered the server was never reached ([`TabbyApiError::ConnectionError`]);
/// after at least one chunk the stream was cut mid-way
/// ([`TabbyApiError::TransportInterrupted`]).
pub fn classify_transport_failure(received_any: bool, detail: String) -> (e: TabbyApiError)
    ensures
        received_any ==> e == TabbyApiError::TransportInterrupted(detail),
        !received_any ==> e == TabbyApiError::ConnectionError(detail),
{
    if received_any {
        TabbyApiError::TransportInterrupted(detail)
    } else {
        TabbyApiError::ConnectionError(detail)
    }
}

} // verus!
