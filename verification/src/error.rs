//! The error value returned by every fallible operation of the client.

use vstd::prelude::*;
use crate::text::{dec_int, push_dec_int};

verus! {

/// The diagnostic line an error renders to.
pub open spec fn spec_message(e: CFPError) -> Seq<char> {
    match e {
        CFPError::Transport { message } => "CFPError: transport -> "@ + message@,
        CFPError::Status { status_code, body } => "CFPError: status code -> "@ + dec_int(
            status_code as int,
        ) + ", body -> "@ + body@,
        CFPError::Decode { message } => "CFPError: decode -> "@ + message@,
    }
}

/// A failure of one API operation, tagged by where it arose.
///
/// - `Transport`: the request could not be built or could not be sent
///   (connection failure after the transport exhausted its retries).
/// - `Status`: the server answered with a non-success status; carries the
///   status code and the response body text for diagnostics.
/// - `Decode`: the server answered 200 but the body could not be decoded
///   into the expected record shape.
#[derive(Debug)]
pub enum CFPError {
    Transport { message: String },
    Status { status_code: u16, body: String },
    Decode { message: String },
}

impl CFPError {
    /// True of a server-status failure: used by callers that pattern-match
    /// only on the failure kind.
    pub fn is_status(&self) -> (r: bool)
        ensures
            r == (self is Status),
    {
        match self {
            CFPError::Status { .. } => true,
            _ => false,
        }
    }

    /// True of a decode failure.
    pub fn is_decode(&self) -> (r: bool)
        ensures
            r == (self is Decode),
    {
        match self {
            CFPError::Decode { .. } => true,
            _ => false,
        }
    }

    /// True of a transport failure.
    pub fn is_transport(&self) -> (r: bool)
        ensures
            r == (self is Transport),
    {
        match self {
            CFPError::Transport { .. } => true,
            _ => false,
        }
    }

    /// The diagnostic line for logging or display: the failure kind and
    /// its payload, the status code in decimal.
    pub fn message(&self) -> (r: String)
        ensures
            r@ == spec_message(*self),
    {
        match self {
            CFPError::Transport { message } => {
                let mut out = String::from_str("CFPError: transport -> ");
                out.append(message.as_str());
                out
            },
            CFPError::Status { status_code, body } => {
                let mut out = String::from_str("CFPError: status code -> ");
                push_dec_int(&mut out, *status_code as i32);
                out.append(", body -> ");
                out.append(body.as_str());
                out
            },
            CFPError::Decode { message } => {
                let mut out = String::from_str("CFPError: decode -> ");
                out.append(message.as_str());
                out
            },
        }
    }
}

} // verus!
