//! The HTTP surface's records and how its failures are reported.

use vstd::prelude::*;

verus! {

/// The query of a cancel request: the session to cancel.
#[derive(Debug)]
pub struct SessionId {
    pub id: String,
}

/// Why a request of the HTTP surface fails.
#[derive(PartialEq, Eq, Structural, Clone, Copy, Debug)]
pub enum Rejection {
    /// Unknown device, or an upload whose session, file and token do not match.
    Forbidden,
    /// The actor could not take the request.
    Unavailable,
    /// Reading the body or writing the file failed.
    ServerError,
}

impl Rejection {
    /// The HTTP status the failure is answered with.
    pub fn status(&self) -> (r: u16)
        ensures
            r == match *self {
                Rejection::Forbidden => 403u16,
                Rejection::Unavailable => 503u16,
                Rejection::ServerError => 500u16,
            },
    {
        match self {
            Rejection::Forbidden => 403,
            Rejection::Unavailable => 503,
            Rejection::ServerError => 500,
        }
    }
}

} // verus!
