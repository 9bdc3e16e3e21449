//! What goes wrong while a header is read or parsed.

use crate::error::{joined, ErrorType};
use vstd::prelude::*;

verus! {

/// Why there is no header, with texts held as `S`.
#[derive(Debug, PartialEq, Eq)]
pub enum ProxyProtocolError<S> {
    /// The bytes are no header, for the given reason.
    Malformed(S),
    /// The stream ended within a header.
    ConnectionClosed,
    /// The header is longer than this library is willing to buffer.
    HeaderTooLarge,
    /// The stream could not be read, for the given reason.
    ReadFailed(S),
}

impl View for ProxyProtocolError<String> {
    type V = ProxyProtocolError<Seq<char>>;

    open spec fn view(&self) -> ProxyProtocolError<Seq<char>> {
        match *self {
            ProxyProtocolError::Malformed(reason) => ProxyProtocolError::Malformed(reason@),
            ProxyProtocolError::ConnectionClosed => ProxyProtocolError::ConnectionClosed,
            ProxyProtocolError::HeaderTooLarge => ProxyProtocolError::HeaderTooLarge,
            ProxyProtocolError::ReadFailed(reason) => ProxyProtocolError::ReadFailed(reason@),
        }
    }
}

impl ProxyProtocolError<String> {
    /// A read that failed is a read error; all else is a connection that cannot
    /// be accepted.
    pub fn etype(&self) -> (etype: ErrorType)
        ensures
            etype == (if self is ReadFailed {
                ErrorType::ReadError
            } else {
                ErrorType::AcceptError
            }),
    {
        match self {
            ProxyProtocolError::ReadFailed(_) => ErrorType::ReadError,
            _ => ErrorType::AcceptError,
        }
    }

    /// The error in words.
    pub fn explanation(&self) -> (text: String)
        ensures
            text@ == match self@ {
                ProxyProtocolError::Malformed(reason) => "Failed to parse PROXY protocol: "@
                    + reason,
                ProxyProtocolError::ConnectionClosed =>
                    "Connection closed while reading PROXY protocol header"@,
                ProxyProtocolError::HeaderTooLarge => "PROXY protocol header too large"@,
                ProxyProtocolError::ReadFailed(reason) => "Failed to read PROXY protocol header: "@
                    + reason,
            },
    {
        match self {
            ProxyProtocolError::Malformed(reason) => joined(
                "Failed to parse PROXY protocol: ",
                reason.as_str(),
            ),
            ProxyProtocolError::ConnectionClosed =>
                "Connection closed while reading PROXY protocol header".to_owned(),
            ProxyProtocolError::HeaderTooLarge => "PROXY protocol header too large".to_owned(),
            ProxyProtocolError::ReadFailed(reason) => joined(
                "Failed to read PROXY protocol header: ",
                reason.as_str(),
            ),
        }
    }
}

} // verus!
