//! Kinds of errors.

use vstd::prelude::*;

verus! {

/// The kind of an error, as reported to the caller.
#[derive(Debug, Clone, Copy, PartialEq, Eq, Structural)]
pub enum ErrorType {
    ConnectTimedout,
    AcceptError,
    ReadError,
    InternalError,
}

/// The text `a` followed by the text `b`.
pub(crate) fn joined(a: &str, b: &str) -> (text: String)
    ensures
        text@ == a@ + b@,
{
    let mut text = a.to_owned();
    text.append(b);
    text
}

} // verus!
