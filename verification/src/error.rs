//! The two failure categories a command can end in: the transport broke, or
//! the server's reply did not follow the protocol.

use vstd::prelude::*;

verus! {

/// Failure of one query or read command.
///
/// `ConnectionError` is a transport failure (refused, dropped, timed out);
/// `ProtocolError` is a syntactically or semantically invalid server reply,
/// carrying the offending text or a description.
#[derive(Debug)]
pub enum GnuDbError {
    ConnectionError(String),
    ProtocolError(String),
}

impl GnuDbError {
    /// The diagnostic text carried by either variant.
    pub fn message(&self) -> (m: &String)
        ensures
            m@ == self.text(),
    {
        match self {
            GnuDbError::ConnectionError(s) => s,
            GnuDbError::ProtocolError(s) => s,
        }
    }

    /// The carried text, as a character sequence.
    pub open spec fn text(&self) -> Seq<char> {
        match self {
            GnuDbError::ConnectionError(s) => s@,
            GnuDbError::ProtocolError(s) => s@,
        }
    }
}

} // verus!
