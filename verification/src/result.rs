//! The failures that a request to the catalogue can end in.

use vstd::prelude::*;

verus! {

/// Why a request to the catalogue gave no record.
#[derive(Debug, Clone, Copy, PartialEq, Eq, Structural)]
pub enum Error {
    /// The service answered with a status that is neither success nor a
    /// reason to ask again. The status code is kept.
    RequestFailed(u16),
    /// The body of a successful answer could not be read as text.
    BadResponse,
    /// The document is not XML.
    InvalidXML,
    /// The service could not be reached.
    ConnectionFailed,
    /// The service kept asking the client to slow down.
    TooManyRequests,
}

impl Error {
    /// What to tell a user about this failure.
    pub fn message(&self) -> (text: &'static str)
        ensures
            text@ == self.message_text(),
    {
        match self {
            Error::RequestFailed(_) => "received bad status code from BGG",
            Error::BadResponse => "received bad response from BGG",
            Error::InvalidXML => "received invalid XML from BGG",
            Error::ConnectionFailed => "could not connect to BGG",
            Error::TooManyRequests => "too many requests",
        }
    }

    /// The text of [`Error::message`].
    pub open spec fn message_text(&self) -> Seq<char> {
        match self {
            Error::RequestFailed(_) => "received bad status code from BGG"@,
            Error::BadResponse => "received bad response from BGG"@,
            Error::InvalidXML => "received invalid XML from BGG"@,
            Error::ConnectionFailed => "could not connect to BGG"@,
            Error::TooManyRequests => "too many requests"@,
        }
    }
}

} // verus!
