use vstd::prelude::*;
use vstd::string::*;

verus! {

/// Why a token was turned down.
#[derive(Debug, Clone, Copy, PartialEq, Eq, Structural)]
pub enum Error {
    /// The text is not the text form of a token: it has the wrong length,
    /// holds a byte outside the alphabet, or decodes to the wrong number of
    /// bytes. Nothing is said about which of these it was.
    InvalidToken,
    /// The request token is well formed, but the secret it carries is not
    /// the secret of the session.
    TokenMismatch,
}

impl Error {
    /// The message of this error, as a sequence of characters.
    pub open spec fn message(&self) -> Seq<char> {
        match self {
            Error::InvalidToken => "invalid xsrf token"@,
            Error::TokenMismatch => "xsrf token mismatch"@,
        }
    }

    /// The message of this error.
    pub fn to_string(&self) -> (s: String)
        ensures
            s@ == self.message(),
    {
        match self {
            Error::InvalidToken => String::from_str("invalid xsrf token"),
            Error::TokenMismatch => String::from_str("xsrf token mismatch"),
        }
    }
}

} // verus!
