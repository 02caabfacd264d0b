use vstd::prelude::*;

verus! {

/// The errors that the serving operation reports to its caller.
#[derive(Debug)]
pub enum Error {
    /// The request could not be served as asked (the vendor refused it, or a
    /// post could not be turned into text); the message says why.
    BadRequest(String),
    /// Anything else; details stay in the server's log.
    InternalServer,
}

impl Error {
    /// The HTTP status that answers a request failing with this error.
    pub fn status_code(&self) -> (r: u16)
        ensures
            self is BadRequest ==> r == 400,
            self is InternalServer ==> r == 500,
    {
        match self {
            Error::BadRequest(_) => 400,
            Error::InternalServer => 500,
        }
    }

    /// The text placed in the `error` field of the response body; an internal
    /// error never shows its cause.
    pub fn message(&self) -> (r: String)
        ensures
            self matches Error::BadRequest(m) ==> r@ == m@,
            self is InternalServer ==> r@ == "Internal server error"@,
    {
        match self {
            Error::BadRequest(m) => m.clone(),
            Error::InternalServer => String::from_str("Internal server error"),
        }
    }
}

} // verus!
