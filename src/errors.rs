use vstd::prelude::*;

verus! {

/// Why one extractor attempt failed.
#[derive(Clone, Copy, Debug, PartialEq, Eq, Structural)]
pub enum Error {
    /// The request for the origin's body ran out of time.
    Timedout,
    /// The extractor did not finish in time.
    FetchFailed,
    /// The extractor's output was not a reply.
    DeserializeFailed,
    /// A file of the store could not be read or written.
    IOFailed,
}

impl Error {
    /// The name of the error kind.
    pub fn name(&self) -> (r: &'static str)
        ensures
            r@ == match *self {
                Error::Timedout => "Timedout"@,
                Error::FetchFailed => "FetchFailed"@,
                Error::DeserializeFailed => "DeserializeFailed"@,
                Error::IOFailed => "IOFailed"@,
            },
    {
        match self {
            Error::Timedout => {
                proof { reveal_strlit("Timedout"); }
                "Timedout"
            },
            Error::FetchFailed => {
                proof { reveal_strlit("FetchFailed"); }
                "FetchFailed"
            },
            Error::DeserializeFailed => {
                proof { reveal_strlit("DeserializeFailed"); }
                "DeserializeFailed"
            },
            Error::IOFailed => {
                proof { reveal_strlit("IOFailed"); }
                "IOFailed"
            },
        }
    }
}

} // verus!
