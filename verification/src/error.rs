//! What can end a run before the digest is written.

use vstd::prelude::*;
use vstd::string::StringExecFns;

verus! {

/// The kinds of failure. Each ends the run; none is recovered from.
#[derive(Clone, Copy, Debug, PartialEq, Eq, Structural)]
pub enum Error {
    /// A required argument is missing.
    ConfigErr,
    /// The comment source could not be reached.
    RequestErr,
    /// The comment source answered with a status other than success.
    FetchErr,
    /// The comment source's answer is no JSON array.
    JsonParseErr,
    /// The digest could not be written.
    IOErr,
}

/// What the user is told of each kind of failure.
pub open spec fn message_of(e: Error) -> Seq<char> {
    match e {
        Error::ConfigErr => "Invalid arguments!"@,
        Error::RequestErr => "Error while sending request"@,
        Error::FetchErr => "Error while fetching"@,
        Error::JsonParseErr => "Invalid json"@,
        Error::IOErr => "Error while file operations"@,
    }
}

impl Error {
    /// What the user is told of this failure.
    pub fn message(&self) -> (text: String)
        ensures
            text@ == message_of(*self),
    {
        match self {
            Error::ConfigErr => String::from_str("Invalid arguments!"),
            Error::RequestErr => String::from_str("Error while sending request"),
            Error::FetchErr => String::from_str("Error while fetching"),
            Error::JsonParseErr => String::from_str("Invalid json"),
            Error::IOErr => String::from_str("Error while file operations"),
        }
    }
}

} // verus!
