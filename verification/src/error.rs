//! The error a broker call ends in, by its cause.
use vstd::prelude::*;

verus! {

/// An error from a broker call.
#[derive(Debug, PartialEq, Eq)]
pub enum Error {
    /// The broker could not be reached.
    Unreachable(String),
    /// The broker answered with an error status; the message is its reason.
    Rejected {
        /// The HTTP status, if one is known.
        status: Option<u16>,
        /// The broker's reason.
        message: String,
    },
    /// The broker's response could not be read or parsed.
    Malformed(String),
    /// The call's arguments were invalid before any request went out.
    Invalid(String),
}

impl Error {
    /// The human message.
    pub open spec fn message_text(self) -> Seq<char> {
        match self {
            Error::Unreachable(message) => message@,
            Error::Rejected { message, .. } => message@,
            Error::Malformed(message) => message@,
            Error::Invalid(message) => message@,
        }
    }

    /// The broker's HTTP status, when this is a rejection; nothing otherwise.
    pub fn status(&self) -> (r: Option<u16>)
        ensures
            r == (match *self {
                Error::Rejected { status, .. } => status,
                _ => None,
            }),
    {
        match self {
            Error::Rejected { status, .. } => *status,
            _ => None,
        }
    }

    /// Whether the broker could not be reached (is it running?).
    pub fn is_unreachable(&self) -> (r: bool)
        ensures
            r == (self is Unreachable),
    {
        match self {
            Error::Unreachable(_) => true,
            _ => false,
        }
    }

    /// Whether the broker answered with an error status.
    pub fn is_rejected(&self) -> (r: bool)
        ensures
            r == (self is Rejected),
    {
        match self {
            Error::Rejected { .. } => true,
            _ => false,
        }
    }

    /// Whether the broker's response could not be read or parsed.
    pub fn is_malformed(&self) -> (r: bool)
        ensures
            r == (self is Malformed),
    {
        match self {
            Error::Malformed(_) => true,
            _ => false,
        }
    }

    /// Whether the call's arguments were invalid before any request went out.
    pub fn is_invalid(&self) -> (r: bool)
        ensures
            r == (self is Invalid),
    {
        match self {
            Error::Invalid(_) => true,
            _ => false,
        }
    }

    /// The human message.
    pub fn to_string(&self) -> (r: String)
        ensures
            r@ == self.message_text(),
    {
        match self {
            Error::Unreachable(message) => message.clone(),
            Error::Rejected { message, .. } => message.clone(),
            Error::Malformed(message) => message.clone(),
            Error::Invalid(message) => message.clone(),
        }
    }
}

/// An error is of one kind, says its own words, and has a status exactly where the
/// broker gave one with its refusal.
pub proof fn an_error_is_of_one_kind(
    e: Error,
    unreachable: bool,
    rejected: bool,
    malformed: bool,
    invalid: bool,
    status: Option<u16>,
    said: String,
)
    requires
        call_ensures(Error::is_unreachable, (&e,), unreachable),
        call_ensures(Error::is_rejected, (&e,), rejected),
        call_ensures(Error::is_malformed, (&e,), malformed),
        call_ensures(Error::is_invalid, (&e,), invalid),
        call_ensures(Error::status, (&e,), status),
        call_ensures(Error::to_string, (&e,), said),
    ensures
        match e {
            Error::Unreachable(why) => unreachable && !rejected && !malformed && !invalid && said@
                == why@ && status is None,
            Error::Rejected { status: code, message } => rejected && !unreachable && !malformed
                && !invalid && said@ == message@ && status == code,
            Error::Malformed(why) => malformed && !unreachable && !rejected && !invalid && said@
                == why@ && status is None,
            Error::Invalid(why) => invalid && !unreachable && !rejected && !malformed && said@
                == why@ && status is None,
        },
{
}

} // verus!
