//! The contact service's error type: a bad request or an internal
//! failure, each carrying its message.

use vstd::prelude::*;
use vstd::string::*;

verus! {

/// What a contact endpoint can fail with.
#[derive(Debug, Clone)]
pub enum HierarchyContactException {
    /// The request itself was unusable; the message says what was
    /// missing or wrong.
    BadRequest(String),
    /// The service failed; the message carries the underlying cause.
    InternalServerError(String),
}

/// The display form of an error: its kind's prefix before its message.
pub open spec fn spec_describe(e: &HierarchyContactException) -> Seq<char> {
    match e {
        HierarchyContactException::BadRequest(m) => "Bad Request: "@ + m@,
        HierarchyContactException::InternalServerError(m) => "Internal Error: "@ + m@,
    }
}

impl HierarchyContactException {
    /// Render the error for display.
    pub fn describe(&self) -> (r: String)
        ensures
            r@ == spec_describe(self),
    {
        match self {
            HierarchyContactException::BadRequest(m) => {
                let mut s = String::from_str("Bad Request: ");
                s.append(m.as_str());
                s
            },
            HierarchyContactException::InternalServerError(m) => {
                let mut s = String::from_str("Internal Error: ");
                s.append(m.as_str());
                s
            },
        }
    }

    /// The bare message, for the response body.
    pub fn message(&self) -> (r: &String)
        ensures
            match self {
                HierarchyContactException::BadRequest(m) => r@ == m@,
                HierarchyContactException::InternalServerError(m) => r@ == m@,
            },
    {
        match self {
            HierarchyContactException::BadRequest(m) => m,
            HierarchyContactException::InternalServerError(m) => m,
        }
    }

    /// Wrap an underlying failure's rendering as an internal error,
    /// as the service does when a lower layer fails.
    pub fn from_cause(cause: String) -> (r: HierarchyContactException)
        ensures
            r == HierarchyContactException::InternalServerError(cause),
    {
        HierarchyContactException::InternalServerError(cause)
    }
}

} // verus!
