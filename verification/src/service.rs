//! The envelope of a call as far as routing is concerned.
//!
//! The message streams of a call live outside this library; what a picker
//! may look at is here.

use std::time::Instant;
use vstd::prelude::*;

verus! {

/// A point on the monotonic clock. The library carries deadlines through and
/// never reads the clock itself.
#[verifier::external_type_specification]
#[verifier::external_body]
pub struct ExInstant(Instant);

/// The leading metadata of a response.
#[derive(Debug)]
pub struct Headers {}

/// The trailing metadata of a response.
#[derive(Debug)]
pub struct Trailers {}

/// The head of an outgoing call.
#[derive(Debug)]
pub struct Request {
    /// The full name of the method being called.
    pub method: String,
    /// When the call must be finished, if it has a deadline.
    pub deadline: Option<Instant>,
}

impl Request {
    /// A request for `method`. A request made on behalf of another one
    /// inherits the deadline of its parent; one without a parent has none.
    pub fn new(method: String, parent: Option<&Request>) -> (request: Request)
        ensures
            request.method == method,
            request.deadline == match parent {
                Some(p) => p.deadline,
                None => None,
            },
    {
        let deadline = match parent {
            Some(p) => p.deadline,
            None => None,
        };
        Request { method, deadline }
    }

    /// The same request with the given deadline.
    pub fn with_deadline(self, deadline: Instant) -> (request: Request)
        ensures
            request.method == self.method,
            request.deadline == Some(deadline),
    {
        Request { method: self.method, deadline: Some(deadline) }
    }

    /// The leading metadata to send with the call.
    pub fn headers(&self) -> Headers {
        Headers {  }
    }
}

/// The head of a response, as handed to the completion callback of a pick.
#[derive(Debug)]
pub struct Response {}

impl Response {
    /// An empty response head.
    pub fn new() -> Response {
        Response {  }
    }

    /// The leading metadata of the response.
    pub fn headers(&self) -> Headers {
        Headers {  }
    }

    /// The trailing metadata of the response.
    pub fn trailers(&self) -> Trailers {
        Trailers {  }
    }
}

} // verus!
