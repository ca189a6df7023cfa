//! The caller-visible error body: a single message string.

use vstd::prelude::*;

verus! {

/// A typed error payload returned to callers on validation failures.
#[derive(Debug)]
pub struct ResponseError {
    pub error: String,
}

impl ResponseError {
    /// Wraps a message.
    pub fn new(error: String) -> (r: Self)
        ensures
            r.error@ == error@,
    {
        ResponseError { error }
    }
}

} // verus!
