//! Responses of the rate-limited model clients.

use vstd::prelude::*;

verus! {

/// The response of a rate-limited model: the wrapped model's response.
pub struct RateLimitResponse<T> {
    response: T,
}

impl<T> RateLimitResponse<T> {
    /// Wraps `response`.
    pub fn new(response: T) -> (r: Self)
        ensures
            r.inner() == response,
    {
        RateLimitResponse { response }
    }

    /// The wrapped response.
    pub closed spec fn inner(&self) -> T {
        self.response
    }

    /// Unwraps the response.
    pub fn into_inner(self) -> (t: T)
        ensures
            t == self.inner(),
    {
        self.response
    }
}

} // verus!
