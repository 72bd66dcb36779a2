//! AI provider errors.
//!
//! The provider itself (an async client of a remote service) lives with the
//! application; the library holds the error type it reports.
use vstd::prelude::*;
use crate::strings::push_str;

verus! {

/// An error reported by an AI provider.
#[derive(Debug, Clone)]
pub enum AIError {
    /// The service answered with an error.
    Api(String),
    /// The provider is not configured correctly.
    Config(String),
    /// Too many requests.
    RateLimited,
}

impl AIError {
    /// The text this error displays as.
    pub open spec fn message(&self) -> Seq<char> {
        match self {
            AIError::Api(m) => "API error: "@ + m@,
            AIError::Config(m) => "Configuration error: "@ + m@,
            AIError::RateLimited => "Rate limited"@,
        }
    }

    /// The error as displayed text.
    pub fn to_string(&self) -> (s: String)
        ensures
            s@ == self.message(),
    {
        let mut s = String::new();
        match self {
            AIError::Api(m) => {
                push_str(&mut s, "API error: ");
                push_str(&mut s, m.as_str());
            },
            AIError::Config(m) => {
                push_str(&mut s, "Configuration error: ");
                push_str(&mut s, m.as_str());
            },
            AIError::RateLimited => {
                push_str(&mut s, "Rate limited");
            },
        }
        proof {
            assert(s@ =~= self.message());
        }
        s
    }
}

} // verus!
