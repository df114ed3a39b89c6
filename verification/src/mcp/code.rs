//! Errors of the code tools.

use vstd::prelude::*;

verus! {

/// Errors of the code tools.
#[derive(Debug, Clone, PartialEq, Eq)]
pub enum CodeError {
    /// Serializing the repository failed.
    SerializeRepoError(String),
}

impl CodeError {
    /// The message of the error.
    pub fn message(&self) -> (s: String)
        ensures
            s@ == match self {
                CodeError::SerializeRepoError(m) => "Serialize repo error: "@ + m@,
            },
    {
        match self {
            CodeError::SerializeRepoError(m) => {
                let mut s = String::from_str("Serialize repo error: ");
                s.append(m.as_str());
                s
            },
        }
    }
}

} // verus!
