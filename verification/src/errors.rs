//! The error taxonomy of the document model: a path segment that does not
//! resolve, a structural precondition violated, or a key collision.
use vstd::prelude::*;

verus! {

#[derive(Debug, Clone, Copy, PartialEq, Eq)]
pub enum ModelError {
    /// A path segment does not resolve: absent key, out-of-range index, or a
    /// scalar where a container was expected.
    NotFound,
    /// The operation's structural precondition is violated, such as renaming a
    /// sequence element or deleting the root.
    InvalidTarget,
    /// An insert or rename collides with an existing sibling key.
    DuplicateKey,
}

impl ModelError {
    /// A short human-readable notice for this error.
    pub fn message(&self) -> (r: &'static str)
        ensures
            r@ == self.spec_message(),
    {
        match self {
            ModelError::NotFound => "Key not found",
            ModelError::InvalidTarget => "Invalid target",
            ModelError::DuplicateKey => "Key already exists",
        }
    }

    pub open spec fn spec_message(&self) -> Seq<char> {
        match self {
            ModelError::NotFound => "Key not found"@,
            ModelError::InvalidTarget => "Invalid target"@,
            ModelError::DuplicateKey => "Key already exists"@,
        }
    }
}

} // verus!
