//! Marking posts as viewed.
use vstd::prelude::*;

verus! {

/// The posts seen, 1 to 50 of them.
pub struct Payload {
    pub posts: Vec<i64>,
}

impl Payload {
    /// The request is valid.
    pub open spec fn valid(self) -> bool {
        1 <= self.posts@.len() <= 50
    }

    /// Whether the request is valid.
    pub fn validate(&self) -> (res: bool)
        ensures
            res == self.valid(),
    {
        1 <= self.posts.len() && self.posts.len() <= 50
    }
}

} // verus!
