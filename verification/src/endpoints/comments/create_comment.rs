//! Creating a comment.
use vstd::prelude::*;

use super::{opt_type_is_valid, valid_opt_comment_type};

verus! {

/// The request to create a comment.
pub struct Payload {
    /// The text, at most 1024 characters.
    pub content: String,
    /// The comment type, where given (`comment` or `update`).
    pub kind: Option<String>,
    /// The comment replied to, where it is a reply.
    pub parent_id: Option<i64>,
}

impl Payload {
    /// The request is valid.
    pub open spec fn valid(self) -> bool {
        &&& self.content@.len() <= 1024
        &&& valid_opt_comment_type(self.kind)
    }

    /// Whether the request is valid.
    pub fn validate(&self) -> (res: bool)
        ensures
            res == self.valid(),
    {
        let n = crate::text::chars_of(self.content.as_str()).len();
        n <= 1024 && opt_type_is_valid(&self.kind)
    }
}

} // verus!
