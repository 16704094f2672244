//! Listing the comments of a post.
use vstd::prelude::*;

use super::{opt_type_is_valid, valid_opt_comment_type};
use crate::validate::{opt_chars_within, opt_string_chars_within};

verus! {

/// The request to list comments.
pub struct Payload {
    /// Where the previous page ended, at most 256 characters.
    pub cursor: Option<String>,
    /// The comment type, where given (`comment` or `update`).
    pub kind: Option<String>,
    /// The comment whose replies to list, where given.
    pub parent_id: Option<i64>,
}

impl Payload {
    /// The request is valid.
    pub open spec fn valid(self) -> bool {
        &&& opt_chars_within(
            match self.cursor {
                Some(c) => Some(c@),
                None => None,
            },
            0,
            256,
        )
        &&& valid_opt_comment_type(self.kind)
    }

    /// Whether the request is valid.
    pub fn validate(&self) -> (res: bool)
        ensures
            res == self.valid(),
    {
        opt_string_chars_within(&self.cursor, 0, 256) && opt_type_is_valid(&self.kind)
    }
}

/// Comments listed per page.
pub const PAGE_SIZE: i64 = 20;

/// Replies listed per comment.
pub const REPLIES_PAGE_SIZE: i64 = 3;

/// How deep replies to replies are listed.
pub const MAX_REPLY_DEPTH: i64 = 3;

/// The replies to load at nesting depth `depth` (0 for the replies to a
/// listed comment): `REPLIES_PAGE_SIZE` of them, and the depth of their own
/// replies, one deeper; nothing beyond `MAX_REPLY_DEPTH`.
pub fn reply_level(depth: i64) -> (res: Option<(i64, i64)>)
    ensures
        res == if depth > MAX_REPLY_DEPTH {
            None
        } else {
            Some((REPLIES_PAGE_SIZE, (depth + 1) as i64))
        },
{
    if depth > MAX_REPLY_DEPTH {
        None
    } else {
        Some((REPLIES_PAGE_SIZE, depth + 1))
    }
}

} // verus!
