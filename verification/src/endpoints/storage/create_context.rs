//! Creating a file context for a post's media.
use vstd::prelude::*;

use super::{max_count_spec, size_limit_spec};
use crate::validate::is_either;

verus! {

/// A type of post media: `post_video` or `post_image`.
pub open spec fn valid_context_type(t: Seq<char>) -> bool {
    t == "post_video"@ || t == "post_image"@
}

/// Checks a context type; the error code is `wrong_type`.
pub fn validate_type(kind: &str) -> (res: Result<(), &'static str>)
    ensures
        res is Ok <==> valid_context_type(kind@),
        res matches Err(e) ==> e == "wrong_type",
{
    if !is_either(kind, "post_video", "post_image") {
        return Err("wrong_type");
    }
    Ok(())
}

/// The request to create a context.
pub struct Payload {
    pub kind: String,
}

impl Payload {
    /// The request is valid.
    pub open spec fn valid(self) -> bool {
        valid_context_type(self.kind@)
    }

    /// Whether the request is valid.
    pub fn validate(&self) -> (res: bool)
        ensures
            res == self.valid(),
    {
        validate_type(self.kind.as_str()).is_ok()
    }
}

/// Seconds a new context stays open for uploads.
pub const CONTEXT_OPEN_SECONDS: u64 = 1800;

/// Every valid context type has a size limit and a file count.
pub proof fn lemma_context_type_limits(kind: Seq<char>)
    requires
        valid_context_type(kind),
    ensures
        size_limit_spec(kind) is Some,
        max_count_spec(kind) is Some,
{
}

/// When a context created at `now` (Unix seconds) closes.
pub fn context_expiry(now: u64) -> (res: u64)
    requires
        now + CONTEXT_OPEN_SECONDS <= u64::MAX,
    ensures
        res == now + CONTEXT_OPEN_SECONDS,
{
    now + CONTEXT_OPEN_SECONDS
}

} // verus!
