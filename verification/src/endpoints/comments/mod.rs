//! Comments: creating and listing them.
use vstd::prelude::*;

use crate::validate::is_either;

pub mod create_comment;
pub mod get_comments;

verus! {

/// A comment type: `comment` or `update`.
pub open spec fn valid_comment_type(t: Seq<char>) -> bool {
    t == "comment"@ || t == "update"@
}

/// Checks a comment type; the error code is `invalid_type`.
pub fn validate_type(kind: &str) -> (res: Result<(), &'static str>)
    ensures
        res is Ok <==> valid_comment_type(kind@),
        res matches Err(e) ==> e == "invalid_type",
{
    if !is_either(kind, "comment", "update") {
        return Err("invalid_type");
    }
    Ok(())
}

/// An optional comment type is absent or valid.
pub open spec fn valid_opt_comment_type(t: Option<String>) -> bool {
    match t {
        Some(s) => valid_comment_type(s@),
        None => true,
    }
}

/// Checks an optional comment type.
pub fn opt_type_is_valid(kind: &Option<String>) -> (res: bool)
    ensures
        res == valid_opt_comment_type(*kind),
{
    match kind {
        Some(t) => validate_type(t.as_str()).is_ok(),
        None => true,
    }
}

} // verus!
