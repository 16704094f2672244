//! File storage: contexts that group uploaded files, and uploads.
use vstd::prelude::*;

use crate::text::str_eq;

pub mod create_context;
pub mod upload_file;

verus! {

/// The size limit of a file type: avatar 2, banner 8, post video 15, post
/// image 10; `None` for other types.
pub open spec fn size_limit_spec(kind: Seq<char>) -> Option<i32> {
    if kind == "avatar"@ {
        Some(2)
    } else if kind == "banner"@ {
        Some(8)
    } else if kind == "post_video"@ {
        Some(15)
    } else if kind == "post_image"@ {
        Some(10)
    } else {
        None
    }
}

/// How many files a context of a type holds: post video 1, post image 5;
/// `None` for other types.
pub open spec fn max_count_spec(kind: Seq<char>) -> Option<i32> {
    if kind == "post_video"@ {
        Some(1)
    } else if kind == "post_image"@ {
        Some(5)
    } else {
        None
    }
}

/// The size limit of a file type.
pub fn size_limit(kind: &str) -> (res: Option<i32>)
    ensures
        res == size_limit_spec(kind@),
{
    if str_eq(kind, "avatar") {
        Some(2)
    } else if str_eq(kind, "banner") {
        Some(8)
    } else if str_eq(kind, "post_video") {
        Some(15)
    } else if str_eq(kind, "post_image") {
        Some(10)
    } else {
        None
    }
}

/// How many files a context of a type holds.
pub fn max_count(kind: &str) -> (res: Option<i32>)
    ensures
        res == max_count_spec(kind@),
{
    if str_eq(kind, "post_video") {
        Some(1)
    } else if str_eq(kind, "post_image") {
        Some(5)
    } else {
        None
    }
}

} // verus!
