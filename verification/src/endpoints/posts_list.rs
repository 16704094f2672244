//! The feeds: popular, new and followed posts.
use vstd::prelude::*;

use crate::queries::PostsList;
use crate::response::FuncError;
use crate::validate::{opt_chars_within, opt_string_chars_within};

verus! {

/// Posts per page where the request names no limit.
pub const DEFAULT_LIMIT: i64 = 50;

/// Whether viewed posts are hidden where the request does not say.
pub const DEFAULT_HIDE_VIEWED: bool = false;

/// The parameters of a feed request.
pub struct DefaultParams {
    pub hide_viewed: Option<bool>,
    /// Where the previous page ended, 1 to 128 characters.
    pub cursor: Option<String>,
    /// Posts per page, 1 to 1000.
    pub limit: Option<i64>,
}

impl DefaultParams {
    /// The request is valid.
    pub open spec fn valid(self) -> bool {
        &&& opt_chars_within(
            match self.cursor {
                Some(c) => Some(c@),
                None => None,
            },
            1,
            128,
        )
        &&& (self.limit matches Some(l) ==> 1 <= l <= 1000)
    }

    /// Whether the request is valid.
    pub fn validate(&self) -> (res: bool)
        ensures
            res == self.valid(),
    {
        let limit_ok = match self.limit {
            Some(l) => 1 <= l && l <= 1000,
            None => true,
        };
        opt_string_chars_within(&self.cursor, 1, 128) && limit_ok
    }

    /// Posts per page: the request's limit, or the default.
    pub fn effective_limit(&self) -> (res: i64)
        ensures
            res == match self.limit {
                Some(l) => l,
                None => DEFAULT_LIMIT,
            },
    {
        match self.limit {
            Some(l) => l,
            None => DEFAULT_LIMIT,
        }
    }

    /// Whether to hide viewed posts: as the request says, or the default.
    pub fn effective_hide_viewed(&self) -> (res: bool)
        ensures
            res == match self.hide_viewed {
                Some(h) => h,
                None => DEFAULT_HIDE_VIEWED,
            },
    {
        match self.hide_viewed {
            Some(h) => h,
            None => DEFAULT_HIDE_VIEWED,
        }
    }
}

/// The page a feed answers: the page itself, or `NoMorePosts` where it holds
/// no post.
pub fn feed_page(list: PostsList) -> (res: Result<PostsList, FuncError>)
    ensures
        list.posts@.len() == 0 ==> res == Err::<PostsList, FuncError>(FuncError::NoMorePosts),
        list.posts@.len() > 0 ==> res == Ok::<PostsList, FuncError>(list),
{
    if list.posts.len() == 0 {
        Err(FuncError::NoMorePosts)
    } else {
        Ok(list)
    }
}

} // verus!
