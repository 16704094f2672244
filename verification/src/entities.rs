//! The records of the service: comments, file contexts, posts and users.
use vstd::prelude::*;

verus! {

/// A comment on a post.
#[derive(Debug, Clone, PartialEq)]
pub struct Comment {
    pub comment_id: i64,
    pub post_id: i64,
    pub user_id: i64,
    pub content: String,
    pub parent_commend_id: i64,
    pub likes_count: i64,
    pub dislikes_count: i64,
    pub replies_count: i64,
    pub kind: String,
}

/// A group of uploaded files that belongs to one object (an avatar, a
/// banner, a post).
#[derive(Debug, Clone, PartialEq)]
pub struct FileContext {
    pub context_id: i64,
    pub user_id: i64,
    pub objects: Vec<String>,
    pub reference_count: i32,
    pub allowed_count: i32,
    pub created_at: i64,
    pub kind: String,
}

/// A post.
#[derive(Debug, Clone, PartialEq)]
pub struct Post {
    pub post_id: i64,
    pub user_id: i64,
    pub content: String,
    pub created_at: i64,
    pub updated_at: i64,
    pub likes_count: i64,
    pub dislikes_count: i64,
    pub comments_count: i64,
    pub flags: Vec<String>,
    pub media: Vec<String>,
    pub media_type: Option<String>,
    pub status: Option<String>,
    pub is_deleted: Option<bool>,
    pub tags: Option<Vec<String>>,
}

/// A user as authentication sees them.
#[derive(Debug, Clone, PartialEq)]
pub struct AuthUser {
    pub username: String,
    pub user_id: i64,
    pub email: String,
    pub password_hash: Option<String>,
    pub email_verified: Option<bool>,
    pub pending_email: Option<String>,
    pub pending_email_until: Option<i64>,
}

/// A user's public profile.
#[derive(Debug, Clone, PartialEq)]
pub struct User {
    pub user_id: i64,
    pub username: String,
    pub role_id: i32,
    pub following_count: Option<i64>,
    pub followers_count: Option<i64>,
    pub display_name: Option<String>,
    pub avatar_url: Option<String>,
    pub banner_url: Option<String>,
    pub bio: Option<String>,
    pub badges: Option<Vec<i16>>,
    pub languages: Option<Vec<String>>,
}

/// A post as shown to a reader: the post, its author, and the reader's
/// reactions.
#[derive(Debug, Clone, PartialEq)]
pub struct ForUserPostView {
    pub post: Post,
    pub user: Option<User>,
    pub is_fav: Option<bool>,
    pub is_like: Option<bool>,
}

impl ForUserPostView {
    /// The view of `post` with its author; the reader's reactions are not
    /// known yet.
    pub fn new(post: Post, user: Option<User>) -> (res: Self)
        ensures
            res.post == post,
            res.user == user,
            res.is_fav is None,
            res.is_like is None,
    {
        ForUserPostView { post, user, is_fav: None, is_like: None }
    }
}

} // verus!
