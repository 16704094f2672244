//! The request payloads of the endpoints, how they are validated, and the
//! decisions the handlers take on them.
pub mod comments;
pub mod deletion;
pub mod posts;
pub mod posts_list;
pub mod storage;
pub mod users;
