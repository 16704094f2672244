//! Posts: reading them one by one or in batches, creating and viewing them.
pub mod batch_get_post;
pub mod create_post;
pub mod view_posts;
