//! Users: their profiles.
pub mod patch_me;
