//! Core logic of the Sharinflame backend: identifiers, tokens, links, queries and validation.
pub mod text;
pub mod snowflake;
pub mod encoding;
pub mod security;
pub mod state;
pub mod storage;
pub mod format;
pub mod queries;
pub mod response;
pub mod validate;
pub mod endpoints;
pub mod entities;
pub mod auth;
