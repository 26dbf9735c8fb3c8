//! Verified core of a code-search service: credentials, sessions,
//! codebase bookkeeping and text search.

pub mod auth;
pub mod codec;
pub mod embeddings;
pub mod handlers;
pub mod index;
pub mod models;
pub mod search;
pub mod storage;
pub mod text;
