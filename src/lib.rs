//! A small service for sharing files, texts and links under short random
//! names: the records it keeps, the rules on names, and the decisions behind
//! each request.
pub mod assets;
pub mod auth;
pub mod config;
pub mod laws;
pub mod listing;
pub mod names;
pub mod phrase;
pub mod resolve;
pub mod split;
pub mod store;
pub mod types;
pub mod upload;
