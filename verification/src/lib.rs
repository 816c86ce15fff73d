pub mod chunker;
pub mod config;
pub mod document;
pub mod error;
pub mod filter;
pub mod hasher;
pub mod history;
pub mod indexer;
pub mod schema;
pub mod text;
