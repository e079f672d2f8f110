//! Structural code search: comment scanning, symbol definitions and usages
//! over parsed syntax trees, and the caches and pipeline around them.

pub mod aggregate;
pub mod cache;
pub mod comment;
pub mod config;
pub mod context;
pub mod definition;
pub mod gather;
pub mod language;
pub mod parser;
pub mod pipeline;
pub mod registry;
pub mod server;
pub mod sql_comment;
pub mod stats;
pub mod syntax;
pub mod text;
pub mod treesitter;
pub mod types;
pub mod usage;
