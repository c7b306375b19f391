//! Three-tier context store for agents: a codebase graph, a vector store and relational
//! tables on PostgreSQL.
//!
//! This is the part of the store that decides and computes. It reads repositories, writes
//! the statements that are sent to the database, says what the answers mean, ranks and
//! bundles context, and answers tool calls. Sending, reading files and listening are left
//! to the program around it.

pub mod db;
pub mod embedding;
pub mod hydrator;
pub mod json;
pub mod lists;
pub mod mcp_server;
pub mod models;
pub mod number;
pub mod ordering;
pub mod path;
pub mod scanner;
pub mod score;
pub mod text;

pub use db::pool::ContextStore;
pub use hydrator::ContextHydrator;
pub use scanner::git_scanner::GitScanner;
