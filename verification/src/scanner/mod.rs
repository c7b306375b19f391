//! Reading a repository: languages, configuration files, dependency manifests, the
//! pieces of text that are indexed.

pub mod batch;
pub mod chunk;
pub mod classify;
pub mod codeowners;
pub mod dep_parser;
pub mod git_scanner;
pub mod language;
pub mod manifest_laws;
pub mod walk;

pub use git_scanner::GitScanner;
