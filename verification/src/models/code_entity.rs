//! Entities of source code.

use vstd::prelude::*;

verus! {

/// A source code file in the codebase graph.
#[derive(Debug, Clone)]
pub struct FileEntity {
    pub path: String,
    pub language: String,
    pub size: u64,
    pub last_modified: String,
    pub repo: String,
}

/// A function or method extracted from source code.
#[derive(Debug, Clone)]
pub struct FunctionEntity {
    pub name: String,
    pub signature: String,
    pub file_path: String,
    pub line_start: u32,
    pub line_end: u32,
    pub language: String,
    pub repo: String,
}

/// A class, struct, or interface.
#[derive(Debug, Clone)]
pub struct ClassEntity {
    pub name: String,
    pub file_path: String,
    pub language: String,
    /// One of "class", "struct", "interface", "enum".
    pub kind: String,
    pub repo: String,
}

/// A configuration file (Dockerfile, CI config, k8s manifest, etc.).
#[derive(Debug, Clone)]
pub struct ConfigEntity {
    pub path: String,
    /// One of "dockerfile", "ci", "k8s", "helm", "terraform".
    pub config_type: String,
    pub repo: String,
}

} // verus!
