//! Packages and the dependencies between entities.

use vstd::prelude::*;

verus! {

/// A package or library dependency.
#[derive(Debug, Clone)]
pub struct PackageEntity {
    pub name: String,
    pub version: Option<String>,
    /// One of "maven", "npm", "pip", "cargo", "go", "nuget".
    pub ecosystem: String,
    pub license: Option<String>,
}

/// A dependency relationship between entities.
#[derive(Debug, Clone)]
pub struct DependencyEdge {
    pub from_entity: String,
    pub to_entity: String,
    /// One of "runtime", "dev", "build", "test".
    pub dependency_type: String,
    pub version_constraint: Option<String>,
}

} // verus!
