//! The entities of the codebase graph, and the vocabulary of the audit trail.

pub mod audit;
pub mod code_entity;
pub mod dependency;
pub mod document;
pub mod service;
pub mod team;
