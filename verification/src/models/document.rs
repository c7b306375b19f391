//! Documents and their chunks.

use vstd::prelude::*;

use crate::json::Json;

verus! {

/// A document ingested from an external source.
#[derive(Debug, Clone)]
pub struct DocumentEntity {
    pub title: String,
    /// One of "confluence", "jira", "sharepoint", "servicenow", "pdf", "upload".
    pub source_type: String,
    pub source_uri: String,
    pub content_preview: String,
    pub author: Option<String>,
    pub last_updated: Option<String>,
    pub tags: Vec<String>,
}

/// A chunk of a document ready for embedding.
#[derive(Debug, Clone)]
pub struct DocumentChunk {
    pub document_uri: String,
    pub chunk_index: usize,
    pub content: String,
    pub metadata: Json,
}

} // verus!
