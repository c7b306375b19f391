//! Embedding providers: where their models are, what they are asked, how their answers
//! are read.

pub mod api;
pub mod local;
