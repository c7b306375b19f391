//! The API-based embedding provider.

use vstd::prelude::*;
use vstd::string::*;

use crate::db::pool::{given_or, number_or};
use crate::db::statement::copy_texts;
use crate::number::parse_number;
use crate::text::{opt_view, views};

verus! {

/// The endpoint that is used where none is given.
pub const DEFAULT_API_URL: &'static str = "https://api.openai.com/v1/embeddings";

/// The model that is used where none is given.
pub const DEFAULT_API_MODEL: &'static str = "text-embedding-3-small";

/// The number of dimensions where none is given.
pub const DEFAULT_API_DIMENSIONS: usize = 384;

/// What is said where no key is given.
pub const NO_API_KEY: &'static str =
    "GOOSE_EMBEDDING_API_KEY must be set for API embedding provider";

/// What is said where an answer holds no embedding.
pub const EMPTY_RESPONSE: &'static str = "Empty response from embedding API";

/// API-based embedding provider for non-air-gapped environments.
///
/// Supports OpenAI-compatible embedding APIs.
#[derive(Debug, Clone)]
pub struct ApiEmbeddingProvider {
    pub api_url: String,
    pub api_key: String,
    pub model_name: String,
    pub dimensions: usize,
}

/// What the API is asked.
#[derive(Debug, Clone)]
pub struct EmbeddingRequest {
    pub model: String,
    pub input: Vec<String>,
}

impl ApiEmbeddingProvider {
    pub fn new(api_url: String, api_key: String, model_name: String, dimensions: usize) -> (r:
        ApiEmbeddingProvider)
        ensures
            r.api_url@ == api_url@,
            r.api_key@ == api_key@,
            r.model_name@ == model_name@,
            r.dimensions == dimensions,
    {
        ApiEmbeddingProvider { api_url, api_key, model_name, dimensions }
    }

    /// Create from environment variables. Each argument is the value of its variable, if
    /// it is set.
    ///
    /// - `GOOSE_EMBEDDING_API_URL` — API endpoint (default: OpenAI)
    /// - `GOOSE_EMBEDDING_API_KEY` — API key
    /// - `GOOSE_EMBEDDING_MODEL` — Model name (default: text-embedding-3-small)
    /// - `GOOSE_EMBEDDING_DIMS` — Dimensions (default: 384)
    pub fn from_env(
        api_url: Option<String>,
        api_key: Option<String>,
        model_name: Option<String>,
        dimensions: Option<String>,
    ) -> (r: Result<ApiEmbeddingProvider, &'static str>)
        ensures
            match r {
                Ok(provider) => {
                    &&& opt_view(api_key) == Some(provider.api_key@)
                    &&& provider.api_url@ == given_or(opt_view(api_url), DEFAULT_API_URL@)
                    &&& provider.model_name@ == given_or(opt_view(model_name), DEFAULT_API_MODEL@)
                    &&& provider.dimensions == number_or(
                        opt_view(dimensions),
                        usize::MAX as nat,
                        DEFAULT_API_DIMENSIONS as nat,
                    )
                },
                Err(message) => api_key is None && message@ == NO_API_KEY@,
            },
    {
        let api_url = match api_url {
            Some(url) => url,
            None => DEFAULT_API_URL.to_owned(),
        };
        let api_key = match api_key {
            Some(key) => key,
            None => {
                return Err(NO_API_KEY);
            },
        };
        let model_name = match model_name {
            Some(name) => name,
            None => DEFAULT_API_MODEL.to_owned(),
        };
        let dimensions: usize = match dimensions {
            Some(text) => match parse_number(text.as_str(), usize::MAX as u64) {
                Some(n) => n as usize,
                None => DEFAULT_API_DIMENSIONS,
            },
            None => DEFAULT_API_DIMENSIONS,
        };
        Ok(ApiEmbeddingProvider::new(api_url, api_key, model_name, dimensions))
    }

    /// Name of this embedding provider.
    pub fn name(&self) -> (r: &'static str)
        ensures
            r@ == "api-embeddings"@,
    {
        "api-embeddings"
    }

    /// Dimensionality of the output embeddings.
    pub fn dimensions(&self) -> (r: usize)
        ensures
            r == self.dimensions,
    {
        self.dimensions
    }

    /// The authorization that a request carries.
    pub fn authorization(&self) -> (r: String)
        ensures
            r@ == "Bearer "@ + self.api_key@,
    {
        let mut text = "Bearer ".to_owned();
        text.append(self.api_key.as_str());
        text
    }

    /// What the API is asked for the embeddings of texts.
    pub fn request(&self, texts: &Vec<String>) -> (r: EmbeddingRequest)
        ensures
            r.model@ == self.model_name@,
            views(r.input@) == views(texts@),
    {
        EmbeddingRequest {
            model: self.model_name.clone(),
            input: copy_texts(texts),
        }
    }
}

/// Whether the answer of the API, with its status, is to be read; else what is said of it.
pub fn check_status(code: u16, status: &str, body: &str) -> (r: Result<(), String>)
    ensures
        match r {
            Ok(_) => 200 <= code < 300,
            Err(message) => !(200 <= code < 300) && message@ == "Embedding API returned "@ + status@
                + ": "@ + body@,
        },
{
    if 200 <= code && code < 300 {
        return Ok(());
    }
    let mut text = "Embedding API returned ".to_owned();
    text.append(status);
    text.append(": ");
    text.append(body);
    Err(text)
}

/// The embedding of the one text that was asked for: the first of the answer.
pub fn first_embedding(embeddings: Vec<Vec<u32>>) -> (r: Result<Vec<u32>, &'static str>)
    ensures
        match r {
            Ok(embedding) => embeddings@.len() > 0 && embedding@ == embeddings@[0]@,
            Err(message) => embeddings@.len() == 0 && message@ == EMPTY_RESPONSE@,
        },
{
    let mut embeddings = embeddings;
    if embeddings.len() == 0 {
        return Err(EMPTY_RESPONSE);
    }
    Ok(embeddings.swap_remove(0))
}

} // verus!
