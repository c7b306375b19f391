use std::hash::{Hash, Hasher};
use std::path::PathBuf;

use goose_context::embedding::api::{
    check_status, first_embedding, ApiEmbeddingProvider, EMPTY_RESPONSE, NO_API_KEY,
};
use goose_context::embedding::local::{
    default_model_dir_in, model_files, seeds_of, LocalEmbeddingProvider,
};

/// The components that the numbers stand for, scaled to unit length.
fn unit(seeds: &[u64]) -> Vec<f32> {
    let raw: Vec<f32> = seeds.iter().map(|s| (*s as f32 / 1000.0) - 0.5).collect();
    let norm: f32 = raw.iter().map(|x| x * x).sum::<f32>().sqrt();
    raw.iter().map(|x| x / norm).collect()
}

fn provider() -> LocalEmbeddingProvider {
    LocalEmbeddingProvider::from_presence(PathBuf::from("/models"), true, true).unwrap()
}

#[test]
fn test_local_provider_rejects_missing_model_dir() {
    let result = LocalEmbeddingProvider::new(PathBuf::from("/nonexistent/path"));
    assert!(result.is_err(), "Should fail when model dir doesn't exist");
    let err = result.unwrap_err().to_string();
    assert!(
        err.contains("ONNX model not found"),
        "Error should mention missing model: {}",
        err
    );
    assert_eq!(
        err,
        "ONNX model not found at /nonexistent/path/model.onnx. Download e5-small-v2 model files."
    );
}

#[test]
fn test_local_provider_dimensions() {
    let provider = provider();
    assert_eq!(provider.dimensions(), 384, "e5-small-v2 should output 384-dim embeddings");
    assert_eq!(provider.name(), "e5-small-v2-local");
    assert_eq!(provider.model_dir(), &PathBuf::from("/models"));
}

#[test]
fn missing_tokenizer_is_reported() {
    let err = LocalEmbeddingProvider::from_presence(PathBuf::from("m/"), true, false).unwrap_err();
    assert_eq!(
        err,
        "Tokenizer not found at m/tokenizer.json. Download e5-small-v2 tokenizer.json."
    );
    let err = LocalEmbeddingProvider::from_presence(PathBuf::from("m"), false, false).unwrap_err();
    assert_eq!(err, "ONNX model not found at m/model.onnx. Download e5-small-v2 model files.");
}

#[test]
fn existing_paths_are_seen() {
    // The root directory holds no model, so the message names it.
    let err = LocalEmbeddingProvider::new(PathBuf::from("/")).unwrap_err();
    assert_eq!(err, "ONNX model not found at /model.onnx. Download e5-small-v2 model files.");
}

#[test]
fn default_directory_lies_below_the_configuration() {
    assert_eq!(
        default_model_dir_in(None),
        PathBuf::from(".config").join("goose").join("models").join("e5-small-v2")
    );
    assert_eq!(
        default_model_dir_in(Some(PathBuf::from("/home/u/.config"))),
        PathBuf::from("/home/u/.config/goose/models/e5-small-v2")
    );
    match LocalEmbeddingProvider::with_default_path() {
        Ok(provider) => assert!(provider.model_dir().ends_with("goose/models/e5-small-v2")),
        Err(message) => assert!(message.contains("goose/models/e5-small-v2/")),
    }
    assert_eq!(
        model_files(&PathBuf::from("/m")),
        (PathBuf::from("/m/model.onnx"), PathBuf::from("/m/tokenizer.json"))
    );
    assert_eq!(model_files(&PathBuf::from("/m/")).0, PathBuf::from("/m").join("model.onnx"));
}

#[test]
fn test_local_provider_different_texts_different_embeddings() {
    let provider = provider();
    let e1 = provider.infer("add a new feature to the payment service");
    let e2 = provider.infer("fix the database connection pool timeout");
    assert_eq!(e1.len(), 384);
    let diff: f32 = unit(&e1).iter().zip(unit(&e2).iter()).map(|(a, b)| (a - b).abs()).sum();
    assert!(diff > 0.01, "Different inputs should produce different embeddings");
}

#[test]
fn test_local_provider_same_text_same_embedding() {
    let provider = provider();
    let text = "implement SWIFT MT103 message parser";
    let e1 = provider.infer(text);
    let e2 = provider.infer(text);
    assert_eq!(e1, e2, "Same input should always produce same embedding");
}

#[test]
fn test_batch_embed_matches_individual() {
    let provider = provider();
    let texts = vec![
        "payment gateway integration".to_string(),
        "credit risk model update".to_string(),
        "KYC compliance check".to_string(),
    ];
    let batch = provider.infer_batch(&texts);
    assert_eq!(batch.len(), 3);
    for (i, text) in texts.iter().enumerate() {
        let individual = provider.infer(text);
        assert_eq!(
            batch[i], individual,
            "Batch embedding for item {} should match individual embed",
            i
        );
    }
}

#[test]
fn seeds_count_up_and_wrap() {
    assert_eq!(seeds_of(998, 4), vec![998, 999, 0, 1]);
    assert_eq!(seeds_of(u64::MAX, 3), vec![615, 0, 1]);
    assert!(seeds_of(5, 0).is_empty());
}

#[test]
fn hash_is_that_of_the_standard_hasher() {
    let mut hasher = std::collections::hash_map::DefaultHasher::new();
    "hello world".hash(&mut hasher);
    assert_eq!(provider().infer("hello world"), seeds_of(hasher.finish(), 384));
}

#[test]
fn api_provider_from_variables() {
    let provider = ApiEmbeddingProvider::from_env(None, Some("key".to_string()), None, None).unwrap();
    assert_eq!(provider.api_url, "https://api.openai.com/v1/embeddings");
    assert_eq!(provider.model_name, "text-embedding-3-small");
    assert_eq!(provider.dimensions(), 384);
    assert_eq!(provider.name(), "api-embeddings");
    assert_eq!(provider.authorization(), "Bearer key");

    let provider = ApiEmbeddingProvider::from_env(
        Some("http://u".to_string()),
        Some("k".to_string()),
        Some("m".to_string()),
        Some("1536".to_string()),
    )
    .unwrap();
    assert_eq!(provider.api_url, "http://u");
    assert_eq!(provider.dimensions, 1536);
    let request = provider.request(&vec!["a".to_string(), "b".to_string()]);
    assert_eq!(request.model, "m");
    assert_eq!(request.input, vec!["a", "b"]);

    let bad = ApiEmbeddingProvider::from_env(
        None,
        Some("k".to_string()),
        None,
        Some("many".to_string()),
    );
    assert_eq!(bad.unwrap().dimensions, 384);
    assert_eq!(
        ApiEmbeddingProvider::from_env(None, None, None, None).unwrap_err(),
        NO_API_KEY
    );
}

#[test]
fn api_answers_are_checked() {
    assert_eq!(check_status(200, "200 OK", ""), Ok(()));
    assert_eq!(check_status(299, "299", ""), Ok(()));
    assert_eq!(
        check_status(404, "404 Not Found", "no such model"),
        Err("Embedding API returned 404 Not Found: no such model".to_string())
    );
    assert!(check_status(300, "300 Multiple Choices", "").is_err());
    assert!(check_status(199, "199", "").is_err());
    assert_eq!(first_embedding(vec![vec![1, 2], vec![3]]), Ok(vec![1, 2]));
    assert_eq!(first_embedding(vec![]), Err(EMPTY_RESPONSE));
}
