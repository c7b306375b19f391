use goose_context::db::graph::GraphQueryResult;
use goose_context::db::vector::EmbeddingRecord;
use goose_context::hydrator::ranking::rank;
use goose_context::hydrator::{
    CodeContextItem, ContextHydrator, DocContextItem, HydratedContext, HydrationIntent,
    OwnershipItem, TestContextItem,
};
use goose_context::json::Json;
use goose_context::scanner::git_scanner::populate_embeddings;
use goose_context::score::Score;
use goose_context::ContextStore;

fn score(value: f64) -> Score {
    Score { bits: value.to_bits() }
}

fn empty_context() -> HydratedContext {
    HydratedContext {
        code_context: vec![],
        doc_context: vec![],
        ownership: vec![],
        test_context: vec![],
        metadata: Json::empty_object(),
        recommended_tools: vec![],
    }
}

fn intent(paths: &[&str], services: &[&str], tickets: &[&str]) -> HydrationIntent {
    HydrationIntent {
        message: "Fix the timeout".to_string(),
        repo: None,
        file_paths: paths.iter().map(|p| p.to_string()).collect(),
        ticket_refs: tickets.iter().map(|t| t.to_string()).collect(),
        urls: vec![],
        service_names: services.iter().map(|s| s.to_string()).collect(),
    }
}

fn record(source_id: &str, metadata: &str, content: &str, similarity: Option<f64>) -> EmbeddingRecord {
    EmbeddingRecord {
        id: 1,
        source_type: "code".to_string(),
        source_id: source_id.to_string(),
        chunk_index: 0,
        content: content.to_string(),
        metadata: Json::parse(metadata).unwrap(),
        similarity: similarity.map(score),
    }
}

fn item(path: &str, relevance: f64) -> CodeContextItem {
    CodeContextItem {
        file_path: path.to_string(),
        language: "rust".to_string(),
        relevance: score(relevance),
        snippet: String::new(),
    }
}

fn paths(items: &[CodeContextItem]) -> Vec<&str> {
    items.iter().map(|i| i.file_path.as_str()).collect()
}

fn answers(texts: &[&str]) -> Option<GraphQueryResult> {
    let texts: Vec<String> = texts.iter().map(|t| t.to_string()).collect();
    Some(GraphQueryResult::from_answers(&texts))
}

#[test]
fn test_format_empty_context() {
    let prompt = ContextHydrator::format_as_prompt(&empty_context());
    assert!(prompt.is_empty(), "Empty context should produce empty prompt");
}

#[test]
fn test_format_code_context_section() {
    let mut context = empty_context();
    context.code_context = vec![CodeContextItem {
        file_path: "src/payments/gateway.java".to_string(),
        language: "java".to_string(),
        relevance: score(0.95),
        snippet: "public class PaymentGateway {".to_string(),
    }];
    let prompt = ContextHydrator::format_as_prompt(&context);
    assert!(prompt.contains("Relevant Code Files"), "Should have code section header");
    assert!(prompt.contains("gateway.java"), "Should mention the file");
    assert!(prompt.contains("java"), "Should mention the language");
    assert!(prompt.contains("0.95"), "Should show relevance score");
}

#[test]
fn test_format_doc_context_section() {
    let mut context = empty_context();
    context.doc_context = vec![DocContextItem {
        title: "SWIFT Integration Guide".to_string(),
        source: "confluence".to_string(),
        relevance: score(0.82),
        snippet: "To integrate SWIFT MT103 messages...".to_string(),
    }];
    let prompt = ContextHydrator::format_as_prompt(&context);
    assert!(prompt.contains("Relevant Documentation"), "Should have docs section header");
    assert!(prompt.contains("SWIFT Integration Guide"), "Should mention doc title");
    assert!(prompt.contains("confluence"), "Should mention source");
}

#[test]
fn test_format_ownership_section() {
    let mut context = empty_context();
    context.ownership = vec![OwnershipItem {
        entity: "src/payments/gateway.java".to_string(),
        team: "Payments Platform".to_string(),
        slack_channel: Some("#payments-eng".to_string()),
    }];
    let prompt = ContextHydrator::format_as_prompt(&context);
    assert!(prompt.contains("Code Ownership"), "Should have ownership section");
    assert!(prompt.contains("Payments Platform"), "Should mention team name");
    assert!(prompt.contains("#payments-eng"), "Should mention Slack channel");
}

#[test]
fn test_format_test_context_section() {
    let mut context = empty_context();
    context.test_context = vec![TestContextItem {
        test_file: "src/test/PaymentGatewayTest.java".to_string(),
        covers: "src/payments/gateway.java".to_string(),
    }];
    let prompt = ContextHydrator::format_as_prompt(&context);
    assert!(prompt.contains("Related Tests"), "Should have tests section");
    assert!(prompt.contains("PaymentGatewayTest"), "Should mention test file");
}

#[test]
fn test_format_all_sections_present() {
    let context = HydratedContext {
        code_context: vec![CodeContextItem {
            file_path: "src/foo.java".to_string(),
            language: "java".to_string(),
            relevance: score(0.9),
            snippet: "class Foo".to_string(),
        }],
        doc_context: vec![DocContextItem {
            title: "Foo Guide".to_string(),
            source: "confluence".to_string(),
            relevance: score(0.7),
            snippet: "How to use Foo".to_string(),
        }],
        ownership: vec![OwnershipItem {
            entity: "src/foo.java".to_string(),
            team: "Foo Team".to_string(),
            slack_channel: None,
        }],
        test_context: vec![TestContextItem {
            test_file: "src/FooTest.java".to_string(),
            covers: "src/foo.java".to_string(),
        }],
        metadata: Json::empty_object(),
        recommended_tools: vec!["developer__shell".to_string()],
    };
    let prompt = ContextHydrator::format_as_prompt(&context);
    assert!(prompt.contains("Relevant Code Files"));
    assert!(prompt.contains("Relevant Documentation"));
    assert!(prompt.contains("Code Ownership"));
    assert!(prompt.contains("Related Tests"));
    assert_eq!(
        prompt,
        "## Relevant Code Files\n\
         - `src/foo.java` (java, relevance: 0.90): class Foo\n\
         \n## Relevant Documentation\n\
         - **Foo Guide** (from confluence, relevance: 0.70): How to use Foo\n\
         \n## Code Ownership\n\
         - `src/foo.java` owned by **Foo Team**\n\
         \n## Related Tests\n\
         - `src/FooTest.java` covers `src/foo.java`\n"
    );
}

#[test]
fn test_intent_structure() {
    let intent = HydrationIntent {
        message: "Fix the payment gateway timeout issue, see CORE-1234".to_string(),
        repo: Some("payment-service".to_string()),
        file_paths: vec!["src/payments/gateway.java".to_string()],
        ticket_refs: vec!["CORE-1234".to_string()],
        urls: vec!["https://jira.example.com/CORE-1234".to_string()],
        service_names: vec!["payment-gateway".to_string()],
    };

    assert_eq!(intent.ticket_refs.len(), 1);
    assert_eq!(intent.file_paths.len(), 1);
    assert!(intent.repo.is_some());
}

#[test]
fn owner_channel_stands_in_brackets() {
    let mut context = empty_context();
    context.ownership = vec![OwnershipItem {
        entity: "a".to_string(),
        team: "T".to_string(),
        slack_channel: Some("#t".to_string()),
    }];
    let prompt = ContextHydrator::format_as_prompt(&context);
    assert_eq!(prompt, "\n## Code Ownership\n- `a` owned by **T** (#t)\n");
}

#[test]
fn queries_name_each_path_and_service() {
    let hydrator = ContextHydrator::new(ContextStore::new());
    let intent = intent(&["src/a.rs", "src/b.rs"], &["pay"], &[]);
    let code = hydrator.code_queries(&intent);
    assert_eq!(code.len(), 2);
    assert_eq!(
        code[1].sql,
        "SELECT * FROM ag_catalog.cypher('codebase', $$ MATCH (n:File) WHERE n.path = 'src/b.rs'  \
         RETURN n LIMIT 1 $$) AS (result ag_catalog.agtype);"
    );
    let files = hydrator.file_owner_queries(&intent);
    assert_eq!(files[0].cypher, "MATCH (t:Team)-[:OWNS]->(e:File {path: 'src/a.rs'}) RETURN t");
    let services = hydrator.service_owner_queries(&intent);
    assert_eq!(services.len(), 1);
    assert_eq!(services[0].cypher, "MATCH (t:Team)-[:OWNS]->(e:Service {name: 'pay'}) RETURN t");
    let tests = hydrator.test_queries(&intent);
    assert_eq!(tests[0].cypher, "MATCH (e:File {path: 'src/a.rs'})<-[:TESTED_BY]-(test) RETURN test");
}

#[test]
fn searches_have_their_limits_and_thresholds() {
    let hydrator = ContextHydrator::new(ContextStore::new());
    let code = hydrator.code_search(vec![1, 2]);
    assert_eq!(code.query_embedding, vec![1, 2]);
    assert_eq!(code.source_type.as_deref(), Some("code"));
    assert_eq!(code.limit, 10);
    assert_eq!(f64::from_bits(code.similarity_threshold.bits), 0.6);
    let docs = hydrator.doc_search(vec![3]);
    assert_eq!(docs.source_type.as_deref(), Some("doc"));
    assert_eq!(docs.limit, 5);
    assert_eq!(f64::from_bits(docs.similarity_threshold.bits), 0.5);
}

#[test]
fn code_context_merges_named_and_found_files() {
    let hydrator = ContextHydrator::new(ContextStore::new());
    let intent = intent(&["src/a.rs", "src/b.rs", "src/c.rs"], &[], &[]);
    let lookups = vec![
        answers(&["{\"language\": \"rust\", \"path\": \"src/a.rs\"}"]),
        None,
        answers(&["not json"]),
    ];
    let long = "x".repeat(250);
    let records = vec![
        record("repo:src/d.rs", "{\"language\":\"go\"}", &long, Some(0.75)),
        record("repo:src/e.rs", "{\"language\":7}", "short", None),
    ];
    let items = hydrator.hydrate_code_context(&intent, &lookups, &records);
    assert_eq!(
        paths(&items),
        vec!["src/a.rs", "src/c.rs", "repo:src/d.rs", "repo:src/e.rs"]
    );
    assert_eq!(items[0].language, "rust");
    assert_eq!(items[0].snippet, "Directly referenced: src/a.rs");
    assert_eq!(f64::from_bits(items[0].relevance.bits), 1.0);
    assert_eq!(items[1].language, "unknown");
    assert_eq!(items[2].language, "go");
    assert_eq!(items[2].snippet.len(), 200);
    assert_eq!(items[3].language, "unknown");
    assert_eq!(f64::from_bits(items[3].relevance.bits), 0.0);
    assert_eq!(items[3].snippet, "short");
}

#[test]
fn ranking_is_stable_and_drops_repeats() {
    let items = vec![
        item("a", 0.5),
        item("b", 0.9),
        item("a", 0.5),
        item("c", 0.5),
        item("b", 0.8),
        item("d", -0.0),
        item("e", 0.0),
        item("a", 0.1),
    ];
    let ranked = rank(&items);
    assert_eq!(paths(&ranked), vec!["b", "a", "c", "d", "e"]);
    assert_eq!(f64::from_bits(ranked[0].relevance.bits), 0.9);
    assert!(rank(&vec![]).is_empty());
    let chunks = rank(&vec![item("a", 0.9), item("b", 0.8), item("a", 0.7)]);
    assert_eq!(paths(&chunks), vec!["a", "b"]);
    assert_eq!(f64::from_bits(chunks[0].relevance.bits), 0.9);
}

#[test]
fn doc_context_falls_back_to_the_source() {
    let hydrator = ContextHydrator::new(ContextStore::new());
    let long = "y".repeat(301);
    let records = vec![
        record("doc://1", "{\"title\":\"Guide\"}", &long, Some(0.7)),
        record("doc://2", "{}", "text", None),
    ];
    let docs = hydrator.hydrate_doc_context(&records);
    assert_eq!(docs.len(), 2);
    assert_eq!(docs[0].title, "Guide");
    assert_eq!(docs[0].source, "code");
    assert_eq!(docs[0].snippet.len(), 300);
    assert_eq!(docs[1].title, "doc://2");
    assert_eq!(f64::from_bits(docs[1].relevance.bits), 0.0);
}

#[test]
fn ownership_lists_files_before_services() {
    let hydrator = ContextHydrator::new(ContextStore::new());
    let intent = intent(&["f"], &["s", "t"], &[]);
    let files = vec![answers(&["{\"name\":\"A\",\"slack_channel\":\"#a\"}", "{}"])];
    let services = vec![None, answers(&["{\"name\":\"B\"}"])];
    let owners = hydrator.hydrate_ownership(&intent, &files, &services);
    let seen: Vec<(&str, &str, Option<&str>)> = owners
        .iter()
        .map(|o| (o.entity.as_str(), o.team.as_str(), o.slack_channel.as_deref()))
        .collect();
    assert_eq!(
        seen,
        vec![("f", "A", Some("#a")), ("f", "unknown", None), ("t", "B", None)]
    );
}

#[test]
fn tests_are_listed_with_what_they_cover() {
    let hydrator = ContextHydrator::new(ContextStore::new());
    let intent = intent(&["f", "g"], &[], &[]);
    let lookups = vec![None, answers(&["{\"file_path\":\"g_test\"}", "3"])];
    let tests = hydrator.hydrate_test_context(&intent, &lookups);
    assert_eq!(tests.len(), 2);
    assert_eq!(tests[0].test_file, "g_test");
    assert_eq!(tests[0].covers, "g");
    assert_eq!(tests[1].test_file, "unknown");
}

#[test]
fn tools_are_sorted_and_distinct() {
    let hydrator = ContextHydrator::new(ContextStore::new());
    let mut java = item("A.java", 0.9);
    java.language = "java".to_string();
    let mut with_repo = intent(&[], &[], &[]);
    with_repo.repo = Some("r".to_string());
    assert_eq!(
        hydrator.curate_tools(&with_repo, &vec![java]),
        vec![
            "context__audit_log",
            "context__graph_query",
            "context__vector_search",
            "developer__shell",
            "developer__text_editor"
        ]
    );
    assert_eq!(
        hydrator.curate_tools(&intent(&[], &[], &["CORE-1"]), &vec![]),
        vec![
            "context__audit_log",
            "context__graph_query",
            "context__sql_query",
            "context__vector_search",
            "developer__shell",
            "developer__text_editor"
        ]
    );
}

#[test]
fn parts_that_failed_are_empty() {
    let hydrator = ContextHydrator::new(ContextStore::new());
    let context = hydrator.hydrate(
        &intent(&[], &[], &["T-1"]),
        None,
        None,
        Some(vec![OwnershipItem {
            entity: "e".to_string(),
            team: "t".to_string(),
            slack_channel: None,
        }]),
        None,
    );
    assert!(context.code_context.is_empty());
    assert!(context.doc_context.is_empty());
    assert_eq!(context.ownership.len(), 1);
    assert!(context.test_context.is_empty());
    assert_eq!(context.metadata.as_text(), "{}");
    assert_eq!(context.recommended_tools.len(), 6);
}

#[test]
fn stored_chunks_keep_their_language() {
    let text = "fn main() { println!(\"hello, hello, hello, hello\"); }";
    let chunk = populate_embeddings("repo", "src/main.rs", "rust", text).remove(0);
    let found = EmbeddingRecord {
        id: 1,
        source_type: "code".to_string(),
        source_id: chunk.source_id.clone(),
        chunk_index: chunk.chunk_index,
        content: chunk.content.clone(),
        metadata: chunk.metadata.copy(),
        similarity: Some(score(0.8)),
    };
    let hydrator = ContextHydrator::new(ContextStore::new());
    let items = hydrator.hydrate_code_context(&intent(&[], &[], &[]), &vec![], &vec![found]);
    assert_eq!(items[0].language, "rust");
    assert_eq!(items[0].file_path, "repo:src/main.rs");
    assert_eq!(items[0].snippet, text);
}
