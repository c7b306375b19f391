use goose_context::db::graph::{GraphQueryResult, GraphStore};
use goose_context::db::migrations::{migrations, pending, run};
use goose_context::db::pool::{ContextStore, ContextStoreConfig};
use goose_context::db::read_only::{is_select, show_rows, Cell, NOT_A_SELECT};
use goose_context::db::relational::{
    agent_run_columns, agent_run_from_row, agent_runs_from_rows, audit_log_columns,
    audit_log_entries_from_rows, audit_log_from_row, found_agent_run, found_template,
    ingestion_job_columns, ingestion_job_from_row, ingestion_jobs_from_rows, template_columns,
    template_from_row, templates_from_rows, CreateAgentRun, CreateAuditLog, RelationalStore,
    SandboxTemplate,
};
use goose_context::db::statement::{
    ColumnKind, Moment, Row, SqlValue, Statement, FIRST_MICROS, LAST_MICROS,
};
use goose_context::db::vector::{
    record_columns, EmbeddingInput, VectorSearchParams, VectorStore,
};
use goose_context::json::Json;
use goose_context::score::Score;

fn text(value: &SqlValue) -> Option<&str> {
    match value {
        SqlValue::Text(Some(t)) => Some(t.as_str()),
        _ => None,
    }
}

fn params(statement: &Statement) -> Vec<String> {
    statement.params.iter().map(|p| format!("{:?}", p)).collect()
}

fn row(cells: Vec<(&str, SqlValue)>) -> Row {
    Row { columns: cells.into_iter().map(|(n, v)| (n.to_string(), v)).collect() }
}

fn some(t: &str) -> SqlValue {
    SqlValue::Text(Some(t.to_string()))
}

const NOW: Moment = Moment { micros: 1_700_000_000_000_000 };

#[test]
fn cypher_is_wrapped() {
    let graph = GraphStore::new();
    let query = graph.cypher_query("MATCH (n) RETURN n");
    assert_eq!(
        query.sql,
        "SELECT * FROM ag_catalog.cypher('codebase', $$ MATCH (n) RETURN n $$) AS (result ag_catalog.agtype);"
    );
    assert_eq!(query.failure(), "Cypher query failed: MATCH (n) RETURN n");
    let props = Json::parse("{\"a\": 1}").unwrap();
    assert_eq!(graph.create_node("File", &props).cypher, "CREATE (n:File {\"a\":1}) RETURN n");
    assert_eq!(
        graph.create_edge("A", "x: 1", "B", "y: 2", "OWNS", Some(&props)).cypher,
        "MATCH (a:A {x: 1}), (b:B {y: 2}) CREATE (a)-[e:OWNS {\"a\":1}]->(b) RETURN e"
    );
    assert_eq!(
        graph.create_edge("A", "x: 1", "B", "y: 2", "OWNS", None).cypher,
        "MATCH (a:A {x: 1}), (b:B {y: 2}) CREATE (a)-[e:OWNS {}]->(b) RETURN e"
    );
    assert_eq!(
        graph.find_neighbors("File", "path: 'a'", 2).cypher,
        "MATCH (n:File {path: 'a'})-[*1..2]-(neighbor) RETURN DISTINCT neighbor"
    );
    assert_eq!(
        graph.find_path("A", "x: 1", "B", "y: 2").cypher,
        "MATCH path = shortestPath((a:A {x: 1})-[*]-(b:B {y: 2})) RETURN path"
    );
    assert_eq!(graph.find_nodes("File", None, 7).cypher, "MATCH (n:File)  RETURN n LIMIT 7");
    assert_eq!(
        graph.find_nodes("File", Some("n.x = 1"), 7).cypher,
        "MATCH (n:File) WHERE n.x = 1  RETURN n LIMIT 7"
    );
    assert_eq!(
        graph.get_owners("File", "path: 'a'").cypher,
        "MATCH (t:Team)-[:OWNS]->(e:File {path: 'a'}) RETURN t"
    );
    assert_eq!(
        graph.get_dependencies("File", "path: 'a'").cypher,
        "MATCH (e:File {path: 'a'})-[:DEPENDS_ON|IMPORTS*1..3]->(dep) RETURN DISTINCT dep"
    );
    assert_eq!(
        graph.get_test_coverage("File", "path: 'a'").cypher,
        "MATCH (e:File {path: 'a'})<-[:TESTED_BY]-(test) RETURN test"
    );
    assert_eq!(
        graph.clear_source("r").cypher,
        "MATCH (n {repo: 'r'}) DETACH DELETE n RETURN count(*) as deleted"
    );
}

#[test]
fn graph_answers_become_values() {
    let result = GraphQueryResult::from_answers(&vec![
        "{ \"id\": 1 }".to_string(),
        "{\"id\": 1}::vertex".to_string(),
        "7".to_string(),
    ]);
    assert_eq!(result.columns, vec!["result"]);
    assert_eq!(result.row_count, 3);
    let shown: Vec<Vec<&str>> = result
        .rows
        .iter()
        .map(|r| r.iter().map(|v| v.as_text()).collect())
        .collect();
    assert_eq!(
        shown,
        vec![vec!["{\"id\":1}"], vec!["\"{\\\"id\\\": 1}::vertex\""], vec!["7"]]
    );
}

#[test]
fn vector_statements() {
    let store = VectorStore::new();
    let input = EmbeddingInput {
        source_type: "doc".to_string(),
        source_id: "confluence://swift-guide".to_string(),
        chunk_index: 3,
        content: "c".to_string(),
        metadata: Json::parse("{\"title\": \"SWIFT Guide\"}").unwrap(),
        embedding: vec![1, 2, 3],
    };
    let upsert = store.upsert(&input);
    assert!(upsert.sql.starts_with("INSERT INTO embeddings (source_type, source_id, chunk_index, content, metadata, embedding)"));
    assert_eq!(upsert.params.len(), 6);
    assert_eq!(text(&upsert.params[1]), Some("confluence://swift-guide"));
    assert!(matches!(upsert.params[2], SqlValue::Int(Some(3))));
    assert!(matches!(&upsert.params[5], SqlValue::Embedding(v) if *v == vec![1, 2, 3]));
    assert_eq!(
        input.batch_failure(),
        "Failed to upsert embedding for doc:confluence://swift-guide"
    );
    let batch = store.upsert_batch(&vec![input.clone(), input]);
    assert_eq!(batch.len(), 2);
    assert_eq!(params(&batch[0]), params(&upsert));

    let mut search = VectorSearchParams::default();
    assert_eq!(search.limit, 10);
    assert_eq!(f64::from_bits(search.similarity_threshold.bits), 0.5);
    let all = store.search(&search);
    assert_eq!(all.params.len(), 3);
    assert!(all.sql.contains("LIMIT $3"));
    search.source_type = Some("code".to_string());
    let scoped = store.search(&search);
    assert_eq!(scoped.params.len(), 4);
    assert_eq!(text(&scoped.params[1]), Some("code"));
    assert!(scoped.sql.contains("WHERE source_type = $2"));
    assert!(scoped.sql.contains("LIMIT $4"));

    assert_eq!(store.delete_source("doc", "x").params.len(), 2);
    assert_eq!(
        store.delete_source_type("doc").sql,
        "DELETE FROM embeddings WHERE source_type = $1"
    );
    assert_eq!(store.count(None).sql, "SELECT COUNT(*) as count FROM embeddings");
    assert_eq!(
        store.count(Some("doc")).sql,
        "SELECT COUNT(*) as count FROM embeddings WHERE source_type = $1"
    );
}

#[test]
fn search_rows_become_records() {
    let found = row(vec![
        ("id", SqlValue::Uuid(Some(5))),
        ("source_type", some("doc")),
        ("source_id", some("s")),
        ("chunk_index", SqlValue::Int(Some(2))),
        ("content", some("text")),
        ("metadata", SqlValue::Document(Json::parse("{}"))),
        ("similarity", SqlValue::Double(Some(Score { bits: 0.5f64.to_bits() }))),
    ]);
    assert!(found.is_conforming(&record_columns()));
    let records = VectorStore::new().search_records(&vec![found]);
    assert_eq!(records.len(), 1);
    assert_eq!(records[0].id, 5);
    assert_eq!(records[0].source_id, "s");
    assert_eq!(records[0].chunk_index, 2);
    assert_eq!(records[0].metadata.as_text(), "{}");
    assert_eq!(records[0].similarity.map(|s| f64::from_bits(s.bits)), Some(0.5));
    assert!(!row(vec![("id", SqlValue::Uuid(None))]).is_conforming(&record_columns()));
}

#[test]
fn test_create_and_get_agent_run() {
    let store = RelationalStore::new();
    let created = store.create_agent_run(CreateAgentRun {
        session_id: "test-session-001".to_string(),
        trigger_source: "slack".to_string(),
        trigger_ref: Some("https://company.slack.com/archives/C123/p456".to_string()),
        created_by: "test-user@bank.com".to_string(),
        metadata: Json::parse("{\"test\": true}"),
    });
    assert!(created.sql.contains("'pending'"));
    let stored = row(vec![
        ("id", SqlValue::Uuid(Some(9))),
        ("session_id", created.params[0].clone()),
        ("trigger_source", created.params[1].clone()),
        ("trigger_ref", created.params[2].clone()),
        ("sandbox_id", SqlValue::Text(None)),
        ("template_id", SqlValue::Uuid(None)),
        ("status", some("pending")),
        ("pr_url", SqlValue::Text(None)),
        ("started_at", SqlValue::Time(None)),
        ("completed_at", SqlValue::Time(Some(NOW))),
        ("created_by", created.params[3].clone()),
        ("approved_by", SqlValue::Text(None)),
        ("metadata", created.params[4].clone()),
        ("created_at", SqlValue::Time(Some(NOW))),
    ]);
    assert!(stored.is_conforming(&agent_run_columns()));
    let run = agent_run_from_row(&stored);
    assert_eq!(run.id, 9);
    assert_eq!(run.status, "pending");
    assert_eq!(run.trigger_source, "slack");
    assert_eq!(run.session_id, "test-session-001");
    assert_eq!(run.completed_at, Some(NOW));
    assert_eq!(run.metadata.as_text(), "{\"test\":true}");
    let rows = vec![stored];
    let fetched = found_agent_run(&rows).expect("Agent run should exist");
    assert_eq!(fetched.id, run.id);
    assert_eq!(fetched.session_id, "test-session-001");
    assert_eq!(format!("{:?}", fetched), format!("{:?}", run));
    assert_eq!(agent_runs_from_rows(&rows).len(), 1);
    assert!(found_agent_run(&vec![]).is_none());
    let get = store.get_agent_run(run.id);
    assert_eq!(get.sql, "SELECT * FROM agent_runs WHERE id = $1");
    assert!(matches!(get.params[0], SqlValue::Uuid(Some(9))));
}

#[test]
fn runs_without_metadata_get_an_empty_object() {
    let created = RelationalStore::new().create_agent_run(CreateAgentRun {
        session_id: "s".to_string(),
        trigger_source: "ci".to_string(),
        trigger_ref: None,
        created_by: "c".to_string(),
        metadata: None,
    });
    match &created.params[4] {
        SqlValue::Document(Some(json)) => assert_eq!(json.as_text(), "{}"),
        _ => unreachable!(),
    }
}

#[test]
fn test_audit_log_append_and_query() {
    let store = RelationalStore::new();
    let sent = store.append_audit_log(CreateAuditLog {
        run_id: Some(4),
        action_type: "tool_call".to_string(),
        action_detail: Json::parse("{\"tool\": \"developer__shell\", \"command\": \"mvn test\"}").unwrap(),
        tool_name: Some("developer__shell".to_string()),
        input_hash: Some("abc123".to_string()),
        output_summary: Some("Tests passed: 42, failed: 0".to_string()),
        token_count: Some(150),
        gate_name: Some("test".to_string()),
        gate_result: Some("pass".to_string()),
        risk_level: Some("low".to_string()),
    });
    assert_eq!(sent.params.len(), 10);
    let names = [
        "run_id", "action_type", "action_detail", "tool_name", "input_hash", "output_summary",
        "token_count", "gate_name", "gate_result", "risk_level",
    ];
    let mut cells: Vec<(&str, SqlValue)> = names.iter().copied().zip(sent.params).collect();
    cells.push(("id", SqlValue::BigInt(Some(77))));
    cells.push(("timestamp", SqlValue::Time(Some(NOW))));
    let stored = row(cells);
    assert!(stored.is_conforming(&audit_log_columns()));
    let entry = audit_log_from_row(&stored);
    assert_eq!(entry.id, 77);
    assert_eq!(entry.run_id, Some(4));
    assert_eq!(entry.gate_name.as_deref(), Some("test"));
    assert_eq!(entry.gate_result.as_deref(), Some("pass"));
    assert_eq!(entry.token_count, Some(150));
    assert_eq!(entry.risk_level, "low");

    let entries = audit_log_entries_from_rows(&vec![stored]);
    assert_eq!(entries.len(), 1, "Should have at least one audit entry");
    assert_eq!(entries[0].id, 77);
    assert!(audit_log_entries_from_rows(&vec![]).is_empty());

    let both = store.query_audit_log(Some(4), Some("tool_call"), 10);
    assert_eq!(both.params.len(), 3);
    assert!(both.sql.contains("run_id = $1 AND action_type = $2"));
    let by_run = store.query_audit_log(Some(4), None, 10);
    assert_eq!(by_run.sql, "SELECT * FROM audit_log WHERE run_id = $1 ORDER BY timestamp DESC LIMIT $2");
    let by_type = store.query_audit_log(None, Some("x"), 10);
    assert_eq!(by_type.sql, "SELECT * FROM audit_log WHERE action_type = $1 ORDER BY timestamp DESC LIMIT $2");
    let all = store.query_audit_log(None, None, 10);
    assert_eq!(all.sql, "SELECT * FROM audit_log ORDER BY timestamp DESC LIMIT $1");
    assert!(matches!(all.params[0], SqlValue::BigInt(Some(10))));
}

#[test]
fn status_changes_note_the_moment() {
    let store = RelationalStore::new();
    let noted = |value: &SqlValue| matches!(value, SqlValue::Time(Some(m)) if *m == NOW);
    for (status, started, completed) in [
        ("running", true, false),
        ("completed", false, true),
        ("failed", false, true),
        ("escalated", false, true),
        ("pending", false, false),
    ] {
        let update = store.update_agent_run_status_at(1, status, Some("box"), None, NOW);
        assert_eq!(text(&update.params[1]), Some(status));
        assert_eq!(text(&update.params[2]), Some("box"));
        assert!(matches!(update.params[3], SqlValue::Text(None)));
        assert_eq!(noted(&update.params[4]), started, "{}", status);
        assert_eq!(noted(&update.params[5]), completed, "{}", status);
    }
    for (status, started, completed) in [
        ("running", true, false),
        ("completed", false, true),
        ("failed", false, true),
        ("escalated", false, false),
    ] {
        let update = store.update_ingestion_job_at(1, status, Some(1), None, Some(3), Some("e"), NOW);
        assert_eq!(update.params.len(), 8);
        assert!(matches!(update.params[2], SqlValue::Int(Some(1))));
        assert!(matches!(update.params[3], SqlValue::Int(None)));
        assert_eq!(text(&update.params[5]), Some("e"));
        assert_eq!(noted(&update.params[6]), started, "{}", status);
        assert_eq!(noted(&update.params[7]), completed, "{}", status);
    }
}

#[test]
fn lists_filter_by_status() {
    let store = RelationalStore::new();
    assert_eq!(store.list_agent_runs(None, 5).params.len(), 1);
    let runs = store.list_agent_runs(Some("failed"), 5);
    assert_eq!(runs.sql, "SELECT * FROM agent_runs WHERE status = $1 ORDER BY created_at DESC LIMIT $2");
    assert_eq!(text(&runs.params[0]), Some("failed"));
    assert_eq!(store.list_ingestion_jobs(None, 5).sql, "SELECT * FROM ingestion_jobs ORDER BY created_at DESC LIMIT $1");
    assert_eq!(store.list_ingestion_jobs(Some("x"), 5).params.len(), 2);
    assert!(store.create_ingestion_job("git", "/r").sql.contains("'pending'"));
}

#[test]
fn test_create_and_list_templates() {
    let store = RelationalStore::new();
    let json = |t: &str| Json::parse(t).unwrap();
    let template = SandboxTemplate {
        id: 1,
        name: "payment-service-java17".to_string(),
        repo_url: Some("git@git.bank.internal:payments/payment-service.git".to_string()),
        description: Some("Java 17 + Maven 3.9 for payment-service repo".to_string()),
        base_image: "ubuntu:22.04".to_string(),
        dockerfile: "FROM ubuntu:22.04\nRUN apt-get install -y openjdk-17-jdk maven\n".to_string(),
        setup_script: Some("git config --global user.email ci-agent@bank.com".to_string()),
        languages: vec!["java".to_string()],
        build_tools: vec!["maven".to_string()],
        pre_warm_count: 3,
        resource_limits: json("{\"cpu\": 4, \"memory_mb\": 8192, \"disk_mb\": 20480}"),
        gates_config: json("{\"gates\": [{\"name\": \"lint\", \"command\": \"mvn checkstyle:check\", \"timeout\": 30}, {\"name\": \"test\", \"command\": \"mvn test\", \"timeout\": 300}]}"),
        tools_config: json("{\"tools\": [\"developer__shell\", \"developer__text_editor\"]}"),
        network_policy: json("{\"deny_all_external\": true, \"allow\": [\"git.bank.internal\", \"nexus.bank.internal\"]}"),
        status: "draft".to_string(),
        scan_results: Some(json("{\"language_detected\": \"java\", \"build_tool\": \"maven\"}")),
        created_at: NOW,
    };
    let sent = store.create_template(&template);
    assert_eq!(sent.params.len(), 15);
    let names = [
        "name", "repo_url", "description", "base_image", "dockerfile", "setup_script", "languages",
        "build_tools", "pre_warm_count", "resource_limits", "gates_config", "tools_config",
        "network_policy", "status", "scan_results",
    ];
    let mut cells: Vec<(&str, SqlValue)> = names.iter().copied().zip(sent.params).collect();
    cells.push(("id", SqlValue::Uuid(Some(6))));
    cells.push(("created_at", SqlValue::Time(Some(NOW))));
    let stored = row(cells);
    assert!(stored.is_conforming(&template_columns()));
    let read = template_from_row(&stored);
    assert_eq!(read.id, 6);
    assert_eq!(read.name, template.name);
    assert_eq!(read.languages, vec!["java"]);
    assert_eq!(read.pre_warm_count, 3);
    assert_eq!(read.gates_config.as_text(), template.gates_config.as_text());
    assert_eq!(read.status, "draft");
    let rows = vec![stored];
    assert!(templates_from_rows(&rows).iter().any(|t| t.id == 6));
    assert_eq!(found_template(&rows).map(|t| t.id), Some(6));
    assert!(found_template(&vec![]).is_none());
    let drafts = store.list_templates(Some("draft"));
    assert_eq!(text(&drafts.params[0]), Some("draft"));
    assert!(store.list_templates(None).params.is_empty());
    let approve = store.approve_template(6);
    assert!(approve.sql.contains("status = 'approved'"));
    assert!(matches!(store.get_template(6).params[0], SqlValue::Uuid(Some(6))));
}

#[test]
fn ingestion_jobs_are_read() {
    let stored = row(vec![
        ("id", SqlValue::Uuid(Some(2))),
        ("source_type", some("git")),
        ("source_uri", some("/r")),
        ("status", some("pending")),
        ("chunks_created", SqlValue::Int(Some(1))),
        ("graph_nodes", SqlValue::Int(Some(2))),
        ("graph_edges", SqlValue::Int(Some(3))),
        ("error_message", SqlValue::Text(None)),
        ("started_at", SqlValue::Time(None)),
        ("completed_at", SqlValue::Time(None)),
    ]);
    assert!(stored.is_conforming(&ingestion_job_columns()));
    let job = ingestion_job_from_row(&stored);
    assert_eq!((job.id, job.chunks_created, job.graph_nodes, job.graph_edges), (2, 1, 2, 3));
    assert_eq!(job.source_uri, "/r");
    assert!(job.error_message.is_none());
    assert_eq!(ingestion_jobs_from_rows(&vec![stored]).len(), 1);
}

#[test]
fn columns_accept_their_kinds() {
    assert!(ColumnKind::Text.accepts(&some("a")));
    assert!(!ColumnKind::Text.accepts(&SqlValue::Text(None)));
    assert!(ColumnKind::OptText.accepts(&SqlValue::Text(None)));
    assert!(!ColumnKind::OptText.accepts(&SqlValue::Int(None)));
    assert!(!ColumnKind::Time.accepts(&SqlValue::Other));
}

#[test]
fn test_read_only_sql_query() {
    let store = ContextStore::new();
    let query = store
        .relational()
        .read_only_query("SELECT COUNT(*) as count FROM agent_runs")
        .expect("Failed to run read-only query");
    assert_eq!(query.sql, "SELECT COUNT(*) as count FROM agent_runs");
    assert!(query.params.is_empty());
    let rows = show_rows(&vec![vec![Cell {
        column: "count".to_string(),
        sql_type: "int8".to_string(),
        value: SqlValue::BigInt(Some(3)),
    }]]);
    assert!(!rows.is_empty());
    let count_col = rows[0].first().unwrap();
    assert_eq!(count_col.0, "count");
    assert_eq!(count_col.1.as_text(), "3");
}

#[test]
fn test_read_only_sql_rejects_writes() {
    let store = ContextStore::new();
    let result = store.relational().read_only_query(
        "DELETE FROM agent_runs WHERE id = '00000000-0000-0000-0000-000000000000'",
    );
    assert!(result.is_err(), "DELETE should be rejected");
    assert!(
        result.unwrap_err().to_string().contains("Only SELECT"),
        "Error should mention SELECT restriction"
    );
}

#[test]
fn select_is_told_in_any_case() {
    let store = RelationalStore::new();
    let sent = store.read_only_query("  \n select 1").unwrap();
    assert_eq!(sent.sql, "  \n select 1");
    assert!(store.read_only_query("SeLeCt 1").is_ok());
    assert_eq!(store.read_only_query("").unwrap_err(), NOT_A_SELECT);
    assert!(store.read_only_query("WITH x AS (SELECT 1) SELECT 2").is_err());
    assert!(store.read_only_query("sel\u{e9}ct").is_err());
    assert!(is_select("SELECT"));
    assert!(!is_select("select"));
}

#[test]
fn cells_are_shown_by_type() {
    let cell = |kind: &str, value: SqlValue| Cell {
        column: "c".to_string(),
        sql_type: kind.to_string(),
        value,
    };
    let shown = |kind: &str, value: SqlValue| cell(kind, value).shown().as_text().to_string();
    assert_eq!(shown("int4", SqlValue::Int(Some(-4))), "-4");
    assert_eq!(shown("int4", SqlValue::Int(None)), "null");
    assert_eq!(shown("text", some("a\nb")), "\"a\\nb\"");
    assert_eq!(shown("varchar", SqlValue::Text(None)), "null");
    assert_eq!(shown("bool", SqlValue::Bool(Some(true))), "true");
    assert_eq!(shown("jsonb", SqlValue::Document(Json::parse("[1, 2]"))), "[1,2]");
    assert_eq!(shown("json", SqlValue::Document(None)), "null");
    assert_eq!(
        shown("uuid", SqlValue::Uuid(Some(0x0123_4567_89ab_cdef_0123_4567_89ab_cdef))),
        "\"01234567-89ab-cdef-0123-456789abcdef\""
    );
    assert_eq!(
        shown("timestamptz", SqlValue::Time(Some(NOW))),
        "\"2023-11-14T22:13:20+00:00\""
    );
    assert_eq!(
        shown("timestamptz", SqlValue::Time(Some(Moment { micros: -1 }))),
        "\"1969-12-31T23:59:59.999999+00:00\""
    );
    assert_eq!(
        shown("timestamptz", SqlValue::Time(Some(Moment { micros: LAST_MICROS }))),
        "\"+262142-12-31T23:59:59.999999+00:00\""
    );
    assert_eq!(shown("float8", SqlValue::Other), "\"<unsupported type: float8>\"");
    assert!(!Moment { micros: LAST_MICROS + 1 }.is_in_calendar());
    assert!(NOW.is_in_calendar());
    assert!(cell("timestamptz", SqlValue::Time(Some(NOW))).is_showable());
    assert!(!cell("timestamptz", SqlValue::Time(Some(Moment { micros: i64::MAX }))).is_showable());
    assert!(!cell("int4", SqlValue::Other).is_showable());
    assert!(cell("float8", SqlValue::Other).is_showable());
    let rows = show_rows(&vec![vec![cell("bool", SqlValue::Bool(None)), cell("int8", SqlValue::BigInt(Some(1)))], vec![]]);
    assert_eq!(rows.len(), 2);
    assert_eq!(rows[0].len(), 2);
    assert_eq!(rows[0][1].1.as_text(), "1");
}

#[test]
fn calendar_bounds_are_those_of_the_dates() {
    let time = |micros: i64| chrono::DateTime::<chrono::Utc>::from_timestamp_micros(micros);
    assert!(time(FIRST_MICROS).is_some());
    assert!(time(FIRST_MICROS - 1).is_none());
    assert!(time(LAST_MICROS).is_some());
    assert!(time(LAST_MICROS + 1).is_none());
}

#[test]
fn migrations_are_applied_in_order() {
    let all = migrations();
    assert_eq!(all.len(), 3);
    assert!(all[0].sql.contains("CREATE TABLE IF NOT EXISTS agent_runs"));
    assert!(all[1].sql.contains("create_vlabel('codebase', 'Service')"));
    assert!(all[2].sql.contains("vector(384)"));
    assert_eq!(all[1].label(), "V002: age_graph_schema");
    let steps = run(&vec![]);
    let sent: Vec<String> = steps.iter().map(|s| s.to_statement().sql).collect();
    assert_eq!(steps.len(), 7);
    assert_eq!(sent[0], all[0].sql);
    assert_eq!(sent[1], "INSERT INTO schema_migrations (version) VALUES ($1)");
    assert!(sent[2].starts_with("LOAD 'age'"));
    assert_eq!(sent[3], all[1].sql);
    assert!(matches!(steps[4].to_statement().params[0], SqlValue::Int(Some(2))));
    assert_eq!(steps[0].failure(), "Failed to apply migration V001: init_schema");
    assert_eq!(steps[2].failure(), "Failed to load AGE for migration");
    assert_eq!(steps[6].failure(), "Failed to record migration V003");
}

#[test]
fn migrations_resume_and_end() {
    let versions = |applied: &Vec<i32>| -> Vec<i32> { pending(applied).iter().map(|m| m.version).collect() };
    assert_eq!(versions(&vec![]), vec![1, 2, 3]);
    assert_eq!(versions(&vec![1]), vec![2, 3]);
    assert_eq!(versions(&vec![2, 9]), vec![1, 3]);
    assert!(versions(&vec![3, 1, 2]).is_empty());
    assert!(ContextStore::new().run_migrations(&vec![1, 2, 3]).is_empty());
}

#[test]
fn configuration_from_variables() {
    let default = ContextStoreConfig::default();
    let unset = ContextStoreConfig::from_env(None, None, None, None, None, None);
    assert_eq!(format!("{:?}", default), format!("{:?}", unset));
    assert_eq!(default.host, "localhost");
    assert_eq!(default.port, 5432);
    assert_eq!(default.database, "goose_context");
    assert_eq!(default.user, "goose");
    assert_eq!(default.password, "");
    assert_eq!(default.max_pool_size, 16);
    let s = |t: &str| Some(t.to_string());
    let set = ContextStoreConfig::from_env(s("h"), s("6543"), s("d"), s("u"), s("p"), s("4"));
    assert_eq!((set.host.as_str(), set.port, set.database.as_str()), ("h", 6543, "d"));
    assert_eq!((set.user.as_str(), set.password.as_str(), set.max_pool_size), ("u", "p", 4));
    let odd = ContextStoreConfig::from_env(None, s("70000"), None, None, None, s("-1"));
    assert_eq!((odd.port, odd.max_pool_size), (5432, 16));
}

#[test]
fn embeddings_read_back() {
    let store = VectorStore::new();
    let sent = store.upsert(&EmbeddingInput {
        source_type: "doc".to_string(),
        source_id: "confluence://idempotent-test".to_string(),
        chunk_index: 4,
        content: "idempotent test content".to_string(),
        metadata: Json::parse("{\"k\": [1]}").unwrap(),
        embedding: vec![1],
    });
    let names = ["source_type", "source_id", "chunk_index", "content", "metadata"];
    let mut cells: Vec<(&str, SqlValue)> = names.iter().copied().zip(sent.params).collect();
    cells.push(("id", SqlValue::Uuid(Some(1))));
    cells.push(("similarity", SqlValue::Double(None)));
    let record = store.search_records(&vec![row(cells)]).remove(0);
    assert_eq!(record.source_type, "doc");
    assert_eq!(record.source_id, "confluence://idempotent-test");
    assert_eq!(record.chunk_index, 4);
    assert_eq!(record.content, "idempotent test content");
    assert_eq!(record.metadata.as_text(), "{\"k\":[1]}");
    assert!(record.similarity.is_none());
}

#[test]
fn present_moment_is_noted() {
    let store = RelationalStore::new();
    let start = chrono::Utc::now().timestamp_micros();
    let run = store.update_agent_run_status(1, "running", None, Some("url"));
    let job = store.update_ingestion_job(1, "failed", None, None, None, None);
    let end = chrono::Utc::now().timestamp_micros();
    assert!(matches!(run.params[4], SqlValue::Time(Some(m)) if start <= m.micros && m.micros <= end));
    assert!(matches!(run.params[5], SqlValue::Time(None)));
    assert!(matches!(job.params[6], SqlValue::Time(None)));
    assert!(matches!(job.params[7], SqlValue::Time(Some(m)) if start <= m.micros && m.micros <= end));
    let idle = store.update_agent_run_status(1, "pending", None, None);
    assert!(matches!(idle.params[4], SqlValue::Time(None)));
}

#[test]
fn entries_without_a_risk_are_low() {
    let entry = |risk_level: Option<&str>| CreateAuditLog {
        run_id: None,
        action_type: "tool_call".to_string(),
        action_detail: Json::empty_object(),
        tool_name: None,
        input_hash: None,
        output_summary: None,
        token_count: None,
        gate_name: None,
        gate_result: None,
        risk_level: risk_level.map(|r| r.to_string()),
    };
    let store = RelationalStore::new();
    assert_eq!(text(&store.append_audit_log(entry(None)).params[9]), Some("low"));
    assert_eq!(text(&store.append_audit_log(entry(Some("high"))).params[9]), Some("high"));
}

#[test]
fn equal_inputs_give_equal_upserts() {
    let input = |source_id: &str, content: &str| EmbeddingInput {
        source_type: "doc".to_string(),
        source_id: source_id.to_string(),
        chunk_index: 0,
        content: content.to_string(),
        metadata: Json::empty_object(),
        embedding: vec![1],
    };
    let store = VectorStore::new();
    let one = store.upsert(&input("s", "a"));
    let again = store.upsert(&input("s", "a"));
    let other = store.upsert(&input("s", "b"));
    let elsewhere = store.upsert(&input("t", "a"));
    assert_eq!(params(&one), params(&again));
    assert_eq!(one.sql, other.sql);
    assert_eq!(params(&one)[..3], params(&other)[..3]);
    assert_ne!(params(&one)[3], params(&other)[3]);
    assert_ne!(params(&one)[..3], params(&elsewhere)[..3]);
    assert!(one.sql.contains("ON CONFLICT (source_type, source_id, chunk_index)"));
}

#[test]
fn answers_keep_the_order_of_their_rows() {
    let found = |id: u128, similarity: f64| {
        row(vec![
            ("id", SqlValue::Uuid(Some(id))),
            ("source_type", some("doc")),
            ("source_id", some("s")),
            ("chunk_index", SqlValue::Int(Some(0))),
            ("content", some("text")),
            ("metadata", SqlValue::Document(Json::parse("{}"))),
            ("similarity", SqlValue::Double(Some(Score { bits: similarity.to_bits() }))),
        ])
    };
    let records = VectorStore::new().search_records(&vec![found(3, 0.9), found(1, 0.8), found(2, 0.5)]);
    let ids: Vec<u128> = records.iter().map(|r| r.id).collect();
    assert_eq!(ids, vec![3, 1, 2]);

    let job = |id: u128| {
        row(vec![
            ("id", SqlValue::Uuid(Some(id))),
            ("source_type", some("git")),
            ("source_uri", some("/r")),
            ("status", some("pending")),
            ("chunks_created", SqlValue::Int(Some(0))),
            ("graph_nodes", SqlValue::Int(Some(0))),
            ("graph_edges", SqlValue::Int(Some(0))),
            ("error_message", SqlValue::Text(None)),
            ("started_at", SqlValue::Time(None)),
            ("completed_at", SqlValue::Time(None)),
        ])
    };
    let jobs = ingestion_jobs_from_rows(&vec![job(9), job(4)]);
    assert_eq!(jobs.iter().map(|j| j.id).collect::<Vec<u128>>(), vec![9, 4]);
}
