use goose_context::db::read_only::Cell;
use goose_context::db::statement::SqlValue;
use goose_context::json::Json;
use goose_context::mcp_server::{
    audit_entry, audit_reply, check_arguments, default_depth, default_limit, default_risk,
    default_threshold, find_tool, refusal, reply, tool_failure, unknown_tool, Action, AuditLogInput,
    ContextMcpServer, EntityLookupInput, GraphNeighborsInput, GraphPathInput, GraphQueryInput,
    SqlQueryInput, Tool, ToolCall, VectorSearchInput,
};
use goose_context::score::Score;
use goose_context::ContextStore;

fn server() -> ContextMcpServer {
    ContextMcpServer::new(ContextStore::new())
}

fn cypher(call: ToolCall) -> String {
    match server().call_tool(call) {
        Ok(Action::AskGraph(query)) => query.cypher,
        other => panic!("{:?}", other),
    }
}

fn lookup() -> EntityLookupInput {
    EntityLookupInput { label: "File".to_string(), match_clause: "path: 'a'".to_string() }
}

fn audit(run_id: Option<&str>) -> AuditLogInput {
    AuditLogInput {
        run_id: run_id.map(|r| r.to_string()),
        action_type: "tool_call".to_string(),
        action_detail: Json::parse("{\"a\": 1}").unwrap(),
        tool_name: Some("t".to_string()),
        input_hash: None,
        output_summary: None,
        token_count: Some(3),
        gate_name: None,
        gate_result: None,
        risk_level: default_risk(),
    }
}

#[test]
fn tools_are_listed_and_found() {
    let tools = ContextMcpServer::list_tools();
    let names: Vec<&str> = tools.iter().map(|t| t.name).collect();
    assert_eq!(
        names,
        vec![
            "graph_query",
            "graph_neighbors",
            "graph_path",
            "vector_search",
            "vector_search_code",
            "vector_search_docs",
            "sql_query",
            "audit_log",
            "get_owners",
            "get_dependencies",
            "get_test_coverage"
        ]
    );
    for tool in &tools {
        assert_eq!(find_tool(tool.name), Some(tool.tool));
        assert_eq!(tool.read_only, tool.name != "audit_log");
        assert_eq!(tool.idempotent, tool.name != "audit_log");
        assert!(!tool.destructive);
        assert!(!tool.open_world);
    }
    assert_eq!(tools[5].title, "Search Docs");
    assert_eq!(
        tools[10].description,
        "Get tests that cover a given file or function. Uses TESTED_BY edges in the graph."
    );
    assert_eq!(find_tool("context__graph_query"), None);
    assert_eq!(unknown_tool("x"), "Unknown tool: x");
}

#[test]
fn server_introduces_itself() {
    let info = ContextMcpServer::server_info("0.1.0");
    assert_eq!(info.name, "goose-context");
    assert_eq!(info.title, "Context Store");
    assert_eq!(info.version, "0.1.0");
    assert_eq!(info.protocol_version, "2025-03-26");
    assert!(!info.tools_list_changed);
    assert!(info.instructions.starts_with("Context store with graph queries (Apache AGE/Cypher), semantic vector search (pgvector), and"));
    assert!(info.description.starts_with("Three-tier context management"));
}

#[test]
fn graph_tools_ask_the_graph() {
    assert_eq!(
        cypher(ToolCall::GraphQuery(GraphQueryInput { cypher: "MATCH (n) RETURN n".to_string() })),
        "MATCH (n) RETURN n"
    );
    for (depth, hops) in [(0, "0"), (2, "2"), (5, "5"), (6, "5"), (u32::MAX, "5")] {
        let asked = cypher(ToolCall::GraphNeighbors(GraphNeighborsInput {
            label: "File".to_string(),
            match_clause: "path: 'a'".to_string(),
            depth,
        }));
        assert_eq!(
            asked,
            format!("MATCH (n:File {{path: 'a'}})-[*1..{}]-(neighbor) RETURN DISTINCT neighbor", hops)
        );
    }
    assert_eq!(
        cypher(ToolCall::GraphPath(GraphPathInput {
            from_label: "A".to_string(),
            from_match: "x: 1".to_string(),
            to_label: "B".to_string(),
            to_match: "y: 2".to_string(),
        })),
        "MATCH path = shortestPath((a:A {x: 1})-[*]-(b:B {y: 2})) RETURN path"
    );
    assert!(cypher(ToolCall::GetOwners(lookup())).contains("[:OWNS]"));
    assert!(cypher(ToolCall::GetDependencies(lookup())).contains("DEPENDS_ON|IMPORTS*1..3"));
    assert!(cypher(ToolCall::GetTestCoverage(lookup())).contains("TESTED_BY"));
    assert_eq!(ToolCall::GetOwners(lookup()).tool(), Tool::GetOwners);
}

#[test]
fn searches_are_scoped() {
    let input = || VectorSearchInput {
        query: "q".to_string(),
        limit: default_limit(),
        similarity_threshold: default_threshold(),
    };
    let scope = |call: ToolCall| match server().call_tool(call) {
        Ok(Action::Search(_, scope)) => scope,
        other => panic!("{:?}", other),
    };
    assert_eq!(scope(ToolCall::VectorSearch(input())), None);
    assert_eq!(scope(ToolCall::VectorSearchCode(input())), Some("code"));
    assert_eq!(scope(ToolCall::VectorSearchDocs(input())), Some("doc"));
    let statement = server().handle_vector_search(&input(), Some("doc"), vec![1]);
    assert_eq!(statement.params.len(), 4);
    assert!(matches!(statement.params[2], SqlValue::Double(Some(Score { bits })) if f64::from_bits(bits) == 0.5));
    assert!(matches!(statement.params[3], SqlValue::BigInt(Some(10))));
    assert_eq!(server().handle_vector_search(&input(), None, vec![1]).params.len(), 3);
}

#[test]
fn sql_tool_only_selects() {
    let call = |sql: &str| server().call_tool(ToolCall::SqlQuery(SqlQueryInput { sql: sql.to_string() }));
    match call(" select 1") {
        Ok(Action::AskSql(query)) => assert_eq!(query.sql, " select 1"),
        other => panic!("{:?}", other),
    }
    match call("DROP TABLE x") {
        Err(message) => assert_eq!(
            message,
            "SQL query failed: Only SELECT queries are allowed via read_only_query"
        ),
        other => panic!("{:?}", other),
    }
}

#[test]
fn audit_tool_reads_the_run() {
    let run = |input: AuditLogInput| match server().call_tool(ToolCall::AuditLog(input)) {
        Ok(Action::Append(query)) => {
            assert_eq!(query.params.len(), 10);
            match query.params[0] {
                SqlValue::Uuid(id) => id,
                _ => unreachable!(),
            }
        }
        other => panic!("{:?}", other),
    };
    assert_eq!(
        run(audit(Some("00000000-0000-0000-0000-0000000000ff"))),
        Some(255)
    );
    assert_eq!(run(audit(Some("not a run"))), None);
    assert_eq!(run(audit(None)), None);
    let entry = audit_entry(audit(None), Some(9));
    assert_eq!(entry.run_id, Some(9));
    assert_eq!(entry.risk_level.as_deref(), Some("low"));
    assert_eq!(entry.token_count, Some(3));
    assert_eq!(audit_reply(-7), "Audit log entry created with id: -7");
}

#[test]
fn replies_and_failures() {
    let good = reply(Ok("fine".to_string()));
    assert!(!good.is_error);
    assert_eq!(good.text, "fine");
    let bad = reply(Err("Missing arguments".to_string()));
    assert!(bad.is_error);
    assert_eq!(bad.text, "Error: Missing arguments");
    assert_eq!(check_arguments::<u8>(None), Err("Missing arguments".to_string()));
    assert_eq!(
        check_arguments::<u8>(Some(Err("expected a number".to_string()))),
        Err("Invalid arguments: expected a number".to_string())
    );
    assert_eq!(check_arguments(Some(Ok::<u8, String>(4))), Ok(4));
    assert_eq!(tool_failure(Tool::GraphQuery, "x"), "Graph query failed: x");
    assert_eq!(tool_failure(Tool::GraphNeighbors, "x"), "Graph neighbors query failed: x");
    assert_eq!(tool_failure(Tool::GraphPath, "x"), "Graph path query failed: x");
    assert_eq!(tool_failure(Tool::VectorSearchDocs, "x"), "Vector search failed: x");
    assert_eq!(tool_failure(Tool::AuditLog, "x"), "Failed to append audit log: x");
    assert_eq!(tool_failure(Tool::GetOwners, "x"), "Get owners failed: x");
    assert_eq!(tool_failure(Tool::GetDependencies, "x"), "Get dependencies failed: x");
    assert_eq!(tool_failure(Tool::GetTestCoverage, "x"), "Get test coverage failed: x");
    assert_eq!(default_depth(), 2);
}

#[test]
fn shown_runs_can_be_named_again() {
    let id: u128 = 0x9f86_d081_884c_4d65_9a2f_eaa0_c55a_d015;
    let shown = Cell {
        column: "id".to_string(),
        sql_type: "uuid".to_string(),
        value: SqlValue::Uuid(Some(id)),
    }
    .shown();
    let text = shown.as_text().trim_matches('"').to_string();
    assert_eq!(text, "9f86d081-884c-4d65-9a2f-eaa0c55ad015");
    match server().call_tool(ToolCall::AuditLog(audit(Some(&text)))) {
        Ok(Action::Append(query)) => assert!(matches!(query.params[0], SqlValue::Uuid(Some(n)) if n == id)),
        other => panic!("{:?}", other),
    }
}

#[test]
fn calls_are_refused_before_anything_is_asked() {
    for has_arguments in [false, true] {
        let reply = refusal("drop_tables", has_arguments).unwrap();
        assert!(reply.is_error);
        assert_eq!(reply.text, "Error: Unknown tool: drop_tables");
    }
    for tool in ContextMcpServer::list_tools() {
        let reply = refusal(tool.name, false).unwrap();
        assert!(reply.is_error);
        assert_eq!(reply.text, "Error: Missing arguments");
        assert!(refusal(tool.name, true).is_none());
    }
}
