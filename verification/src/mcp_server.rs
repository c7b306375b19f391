//! The MCP server that exposes context tools for the agent: its tools, what each asks of the
//! context store, and how it is answered.

use vstd::prelude::*;
use vstd::string::*;

use crate::db::graph::{
    find_neighbors_cypher, find_path_cypher, get_dependencies_cypher, get_owners_cypher,
    get_test_coverage_cypher, GraphQuery,
};
use crate::db::pool::ContextStore;
use crate::db::read_only::{begins_select, parse_uuid, unicode_uppercase, uuid_parse, NOT_A_SELECT};
use crate::db::relational::{
    append_audit_columns, audit_log_of, AuditLogEntry, CreateAuditLog, APPEND_AUDIT_SQL,
};
use crate::db::statement::{
    own_text, statement, text_param, Row, SqlView, Statement, StatementView,
};
use crate::db::vector::{search_statement, VectorSearchParams, HALF_BITS};
use crate::json::Json;
use crate::number::{signed_decimal, signed_decimal_text};
use crate::score::Score;
use crate::text::{opt_str_view, opt_view, same, trimmed};

verus! {

/// The most hops of a search for neighbors.
pub const MAX_DEPTH: u32 = 5;

/// What is said where a tool is called without arguments.
pub const MISSING_ARGUMENTS: &'static str = "Missing arguments";

/// What stands before the reason for which arguments cannot be read.
pub const INVALID_ARGUMENTS: &'static str = "Invalid arguments: ";

/// What stands before the reason for which a query has no embedding.
pub const NO_QUERY_EMBEDDING: &'static str = "Failed to generate query embedding: ";

/// What the server tells of itself.
#[derive(Debug, Clone)]
pub struct ServerInfo {
    pub protocol_version: &'static str,
    pub tools_list_changed: bool,
    pub name: &'static str,
    pub description: &'static str,
    pub title: &'static str,
    pub version: String,
    pub instructions: &'static str,
}

/// How to use the server.
pub const INSTRUCTIONS: &'static str =
    "Context store with graph queries (Apache AGE/Cypher), semantic vector search (pgvector), and structured SQL queries. Use graph queries to explore code relationships and dependencies. Use vector search to find relevant documentation and code. Use SQL for structured data (audit logs, agent runs, templates).";

/// What the server is.
pub const DESCRIPTION: &'static str =
    "Three-tier context management (graph, vector, SQL) for enterprise agent operations";

// ---------------------------------------------------------------------------
// Tools
// ---------------------------------------------------------------------------

/// A tool.
#[derive(Debug, Clone, Copy, PartialEq, Eq, Structural)]
pub enum Tool {
    /// Run Cypher query against the codebase graph (AGE).
    GraphQuery,
    /// Get related entities for a file/service/function.
    GraphNeighbors,
    /// Find dependency path between two entities.
    GraphPath,
    /// Semantic search across all ingested documents.
    VectorSearch,
    /// Semantic search scoped to code files only.
    VectorSearchCode,
    /// Semantic search scoped to documentation only.
    VectorSearchDocs,
    /// Read-only SQL query against relational tables.
    SqlQuery,
    /// Append an entry to the audit trail.
    AuditLog,
    /// Who owns this file/service?
    GetOwners,
    /// What does this entity depend on?
    GetDependencies,
    /// Which tests cover this entity?
    GetTestCoverage,
}

/// What the arguments of a tool are.
#[derive(Debug, Clone, Copy, PartialEq, Eq, Structural)]
pub enum InputKind {
    GraphQuery,
    GraphNeighbors,
    GraphPath,
    VectorSearch,
    SqlQuery,
    AuditLog,
    EntityLookup,
}

/// A tool as it is listed.
#[derive(Debug, Clone, Copy)]
pub struct ToolSpec {
    pub tool: Tool,
    pub name: &'static str,
    pub description: &'static str,
    pub title: &'static str,
    pub input: InputKind,
    pub read_only: bool,
    pub destructive: bool,
    pub idempotent: bool,
    pub open_world: bool,
}

/// What a `ToolSpec` says.
#[verifier::ext_equal]
pub struct ToolView {
    pub tool: Tool,
    pub name: Seq<char>,
    pub description: Seq<char>,
    pub title: Seq<char>,
    pub input: InputKind,
    pub read_only: bool,
    pub destructive: bool,
    pub idempotent: bool,
    pub open_world: bool,
}

impl View for ToolSpec {
    type V = ToolView;

    open spec fn view(&self) -> ToolView {
        ToolView {
            tool: self.tool,
            name: self.name@,
            description: self.description@,
            title: self.title@,
            input: self.input,
            read_only: self.read_only,
            destructive: self.destructive,
            idempotent: self.idempotent,
            open_world: self.open_world,
        }
    }
}

/// What a list of tools says.
pub open spec fn tool_views(tools: Seq<ToolSpec>) -> Seq<ToolView> {
    Seq::new(tools.len(), |i: int| tools[i]@)
}

/// All tools, in the order in which they are listed.
pub open spec fn all_tools() -> Seq<ToolView> {
    seq![
        ToolView {
            tool: Tool::GraphQuery,
            name: "graph_query"@,
            description: "Execute a Cypher query against the codebase graph (Apache AGE). Use to explore code relationships, dependencies, imports, and service topology."@,
            title: "Graph Query"@,
            input: InputKind::GraphQuery,
            read_only: true,
            destructive: false,
            idempotent: true,
            open_world: false,
        },
        ToolView {
            tool: Tool::GraphNeighbors,
            name: "graph_neighbors"@,
            description: "Find entities related to a given node in the codebase graph. Returns neighbors up to the specified depth."@,
            title: "Graph Neighbors"@,
            input: InputKind::GraphNeighbors,
            read_only: true,
            destructive: false,
            idempotent: true,
            open_world: false,
        },
        ToolView {
            tool: Tool::GraphPath,
            name: "graph_path"@,
            description: "Find the shortest path between two entities in the codebase graph. Useful for understanding dependency chains."@,
            title: "Graph Path"@,
            input: InputKind::GraphPath,
            read_only: true,
            destructive: false,
            idempotent: true,
            open_world: false,
        },
        ToolView {
            tool: Tool::VectorSearch,
            name: "vector_search"@,
            description: "Semantic search across all ingested content (code, docs, wiki pages, PDFs). Returns the most similar chunks with similarity scores."@,
            title: "Vector Search"@,
            input: InputKind::VectorSearch,
            read_only: true,
            destructive: false,
            idempotent: true,
            open_world: false,
        },
        ToolView {
            tool: Tool::VectorSearchCode,
            name: "vector_search_code"@,
            description: "Semantic search scoped to code files only. Use when looking for code examples or implementations."@,
            title: "Search Code"@,
            input: InputKind::VectorSearch,
            read_only: true,
            destructive: false,
            idempotent: true,
            open_world: false,
        },
        ToolView {
            tool: Tool::VectorSearchDocs,
            name: "vector_search_docs"@,
            description: "Semantic search scoped to documentation (Confluence, PDF, SharePoint). Use when looking for setup guides, architecture docs, or runbooks."@,
            title: "Search Docs"@,
            input: InputKind::VectorSearch,
            read_only: true,
            destructive: false,
            idempotent: true,
            open_world: false,
        },
        ToolView {
            tool: Tool::SqlQuery,
            name: "sql_query"@,
            description: "Execute a read-only SQL query (SELECT only) against the relational store. Tables: agent_runs, audit_log, sandbox_templates, ingestion_jobs."@,
            title: "SQL Query"@,
            input: InputKind::SqlQuery,
            read_only: true,
            destructive: false,
            idempotent: true,
            open_world: false,
        },
        ToolView {
            tool: Tool::AuditLog,
            name: "audit_log"@,
            description: "Append an entry to the audit trail. Used by deterministic gates and the orchestrator to maintain compliance records."@,
            title: "Audit Log"@,
            input: InputKind::AuditLog,
            read_only: false,
            destructive: false,
            idempotent: false,
            open_world: false,
        },
        ToolView {
            tool: Tool::GetOwners,
            name: "get_owners"@,
            description: "Get the team(s) that own a given file or service. Uses CODEOWNERS data and ownership edges in the graph."@,
            title: "Get Owners"@,
            input: InputKind::EntityLookup,
            read_only: true,
            destructive: false,
            idempotent: true,
            open_world: false,
        },
        ToolView {
            tool: Tool::GetDependencies,
            name: "get_dependencies"@,
            description: "Get all dependencies of a file, service, or package. Traverses DEPENDS_ON and IMPORTS edges up to 3 hops."@,
            title: "Get Dependencies"@,
            input: InputKind::EntityLookup,
            read_only: true,
            destructive: false,
            idempotent: true,
            open_world: false,
        },
        ToolView {
            tool: Tool::GetTestCoverage,
            name: "get_test_coverage"@,
            description: "Get tests that cover a given file or function. Uses TESTED_BY edges in the graph."@,
            title: "Test Coverage"@,
            input: InputKind::EntityLookup,
            read_only: true,
            destructive: false,
            idempotent: true,
            open_world: false,
        },
    ]
}

/// The name of a tool.
pub open spec fn tool_name(tool: Tool) -> Seq<char> {
    match tool {
        Tool::GraphQuery => "graph_query"@,
        Tool::GraphNeighbors => "graph_neighbors"@,
        Tool::GraphPath => "graph_path"@,
        Tool::VectorSearch => "vector_search"@,
        Tool::VectorSearchCode => "vector_search_code"@,
        Tool::VectorSearchDocs => "vector_search_docs"@,
        Tool::SqlQuery => "sql_query"@,
        Tool::AuditLog => "audit_log"@,
        Tool::GetOwners => "get_owners"@,
        Tool::GetDependencies => "get_dependencies"@,
        Tool::GetTestCoverage => "get_test_coverage"@,
    }
}

/// The tool of a name, if there is one.
pub open spec fn tool_named(name: Seq<char>) -> Option<Tool> {
    if name == "graph_query"@ {
        Some(Tool::GraphQuery)
    } else if name == "graph_neighbors"@ {
        Some(Tool::GraphNeighbors)
    } else if name == "graph_path"@ {
        Some(Tool::GraphPath)
    } else if name == "vector_search"@ {
        Some(Tool::VectorSearch)
    } else if name == "vector_search_code"@ {
        Some(Tool::VectorSearchCode)
    } else if name == "vector_search_docs"@ {
        Some(Tool::VectorSearchDocs)
    } else if name == "sql_query"@ {
        Some(Tool::SqlQuery)
    } else if name == "audit_log"@ {
        Some(Tool::AuditLog)
    } else if name == "get_owners"@ {
        Some(Tool::GetOwners)
    } else if name == "get_dependencies"@ {
        Some(Tool::GetDependencies)
    } else if name == "get_test_coverage"@ {
        Some(Tool::GetTestCoverage)
    } else {
        None
    }
}

/// The tool of a name, if there is one.
pub fn find_tool(name: &str) -> (r: Option<Tool>)
    ensures
        r == tool_named(name@),
{
    if same(name, "graph_query") {
        Some(Tool::GraphQuery)
    } else if same(name, "graph_neighbors") {
        Some(Tool::GraphNeighbors)
    } else if same(name, "graph_path") {
        Some(Tool::GraphPath)
    } else if same(name, "vector_search") {
        Some(Tool::VectorSearch)
    } else if same(name, "vector_search_code") {
        Some(Tool::VectorSearchCode)
    } else if same(name, "vector_search_docs") {
        Some(Tool::VectorSearchDocs)
    } else if same(name, "sql_query") {
        Some(Tool::SqlQuery)
    } else if same(name, "audit_log") {
        Some(Tool::AuditLog)
    } else if same(name, "get_owners") {
        Some(Tool::GetOwners)
    } else if same(name, "get_dependencies") {
        Some(Tool::GetDependencies)
    } else if same(name, "get_test_coverage") {
        Some(Tool::GetTestCoverage)
    } else {
        None
    }
}

/// What is said of a tool that there is not.
pub fn unknown_tool(name: &str) -> (r: String)
    ensures
        r@ == "Unknown tool: "@ + name@,
{
    let mut text = "Unknown tool: ".to_owned();
    text.append(name);
    text
}

/// A tool is called by its name, and by no other.
pub proof fn law_tool_names(tool: Tool, name: Seq<char>)
    ensures
        tool_named(name) == Some(tool) <==> name == tool_name(tool),
{
    reveal_strlit("graph_query");
    reveal_strlit("graph_neighbors");
    reveal_strlit("graph_path");
    reveal_strlit("vector_search");
    reveal_strlit("vector_search_code");
    reveal_strlit("vector_search_docs");
    reveal_strlit("sql_query");
    reveal_strlit("audit_log");
    reveal_strlit("get_owners");
    reveal_strlit("get_dependencies");
    reveal_strlit("get_test_coverage");
    assert("graph_query"@.len() == 11);
    assert("graph_neighbors"@.len() == 15);
    assert("graph_path"@.len() == 10);
    assert("vector_search"@.len() == 13);
    assert("vector_search_code"@.len() == 18);
    assert("vector_search_docs"@.len() == 18);
    assert("sql_query"@.len() == 9);
    assert("audit_log"@.len() == 9);
    assert("get_owners"@.len() == 10);
    assert("get_dependencies"@.len() == 16);
    assert("get_test_coverage"@.len() == 17);
    assert("graph_path"@[1] == 'r' && "get_owners"@[1] == 'e');
    assert("vector_search_code"@[14] == 'c' && "vector_search_docs"@[14] == 'd');
    assert("sql_query"@[0] == 's' && "audit_log"@[0] == 'a');
}

/// Each listed tool has its own name, under which it is called.
pub proof fn law_listed_tools(i: int)
    requires
        0 <= i < all_tools().len(),
    ensures
        all_tools()[i].name == tool_name(all_tools()[i].tool),
        tool_named(all_tools()[i].name) == Some(all_tools()[i].tool),
{
    law_tool_names(all_tools()[i].tool, all_tools()[i].name);
}

/// A tool that can be called is listed.
pub proof fn law_called_tools_are_listed(name: Seq<char>)
    requires
        tool_named(name) is Some,
    ensures
        exists|i: int| 0 <= i < all_tools().len() && (#[trigger] all_tools()[i]).name == name,
{
    let tool = tool_named(name)->0;
    law_tool_names(tool, name);
    let i: int = match tool {
        Tool::GraphQuery => 0,
        Tool::GraphNeighbors => 1,
        Tool::GraphPath => 2,
        Tool::VectorSearch => 3,
        Tool::VectorSearchCode => 4,
        Tool::VectorSearchDocs => 5,
        Tool::SqlQuery => 6,
        Tool::AuditLog => 7,
        Tool::GetOwners => 8,
        Tool::GetDependencies => 9,
        Tool::GetTestCoverage => 10,
    };
    assert(all_tools()[i].tool == tool);
    assert(all_tools()[i].name == name);
}

/// The tools that can be called are those that are listed, so a call is refused as one of an
/// unknown tool just if no listed tool has its name.
pub proof fn law_known_tools(name: Seq<char>)
    ensures
        tool_named(name) is Some <==> exists|i: int|
            0 <= i < all_tools().len() && (#[trigger] all_tools()[i]).name == name,
{
    if tool_named(name) is Some {
        law_called_tools_are_listed(name);
    }
    if exists|i: int| 0 <= i < all_tools().len() && (#[trigger] all_tools()[i]).name == name {
        let i = choose|i: int|
            0 <= i < all_tools().len() && (#[trigger] all_tools()[i]).name == name;
        law_listed_tools(i);
    }
}

/// Only the audit log is written to: every other tool is listed as one that reads.
pub proof fn law_read_only_tools(i: int)
    requires
        0 <= i < all_tools().len(),
    ensures
        all_tools()[i].read_only <==> all_tools()[i].tool != Tool::AuditLog,
        !all_tools()[i].destructive,
{
}

// ---------------------------------------------------------------------------
// Arguments
// ---------------------------------------------------------------------------

/// A Cypher query to execute against the codebase graph.
#[derive(Debug, Clone)]
pub struct GraphQueryInput {
    /// Example: "MATCH (f:File {language: 'java'}) RETURN f LIMIT 10"
    pub cypher: String,
}

/// An entity whose neighbors are looked for.
#[derive(Debug, Clone)]
pub struct GraphNeighborsInput {
    /// Label of the entity (File, Function, Class, Service, Team, Package)
    pub label: String,
    /// Property match clause. Example: "path: '/src/main/App.java'"
    pub match_clause: String,
    /// How many hops to traverse (1-5)
    pub depth: u32,
}

/// Two entities between which a path is looked for.
#[derive(Debug, Clone)]
pub struct GraphPathInput {
    /// Label of the starting entity
    pub from_label: String,
    /// Property match for the starting entity
    pub from_match: String,
    /// Label of the target entity
    pub to_label: String,
    /// Property match for the target entity
    pub to_match: String,
}

/// A semantic search.
#[derive(Debug, Clone)]
pub struct VectorSearchInput {
    /// Natural language query for semantic search
    pub query: String,
    /// Maximum number of results to return
    pub limit: i64,
    /// Minimum similarity threshold (0.0 to 1.0)
    pub similarity_threshold: Score,
}

/// A read-only SQL query.
#[derive(Debug, Clone)]
pub struct SqlQueryInput {
    /// Read-only SQL query (SELECT only). Example: "SELECT * FROM agent_runs LIMIT 10"
    pub sql: String,
}

/// An entry for the audit log.
#[derive(Debug, Clone)]
pub struct AuditLogInput {
    /// UUID of the current agent run (optional)
    pub run_id: Option<String>,
    /// Type of action being logged
    pub action_type: String,
    /// Details of the action (JSON object)
    pub action_detail: Json,
    /// Name of the tool being called (optional)
    pub tool_name: Option<String>,
    /// SHA-256 hash of the input (optional, for compliance)
    pub input_hash: Option<String>,
    /// Brief summary of the output (optional)
    pub output_summary: Option<String>,
    /// Number of tokens used (optional)
    pub token_count: Option<i32>,
    /// Name of the deterministic gate (optional)
    pub gate_name: Option<String>,
    /// One of "pass", "fail", "skip" (optional)
    pub gate_result: Option<String>,
    /// Risk level: "low", "medium", "high", "critical"
    pub risk_level: String,
}

/// An entity that is looked up.
#[derive(Debug, Clone)]
pub struct EntityLookupInput {
    /// Label of the entity (File, Function, Class, Service)
    pub label: String,
    /// Property match clause. Example: "path: '/src/main/App.java'"
    pub match_clause: String,
}

/// The depth of a search for neighbors where none is given.
pub fn default_depth() -> (r: u32)
    ensures
        r == 2,
{
    2
}

/// The limit of a semantic search where none is given.
pub fn default_limit() -> (r: i64)
    ensures
        r == 10,
{
    10
}

/// The threshold of a semantic search where none is given: one half.
pub fn default_threshold() -> (r: Score)
    ensures
        r == (Score { bits: HALF_BITS }),
{
    Score { bits: HALF_BITS }
}

/// The risk of an action where none is given.
pub fn default_risk() -> (r: String)
    ensures
        r@ == "low"@,
{
    "low".to_owned()
}

// ---------------------------------------------------------------------------
// Calls
// ---------------------------------------------------------------------------

/// What stands before the reason for which a tool failed.
pub open spec fn failure_prefix(tool: Tool) -> Seq<char> {
    match tool {
        Tool::GraphQuery => "Graph query failed: "@,
        Tool::GraphNeighbors => "Graph neighbors query failed: "@,
        Tool::GraphPath => "Graph path query failed: "@,
        Tool::VectorSearch => "Vector search failed: "@,
        Tool::VectorSearchCode => "Vector search failed: "@,
        Tool::VectorSearchDocs => "Vector search failed: "@,
        Tool::SqlQuery => "SQL query failed: "@,
        Tool::AuditLog => "Failed to append audit log: "@,
        Tool::GetOwners => "Get owners failed: "@,
        Tool::GetDependencies => "Get dependencies failed: "@,
        Tool::GetTestCoverage => "Get test coverage failed: "@,
    }
}

/// What is said where a tool failed.
pub fn tool_failure(tool: Tool, reason: &str) -> (r: String)
    ensures
        r@ == failure_prefix(tool) + reason@,
{
    let prefix = match tool {
        Tool::GraphQuery => "Graph query failed: ",
        Tool::GraphNeighbors => "Graph neighbors query failed: ",
        Tool::GraphPath => "Graph path query failed: ",
        Tool::VectorSearch => "Vector search failed: ",
        Tool::VectorSearchCode => "Vector search failed: ",
        Tool::VectorSearchDocs => "Vector search failed: ",
        Tool::SqlQuery => "SQL query failed: ",
        Tool::AuditLog => "Failed to append audit log: ",
        Tool::GetOwners => "Get owners failed: ",
        Tool::GetDependencies => "Get dependencies failed: ",
        Tool::GetTestCoverage => "Get test coverage failed: ",
    };
    let mut text = prefix.to_owned();
    text.append(reason);
    text
}

/// The source that a search is scoped to, if it is.
pub open spec fn search_scope(tool: Tool) -> Option<Seq<char>> {
    match tool {
        Tool::VectorSearchCode => Some("code"@),
        Tool::VectorSearchDocs => Some("doc"@),
        _ => None,
    }
}

/// The answer to a call.
#[derive(Debug, Clone)]
pub struct Reply {
    pub is_error: bool,
    pub text: String,
}

/// The answer to a call that gave a content, or failed.
pub fn reply(outcome: Result<String, String>) -> (r: Reply)
    ensures
        match outcome {
            Ok(content) => !r.is_error && r.text@ == content@,
            Err(error) => r.is_error && r.text@ == "Error: "@ + error@,
        },
{
    match outcome {
        Ok(content) => Reply { is_error: false, text: content },
        Err(error) => {
            let mut text = "Error: ".to_owned();
            text.append(error.as_str());
            Reply { is_error: true, text }
        },
    }
}

/// The arguments of a call, read as JSON, or what is said of them.
pub fn check_arguments<T>(parsed: Option<Result<T, String>>) -> (r: Result<T, String>)
    ensures
        match parsed {
            None => r matches Err(error) && error@ == MISSING_ARGUMENTS@,
            Some(Err(reason)) => r matches Err(error) && error@ == INVALID_ARGUMENTS@ + reason@,
            Some(Ok(value)) => r == Ok::<T, String>(value),
        },
{
    match parsed {
        None => Err(MISSING_ARGUMENTS.to_owned()),
        Some(Err(reason)) => {
            let mut text = INVALID_ARGUMENTS.to_owned();
            text.append(reason.as_str());
            Err(text)
        },
        Some(Ok(value)) => Ok(value),
    }
}

/// What a call is answered that goes no further: one of an unknown tool, whatever its
/// arguments, or one without arguments. Nothing is asked of the context store for it.
pub fn refusal(name: &str, has_arguments: bool) -> (r: Option<Reply>)
    ensures
        match r {
            Some(reply) => {
                &&& reply.is_error
                &&& match tool_named(name@) {
                    None => reply.text@ == "Error: Unknown tool: "@ + name@,
                    Some(_) => !has_arguments && reply.text@ == "Error: Missing arguments"@,
                }
            },
            None => tool_named(name@) is Some && has_arguments,
        },
{
    proof {
        reveal_strlit("Error: ");
        reveal_strlit("Unknown tool: ");
        reveal_strlit("Missing arguments");
        reveal_strlit("Error: Unknown tool: ");
        reveal_strlit("Error: Missing arguments");
        assert("Error: "@ + "Unknown tool: "@ =~= "Error: Unknown tool: "@);
        assert("Error: "@ + "Missing arguments"@ =~= "Error: Missing arguments"@);
        assert("Error: "@ + ("Unknown tool: "@ + name@) =~= ("Error: "@ + "Unknown tool: "@)
            + name@);
    }
    if find_tool(name).is_none() {
        return Some(reply(Err(unknown_tool(name))));
    }
    if !has_arguments {
        return Some(reply(Err(MISSING_ARGUMENTS.to_owned())));
    }
    None
}

/// The entry of the audit log, where the run has that identifier.
pub open spec fn entry_of(
    entry: CreateAuditLog,
    input: AuditLogInput,
    run_id: Option<u128>,
) -> bool {
    &&& entry.run_id == run_id
    &&& entry.action_type@ == input.action_type@
    &&& entry.action_detail@ == input.action_detail@
    &&& opt_view(entry.tool_name) == opt_view(input.tool_name)
    &&& opt_view(entry.input_hash) == opt_view(input.input_hash)
    &&& opt_view(entry.output_summary) == opt_view(input.output_summary)
    &&& entry.token_count == input.token_count
    &&& opt_view(entry.gate_name) == opt_view(input.gate_name)
    &&& opt_view(entry.gate_result) == opt_view(input.gate_result)
    &&& opt_view(entry.risk_level) == Some(input.risk_level@)
}

/// The entry of the audit log, where the run has that identifier.
pub fn audit_entry(input: AuditLogInput, run_id: Option<u128>) -> (r: CreateAuditLog)
    ensures
        entry_of(r, input, run_id),
{
    CreateAuditLog {
        run_id,
        action_type: input.action_type,
        action_detail: input.action_detail,
        tool_name: input.tool_name,
        input_hash: input.input_hash,
        output_summary: input.output_summary,
        token_count: input.token_count,
        gate_name: input.gate_name,
        gate_result: input.gate_result,
        risk_level: Some(input.risk_level),
    }
}

/// The identifier of the run that an entry names, if it names one.
pub open spec fn named_run(run_id: Option<Seq<char>>) -> Option<u128> {
    match run_id {
        Some(text) => uuid_parse(text),
        None => None,
    }
}

/// The statement that appends an entry to the audit log, where the run has that
/// identifier.
pub open spec fn audit_params(input: AuditLogInput, run_id: Option<u128>) -> Seq<SqlView> {
    seq![
        SqlView::Uuid(run_id),
        text_param(input.action_type@),
        SqlView::Document(Some(input.action_detail@)),
        SqlView::Text(opt_view(input.tool_name)),
        SqlView::Text(opt_view(input.input_hash)),
        SqlView::Text(opt_view(input.output_summary)),
        SqlView::Int(input.token_count),
        SqlView::Text(opt_view(input.gate_name)),
        SqlView::Text(opt_view(input.gate_result)),
        text_param(input.risk_level@),
    ]
}

/// What is answered where an entry was appended.
pub fn audit_reply(id: i64) -> (r: String)
    ensures
        r@ == "Audit log entry created with id: "@ + signed_decimal(id as int),
{
    let mut text = "Audit log entry created with id: ".to_owned();
    text.append(signed_decimal_text(id).as_str());
    text
}

/// A call of a tool with its arguments.
#[derive(Debug, Clone)]
pub enum ToolCall {
    GraphQuery(GraphQueryInput),
    GraphNeighbors(GraphNeighborsInput),
    GraphPath(GraphPathInput),
    VectorSearch(VectorSearchInput),
    VectorSearchCode(VectorSearchInput),
    VectorSearchDocs(VectorSearchInput),
    SqlQuery(SqlQueryInput),
    AuditLog(AuditLogInput),
    GetOwners(EntityLookupInput),
    GetDependencies(EntityLookupInput),
    GetTestCoverage(EntityLookupInput),
}

/// What a call asks of the context store.
#[derive(Debug, Clone)]
pub enum Action {
    /// A query to the graph.
    AskGraph(GraphQuery),
    /// A search, once the query has its embedding.
    Search(VectorSearchInput, Option<&'static str>),
    /// A query to the relational tables.
    AskSql(Statement),
    /// A new entry of the audit log.
    Append(Statement),
}

impl ToolCall {
    /// The tool that is called.
    pub open spec fn calls(self) -> Tool {
        match self {
            ToolCall::GraphQuery(_) => Tool::GraphQuery,
            ToolCall::GraphNeighbors(_) => Tool::GraphNeighbors,
            ToolCall::GraphPath(_) => Tool::GraphPath,
            ToolCall::VectorSearch(_) => Tool::VectorSearch,
            ToolCall::VectorSearchCode(_) => Tool::VectorSearchCode,
            ToolCall::VectorSearchDocs(_) => Tool::VectorSearchDocs,
            ToolCall::SqlQuery(_) => Tool::SqlQuery,
            ToolCall::AuditLog(_) => Tool::AuditLog,
            ToolCall::GetOwners(_) => Tool::GetOwners,
            ToolCall::GetDependencies(_) => Tool::GetDependencies,
            ToolCall::GetTestCoverage(_) => Tool::GetTestCoverage,
        }
    }

    /// The tool that is called.
    pub fn tool(&self) -> (r: Tool)
        ensures
            r == self.calls(),
    {
        match self {
            ToolCall::GraphQuery(_) => Tool::GraphQuery,
            ToolCall::GraphNeighbors(_) => Tool::GraphNeighbors,
            ToolCall::GraphPath(_) => Tool::GraphPath,
            ToolCall::VectorSearch(_) => Tool::VectorSearch,
            ToolCall::VectorSearchCode(_) => Tool::VectorSearchCode,
            ToolCall::VectorSearchDocs(_) => Tool::VectorSearchDocs,
            ToolCall::SqlQuery(_) => Tool::SqlQuery,
            ToolCall::AuditLog(_) => Tool::AuditLog,
            ToolCall::GetOwners(_) => Tool::GetOwners,
            ToolCall::GetDependencies(_) => Tool::GetDependencies,
            ToolCall::GetTestCoverage(_) => Tool::GetTestCoverage,
        }
    }
}

/// The number of hops that are traversed.
pub open spec fn capped(depth: u32) -> nat {
    if depth <= MAX_DEPTH {
        depth as nat
    } else {
        MAX_DEPTH as nat
    }
}

/// The Cypher that a call asks of the graph, if it does.
pub open spec fn call_cypher(call: ToolCall) -> Option<Seq<char>> {
    match call {
        ToolCall::GraphQuery(input) => Some(input.cypher@),
        ToolCall::GraphNeighbors(input) => Some(
            find_neighbors_cypher(input.label@, input.match_clause@, capped(input.depth)),
        ),
        ToolCall::GraphPath(input) => Some(
            find_path_cypher(
                input.from_label@,
                input.from_match@,
                input.to_label@,
                input.to_match@,
            ),
        ),
        ToolCall::GetOwners(input) => Some(get_owners_cypher(input.label@, input.match_clause@)),
        ToolCall::GetDependencies(input) => Some(
            get_dependencies_cypher(input.label@, input.match_clause@),
        ),
        ToolCall::GetTestCoverage(input) => Some(
            get_test_coverage_cypher(input.label@, input.match_clause@),
        ),
        _ => None,
    }
}

/// MCP server that exposes context tools for the agent.
#[derive(Debug, Clone)]
pub struct ContextMcpServer {
    store: ContextStore,
}

impl ContextMcpServer {
    /// The name of the graph that is asked.
    pub closed spec fn graph_name(self) -> Seq<char> {
        self.store.graph_name()
    }

    pub fn new(store: ContextStore) -> (r: ContextMcpServer)
        ensures
            r.graph_name() == store.graph_name(),
    {
        ContextMcpServer { store }
    }

    /// What the server tells of itself.
    pub fn server_info(version: &str) -> (r: ServerInfo)
        ensures
            r.protocol_version@ == "2025-03-26"@,
            !r.tools_list_changed,
            r.name@ == "goose-context"@,
            r.description@ == DESCRIPTION@,
            r.title@ == "Context Store"@,
            r.version@ == version@,
            r.instructions@ == INSTRUCTIONS@,
    {
        ServerInfo {
            protocol_version: "2025-03-26",
            tools_list_changed: false,
            name: "goose-context",
            description: DESCRIPTION,
            title: "Context Store",
            version: version.to_owned(),
            instructions: INSTRUCTIONS,
        }
    }

    /// All tools, in order.
    pub fn list_tools() -> (r: Vec<ToolSpec>)
        ensures
            tool_views(r@) == all_tools(),
    {
        let tools: Vec<ToolSpec> = vec![
            ToolSpec {
                tool: Tool::GraphQuery,
                name: "graph_query",
                description: "Execute a Cypher query against the codebase graph (Apache AGE). Use to explore code relationships, dependencies, imports, and service topology.",
                title: "Graph Query",
                input: InputKind::GraphQuery,
                read_only: true,
                destructive: false,
                idempotent: true,
                open_world: false,
            },
            ToolSpec {
                tool: Tool::GraphNeighbors,
                name: "graph_neighbors",
                description: "Find entities related to a given node in the codebase graph. Returns neighbors up to the specified depth.",
                title: "Graph Neighbors",
                input: InputKind::GraphNeighbors,
                read_only: true,
                destructive: false,
                idempotent: true,
                open_world: false,
            },
            ToolSpec {
                tool: Tool::GraphPath,
                name: "graph_path",
                description: "Find the shortest path between two entities in the codebase graph. Useful for understanding dependency chains.",
                title: "Graph Path",
                input: InputKind::GraphPath,
                read_only: true,
                destructive: false,
                idempotent: true,
                open_world: false,
            },
            ToolSpec {
                tool: Tool::VectorSearch,
                name: "vector_search",
                description: "Semantic search across all ingested content (code, docs, wiki pages, PDFs). Returns the most similar chunks with similarity scores.",
                title: "Vector Search",
                input: InputKind::VectorSearch,
                read_only: true,
                destructive: false,
                idempotent: true,
                open_world: false,
            },
            ToolSpec {
                tool: Tool::VectorSearchCode,
                name: "vector_search_code",
                description: "Semantic search scoped to code files only. Use when looking for code examples or implementations.",
                title: "Search Code",
                input: InputKind::VectorSearch,
                read_only: true,
                destructive: false,
                idempotent: true,
                open_world: false,
            },
            ToolSpec {
                tool: Tool::VectorSearchDocs,
                name: "vector_search_docs",
                description: "Semantic search scoped to documentation (Confluence, PDF, SharePoint). Use when looking for setup guides, architecture docs, or runbooks.",
                title: "Search Docs",
                input: InputKind::VectorSearch,
                read_only: true,
                destructive: false,
                idempotent: true,
                open_world: false,
            },
            ToolSpec {
                tool: Tool::SqlQuery,
                name: "sql_query",
                description: "Execute a read-only SQL query (SELECT only) against the relational store. Tables: agent_runs, audit_log, sandbox_templates, ingestion_jobs.",
                title: "SQL Query",
                input: InputKind::SqlQuery,
                read_only: true,
                destructive: false,
                idempotent: true,
                open_world: false,
            },
            ToolSpec {
                tool: Tool::AuditLog,
                name: "audit_log",
                description: "Append an entry to the audit trail. Used by deterministic gates and the orchestrator to maintain compliance records.",
                title: "Audit Log",
                input: InputKind::AuditLog,
                read_only: false,
                destructive: false,
                idempotent: false,
                open_world: false,
            },
            ToolSpec {
                tool: Tool::GetOwners,
                name: "get_owners",
                description: "Get the team(s) that own a given file or service. Uses CODEOWNERS data and ownership edges in the graph.",
                title: "Get Owners",
                input: InputKind::EntityLookup,
                read_only: true,
                destructive: false,
                idempotent: true,
                open_world: false,
            },
            ToolSpec {
                tool: Tool::GetDependencies,
                name: "get_dependencies",
                description: "Get all dependencies of a file, service, or package. Traverses DEPENDS_ON and IMPORTS edges up to 3 hops.",
                title: "Get Dependencies",
                input: InputKind::EntityLookup,
                read_only: true,
                destructive: false,
                idempotent: true,
                open_world: false,
            },
            ToolSpec {
                tool: Tool::GetTestCoverage,
                name: "get_test_coverage",
                description: "Get tests that cover a given file or function. Uses TESTED_BY edges in the graph.",
                title: "Test Coverage",
                input: InputKind::EntityLookup,
                read_only: true,
                destructive: false,
                idempotent: true,
                open_world: false,
            },
        ];
        assert(tool_views(tools@) =~= all_tools());
        tools
    }

    fn handle_graph_query(&self, input: &GraphQueryInput) -> (r: GraphQuery)
        ensures
            r.runs(self.graph_name(), input.cypher@),
    {
        self.store.graph().cypher_query(input.cypher.as_str())
    }

    fn handle_graph_neighbors(&self, input: &GraphNeighborsInput) -> (r: GraphQuery)
        ensures
            r.runs(
                self.graph_name(),
                find_neighbors_cypher(input.label@, input.match_clause@, capped(input.depth)),
            ),
    {
        let depth: u32 = if input.depth <= MAX_DEPTH {
            input.depth
        } else {
            MAX_DEPTH
        };
        self.store.graph().find_neighbors(
            input.label.as_str(),
            input.match_clause.as_str(),
            depth,
        )
    }

    fn handle_graph_path(&self, input: &GraphPathInput) -> (r: GraphQuery)
        ensures
            r.runs(
                self.graph_name(),
                find_path_cypher(
                    input.from_label@,
                    input.from_match@,
                    input.to_label@,
                    input.to_match@,
                ),
            ),
    {
        self.store.graph().find_path(
            input.from_label.as_str(),
            input.from_match.as_str(),
            input.to_label.as_str(),
            input.to_match.as_str(),
        )
    }

    /// The search, once the query has its embedding.
    pub fn handle_vector_search(
        &self,
        input: &VectorSearchInput,
        source_type_filter: Option<&str>,
        query_embedding: Vec<u32>,
    ) -> (r: Statement)
        ensures
            r@ == search_statement(
                query_embedding@,
                opt_str_view(source_type_filter),
                input.limit,
                input.similarity_threshold,
            ),
    {
        let params = VectorSearchParams {
            query_embedding,
            source_type: own_text(source_type_filter),
            limit: input.limit,
            similarity_threshold: input.similarity_threshold,
        };
        self.store.vector().search(&params)
    }

    fn handle_sql_query(&self, input: &SqlQueryInput) -> (r: Result<Statement, String>)
        ensures
            match r {
                Ok(query) => query@ == (StatementView { sql: input.sql@, params: Seq::empty() }),
                Err(message) => message@ == failure_prefix(Tool::SqlQuery) + NOT_A_SELECT@,
            },
            r is Ok <==> begins_select(unicode_uppercase(trimmed(input.sql@))),
    {
        match self.store.relational().read_only_query(input.sql.as_str()) {
            Ok(query) => Ok(query),
            Err(message) => Err(tool_failure(Tool::SqlQuery, message)),
        }
    }

    fn handle_audit_log(&self, input: AuditLogInput) -> (r: Statement)
        ensures
            r@ == statement(
                APPEND_AUDIT_SQL,
                audit_params(input, named_run(opt_view(input.run_id))),
            ),
    {
        let run_id = match &input.run_id {
            Some(text) => parse_uuid(text.as_str()),
            None => None,
        };
        let entry = audit_entry(input, run_id);
        self.store.relational().append_audit_log(entry)
    }

    fn handle_get_owners(&self, input: &EntityLookupInput) -> (r: GraphQuery)
        ensures
            r.runs(self.graph_name(), get_owners_cypher(input.label@, input.match_clause@)),
    {
        self.store.graph().get_owners(input.label.as_str(), input.match_clause.as_str())
    }

    fn handle_get_dependencies(&self, input: &EntityLookupInput) -> (r: GraphQuery)
        ensures
            r.runs(self.graph_name(), get_dependencies_cypher(input.label@, input.match_clause@)),
    {
        self.store.graph().get_dependencies(input.label.as_str(), input.match_clause.as_str())
    }

    fn handle_get_test_coverage(&self, input: &EntityLookupInput) -> (r: GraphQuery)
        ensures
            r.runs(self.graph_name(), get_test_coverage_cypher(input.label@, input.match_clause@)),
    {
        self.store.graph().get_test_coverage(input.label.as_str(), input.match_clause.as_str())
    }

    /// Dispatch a tool call: what it asks of the context store, or what is said where it
    /// asks what is not allowed.
    pub fn call_tool(&self, call: ToolCall) -> (r: Result<Action, String>)
        ensures
            match r {
                Ok(Action::AskGraph(query)) => {
                    &&& call_cypher(call) is Some
                    &&& query.runs(self.graph_name(), call_cypher(call)->0)
                },
                Ok(Action::Search(input, scope)) => {
                    &&& call == ToolCall::VectorSearch(input) || call
                        == ToolCall::VectorSearchCode(input) || call == ToolCall::VectorSearchDocs(
                        input,
                    )
                    &&& opt_str_view(scope) == search_scope(call.calls())
                },
                Ok(Action::AskSql(query)) => {
                    &&& call matches ToolCall::SqlQuery(input)
                    &&& query@ == (StatementView { sql: input.sql@, params: Seq::empty() })
                },
                Ok(Action::Append(query)) => {
                    &&& call matches ToolCall::AuditLog(input)
                    &&& query@ == statement(
                        APPEND_AUDIT_SQL,
                        audit_params(input, named_run(opt_view(input.run_id))),
                    )
                },
                Err(message) => {
                    &&& call is SqlQuery
                    &&& message@ == failure_prefix(Tool::SqlQuery) + NOT_A_SELECT@
                },
            },
            call matches ToolCall::SqlQuery(input) ==> (r is Ok <==> begins_select(
                unicode_uppercase(trimmed(input.sql@)),
            )),
    {
        match call {
            ToolCall::GraphQuery(input) => Ok(Action::AskGraph(self.handle_graph_query(&input))),
            ToolCall::GraphNeighbors(input) => Ok(
                Action::AskGraph(self.handle_graph_neighbors(&input)),
            ),
            ToolCall::GraphPath(input) => Ok(Action::AskGraph(self.handle_graph_path(&input))),
            ToolCall::VectorSearch(input) => Ok(Action::Search(input, None)),
            ToolCall::VectorSearchCode(input) => Ok(Action::Search(input, Some("code"))),
            ToolCall::VectorSearchDocs(input) => Ok(Action::Search(input, Some("doc"))),
            ToolCall::SqlQuery(input) => match self.handle_sql_query(&input) {
                Ok(query) => Ok(Action::AskSql(query)),
                Err(message) => Err(message),
            },
            ToolCall::AuditLog(input) => Ok(Action::Append(self.handle_audit_log(input))),
            ToolCall::GetOwners(input) => Ok(Action::AskGraph(self.handle_get_owners(&input))),
            ToolCall::GetDependencies(input) => Ok(
                Action::AskGraph(self.handle_get_dependencies(&input)),
            ),
            ToolCall::GetTestCoverage(input) => Ok(
                Action::AskGraph(self.handle_get_test_coverage(&input)),
            ),
        }
    }
}

// ---------------------------------------------------------------------------
// Laws
// ---------------------------------------------------------------------------

/// A search for neighbors goes as many hops as asked for, but five at most.
pub proof fn law_depth_is_capped(depth: u32)
    ensures
        depth <= 5 ==> capped(depth) == depth,
        depth > 5 ==> capped(depth) == 5,
{
}

/// Each call of a graph tool asks for the entities that it names: a query goes through as it
/// was given, and each of the other tools asks its own question of them. No other call asks the
/// graph.
pub proof fn law_graph_calls(call: ToolCall)
    ensures
        match call {
            ToolCall::GraphQuery(input) => call_cypher(call) == Some(input.cypher@),
            ToolCall::GraphNeighbors(input) => call_cypher(call) == Some(
                find_neighbors_cypher(
                    input.label@,
                    input.match_clause@,
                    if input.depth <= 5 {
                        input.depth as nat
                    } else {
                        5
                    },
                ),
            ),
            ToolCall::GraphPath(input) => call_cypher(call) == Some(
                find_path_cypher(
                    input.from_label@,
                    input.from_match@,
                    input.to_label@,
                    input.to_match@,
                ),
            ),
            ToolCall::GetOwners(input) => call_cypher(call) == Some(
                get_owners_cypher(input.label@, input.match_clause@),
            ),
            ToolCall::GetDependencies(input) => call_cypher(call) == Some(
                get_dependencies_cypher(input.label@, input.match_clause@),
            ),
            ToolCall::GetTestCoverage(input) => call_cypher(call) == Some(
                get_test_coverage_cypher(input.label@, input.match_clause@),
            ),
            _ => call_cypher(call) is None,
        },
{
}

/// Of the searches the one for code looks among code only, the one for documentation among
/// documentation only, and the other everywhere.
pub proof fn law_search_scopes(input: VectorSearchInput)
    ensures
        search_scope(ToolCall::VectorSearch(input).calls()) is None,
        search_scope(ToolCall::VectorSearchCode(input).calls()) == Some("code"@),
        search_scope(ToolCall::VectorSearchDocs(input).calls()) == Some("doc"@),
{
}

/// An entry that is logged by a tool call is read back as it was given: for the run that it
/// names, if that is an identifier, and with every other field.
pub proof fn law_logged_entry_reads_back(input: AuditLogInput, entry: AuditLogEntry, row: Row)
    requires
        row.holds(append_audit_columns(), audit_params(input, named_run(opt_view(input.run_id)))),
        audit_log_of(entry, row),
    ensures
        match input.run_id {
            Some(text) => entry.run_id == uuid_parse(text@),
            None => entry.run_id is None,
        },
        entry.action_type@ == input.action_type@,
        entry.action_detail@ == input.action_detail@,
        opt_view(entry.tool_name) == opt_view(input.tool_name),
        opt_view(entry.input_hash) == opt_view(input.input_hash),
        opt_view(entry.output_summary) == opt_view(input.output_summary),
        entry.token_count == input.token_count,
        opt_view(entry.gate_name) == opt_view(input.gate_name),
        opt_view(entry.gate_result) == opt_view(input.gate_result),
        entry.risk_level@ == input.risk_level@,
{
    let columns = append_audit_columns();
    let params = audit_params(input, named_run(opt_view(input.run_id)));
    assert(row.cell(columns[0]) == Some(params[0]));
    assert(row.cell(columns[1]) == Some(params[1]));
    assert(row.cell(columns[2]) == Some(params[2]));
    assert(row.cell(columns[3]) == Some(params[3]));
    assert(row.cell(columns[4]) == Some(params[4]));
    assert(row.cell(columns[5]) == Some(params[5]));
    assert(row.cell(columns[6]) == Some(params[6]));
    assert(row.cell(columns[7]) == Some(params[7]));
    assert(row.cell(columns[8]) == Some(params[8]));
    assert(row.cell(columns[9]) == Some(params[9]));
}

/// An entry that is made of the arguments of a call has each of them, and the run that was
/// found for it.
pub proof fn law_entry_of_call(entry: CreateAuditLog, input: AuditLogInput, run_id: Option<u128>)
    requires
        entry_of(entry, input, run_id),
    ensures
        entry.run_id == run_id,
        entry.action_type@ == input.action_type@,
        entry.action_detail@ == input.action_detail@,
        opt_view(entry.tool_name) == opt_view(input.tool_name),
        opt_view(entry.input_hash) == opt_view(input.input_hash),
        opt_view(entry.output_summary) == opt_view(input.output_summary),
        entry.token_count == input.token_count,
        opt_view(entry.gate_name) == opt_view(input.gate_name),
        opt_view(entry.gate_result) == opt_view(input.gate_result),
        opt_view(entry.risk_level) == Some(input.risk_level@),
{
}

/// Tools are seen as they are, in order.
pub proof fn law_tools_seen(tools: Seq<ToolSpec>)
    ensures
        tool_views(tools).len() == tools.len(),
        forall|i: int|
            0 <= i < tools.len() ==> {
                let seen = #[trigger] tool_views(tools)[i];
                &&& seen.tool == tools[i].tool
                &&& seen.name == tools[i].name@
                &&& seen.description == tools[i].description@
                &&& seen.title == tools[i].title@
                &&& seen.input == tools[i].input
                &&& seen.read_only == tools[i].read_only
                &&& seen.destructive == tools[i].destructive
                &&& seen.idempotent == tools[i].idempotent
                &&& seen.open_world == tools[i].open_world
            },
{
}

/// The arguments of a listed tool are those that its calls take.
pub proof fn law_tool_inputs(i: int)
    requires
        0 <= i < all_tools().len(),
    ensures
        all_tools()[i].input == (match all_tools()[i].tool {
            Tool::GraphQuery => InputKind::GraphQuery,
            Tool::GraphNeighbors => InputKind::GraphNeighbors,
            Tool::GraphPath => InputKind::GraphPath,
            Tool::VectorSearch | Tool::VectorSearchCode | Tool::VectorSearchDocs =>
                InputKind::VectorSearch,
            Tool::SqlQuery => InputKind::SqlQuery,
            Tool::AuditLog => InputKind::AuditLog,
            Tool::GetOwners | Tool::GetDependencies | Tool::GetTestCoverage =>
                InputKind::EntityLookup,
        }),
        all_tools()[i].idempotent <==> all_tools()[i].tool != Tool::AuditLog,
        !all_tools()[i].open_world,
{
}

/// What is said of a failure tells which tool failed, but for the searches, which fail alike.
pub proof fn law_failures(a: Tool, b: Tool)
    ensures
        failure_prefix(a) == failure_prefix(b) <==> {
            ||| a == b
            ||| {
                &&& a is VectorSearch || a is VectorSearchCode || a is VectorSearchDocs
                &&& b is VectorSearch || b is VectorSearchCode || b is VectorSearchDocs
            }
        },
{
    reveal_strlit("Graph query failed: ");
    reveal_strlit("Graph neighbors query failed: ");
    reveal_strlit("Graph path query failed: ");
    reveal_strlit("Vector search failed: ");
    reveal_strlit("SQL query failed: ");
    reveal_strlit("Failed to append audit log: ");
    reveal_strlit("Get owners failed: ");
    reveal_strlit("Get dependencies failed: ");
    reveal_strlit("Get test coverage failed: ");
    assert("Graph query failed: "@.len() == 20);
    assert("Graph neighbors query failed: "@.len() == 30);
    assert("Graph path query failed: "@.len() == 25);
    assert("Vector search failed: "@.len() == 22);
    assert("SQL query failed: "@.len() == 18);
    assert("Failed to append audit log: "@.len() == 28);
    assert("Get owners failed: "@.len() == 19);
    assert("Get dependencies failed: "@.len() == 25);
    assert("Get test coverage failed: "@.len() == 26);
    assert("Graph path query failed: "@[1] == 'r' && "Get dependencies failed: "@[1] == 'e');
}

} // verus!
