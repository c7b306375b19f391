//! Structured data in plain SQL: agent runs, audit trail, templates, ingestion jobs.

use vstd::prelude::*;

use crate::db::statement::{
    copy_json, copy_text, copy_texts, lists, opt_json_view, own_text, schema_view, sql_views,
    statement, text_param, text_value, ColumnKind, Moment, Row, SqlValue, SqlView, Statement,
    StatementView,
};
use crate::json::Json;
use crate::text::{has_part, opt_str_view, opt_view, same, stands_at, views};

verus! {

/// Creates an agent run that waits to be started.
pub const CREATE_RUN_SQL: &'static str =
    "INSERT INTO agent_runs (session_id, trigger_source, trigger_ref, created_by, metadata, status)
                 VALUES ($1, $2, $3, $4, $5, 'pending')
                 RETURNING *";

/// The agent run with an identifier.
pub const GET_RUN_SQL: &'static str =
    "SELECT * FROM agent_runs WHERE id = $1";

/// Moves an agent run to a status; what is not given stays as it is.
pub const UPDATE_RUN_SQL: &'static str =
    "UPDATE agent_runs SET status = $2, sandbox_id = COALESCE($3, sandbox_id),
                 pr_url = COALESCE($4, pr_url),
                 started_at = COALESCE($5, started_at),
                 completed_at = COALESCE($6, completed_at),
                 updated_at = now()
                 WHERE id = $1";

/// The latest agent runs of a status.
pub const LIST_RUNS_STATUS_SQL: &'static str =
    "SELECT * FROM agent_runs WHERE status = $1 ORDER BY created_at DESC LIMIT $2";

/// The latest agent runs.
pub const LIST_RUNS_SQL: &'static str =
    "SELECT * FROM agent_runs ORDER BY created_at DESC LIMIT $1";

/// Appends an entry to the audit log.
pub const APPEND_AUDIT_SQL: &'static str =
    "INSERT INTO audit_log (run_id, action_type, action_detail, tool_name,
                 input_hash, output_summary, token_count, gate_name, gate_result, risk_level)
                 VALUES ($1, $2, $3, $4, $5, $6, $7, $8, $9, $10)
                 RETURNING id";

/// The latest entries of a run and an action type.
pub const AUDIT_RUN_TYPE_SQL: &'static str =
    "SELECT * FROM audit_log WHERE run_id = $1 AND action_type = $2 ORDER BY timestamp DESC LIMIT $3";

/// The latest entries of a run.
pub const AUDIT_RUN_SQL: &'static str =
    "SELECT * FROM audit_log WHERE run_id = $1 ORDER BY timestamp DESC LIMIT $2";

/// The latest entries of an action type.
pub const AUDIT_TYPE_SQL: &'static str =
    "SELECT * FROM audit_log WHERE action_type = $1 ORDER BY timestamp DESC LIMIT $2";

/// The latest entries.
pub const AUDIT_SQL: &'static str =
    "SELECT * FROM audit_log ORDER BY timestamp DESC LIMIT $1";

/// Creates a sandbox template.
pub const CREATE_TEMPLATE_SQL: &'static str =
    "INSERT INTO sandbox_templates (name, repo_url, description, base_image, dockerfile,
                 setup_script, languages, build_tools, pre_warm_count, resource_limits,
                 gates_config, tools_config, network_policy, status, scan_results)
                 VALUES ($1, $2, $3, $4, $5, $6, $7, $8, $9, $10, $11, $12, $13, $14, $15)
                 RETURNING id";

/// The sandbox template with an identifier.
pub const GET_TEMPLATE_SQL: &'static str =
    "SELECT * FROM sandbox_templates WHERE id = $1";

/// The sandbox templates of a status, the latest first.
pub const LIST_TEMPLATES_STATUS_SQL: &'static str =
    "SELECT * FROM sandbox_templates WHERE status = $1 ORDER BY created_at DESC";

/// The sandbox templates, the latest first.
pub const LIST_TEMPLATES_SQL: &'static str =
    "SELECT * FROM sandbox_templates ORDER BY created_at DESC";

/// Approves a sandbox template.
pub const APPROVE_TEMPLATE_SQL: &'static str =
    "UPDATE sandbox_templates SET status = 'approved', updated_at = now() WHERE id = $1";

/// Creates an ingestion job that waits to be started.
pub const CREATE_JOB_SQL: &'static str =
    "INSERT INTO ingestion_jobs (source_type, source_uri, status)
                 VALUES ($1, $2, 'pending') RETURNING id";

/// Moves an ingestion job to a status; what is not given stays as it is.
pub const UPDATE_JOB_SQL: &'static str =
    "UPDATE ingestion_jobs SET status = $2,
                 chunks_created = COALESCE($3, chunks_created),
                 graph_nodes = COALESCE($4, graph_nodes),
                 graph_edges = COALESCE($5, graph_edges),
                 error_message = COALESCE($6, error_message),
                 started_at = COALESCE($7, started_at),
                 completed_at = COALESCE($8, completed_at)
                 WHERE id = $1";

/// The latest ingestion jobs of a status.
pub const LIST_JOBS_STATUS_SQL: &'static str =
    "SELECT * FROM ingestion_jobs WHERE status = $1 ORDER BY created_at DESC LIMIT $2";

/// The latest ingestion jobs.
pub const LIST_JOBS_SQL: &'static str =
    "SELECT * FROM ingestion_jobs ORDER BY created_at DESC LIMIT $1";

/// Relational store for structured data: agent runs, audit trail, templates, ingestion jobs.
///
/// Writes the statements that create, change and list them.
#[derive(Debug, Clone, Copy)]
pub struct RelationalStore {}

/// A run of an agent.
#[derive(Debug, Clone)]
pub struct AgentRun {
    pub id: u128,
    pub session_id: String,
    pub trigger_source: String,
    pub trigger_ref: Option<String>,
    pub sandbox_id: Option<String>,
    pub template_id: Option<u128>,
    pub status: String,
    pub pr_url: Option<String>,
    pub started_at: Option<Moment>,
    pub completed_at: Option<Moment>,
    pub created_by: String,
    pub approved_by: Option<String>,
    pub metadata: Json,
    pub created_at: Moment,
}

/// What an agent run is created with.
#[derive(Debug, Clone)]
pub struct CreateAgentRun {
    pub session_id: String,
    pub trigger_source: String,
    pub trigger_ref: Option<String>,
    pub created_by: String,
    pub metadata: Option<Json>,
}

/// An entry of the audit log.
#[derive(Debug, Clone)]
pub struct AuditLogEntry {
    pub id: i64,
    pub run_id: Option<u128>,
    pub timestamp: Moment,
    pub action_type: String,
    pub action_detail: Json,
    pub tool_name: Option<String>,
    pub input_hash: Option<String>,
    pub output_summary: Option<String>,
    pub token_count: Option<i32>,
    pub gate_name: Option<String>,
    pub gate_result: Option<String>,
    pub risk_level: String,
}

/// What an entry of the audit log is made of.
#[derive(Debug, Clone)]
pub struct CreateAuditLog {
    pub run_id: Option<u128>,
    pub action_type: String,
    pub action_detail: Json,
    pub tool_name: Option<String>,
    pub input_hash: Option<String>,
    pub output_summary: Option<String>,
    pub token_count: Option<i32>,
    pub gate_name: Option<String>,
    pub gate_result: Option<String>,
    pub risk_level: Option<String>,
}

/// A template that sandboxes are made from.
#[derive(Debug, Clone)]
pub struct SandboxTemplate {
    pub id: u128,
    pub name: String,
    pub repo_url: Option<String>,
    pub description: Option<String>,
    pub base_image: String,
    pub dockerfile: String,
    pub setup_script: Option<String>,
    pub languages: Vec<String>,
    pub build_tools: Vec<String>,
    pub pre_warm_count: i32,
    pub resource_limits: Json,
    pub gates_config: Json,
    pub tools_config: Json,
    pub network_policy: Json,
    pub status: String,
    pub scan_results: Option<Json>,
    pub created_at: Moment,
}

/// A job that reads a source into the context store.
#[derive(Debug, Clone)]
pub struct IngestionJob {
    pub id: u128,
    pub source_type: String,
    pub source_uri: String,
    pub status: String,
    pub chunks_created: i32,
    pub graph_nodes: i32,
    pub graph_edges: i32,
    pub error_message: Option<String>,
    pub started_at: Option<Moment>,
    pub completed_at: Option<Moment>,
}

/// The columns of an agent run.
pub open spec fn agent_run_schema() -> Seq<(Seq<char>, ColumnKind)> {
    seq![
        ("id"@, ColumnKind::Uuid),
        ("session_id"@, ColumnKind::Text),
        ("trigger_source"@, ColumnKind::Text),
        ("trigger_ref"@, ColumnKind::OptText),
        ("sandbox_id"@, ColumnKind::OptText),
        ("template_id"@, ColumnKind::OptUuid),
        ("status"@, ColumnKind::Text),
        ("pr_url"@, ColumnKind::OptText),
        ("started_at"@, ColumnKind::OptTime),
        ("completed_at"@, ColumnKind::OptTime),
        ("created_by"@, ColumnKind::Text),
        ("approved_by"@, ColumnKind::OptText),
        ("metadata"@, ColumnKind::Document),
        ("created_at"@, ColumnKind::Time),
    ]
}

/// The columns of an agent run.
pub fn agent_run_columns() -> (r: Vec<(&'static str, ColumnKind)>)
    ensures
        schema_view(r@) == agent_run_schema(),
{
    let columns: Vec<(&'static str, ColumnKind)> = vec![
        ("id", ColumnKind::Uuid),
        ("session_id", ColumnKind::Text),
        ("trigger_source", ColumnKind::Text),
        ("trigger_ref", ColumnKind::OptText),
        ("sandbox_id", ColumnKind::OptText),
        ("template_id", ColumnKind::OptUuid),
        ("status", ColumnKind::Text),
        ("pr_url", ColumnKind::OptText),
        ("started_at", ColumnKind::OptTime),
        ("completed_at", ColumnKind::OptTime),
        ("created_by", ColumnKind::Text),
        ("approved_by", ColumnKind::OptText),
        ("metadata", ColumnKind::Document),
        ("created_at", ColumnKind::Time),
    ];
    assert(schema_view(columns@) =~= agent_run_schema());
    columns
}

/// The value holds what the row does.
pub open spec fn agent_run_of(run: AgentRun, row: Row) -> bool {
    &&& row.cell("id"@) == Some(SqlView::Uuid(Some(run.id)))
    &&& row.cell("session_id"@) == Some(text_param(run.session_id@))
    &&& row.cell("trigger_source"@) == Some(text_param(run.trigger_source@))
    &&& row.cell("trigger_ref"@) == Some(SqlView::Text(opt_view(run.trigger_ref)))
    &&& row.cell("sandbox_id"@) == Some(SqlView::Text(opt_view(run.sandbox_id)))
    &&& row.cell("template_id"@) == Some(SqlView::Uuid(run.template_id))
    &&& row.cell("status"@) == Some(text_param(run.status@))
    &&& row.cell("pr_url"@) == Some(SqlView::Text(opt_view(run.pr_url)))
    &&& row.cell("started_at"@) == Some(SqlView::Time(run.started_at))
    &&& row.cell("completed_at"@) == Some(SqlView::Time(run.completed_at))
    &&& row.cell("created_by"@) == Some(text_param(run.created_by@))
    &&& row.cell("approved_by"@) == Some(SqlView::Text(opt_view(run.approved_by)))
    &&& row.cell("metadata"@) == Some(SqlView::Document(Some(run.metadata@)))
    &&& row.cell("created_at"@) == Some(SqlView::Time(Some(run.created_at)))
}

/// Reads an agent run from its row.
pub fn agent_run_from_row(row: &Row) -> (r: AgentRun)
    requires
        row.conforms(agent_run_schema()),
    ensures
        agent_run_of(r, *row),
{
    let ghost schema = agent_run_schema();
    assert(row.has(schema[0]));
    assert(row.has(schema[1]));
    assert(row.has(schema[2]));
    assert(row.has(schema[3]));
    assert(row.has(schema[4]));
    assert(row.has(schema[5]));
    assert(row.has(schema[6]));
    assert(row.has(schema[7]));
    assert(row.has(schema[8]));
    assert(row.has(schema[9]));
    assert(row.has(schema[10]));
    assert(row.has(schema[11]));
    assert(row.has(schema[12]));
    assert(row.has(schema[13]));
    AgentRun {
        id: row.uuid("id"),
        session_id: row.text("session_id"),
        trigger_source: row.text("trigger_source"),
        trigger_ref: row.opt_text("trigger_ref"),
        sandbox_id: row.opt_text("sandbox_id"),
        template_id: row.opt_uuid("template_id"),
        status: row.text("status"),
        pr_url: row.opt_text("pr_url"),
        started_at: row.opt_time("started_at"),
        completed_at: row.opt_time("completed_at"),
        created_by: row.text("created_by"),
        approved_by: row.opt_text("approved_by"),
        metadata: row.document("metadata"),
        created_at: row.time("created_at"),
    }
}

/// The columns of an entry of the audit log.
pub open spec fn audit_log_schema() -> Seq<(Seq<char>, ColumnKind)> {
    seq![
        ("id"@, ColumnKind::BigInt),
        ("run_id"@, ColumnKind::OptUuid),
        ("timestamp"@, ColumnKind::Time),
        ("action_type"@, ColumnKind::Text),
        ("action_detail"@, ColumnKind::Document),
        ("tool_name"@, ColumnKind::OptText),
        ("input_hash"@, ColumnKind::OptText),
        ("output_summary"@, ColumnKind::OptText),
        ("token_count"@, ColumnKind::OptInt),
        ("gate_name"@, ColumnKind::OptText),
        ("gate_result"@, ColumnKind::OptText),
        ("risk_level"@, ColumnKind::Text),
    ]
}

/// The columns of an entry of the audit log.
pub fn audit_log_columns() -> (r: Vec<(&'static str, ColumnKind)>)
    ensures
        schema_view(r@) == audit_log_schema(),
{
    let columns: Vec<(&'static str, ColumnKind)> = vec![
        ("id", ColumnKind::BigInt),
        ("run_id", ColumnKind::OptUuid),
        ("timestamp", ColumnKind::Time),
        ("action_type", ColumnKind::Text),
        ("action_detail", ColumnKind::Document),
        ("tool_name", ColumnKind::OptText),
        ("input_hash", ColumnKind::OptText),
        ("output_summary", ColumnKind::OptText),
        ("token_count", ColumnKind::OptInt),
        ("gate_name", ColumnKind::OptText),
        ("gate_result", ColumnKind::OptText),
        ("risk_level", ColumnKind::Text),
    ];
    assert(schema_view(columns@) =~= audit_log_schema());
    columns
}

/// The value holds what the row does.
pub open spec fn audit_log_of(entry: AuditLogEntry, row: Row) -> bool {
    &&& row.cell("id"@) == Some(SqlView::BigInt(Some(entry.id)))
    &&& row.cell("run_id"@) == Some(SqlView::Uuid(entry.run_id))
    &&& row.cell("timestamp"@) == Some(SqlView::Time(Some(entry.timestamp)))
    &&& row.cell("action_type"@) == Some(text_param(entry.action_type@))
    &&& row.cell("action_detail"@) == Some(SqlView::Document(Some(entry.action_detail@)))
    &&& row.cell("tool_name"@) == Some(SqlView::Text(opt_view(entry.tool_name)))
    &&& row.cell("input_hash"@) == Some(SqlView::Text(opt_view(entry.input_hash)))
    &&& row.cell("output_summary"@) == Some(SqlView::Text(opt_view(entry.output_summary)))
    &&& row.cell("token_count"@) == Some(SqlView::Int(entry.token_count))
    &&& row.cell("gate_name"@) == Some(SqlView::Text(opt_view(entry.gate_name)))
    &&& row.cell("gate_result"@) == Some(SqlView::Text(opt_view(entry.gate_result)))
    &&& row.cell("risk_level"@) == Some(text_param(entry.risk_level@))
}

/// Reads an entry of the audit log from its row.
pub fn audit_log_from_row(row: &Row) -> (r: AuditLogEntry)
    requires
        row.conforms(audit_log_schema()),
    ensures
        audit_log_of(r, *row),
{
    let ghost schema = audit_log_schema();
    assert(row.has(schema[0]));
    assert(row.has(schema[1]));
    assert(row.has(schema[2]));
    assert(row.has(schema[3]));
    assert(row.has(schema[4]));
    assert(row.has(schema[5]));
    assert(row.has(schema[6]));
    assert(row.has(schema[7]));
    assert(row.has(schema[8]));
    assert(row.has(schema[9]));
    assert(row.has(schema[10]));
    assert(row.has(schema[11]));
    AuditLogEntry {
        id: row.bigint("id"),
        run_id: row.opt_uuid("run_id"),
        timestamp: row.time("timestamp"),
        action_type: row.text("action_type"),
        action_detail: row.document("action_detail"),
        tool_name: row.opt_text("tool_name"),
        input_hash: row.opt_text("input_hash"),
        output_summary: row.opt_text("output_summary"),
        token_count: row.opt_integer("token_count"),
        gate_name: row.opt_text("gate_name"),
        gate_result: row.opt_text("gate_result"),
        risk_level: row.text("risk_level"),
    }
}

/// The columns of a sandbox template.
pub open spec fn template_schema() -> Seq<(Seq<char>, ColumnKind)> {
    seq![
        ("id"@, ColumnKind::Uuid),
        ("name"@, ColumnKind::Text),
        ("repo_url"@, ColumnKind::OptText),
        ("description"@, ColumnKind::OptText),
        ("base_image"@, ColumnKind::Text),
        ("dockerfile"@, ColumnKind::Text),
        ("setup_script"@, ColumnKind::OptText),
        ("languages"@, ColumnKind::Texts),
        ("build_tools"@, ColumnKind::Texts),
        ("pre_warm_count"@, ColumnKind::Int),
        ("resource_limits"@, ColumnKind::Document),
        ("gates_config"@, ColumnKind::Document),
        ("tools_config"@, ColumnKind::Document),
        ("network_policy"@, ColumnKind::Document),
        ("status"@, ColumnKind::Text),
        ("scan_results"@, ColumnKind::OptDocument),
        ("created_at"@, ColumnKind::Time),
    ]
}

/// The columns of a sandbox template.
pub fn template_columns() -> (r: Vec<(&'static str, ColumnKind)>)
    ensures
        schema_view(r@) == template_schema(),
{
    let columns: Vec<(&'static str, ColumnKind)> = vec![
        ("id", ColumnKind::Uuid),
        ("name", ColumnKind::Text),
        ("repo_url", ColumnKind::OptText),
        ("description", ColumnKind::OptText),
        ("base_image", ColumnKind::Text),
        ("dockerfile", ColumnKind::Text),
        ("setup_script", ColumnKind::OptText),
        ("languages", ColumnKind::Texts),
        ("build_tools", ColumnKind::Texts),
        ("pre_warm_count", ColumnKind::Int),
        ("resource_limits", ColumnKind::Document),
        ("gates_config", ColumnKind::Document),
        ("tools_config", ColumnKind::Document),
        ("network_policy", ColumnKind::Document),
        ("status", ColumnKind::Text),
        ("scan_results", ColumnKind::OptDocument),
        ("created_at", ColumnKind::Time),
    ];
    assert(schema_view(columns@) =~= template_schema());
    columns
}

/// The value holds what the row does.
pub open spec fn template_of(template: SandboxTemplate, row: Row) -> bool {
    &&& row.cell("id"@) == Some(SqlView::Uuid(Some(template.id)))
    &&& row.cell("name"@) == Some(text_param(template.name@))
    &&& row.cell("repo_url"@) == Some(SqlView::Text(opt_view(template.repo_url)))
    &&& row.cell("description"@) == Some(SqlView::Text(opt_view(template.description)))
    &&& row.cell("base_image"@) == Some(text_param(template.base_image@))
    &&& row.cell("dockerfile"@) == Some(text_param(template.dockerfile@))
    &&& row.cell("setup_script"@) == Some(SqlView::Text(opt_view(template.setup_script)))
    &&& row.cell("languages"@) == Some(SqlView::Texts(views(template.languages@)))
    &&& row.cell("build_tools"@) == Some(SqlView::Texts(views(template.build_tools@)))
    &&& row.cell("pre_warm_count"@) == Some(SqlView::Int(Some(template.pre_warm_count)))
    &&& row.cell("resource_limits"@) == Some(SqlView::Document(Some(template.resource_limits@)))
    &&& row.cell("gates_config"@) == Some(SqlView::Document(Some(template.gates_config@)))
    &&& row.cell("tools_config"@) == Some(SqlView::Document(Some(template.tools_config@)))
    &&& row.cell("network_policy"@) == Some(SqlView::Document(Some(template.network_policy@)))
    &&& row.cell("status"@) == Some(text_param(template.status@))
    &&& row.cell("scan_results"@) == Some(SqlView::Document(opt_json_view(template.scan_results)))
    &&& row.cell("created_at"@) == Some(SqlView::Time(Some(template.created_at)))
}

/// Reads a sandbox template from its row.
pub fn template_from_row(row: &Row) -> (r: SandboxTemplate)
    requires
        row.conforms(template_schema()),
    ensures
        template_of(r, *row),
{
    let ghost schema = template_schema();
    assert(row.has(schema[0]));
    assert(row.has(schema[1]));
    assert(row.has(schema[2]));
    assert(row.has(schema[3]));
    assert(row.has(schema[4]));
    assert(row.has(schema[5]));
    assert(row.has(schema[6]));
    assert(row.has(schema[7]));
    assert(row.has(schema[8]));
    assert(row.has(schema[9]));
    assert(row.has(schema[10]));
    assert(row.has(schema[11]));
    assert(row.has(schema[12]));
    assert(row.has(schema[13]));
    assert(row.has(schema[14]));
    assert(row.has(schema[15]));
    assert(row.has(schema[16]));
    SandboxTemplate {
        id: row.uuid("id"),
        name: row.text("name"),
        repo_url: row.opt_text("repo_url"),
        description: row.opt_text("description"),
        base_image: row.text("base_image"),
        dockerfile: row.text("dockerfile"),
        setup_script: row.opt_text("setup_script"),
        languages: row.texts("languages"),
        build_tools: row.texts("build_tools"),
        pre_warm_count: row.integer("pre_warm_count"),
        resource_limits: row.document("resource_limits"),
        gates_config: row.document("gates_config"),
        tools_config: row.document("tools_config"),
        network_policy: row.document("network_policy"),
        status: row.text("status"),
        scan_results: row.opt_document("scan_results"),
        created_at: row.time("created_at"),
    }
}

/// The columns of an ingestion job.
pub open spec fn ingestion_job_schema() -> Seq<(Seq<char>, ColumnKind)> {
    seq![
        ("id"@, ColumnKind::Uuid),
        ("source_type"@, ColumnKind::Text),
        ("source_uri"@, ColumnKind::Text),
        ("status"@, ColumnKind::Text),
        ("chunks_created"@, ColumnKind::Int),
        ("graph_nodes"@, ColumnKind::Int),
        ("graph_edges"@, ColumnKind::Int),
        ("error_message"@, ColumnKind::OptText),
        ("started_at"@, ColumnKind::OptTime),
        ("completed_at"@, ColumnKind::OptTime),
    ]
}

/// The columns of an ingestion job.
pub fn ingestion_job_columns() -> (r: Vec<(&'static str, ColumnKind)>)
    ensures
        schema_view(r@) == ingestion_job_schema(),
{
    let columns: Vec<(&'static str, ColumnKind)> = vec![
        ("id", ColumnKind::Uuid),
        ("source_type", ColumnKind::Text),
        ("source_uri", ColumnKind::Text),
        ("status", ColumnKind::Text),
        ("chunks_created", ColumnKind::Int),
        ("graph_nodes", ColumnKind::Int),
        ("graph_edges", ColumnKind::Int),
        ("error_message", ColumnKind::OptText),
        ("started_at", ColumnKind::OptTime),
        ("completed_at", ColumnKind::OptTime),
    ];
    assert(schema_view(columns@) =~= ingestion_job_schema());
    columns
}

/// The value holds what the row does.
pub open spec fn ingestion_job_of(job: IngestionJob, row: Row) -> bool {
    &&& row.cell("id"@) == Some(SqlView::Uuid(Some(job.id)))
    &&& row.cell("source_type"@) == Some(text_param(job.source_type@))
    &&& row.cell("source_uri"@) == Some(text_param(job.source_uri@))
    &&& row.cell("status"@) == Some(text_param(job.status@))
    &&& row.cell("chunks_created"@) == Some(SqlView::Int(Some(job.chunks_created)))
    &&& row.cell("graph_nodes"@) == Some(SqlView::Int(Some(job.graph_nodes)))
    &&& row.cell("graph_edges"@) == Some(SqlView::Int(Some(job.graph_edges)))
    &&& row.cell("error_message"@) == Some(SqlView::Text(opt_view(job.error_message)))
    &&& row.cell("started_at"@) == Some(SqlView::Time(job.started_at))
    &&& row.cell("completed_at"@) == Some(SqlView::Time(job.completed_at))
}

/// Reads an ingestion job from its row.
pub fn ingestion_job_from_row(row: &Row) -> (r: IngestionJob)
    requires
        row.conforms(ingestion_job_schema()),
    ensures
        ingestion_job_of(r, *row),
{
    let ghost schema = ingestion_job_schema();
    assert(row.has(schema[0]));
    assert(row.has(schema[1]));
    assert(row.has(schema[2]));
    assert(row.has(schema[3]));
    assert(row.has(schema[4]));
    assert(row.has(schema[5]));
    assert(row.has(schema[6]));
    assert(row.has(schema[7]));
    assert(row.has(schema[8]));
    assert(row.has(schema[9]));
    IngestionJob {
        id: row.uuid("id"),
        source_type: row.text("source_type"),
        source_uri: row.text("source_uri"),
        status: row.text("status"),
        chunks_created: row.integer("chunks_created"),
        graph_nodes: row.integer("graph_nodes"),
        graph_edges: row.integer("graph_edges"),
        error_message: row.opt_text("error_message"),
        started_at: row.opt_time("started_at"),
        completed_at: row.opt_time("completed_at"),
    }
}

// ---------------------------------------------------------------------------
// Answers
// ---------------------------------------------------------------------------

/// Each of the rows has the columns.
pub open spec fn all_conform(rows: Seq<Row>, schema: Seq<(Seq<char>, ColumnKind)>) -> bool {
    forall|i: int| 0 <= i < rows.len() ==> (#[trigger] rows[i]).conforms(schema)
}

/// The values are those of the rows, one for each, in order.
pub open spec fn are_agent_runs(values: Seq<AgentRun>, rows: Seq<Row>) -> bool {
    &&& values.len() == rows.len()
    &&& forall|i: int| 0 <= i < rows.len() ==> agent_run_of(#[trigger] values[i], rows[i])
}

/// Reads agent runs from their rows, in order.
pub fn agent_runs_from_rows(rows: &Vec<Row>) -> (r: Vec<AgentRun>)
    requires
        all_conform(rows@, agent_run_schema()),
    ensures
        are_agent_runs(r@, rows@),
{
    let mut out: Vec<AgentRun> = Vec::new();
    let mut i: usize = 0;
    while i < rows.len()
        invariant
            i <= rows@.len(),
            out@.len() == i,
            all_conform(rows@, agent_run_schema()),
            forall|k: int| 0 <= k < i ==> agent_run_of(#[trigger] out@[k], rows@[k]),
        decreases rows@.len() - i,
    {
        out.push(agent_run_from_row(&rows[i]));
        i += 1;
    }
    out
}

/// What is read from the answer to a query for one value: nothing where there is no row.
pub open spec fn is_found_agent_run(found: Option<AgentRun>, rows: Seq<Row>) -> bool {
    match found {
        Some(run) => rows.len() > 0 && agent_run_of(run, rows[0]),
        None => rows.len() == 0,
    }
}

/// Reads an agent run from the answer to a query for it: nothing where there is no row.
pub fn found_agent_run(rows: &Vec<Row>) -> (r: Option<AgentRun>)
    requires
        all_conform(rows@, agent_run_schema()),
    ensures
        is_found_agent_run(r, rows@),
{
    if rows.len() > 0 {
        Some(agent_run_from_row(&rows[0]))
    } else {
        None
    }
}

/// The values are those of the rows, one for each, in order.
pub open spec fn are_audit_log_entries(values: Seq<AuditLogEntry>, rows: Seq<Row>) -> bool {
    &&& values.len() == rows.len()
    &&& forall|i: int| 0 <= i < rows.len() ==> audit_log_of(#[trigger] values[i], rows[i])
}

/// Reads entries of the audit log from their rows, in order.
pub fn audit_log_entries_from_rows(rows: &Vec<Row>) -> (r: Vec<AuditLogEntry>)
    requires
        all_conform(rows@, audit_log_schema()),
    ensures
        are_audit_log_entries(r@, rows@),
{
    let mut out: Vec<AuditLogEntry> = Vec::new();
    let mut i: usize = 0;
    while i < rows.len()
        invariant
            i <= rows@.len(),
            out@.len() == i,
            all_conform(rows@, audit_log_schema()),
            forall|k: int| 0 <= k < i ==> audit_log_of(#[trigger] out@[k], rows@[k]),
        decreases rows@.len() - i,
    {
        out.push(audit_log_from_row(&rows[i]));
        i += 1;
    }
    out
}

/// The values are those of the rows, one for each, in order.
pub open spec fn are_templates(values: Seq<SandboxTemplate>, rows: Seq<Row>) -> bool {
    &&& values.len() == rows.len()
    &&& forall|i: int| 0 <= i < rows.len() ==> template_of(#[trigger] values[i], rows[i])
}

/// Reads sandbox templates from their rows, in order.
pub fn templates_from_rows(rows: &Vec<Row>) -> (r: Vec<SandboxTemplate>)
    requires
        all_conform(rows@, template_schema()),
    ensures
        are_templates(r@, rows@),
{
    let mut out: Vec<SandboxTemplate> = Vec::new();
    let mut i: usize = 0;
    while i < rows.len()
        invariant
            i <= rows@.len(),
            out@.len() == i,
            all_conform(rows@, template_schema()),
            forall|k: int| 0 <= k < i ==> template_of(#[trigger] out@[k], rows@[k]),
        decreases rows@.len() - i,
    {
        out.push(template_from_row(&rows[i]));
        i += 1;
    }
    out
}

/// What is read from the answer to a query for one value: nothing where there is no row.
pub open spec fn is_found_template(found: Option<SandboxTemplate>, rows: Seq<Row>) -> bool {
    match found {
        Some(template) => rows.len() > 0 && template_of(template, rows[0]),
        None => rows.len() == 0,
    }
}

/// Reads a sandbox template from the answer to a query for it: nothing where there is no row.
pub fn found_template(rows: &Vec<Row>) -> (r: Option<SandboxTemplate>)
    requires
        all_conform(rows@, template_schema()),
    ensures
        is_found_template(r, rows@),
{
    if rows.len() > 0 {
        Some(template_from_row(&rows[0]))
    } else {
        None
    }
}

/// The values are those of the rows, one for each, in order.
pub open spec fn are_ingestion_jobs(values: Seq<IngestionJob>, rows: Seq<Row>) -> bool {
    &&& values.len() == rows.len()
    &&& forall|i: int| 0 <= i < rows.len() ==> ingestion_job_of(#[trigger] values[i], rows[i])
}

/// Reads ingestion jobs from their rows, in order.
pub fn ingestion_jobs_from_rows(rows: &Vec<Row>) -> (r: Vec<IngestionJob>)
    requires
        all_conform(rows@, ingestion_job_schema()),
    ensures
        are_ingestion_jobs(r@, rows@),
{
    let mut out: Vec<IngestionJob> = Vec::new();
    let mut i: usize = 0;
    while i < rows.len()
        invariant
            i <= rows@.len(),
            out@.len() == i,
            all_conform(rows@, ingestion_job_schema()),
            forall|k: int| 0 <= k < i ==> ingestion_job_of(#[trigger] out@[k], rows@[k]),
        decreases rows@.len() - i,
    {
        out.push(ingestion_job_from_row(&rows[i]));
        i += 1;
    }
    out
}

// ---------------------------------------------------------------------------
// Changes of status
// ---------------------------------------------------------------------------

/// A run in that status has been started.
pub open spec fn starts_run(status: Seq<char>) -> bool {
    status == "running"@
}

/// A run in that status is over.
pub open spec fn ends_run(status: Seq<char>) -> bool {
    status == "completed"@ || status == "failed"@ || status == "escalated"@
}

/// A job in that status is over.
pub open spec fn ends_job(status: Seq<char>) -> bool {
    status == "completed"@ || status == "failed"@
}

/// The moment, where it is to be noted.
pub open spec fn stamp(noted: bool, now: Moment) -> SqlView {
    SqlView::Time(
        if noted {
            Some(now)
        } else {
            None
        },
    )
}

fn ends_a_run(status: &str) -> (r: bool)
    ensures
        r == ends_run(status@),
{
    same(status, "completed") || same(status, "failed") || same(status, "escalated")
}

fn ends_a_job(status: &str) -> (r: bool)
    ensures
        r == ends_job(status@),
{
    same(status, "completed") || same(status, "failed")
}

/// The present moment by `chrono::Utc::now`, to the microsecond. Which one it is depends on
/// the clock; it is one of the calendar, as every `DateTime` is. The outside function panics
/// where the clock stands before 1970.
#[verifier::external_body]
fn current_moment() -> (r: Moment)
    ensures
        r.in_calendar(),
{
    Moment { micros: chrono::Utc::now().timestamp_micros() }
}

fn stamp_value(noted: bool, now: Moment) -> (r: SqlValue)
    ensures
        r@ == stamp(noted, now),
{
    if noted {
        SqlValue::Time(Some(now))
    } else {
        SqlValue::Time(None)
    }
}

/// No status both starts and ends a run, or a job.
pub proof fn law_start_is_not_end(status: Seq<char>)
    ensures
        !(starts_run(status) && ends_run(status)),
        !(starts_run(status) && ends_job(status)),
        ends_job(status) ==> ends_run(status),
{
    reveal_strlit("running");
    reveal_strlit("completed");
    reveal_strlit("failed");
    reveal_strlit("escalated");
    assert("running"@[0] == 'r');
    assert("completed"@[0] == 'c');
    assert("failed"@[0] == 'f');
    assert("escalated"@[0] == 'e');
}

// ---------------------------------------------------------------------------
// Statements
// ---------------------------------------------------------------------------

/// The document, or an empty object where there is none.
pub open spec fn json_or_empty(json: Option<Seq<char>>) -> Seq<char> {
    match json {
        Some(json) => json,
        None => seq!['{', '}'],
    }
}

/// The text, or the given one where there is none.
pub open spec fn text_or(text: Option<Seq<char>>, default: &str) -> Seq<char> {
    match text {
        Some(text) => text,
        None => default@,
    }
}

/// The statement that lists rows, of one status or all, with the limit last.
pub open spec fn list_statement(
    with_status: &str,
    without: &str,
    status: Option<Seq<char>>,
    limit: i64,
) -> StatementView {
    match status {
        Some(status) => statement(
            with_status,
            seq![text_param(status), SqlView::BigInt(Some(limit))],
        ),
        None => statement(without, seq![SqlView::BigInt(Some(limit))]),
    }
}

fn list_rows(
    with_status: &'static str,
    without: &'static str,
    status: Option<&str>,
    limit: i64,
) -> (r: Statement)
    ensures
        r@ == list_statement(with_status, without, opt_str_view(status), limit),
{
    let ghost wanted = list_statement(with_status, without, opt_str_view(status), limit);
    match status {
        Some(status) => {
            let params: Vec<SqlValue> = vec![text_value(status), SqlValue::BigInt(Some(limit))];
            assert(sql_views(params@) =~= wanted.params);
            Statement::new(with_status, params)
        },
        None => {
            let params: Vec<SqlValue> = vec![SqlValue::BigInt(Some(limit))];
            assert(sql_views(params@) =~= wanted.params);
            Statement::new(without, params)
        },
    }
}

/// The statement that creates an agent run.
pub open spec fn run_statement(input: CreateAgentRun) -> StatementView {
    statement(
        CREATE_RUN_SQL,
        seq![
            text_param(input.session_id@),
            text_param(input.trigger_source@),
            SqlView::Text(opt_view(input.trigger_ref)),
            text_param(input.created_by@),
            SqlView::Document(Some(json_or_empty(opt_json_view(input.metadata)))),
        ],
    )
}

/// The statement that moves an agent run to a status at a moment.
pub open spec fn run_status_statement(
    id: u128,
    status: Seq<char>,
    sandbox_id: Option<Seq<char>>,
    pr_url: Option<Seq<char>>,
    now: Moment,
) -> StatementView {
    statement(
        UPDATE_RUN_SQL,
        seq![
            SqlView::Uuid(Some(id)),
            text_param(status),
            SqlView::Text(sandbox_id),
            SqlView::Text(pr_url),
            stamp(starts_run(status), now),
            stamp(ends_run(status), now),
        ],
    )
}

/// The statement that moves an ingestion job to a status at a moment.
pub open spec fn job_status_statement(
    id: u128,
    status: Seq<char>,
    chunks: Option<i32>,
    nodes: Option<i32>,
    edges: Option<i32>,
    error: Option<Seq<char>>,
    now: Moment,
) -> StatementView {
    statement(
        UPDATE_JOB_SQL,
        seq![
            SqlView::Uuid(Some(id)),
            text_param(status),
            SqlView::Int(chunks),
            SqlView::Int(nodes),
            SqlView::Int(edges),
            SqlView::Text(error),
            stamp(starts_run(status), now),
            stamp(ends_job(status), now),
        ],
    )
}

/// The statement that appends an entry to the audit log.
pub open spec fn append_statement(input: CreateAuditLog) -> StatementView {
    statement(
        APPEND_AUDIT_SQL,
        seq![
            SqlView::Uuid(input.run_id),
            text_param(input.action_type@),
            SqlView::Document(Some(input.action_detail@)),
            SqlView::Text(opt_view(input.tool_name)),
            SqlView::Text(opt_view(input.input_hash)),
            SqlView::Text(opt_view(input.output_summary)),
            SqlView::Int(input.token_count),
            SqlView::Text(opt_view(input.gate_name)),
            SqlView::Text(opt_view(input.gate_result)),
            text_param(text_or(opt_view(input.risk_level), "low")),
        ],
    )
}

/// The parameters that store a sandbox template.
pub open spec fn template_params(template: SandboxTemplate) -> Seq<SqlView> {
    seq![
        text_param(template.name@),
        SqlView::Text(opt_view(template.repo_url)),
        SqlView::Text(opt_view(template.description)),
        text_param(template.base_image@),
        text_param(template.dockerfile@),
        SqlView::Text(opt_view(template.setup_script)),
        SqlView::Texts(views(template.languages@)),
        SqlView::Texts(views(template.build_tools@)),
        SqlView::Int(Some(template.pre_warm_count)),
        SqlView::Document(Some(template.resource_limits@)),
        SqlView::Document(Some(template.gates_config@)),
        SqlView::Document(Some(template.tools_config@)),
        SqlView::Document(Some(template.network_policy@)),
        text_param(template.status@),
        SqlView::Document(opt_json_view(template.scan_results)),
    ]
}

/// The statement that lists entries of the audit log.
pub open spec fn audit_statement(
    run_id: Option<u128>,
    action_type: Option<Seq<char>>,
    limit: i64,
) -> StatementView {
    match (run_id, action_type) {
        (Some(run), Some(action)) => statement(
            AUDIT_RUN_TYPE_SQL,
            seq![SqlView::Uuid(Some(run)), text_param(action), SqlView::BigInt(Some(limit))],
        ),
        (Some(run), None) => statement(
            AUDIT_RUN_SQL,
            seq![SqlView::Uuid(Some(run)), SqlView::BigInt(Some(limit))],
        ),
        (None, Some(action)) => statement(
            AUDIT_TYPE_SQL,
            seq![text_param(action), SqlView::BigInt(Some(limit))],
        ),
        (None, None) => statement(AUDIT_SQL, seq![SqlView::BigInt(Some(limit))]),
    }
}

impl RelationalStore {
    pub fn new() -> (r: RelationalStore)
        ensures
            r == (RelationalStore {  }),
    {
        RelationalStore {}
    }

    /// Creates an agent run, with an empty object for metadata that are not given.
    pub fn create_agent_run(&self, input: CreateAgentRun) -> (r: Statement)
        ensures
            r@ == run_statement(input),
    {
        let metadata = match input.metadata {
            Some(metadata) => metadata,
            None => Json::empty_object(),
        };
        let params: Vec<SqlValue> = vec![
            SqlValue::Text(Some(input.session_id)),
            SqlValue::Text(Some(input.trigger_source)),
            SqlValue::Text(input.trigger_ref),
            SqlValue::Text(Some(input.created_by)),
            SqlValue::Document(Some(metadata)),
        ];
        assert(sql_views(params@) =~= run_statement(input).params);
        Statement::new(CREATE_RUN_SQL, params)
    }

    /// The agent run with an identifier.
    pub fn get_agent_run(&self, id: u128) -> (r: Statement)
        ensures
            r@ == statement(GET_RUN_SQL, seq![SqlView::Uuid(Some(id))]),
    {
        by_id(GET_RUN_SQL, id)
    }

    /// Moves an agent run to a status. The moment is noted as its start or its end, where
    /// the status says so.
    pub fn update_agent_run_status_at(
        &self,
        id: u128,
        status: &str,
        sandbox_id: Option<&str>,
        pr_url: Option<&str>,
        now: Moment,
    ) -> (r: Statement)
        ensures
            r@ == run_status_statement(
                id,
                status@,
                opt_str_view(sandbox_id),
                opt_str_view(pr_url),
                now,
            ),
    {
        let started = same(status, "running");
        let completed = ends_a_run(status);
        let params: Vec<SqlValue> = vec![
            SqlValue::Uuid(Some(id)),
            text_value(status),
            SqlValue::Text(own_text(sandbox_id)),
            SqlValue::Text(own_text(pr_url)),
            stamp_value(started, now),
            stamp_value(completed, now),
        ];
        assert(sql_views(params@) =~= run_status_statement(
            id,
            status@,
            opt_str_view(sandbox_id),
            opt_str_view(pr_url),
            now,
        ).params);
        Statement::new(UPDATE_RUN_SQL, params)
    }

    /// Moves an agent run to a status, at the present moment.
    pub fn update_agent_run_status(
        &self,
        id: u128,
        status: &str,
        sandbox_id: Option<&str>,
        pr_url: Option<&str>,
    ) -> (r: Statement)
        ensures
            exists|now: Moment|
                now.in_calendar() && r@ == #[trigger] run_status_statement(
                    id,
                    status@,
                    opt_str_view(sandbox_id),
                    opt_str_view(pr_url),
                    now,
                ),
    {
        let now = if same(status, "running") || ends_a_run(status) {
            current_moment()
        } else {
            Moment { micros: 0 }
        };
        self.update_agent_run_status_at(id, status, sandbox_id, pr_url, now)
    }

    /// The latest agent runs, of one status or all.
    pub fn list_agent_runs(&self, status: Option<&str>, limit: i64) -> (r: Statement)
        ensures
            r@ == list_statement(
                LIST_RUNS_STATUS_SQL,
                LIST_RUNS_SQL,
                opt_str_view(status),
                limit,
            ),
    {
        list_rows(LIST_RUNS_STATUS_SQL, LIST_RUNS_SQL, status, limit)
    }

    /// Appends an entry to the audit log, with a low risk where none is given.
    pub fn append_audit_log(&self, input: CreateAuditLog) -> (r: Statement)
        ensures
            r@ == append_statement(input),
    {
        let risk_level = match input.risk_level {
            Some(level) => level,
            None => "low".to_owned(),
        };
        let params: Vec<SqlValue> = vec![
            SqlValue::Uuid(input.run_id),
            SqlValue::Text(Some(input.action_type)),
            SqlValue::Document(Some(input.action_detail)),
            SqlValue::Text(input.tool_name),
            SqlValue::Text(input.input_hash),
            SqlValue::Text(input.output_summary),
            SqlValue::Int(input.token_count),
            SqlValue::Text(input.gate_name),
            SqlValue::Text(input.gate_result),
            SqlValue::Text(Some(risk_level)),
        ];
        assert(sql_views(params@) =~= append_statement(input).params);
        Statement::new(APPEND_AUDIT_SQL, params)
    }

    /// The latest entries of the audit log, of one run or all, of one action type or all.
    pub fn query_audit_log(
        &self,
        run_id: Option<u128>,
        action_type: Option<&str>,
        limit: i64,
    ) -> (r: Statement)
        ensures
            r@ == audit_statement(run_id, opt_str_view(action_type), limit),
    {
        let ghost wanted = audit_statement(run_id, opt_str_view(action_type), limit);
        match (run_id, action_type) {
            (Some(run), Some(action)) => {
                let params: Vec<SqlValue> = vec![
                    SqlValue::Uuid(Some(run)),
                    text_value(action),
                    SqlValue::BigInt(Some(limit)),
                ];
                assert(sql_views(params@) =~= wanted.params);
                Statement::new(AUDIT_RUN_TYPE_SQL, params)
            },
            (Some(run), None) => {
                let params: Vec<SqlValue> = vec![
                    SqlValue::Uuid(Some(run)),
                    SqlValue::BigInt(Some(limit)),
                ];
                assert(sql_views(params@) =~= wanted.params);
                Statement::new(AUDIT_RUN_SQL, params)
            },
            (None, Some(action)) => {
                let params: Vec<SqlValue> = vec![
                    text_value(action),
                    SqlValue::BigInt(Some(limit)),
                ];
                assert(sql_views(params@) =~= wanted.params);
                Statement::new(AUDIT_TYPE_SQL, params)
            },
            (None, None) => {
                let params: Vec<SqlValue> = vec![SqlValue::BigInt(Some(limit))];
                assert(sql_views(params@) =~= wanted.params);
                Statement::new(AUDIT_SQL, params)
            },
        }
    }

    /// Creates a sandbox template.
    pub fn create_template(&self, template: &SandboxTemplate) -> (r: Statement)
        ensures
            r@ == statement(CREATE_TEMPLATE_SQL, template_params(*template)),
    {
        let params: Vec<SqlValue> = vec![
            text_value(template.name.as_str()),
            SqlValue::Text(copy_text(&template.repo_url)),
            SqlValue::Text(copy_text(&template.description)),
            text_value(template.base_image.as_str()),
            text_value(template.dockerfile.as_str()),
            SqlValue::Text(copy_text(&template.setup_script)),
            SqlValue::Texts(copy_texts(&template.languages)),
            SqlValue::Texts(copy_texts(&template.build_tools)),
            SqlValue::Int(Some(template.pre_warm_count)),
            SqlValue::Document(Some(template.resource_limits.copy())),
            SqlValue::Document(Some(template.gates_config.copy())),
            SqlValue::Document(Some(template.tools_config.copy())),
            SqlValue::Document(Some(template.network_policy.copy())),
            text_value(template.status.as_str()),
            SqlValue::Document(copy_json(&template.scan_results)),
        ];
        assert(sql_views(params@) =~= template_params(*template));
        Statement::new(CREATE_TEMPLATE_SQL, params)
    }

    /// The sandbox template with an identifier.
    pub fn get_template(&self, id: u128) -> (r: Statement)
        ensures
            r@ == statement(GET_TEMPLATE_SQL, seq![SqlView::Uuid(Some(id))]),
    {
        by_id(GET_TEMPLATE_SQL, id)
    }

    /// The sandbox templates, of one status or all.
    pub fn list_templates(&self, status: Option<&str>) -> (r: Statement)
        ensures
            r@ == (match opt_str_view(status) {
                Some(status) => statement(LIST_TEMPLATES_STATUS_SQL, seq![text_param(status)]),
                None => statement(LIST_TEMPLATES_SQL, Seq::empty()),
            }),
    {
        match status {
            Some(status) => {
                let params: Vec<SqlValue> = vec![text_value(status)];
                assert(sql_views(params@) =~= seq![text_param(status@)]);
                Statement::new(LIST_TEMPLATES_STATUS_SQL, params)
            },
            None => {
                let params: Vec<SqlValue> = Vec::new();
                assert(sql_views(params@) =~= Seq::empty());
                Statement::new(LIST_TEMPLATES_SQL, params)
            },
        }
    }

    /// Approves a sandbox template.
    pub fn approve_template(&self, id: u128) -> (r: Statement)
        ensures
            r@ == statement(APPROVE_TEMPLATE_SQL, seq![SqlView::Uuid(Some(id))]),
    {
        by_id(APPROVE_TEMPLATE_SQL, id)
    }

    /// Creates an ingestion job.
    pub fn create_ingestion_job(&self, source_type: &str, source_uri: &str) -> (r: Statement)
        ensures
            r@ == statement(
                CREATE_JOB_SQL,
                seq![text_param(source_type@), text_param(source_uri@)],
            ),
    {
        let params: Vec<SqlValue> = vec![text_value(source_type), text_value(source_uri)];
        assert(sql_views(params@) =~= seq![text_param(source_type@), text_param(source_uri@)]);
        Statement::new(CREATE_JOB_SQL, params)
    }

    /// Moves an ingestion job to a status. The moment is noted as its start or its end,
    /// where the status says so.
    pub fn update_ingestion_job_at(
        &self,
        id: u128,
        status: &str,
        chunks: Option<i32>,
        nodes: Option<i32>,
        edges: Option<i32>,
        error: Option<&str>,
        now: Moment,
    ) -> (r: Statement)
        ensures
            r@ == job_status_statement(
                id,
                status@,
                chunks,
                nodes,
                edges,
                opt_str_view(error),
                now,
            ),
    {
        let started = same(status, "running");
        let completed = ends_a_job(status);
        let params: Vec<SqlValue> = vec![
            SqlValue::Uuid(Some(id)),
            text_value(status),
            SqlValue::Int(chunks),
            SqlValue::Int(nodes),
            SqlValue::Int(edges),
            SqlValue::Text(own_text(error)),
            stamp_value(started, now),
            stamp_value(completed, now),
        ];
        assert(sql_views(params@) =~= job_status_statement(
            id,
            status@,
            chunks,
            nodes,
            edges,
            opt_str_view(error),
            now,
        ).params);
        Statement::new(UPDATE_JOB_SQL, params)
    }

    /// Moves an ingestion job to a status, at the present moment.
    pub fn update_ingestion_job(
        &self,
        id: u128,
        status: &str,
        chunks: Option<i32>,
        nodes: Option<i32>,
        edges: Option<i32>,
        error: Option<&str>,
    ) -> (r: Statement)
        ensures
            exists|now: Moment|
                now.in_calendar() && r@ == #[trigger] job_status_statement(
                    id,
                    status@,
                    chunks,
                    nodes,
                    edges,
                    opt_str_view(error),
                    now,
                ),
    {
        let now = if same(status, "running") || ends_a_job(status) {
            current_moment()
        } else {
            Moment { micros: 0 }
        };
        self.update_ingestion_job_at(id, status, chunks, nodes, edges, error, now)
    }

    /// The latest ingestion jobs, of one status or all.
    pub fn list_ingestion_jobs(&self, status: Option<&str>, limit: i64) -> (r: Statement)
        ensures
            r@ == list_statement(
                LIST_JOBS_STATUS_SQL,
                LIST_JOBS_SQL,
                opt_str_view(status),
                limit,
            ),
    {
        list_rows(LIST_JOBS_STATUS_SQL, LIST_JOBS_SQL, status, limit)
    }
}

fn by_id(sql: &'static str, id: u128) -> (r: Statement)
    ensures
        r@ == statement(sql, seq![SqlView::Uuid(Some(id))]),
{
    let params: Vec<SqlValue> = vec![SqlValue::Uuid(Some(id))];
    assert(sql_views(params@) =~= seq![SqlView::Uuid(Some(id))]);
    Statement::new(sql, params)
}

// ---------------------------------------------------------------------------
// Laws
// ---------------------------------------------------------------------------

/// The columns that the parameters of `CREATE_RUN_SQL` go to.
pub open spec fn create_run_columns() -> Seq<Seq<char>> {
    seq!["session_id"@, "trigger_source"@, "trigger_ref"@, "created_by"@, "metadata"@]
}

/// A run that is read from the row that its creation filled is the one that was created.
pub proof fn law_run_reads_back(
    sent: StatementView,
    input: CreateAgentRun,
    run: AgentRun,
    row: Row,
)
    requires
        sent == run_statement(input),
        row.holds(create_run_columns(), sent.params),
        agent_run_of(run, row),
    ensures
        run.session_id@ == input.session_id@,
        run.trigger_source@ == input.trigger_source@,
        opt_view(run.trigger_ref) == opt_view(input.trigger_ref),
        run.created_by@ == input.created_by@,
        run.metadata@ == json_or_empty(opt_json_view(input.metadata)),
{
    let columns = create_run_columns();
    assert(row.cell(columns[0]) == Some(sent.params[0]));
    assert(row.cell(columns[1]) == Some(sent.params[1]));
    assert(row.cell(columns[2]) == Some(sent.params[2]));
    assert(row.cell(columns[3]) == Some(sent.params[3]));
    assert(row.cell(columns[4]) == Some(sent.params[4]));
}

/// A run that was created and not changed since is found again: where a row holds what its
/// creation sent, and the status that creation gives, the answer to a query for it gives a
/// run with the created fields that waits to be started. Where no row answers, there is none.
pub proof fn law_created_run_is_found(
    sent: StatementView,
    input: CreateAgentRun,
    row: Row,
    rows: Seq<Row>,
    found: Option<AgentRun>,
)
    requires
        sent == run_statement(input),
        row.holds(create_run_columns(), sent.params),
        row.cell("status"@) == Some(text_param("pending"@)),
        rows.len() > 0 ==> rows[0] == row,
        is_found_agent_run(found, rows),
    ensures
        found is Some <==> rows.len() > 0,
        match found {
            Some(run) => {
                &&& run.status@ == "pending"@
                &&& run.session_id@ == input.session_id@
                &&& run.trigger_source@ == input.trigger_source@
                &&& opt_view(run.trigger_ref) == opt_view(input.trigger_ref)
                &&& run.created_by@ == input.created_by@
                &&& run.metadata@ == json_or_empty(opt_json_view(input.metadata))
                &&& row.cell("id"@) == Some(SqlView::Uuid(Some(run.id)))
            },
            None => true,
        },
{
    match found {
        Some(run) => {
            law_run_reads_back(sent, input, run, row);
        },
        None => {},
    }
}

/// The columns that the parameters of `APPEND_AUDIT_SQL` go to.
pub open spec fn append_audit_columns() -> Seq<Seq<char>> {
    seq![
        "run_id"@,
        "action_type"@,
        "action_detail"@,
        "tool_name"@,
        "input_hash"@,
        "output_summary"@,
        "token_count"@,
        "gate_name"@,
        "gate_result"@,
        "risk_level"@,
    ]
}

/// An entry that is read from the row that its appending filled is the one that was
/// appended, at low risk where none was given.
pub proof fn law_audit_reads_back(
    sent: StatementView,
    input: CreateAuditLog,
    entry: AuditLogEntry,
    row: Row,
)
    requires
        sent == append_statement(input),
        row.holds(append_audit_columns(), sent.params),
        audit_log_of(entry, row),
    ensures
        entry.run_id == input.run_id,
        entry.action_type@ == input.action_type@,
        entry.action_detail@ == input.action_detail@,
        opt_view(entry.tool_name) == opt_view(input.tool_name),
        opt_view(entry.input_hash) == opt_view(input.input_hash),
        opt_view(entry.output_summary) == opt_view(input.output_summary),
        entry.token_count == input.token_count,
        opt_view(entry.gate_name) == opt_view(input.gate_name),
        opt_view(entry.gate_result) == opt_view(input.gate_result),
        entry.risk_level@ == text_or(opt_view(input.risk_level), "low"),
{
    let columns = append_audit_columns();
    assert(row.cell(columns[0]) == Some(sent.params[0]));
    assert(row.cell(columns[1]) == Some(sent.params[1]));
    assert(row.cell(columns[2]) == Some(sent.params[2]));
    assert(row.cell(columns[3]) == Some(sent.params[3]));
    assert(row.cell(columns[4]) == Some(sent.params[4]));
    assert(row.cell(columns[5]) == Some(sent.params[5]));
    assert(row.cell(columns[6]) == Some(sent.params[6]));
    assert(row.cell(columns[7]) == Some(sent.params[7]));
    assert(row.cell(columns[8]) == Some(sent.params[8]));
    assert(row.cell(columns[9]) == Some(sent.params[9]));
}

/// A row of the audit log is one of the run and of the action type, where they are asked for.
pub open spec fn is_audit_of(row: Row, run_id: Option<u128>, action_type: Option<Seq<char>>) -> bool {
    &&& match run_id {
        Some(run) => row.cell("run_id"@) == Some(SqlView::Uuid(Some(run))),
        None => true,
    }
    &&& match action_type {
        Some(action) => row.cell("action_type"@) == Some(text_param(action)),
        None => true,
    }
}

/// The rows answer a query of the audit log.
pub open spec fn answers_audit(
    rows: Seq<Row>,
    table: Seq<Row>,
    run_id: Option<u128>,
    action_type: Option<Seq<char>>,
    limit: i64,
) -> bool {
    lists(
        rows,
        table,
        |row: Row| is_audit_of(row, run_id, action_type),
        "timestamp"@,
        Some(limit as int),
    )
}

/// The entries that a query of the audit log gives are no more than the limit, stand with the
/// latest first, and meet each filter that was given; where they are fewer than the limit,
/// no entry that meets the filters is left out.
pub proof fn law_audit_query(
    entries: Seq<AuditLogEntry>,
    rows: Seq<Row>,
    table: Seq<Row>,
    run_id: Option<u128>,
    action_type: Option<Seq<char>>,
    limit: i64,
)
    requires
        answers_audit(rows, table, run_id, action_type, limit),
        are_audit_log_entries(entries, rows),
    ensures
        entries.len() <= limit,
        forall|i: int, j: int|
            0 <= i < j < entries.len() ==> (#[trigger] entries[i]).timestamp.micros >= (
            #[trigger] entries[j]).timestamp.micros,
        forall|i: int|
            0 <= i < entries.len() && run_id is Some ==> (#[trigger] entries[i]).run_id == run_id,
        forall|i: int|
            0 <= i < entries.len() && action_type is Some ==> Some(
                (#[trigger] entries[i]).action_type@,
            ) == action_type,
        entries.len() < limit ==> forall|row: Row| #[trigger]
            table.contains(row) && is_audit_of(row, run_id, action_type) ==> exists|i: int|
                0 <= i < entries.len() && audit_log_of(#[trigger] entries[i], row),
{
    assert forall|i: int, j: int| 0 <= i < j < entries.len() implies (
    #[trigger] entries[i]).timestamp.micros >= (#[trigger] entries[j]).timestamp.micros by {
        assert(audit_log_of(entries[i], rows[i]) && audit_log_of(entries[j], rows[j]));
    }
    assert forall|i: int| 0 <= i < entries.len() implies is_audit_of(
        rows[i],
        run_id,
        action_type,
    ) && audit_log_of(#[trigger] entries[i], rows[i]) by {
        assert(table.contains(rows[i]));
    }
    if entries.len() < limit {
        assert forall|row: Row| #[trigger]
            table.contains(row) && is_audit_of(row, run_id, action_type) implies exists|i: int|
            0 <= i < entries.len() && audit_log_of(#[trigger] entries[i], row) by {
            let i = choose|i: int| 0 <= i < rows.len() && rows[i] == row;
            assert(audit_log_of(entries[i], rows[i]));
        }
    }
}

/// An entry that was appended for a run is found again: a query for the run that gives fewer
/// entries than its limit gives it, with its number and what was sent.
pub proof fn law_appended_entry_is_found(
    sent: StatementView,
    input: CreateAuditLog,
    run: u128,
    id: i64,
    row: Row,
    entries: Seq<AuditLogEntry>,
    rows: Seq<Row>,
    table: Seq<Row>,
    limit: i64,
)
    requires
        sent == append_statement(input),
        input.run_id == Some(run),
        row.holds(append_audit_columns(), sent.params),
        row.cell("id"@) == Some(SqlView::BigInt(Some(id))),
        table.contains(row),
        answers_audit(rows, table, Some(run), None, limit),
        are_audit_log_entries(entries, rows),
        entries.len() < limit,
    ensures
        exists|i: int|
            0 <= i < entries.len() && (#[trigger] entries[i]).id == id && entries[i].run_id == Some(
                run,
            ) && entries[i].action_type@ == input.action_type@ && entries[i].action_detail@
                == input.action_detail@ && opt_view(entries[i].gate_name) == opt_view(
                input.gate_name,
            ) && opt_view(entries[i].gate_result) == opt_view(input.gate_result),
{
    law_audit_query(entries, rows, table, Some(run), None, limit);
    let columns = append_audit_columns();
    assert(row.cell(columns[0]) == Some(sent.params[0]));
    assert(is_audit_of(row, Some(run), None));
    let i = choose|i: int| 0 <= i < entries.len() && audit_log_of(#[trigger] entries[i], row);
    law_audit_reads_back(sent, input, entries[i], row);
    assert(entries[i].id == id);
}

/// The columns that the parameters of `CREATE_TEMPLATE_SQL` go to.
pub open spec fn create_template_columns() -> Seq<Seq<char>> {
    seq![
        "name"@,
        "repo_url"@,
        "description"@,
        "base_image"@,
        "dockerfile"@,
        "setup_script"@,
        "languages"@,
        "build_tools"@,
        "pre_warm_count"@,
        "resource_limits"@,
        "gates_config"@,
        "tools_config"@,
        "network_policy"@,
        "status"@,
        "scan_results"@,
    ]
}

/// A template that is read from the row that its creation filled is the one that was
/// created, but for its identifier and the moment, which the database gives.
pub proof fn law_template_reads_back(created: SandboxTemplate, read: SandboxTemplate, row: Row)
    requires
        row.holds(create_template_columns(), template_params(created)),
        template_of(read, row),
    ensures
        read.name@ == created.name@,
        opt_view(read.repo_url) == opt_view(created.repo_url),
        opt_view(read.description) == opt_view(created.description),
        read.base_image@ == created.base_image@,
        read.dockerfile@ == created.dockerfile@,
        opt_view(read.setup_script) == opt_view(created.setup_script),
        views(read.languages@) == views(created.languages@),
        views(read.build_tools@) == views(created.build_tools@),
        read.pre_warm_count == created.pre_warm_count,
        read.resource_limits@ == created.resource_limits@,
        read.gates_config@ == created.gates_config@,
        read.tools_config@ == created.tools_config@,
        read.network_policy@ == created.network_policy@,
        read.status@ == created.status@,
        opt_json_view(read.scan_results) == opt_json_view(created.scan_results),
{
    let columns = create_template_columns();
    let params = template_params(created);
    assert(row.cell(columns[0]) == Some(params[0]));
    assert(row.cell(columns[1]) == Some(params[1]));
    assert(row.cell(columns[2]) == Some(params[2]));
    assert(row.cell(columns[3]) == Some(params[3]));
    assert(row.cell(columns[4]) == Some(params[4]));
    assert(row.cell(columns[5]) == Some(params[5]));
    assert(row.cell(columns[6]) == Some(params[6]));
    assert(row.cell(columns[7]) == Some(params[7]));
    assert(row.cell(columns[8]) == Some(params[8]));
    assert(row.cell(columns[9]) == Some(params[9]));
    assert(row.cell(columns[10]) == Some(params[10]));
    assert(row.cell(columns[11]) == Some(params[11]));
    assert(row.cell(columns[12]) == Some(params[12]));
    assert(row.cell(columns[13]) == Some(params[13]));
    assert(row.cell(columns[14]) == Some(params[14]));
}

/// A row of the templates has the status, where one is asked for.
pub open spec fn is_template_of(row: Row, status: Option<Seq<char>>) -> bool {
    match status {
        Some(status) => row.cell("status"@) == Some(text_param(status)),
        None => true,
    }
}

/// The rows answer a query for templates.
pub open spec fn answers_templates(
    rows: Seq<Row>,
    table: Seq<Row>,
    status: Option<Seq<char>>,
) -> bool {
    lists(rows, table, |row: Row| is_template_of(row, status), "created_at"@, None)
}

/// A template is that of some row of a table.
pub open spec fn is_of_table(template: SandboxTemplate, table: Seq<Row>) -> bool {
    exists|row: Row| #[trigger] table.contains(row) && template_of(template, row)
}

/// The templates that a query gives have the status that was asked for, stand with the latest
/// first, and leave none out.
pub proof fn law_template_list(
    templates: Seq<SandboxTemplate>,
    rows: Seq<Row>,
    table: Seq<Row>,
    status: Option<Seq<char>>,
)
    requires
        answers_templates(rows, table, status),
        are_templates(templates, rows),
    ensures
        forall|i: int|
            0 <= i < templates.len() && status is Some ==> Some((#[trigger] templates[i]).status@)
                == status,
        forall|i: int, j: int|
            0 <= i < j < templates.len() ==> (#[trigger] templates[i]).created_at.micros >= (
            #[trigger] templates[j]).created_at.micros,
        forall|row: Row| #[trigger]
            table.contains(row) && is_template_of(row, status) ==> exists|i: int|
                0 <= i < templates.len() && template_of(#[trigger] templates[i], row),
        forall|i: int|
            0 <= i < templates.len() ==> is_of_table(#[trigger] templates[i], table),
{
    assert forall|i: int, j: int| 0 <= i < j < templates.len() implies (
    #[trigger] templates[i]).created_at.micros >= (#[trigger] templates[j]).created_at.micros by {
        assert(template_of(templates[i], rows[i]) && template_of(templates[j], rows[j]));
    }
    assert forall|i: int| 0 <= i < templates.len() implies is_template_of(rows[i], status)
        && is_of_table(templates[i], table) && template_of(#[trigger] templates[i], rows[i]) by {
        assert(table.contains(rows[i]));
    }
    assert forall|row: Row| #[trigger] table.contains(row) && is_template_of(row, status) implies
        exists|i: int| 0 <= i < templates.len() && template_of(#[trigger] templates[i], row) by {
        let i = choose|i: int| 0 <= i < rows.len() && rows[i] == row;
        assert(template_of(templates[i], rows[i]));
    }
}

/// A row is another one once its template was approved: its status says so, and the moment of
/// its last change may differ, but nothing else does.
pub open spec fn is_approved(after: Row, before: Row) -> bool {
    &&& after.cell("status"@) == Some(text_param("approved"@))
    &&& forall|name: Seq<char>|
        name != "status"@ && name != "updated_at"@ ==> #[trigger] after.cell(name) == before.cell(
            name,
        )
}

/// After an approval only the status of a template differs.
pub proof fn law_approval(
    drafted: SandboxTemplate,
    approved: SandboxTemplate,
    before: Row,
    after: Row,
)
    requires
        template_of(drafted, before),
        template_of(approved, after),
        is_approved(after, before),
    ensures
        approved.status@ == "approved"@,
        approved.id == drafted.id,
        approved.created_at == drafted.created_at,
        approved.name@ == drafted.name@,
        opt_view(approved.repo_url) == opt_view(drafted.repo_url),
        opt_view(approved.description) == opt_view(drafted.description),
        approved.base_image@ == drafted.base_image@,
        approved.dockerfile@ == drafted.dockerfile@,
        opt_view(approved.setup_script) == opt_view(drafted.setup_script),
        views(approved.languages@) == views(drafted.languages@),
        views(approved.build_tools@) == views(drafted.build_tools@),
        approved.pre_warm_count == drafted.pre_warm_count,
        approved.resource_limits@ == drafted.resource_limits@,
        approved.gates_config@ == drafted.gates_config@,
        approved.tools_config@ == drafted.tools_config@,
        approved.network_policy@ == drafted.network_policy@,
        opt_json_view(approved.scan_results) == opt_json_view(drafted.scan_results),
{
    reveal_strlit("status");
    reveal_strlit("updated_at");
    reveal_strlit("id");
    reveal_strlit("name");
    reveal_strlit("repo_url");
    reveal_strlit("description");
    reveal_strlit("base_image");
    reveal_strlit("dockerfile");
    reveal_strlit("setup_script");
    reveal_strlit("languages");
    reveal_strlit("build_tools");
    reveal_strlit("pre_warm_count");
    reveal_strlit("resource_limits");
    reveal_strlit("gates_config");
    reveal_strlit("tools_config");
    reveal_strlit("network_policy");
    reveal_strlit("scan_results");
    reveal_strlit("created_at");
    assert("id"@.len() == 2);
    assert("name"@.len() == 4);
    assert("repo_url"@.len() == 8);
    assert("description"@.len() == 11);
    assert("base_image"@.len() == 10 && "base_image"@[0] == 'b');
    assert("dockerfile"@.len() == 10 && "dockerfile"@[0] == 'd');
    assert("setup_script"@.len() == 12);
    assert("languages"@.len() == 9);
    assert("build_tools"@.len() == 11);
    assert("pre_warm_count"@.len() == 14);
    assert("resource_limits"@.len() == 15);
    assert("gates_config"@.len() == 12);
    assert("tools_config"@.len() == 12);
    assert("network_policy"@.len() == 14);
    assert("scan_results"@.len() == 12);
    assert("created_at"@.len() == 10 && "created_at"@[0] == 'c');
    assert("status"@.len() == 6);
    assert("updated_at"@.len() == 10 && "updated_at"@[0] == 'u');
    assert(after.cell("id"@) == before.cell("id"@));
    assert(after.cell("name"@) == before.cell("name"@));
    assert(after.cell("repo_url"@) == before.cell("repo_url"@));
    assert(after.cell("description"@) == before.cell("description"@));
    assert(after.cell("base_image"@) == before.cell("base_image"@));
    assert(after.cell("dockerfile"@) == before.cell("dockerfile"@));
    assert(after.cell("setup_script"@) == before.cell("setup_script"@));
    assert(after.cell("languages"@) == before.cell("languages"@));
    assert(after.cell("build_tools"@) == before.cell("build_tools"@));
    assert(after.cell("pre_warm_count"@) == before.cell("pre_warm_count"@));
    assert(after.cell("resource_limits"@) == before.cell("resource_limits"@));
    assert(after.cell("gates_config"@) == before.cell("gates_config"@));
    assert(after.cell("tools_config"@) == before.cell("tools_config"@));
    assert(after.cell("network_policy"@) == before.cell("network_policy"@));
    assert(after.cell("scan_results"@) == before.cell("scan_results"@));
    assert(after.cell("created_at"@) == before.cell("created_at"@));
}

/// A template that was approved is in the list of approved templates, with its status, and no
/// longer in the list of drafts.
pub proof fn law_approved_template_moves(
    id: u128,
    row: Row,
    table: Seq<Row>,
    approved_rows: Seq<Row>,
    approved: Seq<SandboxTemplate>,
    draft_rows: Seq<Row>,
    drafts: Seq<SandboxTemplate>,
)
    requires
        table.contains(row),
        row.cell("id"@) == Some(SqlView::Uuid(Some(id))),
        row.cell("status"@) == Some(text_param("approved"@)),
        forall|other: Row| #[trigger]
            table.contains(other) && other.cell("id"@) == row.cell("id"@) ==> other == row,
        answers_templates(approved_rows, table, Some("approved"@)),
        are_templates(approved, approved_rows),
        answers_templates(draft_rows, table, Some("draft"@)),
        are_templates(drafts, draft_rows),
    ensures
        exists|i: int|
            0 <= i < approved.len() && (#[trigger] approved[i]).id == id && approved[i].status@
                == "approved"@,
        forall|i: int| 0 <= i < drafts.len() ==> (#[trigger] drafts[i]).id != id,
{
    law_template_list(approved, approved_rows, table, Some("approved"@));
    law_template_list(drafts, draft_rows, table, Some("draft"@));
    assert(is_template_of(row, Some("approved"@)));
    let i = choose|i: int| 0 <= i < approved.len() && template_of(#[trigger] approved[i], row);
    assert(approved[i].id == id);
    reveal_strlit("approved");
    reveal_strlit("draft");
    assert("approved"@.len() == 8 && "draft"@.len() == 5);
    assert forall|i: int| 0 <= i < drafts.len() implies (#[trigger] drafts[i]).id != id by {
        assert(is_of_table(drafts[i], table));
        let other = choose|other: Row| #[trigger]
            table.contains(other) && template_of(drafts[i], other);
        if drafts[i].id == id {
            assert(other == row);
            assert(drafts[i].status@ == "approved"@);
        }
    }
}

/// An agent run that is read twice from one row is the same in every field.
pub proof fn law_agent_run_read_twice(a: AgentRun, b: AgentRun, row: Row)
    requires
        agent_run_of(a, row),
        agent_run_of(b, row),
    ensures
        a.id == b.id,
        a.session_id@ == b.session_id@,
        a.trigger_source@ == b.trigger_source@,
        opt_view(a.trigger_ref) == opt_view(b.trigger_ref),
        opt_view(a.sandbox_id) == opt_view(b.sandbox_id),
        a.template_id == b.template_id,
        a.status@ == b.status@,
        opt_view(a.pr_url) == opt_view(b.pr_url),
        a.started_at == b.started_at,
        a.completed_at == b.completed_at,
        a.created_by@ == b.created_by@,
        opt_view(a.approved_by) == opt_view(b.approved_by),
        a.metadata@ == b.metadata@,
        a.created_at == b.created_at,
{
}

/// An entry of the audit log that is read twice from one row is the same in every field.
pub proof fn law_audit_log_read_twice(a: AuditLogEntry, b: AuditLogEntry, row: Row)
    requires
        audit_log_of(a, row),
        audit_log_of(b, row),
    ensures
        a.id == b.id,
        a.run_id == b.run_id,
        a.timestamp == b.timestamp,
        a.action_type@ == b.action_type@,
        a.action_detail@ == b.action_detail@,
        opt_view(a.tool_name) == opt_view(b.tool_name),
        opt_view(a.input_hash) == opt_view(b.input_hash),
        opt_view(a.output_summary) == opt_view(b.output_summary),
        a.token_count == b.token_count,
        opt_view(a.gate_name) == opt_view(b.gate_name),
        opt_view(a.gate_result) == opt_view(b.gate_result),
        a.risk_level@ == b.risk_level@,
{
}

/// A sandbox template that is read twice from one row is the same in every field.
pub proof fn law_template_read_twice(a: SandboxTemplate, b: SandboxTemplate, row: Row)
    requires
        template_of(a, row),
        template_of(b, row),
    ensures
        a.id == b.id,
        a.name@ == b.name@,
        opt_view(a.repo_url) == opt_view(b.repo_url),
        opt_view(a.description) == opt_view(b.description),
        a.base_image@ == b.base_image@,
        a.dockerfile@ == b.dockerfile@,
        opt_view(a.setup_script) == opt_view(b.setup_script),
        views(a.languages@) == views(b.languages@),
        views(a.build_tools@) == views(b.build_tools@),
        a.pre_warm_count == b.pre_warm_count,
        a.resource_limits@ == b.resource_limits@,
        a.gates_config@ == b.gates_config@,
        a.tools_config@ == b.tools_config@,
        a.network_policy@ == b.network_policy@,
        a.status@ == b.status@,
        opt_json_view(a.scan_results) == opt_json_view(b.scan_results),
        a.created_at == b.created_at,
{
}

/// An ingestion job that is read twice from one row is the same in every field.
pub proof fn law_ingestion_job_read_twice(a: IngestionJob, b: IngestionJob, row: Row)
    requires
        ingestion_job_of(a, row),
        ingestion_job_of(b, row),
    ensures
        a.id == b.id,
        a.source_type@ == b.source_type@,
        a.source_uri@ == b.source_uri@,
        a.status@ == b.status@,
        a.chunks_created == b.chunks_created,
        a.graph_nodes == b.graph_nodes,
        a.graph_edges == b.graph_edges,
        opt_view(a.error_message) == opt_view(b.error_message),
        a.started_at == b.started_at,
        a.completed_at == b.completed_at,
{
}

/// The statements that create a run and a job say that it waits, and the one that approves a
/// template says that it is approved.
pub proof fn law_statuses_are_written()
    ensures
        has_part(CREATE_RUN_SQL@, "'pending'"@),
        has_part(CREATE_JOB_SQL@, "'pending'"@),
        has_part(APPROVE_TEMPLATE_SQL@, "status = 'approved'"@),
{
    reveal_strlit("INSERT INTO agent_runs (session_id, trigger_source, trigger_ref, created_by, metadata, status)
                 VALUES ($1, $2, $3, $4, $5, 'pending')
                 RETURNING *");
    reveal_strlit("'pending'");
    assert(CREATE_RUN_SQL@.subrange(140, 149) =~= "'pending'"@);
    assert(stands_at(CREATE_RUN_SQL@, "'pending'"@, 140));
    reveal_strlit("INSERT INTO ingestion_jobs (source_type, source_uri, status)
                 VALUES ($1, $2, 'pending') RETURNING id");
    reveal_strlit("'pending'");
    assert(CREATE_JOB_SQL@.subrange(94, 103) =~= "'pending'"@);
    assert(stands_at(CREATE_JOB_SQL@, "'pending'"@, 94));
    reveal_strlit("UPDATE sandbox_templates SET status = 'approved', updated_at = now() WHERE id = $1");
    reveal_strlit("status = 'approved'");
    assert(APPROVE_TEMPLATE_SQL@.subrange(29, 48) =~= "status = 'approved'"@);
    assert(stands_at(APPROVE_TEMPLATE_SQL@, "status = 'approved'"@, 29));
}

/// An agent run tells all that its row holds, each column in its field, and each row that was
/// answered has its agent run, in order.
pub proof fn law_runs_tell_rows(values: Seq<AgentRun>, rows: Seq<Row>, i: int)
    requires
        are_agent_runs(values, rows),
        0 <= i < rows.len(),
    ensures
        values.len() == rows.len(),
        rows[i].cell("id"@) == Some(SqlView::Uuid(Some(values[i].id))),
        rows[i].cell("session_id"@) == Some(SqlView::Text(Some(values[i].session_id@))),
        rows[i].cell("trigger_source"@) == Some(SqlView::Text(Some(values[i].trigger_source@))),
        rows[i].cell("trigger_ref"@) == Some(SqlView::Text(opt_view(values[i].trigger_ref))),
        rows[i].cell("sandbox_id"@) == Some(SqlView::Text(opt_view(values[i].sandbox_id))),
        rows[i].cell("template_id"@) == Some(SqlView::Uuid(values[i].template_id)),
        rows[i].cell("status"@) == Some(SqlView::Text(Some(values[i].status@))),
        rows[i].cell("pr_url"@) == Some(SqlView::Text(opt_view(values[i].pr_url))),
        rows[i].cell("started_at"@) == Some(SqlView::Time(values[i].started_at)),
        rows[i].cell("completed_at"@) == Some(SqlView::Time(values[i].completed_at)),
        rows[i].cell("created_by"@) == Some(SqlView::Text(Some(values[i].created_by@))),
        rows[i].cell("approved_by"@) == Some(SqlView::Text(opt_view(values[i].approved_by))),
        rows[i].cell("metadata"@) == Some(SqlView::Document(Some(values[i].metadata@))),
        rows[i].cell("created_at"@) == Some(SqlView::Time(Some(values[i].created_at))),
{
    assert(agent_run_of(values[i], rows[i]));
}

/// An entry of the audit log tells all that its row holds, each column in its field, and each
/// row that was answered has its entry, in order.
pub proof fn law_entries_tell_rows(values: Seq<AuditLogEntry>, rows: Seq<Row>, i: int)
    requires
        are_audit_log_entries(values, rows),
        0 <= i < rows.len(),
    ensures
        values.len() == rows.len(),
        rows[i].cell("id"@) == Some(SqlView::BigInt(Some(values[i].id))),
        rows[i].cell("run_id"@) == Some(SqlView::Uuid(values[i].run_id)),
        rows[i].cell("timestamp"@) == Some(SqlView::Time(Some(values[i].timestamp))),
        rows[i].cell("action_type"@) == Some(SqlView::Text(Some(values[i].action_type@))),
        rows[i].cell("action_detail"@) == Some(SqlView::Document(Some(values[i].action_detail@))),
        rows[i].cell("tool_name"@) == Some(SqlView::Text(opt_view(values[i].tool_name))),
        rows[i].cell("input_hash"@) == Some(SqlView::Text(opt_view(values[i].input_hash))),
        rows[i].cell("output_summary"@) == Some(SqlView::Text(opt_view(values[i].output_summary))),
        rows[i].cell("token_count"@) == Some(SqlView::Int(values[i].token_count)),
        rows[i].cell("gate_name"@) == Some(SqlView::Text(opt_view(values[i].gate_name))),
        rows[i].cell("gate_result"@) == Some(SqlView::Text(opt_view(values[i].gate_result))),
        rows[i].cell("risk_level"@) == Some(SqlView::Text(Some(values[i].risk_level@))),
{
    assert(audit_log_of(values[i], rows[i]));
}

/// A sandbox template tells all that its row holds, each column in its field, and each row that was
/// answered has its template, in order.
pub proof fn law_templates_tell_rows(values: Seq<SandboxTemplate>, rows: Seq<Row>, i: int)
    requires
        are_templates(values, rows),
        0 <= i < rows.len(),
    ensures
        values.len() == rows.len(),
        rows[i].cell("id"@) == Some(SqlView::Uuid(Some(values[i].id))),
        rows[i].cell("name"@) == Some(SqlView::Text(Some(values[i].name@))),
        rows[i].cell("repo_url"@) == Some(SqlView::Text(opt_view(values[i].repo_url))),
        rows[i].cell("description"@) == Some(SqlView::Text(opt_view(values[i].description))),
        rows[i].cell("base_image"@) == Some(SqlView::Text(Some(values[i].base_image@))),
        rows[i].cell("dockerfile"@) == Some(SqlView::Text(Some(values[i].dockerfile@))),
        rows[i].cell("setup_script"@) == Some(SqlView::Text(opt_view(values[i].setup_script))),
        rows[i].cell("languages"@) == Some(SqlView::Texts(views(values[i].languages@))),
        rows[i].cell("build_tools"@) == Some(SqlView::Texts(views(values[i].build_tools@))),
        rows[i].cell("pre_warm_count"@) == Some(SqlView::Int(Some(values[i].pre_warm_count))),
        rows[i].cell("resource_limits"@) == Some(SqlView::Document(Some(values[i].resource_limits@))),
        rows[i].cell("gates_config"@) == Some(SqlView::Document(Some(values[i].gates_config@))),
        rows[i].cell("tools_config"@) == Some(SqlView::Document(Some(values[i].tools_config@))),
        rows[i].cell("network_policy"@) == Some(SqlView::Document(Some(values[i].network_policy@))),
        rows[i].cell("status"@) == Some(SqlView::Text(Some(values[i].status@))),
        rows[i].cell("scan_results"@) == Some(SqlView::Document(opt_json_view(values[i].scan_results))),
        rows[i].cell("created_at"@) == Some(SqlView::Time(Some(values[i].created_at))),
{
    assert(template_of(values[i], rows[i]));
}

/// An ingestion job tells all that its row holds, each column in its field, and each row that was
/// answered has its job, in order.
pub proof fn law_jobs_tell_rows(values: Seq<IngestionJob>, rows: Seq<Row>, i: int)
    requires
        are_ingestion_jobs(values, rows),
        0 <= i < rows.len(),
    ensures
        values.len() == rows.len(),
        rows[i].cell("id"@) == Some(SqlView::Uuid(Some(values[i].id))),
        rows[i].cell("source_type"@) == Some(SqlView::Text(Some(values[i].source_type@))),
        rows[i].cell("source_uri"@) == Some(SqlView::Text(Some(values[i].source_uri@))),
        rows[i].cell("status"@) == Some(SqlView::Text(Some(values[i].status@))),
        rows[i].cell("chunks_created"@) == Some(SqlView::Int(Some(values[i].chunks_created))),
        rows[i].cell("graph_nodes"@) == Some(SqlView::Int(Some(values[i].graph_nodes))),
        rows[i].cell("graph_edges"@) == Some(SqlView::Int(Some(values[i].graph_edges))),
        rows[i].cell("error_message"@) == Some(SqlView::Text(opt_view(values[i].error_message))),
        rows[i].cell("started_at"@) == Some(SqlView::Time(values[i].started_at)),
        rows[i].cell("completed_at"@) == Some(SqlView::Time(values[i].completed_at)),
{
    assert(ingestion_job_of(values[i], rows[i]));
}

/// A run is created with what it was given, each part in its own column, and with an empty
/// object where no metadata are given.
pub proof fn law_run_parameters(input: CreateAgentRun)
    ensures
        run_statement(input).sql == CREATE_RUN_SQL@,
        run_statement(input).params.len() == 5,
        run_statement(input).params[0] == SqlView::Text(Some(input.session_id@)),
        run_statement(input).params[1] == SqlView::Text(Some(input.trigger_source@)),
        match input.trigger_ref {
            Some(text) => run_statement(input).params[2] == SqlView::Text(Some(text@)),
            None => run_statement(input).params[2] == SqlView::Text(None),
        },
        run_statement(input).params[3] == SqlView::Text(Some(input.created_by@)),
        match input.metadata {
            Some(json) => run_statement(input).params[4] == SqlView::Document(Some(json@)),
            None => run_statement(input).params[4] == SqlView::Document(Some(seq!['{', '}'])),
        },
        has_part(
            CREATE_RUN_SQL@,
            "(session_id, trigger_source, trigger_ref, created_by, metadata, status)"@,
        ),
        has_part(CREATE_RUN_SQL@, "VALUES ($1, $2, $3, $4, $5, 'pending')"@),
{
    reveal_strlit("INSERT INTO agent_runs (session_id, trigger_source, trigger_ref, created_by, metadata, status)
                 VALUES ($1, $2, $3, $4, $5, 'pending')
                 RETURNING *");
    reveal_strlit("(session_id, trigger_source, trigger_ref, created_by, metadata, status)");
    assert(CREATE_RUN_SQL@.subrange(23, 94)
        =~= "(session_id, trigger_source, trigger_ref, created_by, metadata, status)"@);
    assert(stands_at(
        CREATE_RUN_SQL@,
        "(session_id, trigger_source, trigger_ref, created_by, metadata, status)"@,
        23,
    ));
    reveal_strlit("VALUES ($1, $2, $3, $4, $5, 'pending')");
    assert(CREATE_RUN_SQL@.subrange(112, 150) =~= "VALUES ($1, $2, $3, $4, $5, 'pending')"@);
    assert(stands_at(CREATE_RUN_SQL@, "VALUES ($1, $2, $3, $4, $5, 'pending')"@, 112));
}

/// A run is moved to the status that was given, by its identifier. What is not given stays, and
/// the moment is noted as the start of a run that runs, as the end of one that is completed,
/// failed or escalated, and not at all otherwise.
pub proof fn law_run_status_parameters(
    id: u128,
    status: Seq<char>,
    sandbox_id: Option<Seq<char>>,
    pr_url: Option<Seq<char>>,
    now: Moment,
)
    ensures
        ({
            let sent = run_status_statement(id, status, sandbox_id, pr_url, now);
            let ended = status == "completed"@ || status == "failed"@ || status == "escalated"@;
            &&& sent.sql == UPDATE_RUN_SQL@
            &&& sent.params.len() == 6
            &&& sent.params[0] == SqlView::Uuid(Some(id))
            &&& sent.params[1] == SqlView::Text(Some(status))
            &&& sent.params[2] == SqlView::Text(sandbox_id)
            &&& sent.params[3] == SqlView::Text(pr_url)
            &&& status == "running"@ ==> sent.params[4] == SqlView::Time(Some(now))
            &&& status != "running"@ ==> sent.params[4] == SqlView::Time(None)
            &&& ended ==> sent.params[5] == SqlView::Time(Some(now))
            &&& !ended ==> sent.params[5] == SqlView::Time(None)
        }),
        has_part(UPDATE_RUN_SQL@, "SET status = $2"@),
        has_part(UPDATE_RUN_SQL@, "sandbox_id = COALESCE($3, sandbox_id)"@),
        has_part(UPDATE_RUN_SQL@, "pr_url = COALESCE($4, pr_url)"@),
        has_part(UPDATE_RUN_SQL@, "started_at = COALESCE($5, started_at)"@),
        has_part(UPDATE_RUN_SQL@, "completed_at = COALESCE($6, completed_at)"@),
        has_part(UPDATE_RUN_SQL@, "WHERE id = $1"@),
{
    reveal_strlit("UPDATE agent_runs SET status = $2, sandbox_id = COALESCE($3, sandbox_id),
                 pr_url = COALESCE($4, pr_url),
                 started_at = COALESCE($5, started_at),
                 completed_at = COALESCE($6, completed_at),
                 updated_at = now()
                 WHERE id = $1");
    reveal_strlit("SET status = $2");
    assert(UPDATE_RUN_SQL@.subrange(18, 33) =~= "SET status = $2"@);
    assert(stands_at(UPDATE_RUN_SQL@, "SET status = $2"@, 18));
    reveal_strlit("sandbox_id = COALESCE($3, sandbox_id)");
    assert(UPDATE_RUN_SQL@.subrange(35, 72) =~= "sandbox_id = COALESCE($3, sandbox_id)"@);
    assert(stands_at(UPDATE_RUN_SQL@, "sandbox_id = COALESCE($3, sandbox_id)"@, 35));
    reveal_strlit("pr_url = COALESCE($4, pr_url)");
    assert(UPDATE_RUN_SQL@.subrange(91, 120) =~= "pr_url = COALESCE($4, pr_url)"@);
    assert(stands_at(UPDATE_RUN_SQL@, "pr_url = COALESCE($4, pr_url)"@, 91));
    reveal_strlit("started_at = COALESCE($5, started_at)");
    assert(UPDATE_RUN_SQL@.subrange(139, 176) =~= "started_at = COALESCE($5, started_at)"@);
    assert(stands_at(UPDATE_RUN_SQL@, "started_at = COALESCE($5, started_at)"@, 139));
    reveal_strlit("completed_at = COALESCE($6, completed_at)");
    assert(UPDATE_RUN_SQL@.subrange(195, 236) =~= "completed_at = COALESCE($6, completed_at)"@);
    assert(stands_at(UPDATE_RUN_SQL@, "completed_at = COALESCE($6, completed_at)"@, 195));
    reveal_strlit("WHERE id = $1");
    assert(UPDATE_RUN_SQL@.subrange(291, 304) =~= "WHERE id = $1"@);
    assert(stands_at(UPDATE_RUN_SQL@, "WHERE id = $1"@, 291));
}

/// A job is moved to the status that was given, by its identifier. What is not given stays, and
/// the moment is noted as the start of a job that runs, as the end of one that is completed or
/// failed, and not at all otherwise.
pub proof fn law_job_status_parameters(
    id: u128,
    status: Seq<char>,
    chunks: Option<i32>,
    nodes: Option<i32>,
    edges: Option<i32>,
    error: Option<Seq<char>>,
    now: Moment,
)
    ensures
        ({
            let sent = job_status_statement(id, status, chunks, nodes, edges, error, now);
            let ended = status == "completed"@ || status == "failed"@;
            &&& sent.sql == UPDATE_JOB_SQL@
            &&& sent.params.len() == 8
            &&& sent.params[0] == SqlView::Uuid(Some(id))
            &&& sent.params[1] == SqlView::Text(Some(status))
            &&& sent.params[2] == SqlView::Int(chunks)
            &&& sent.params[3] == SqlView::Int(nodes)
            &&& sent.params[4] == SqlView::Int(edges)
            &&& sent.params[5] == SqlView::Text(error)
            &&& status == "running"@ ==> sent.params[6] == SqlView::Time(Some(now))
            &&& status != "running"@ ==> sent.params[6] == SqlView::Time(None)
            &&& ended ==> sent.params[7] == SqlView::Time(Some(now))
            &&& !ended ==> sent.params[7] == SqlView::Time(None)
        }),
        has_part(UPDATE_JOB_SQL@, "SET status = $2"@),
        has_part(UPDATE_JOB_SQL@, "chunks_created = COALESCE($3, chunks_created)"@),
        has_part(UPDATE_JOB_SQL@, "graph_nodes = COALESCE($4, graph_nodes)"@),
        has_part(UPDATE_JOB_SQL@, "graph_edges = COALESCE($5, graph_edges)"@),
        has_part(UPDATE_JOB_SQL@, "error_message = COALESCE($6, error_message)"@),
        has_part(UPDATE_JOB_SQL@, "started_at = COALESCE($7, started_at)"@),
        has_part(UPDATE_JOB_SQL@, "completed_at = COALESCE($8, completed_at)"@),
        has_part(UPDATE_JOB_SQL@, "WHERE id = $1"@),
{
    reveal_strlit("UPDATE ingestion_jobs SET status = $2,
                 chunks_created = COALESCE($3, chunks_created),
                 graph_nodes = COALESCE($4, graph_nodes),
                 graph_edges = COALESCE($5, graph_edges),
                 error_message = COALESCE($6, error_message),
                 started_at = COALESCE($7, started_at),
                 completed_at = COALESCE($8, completed_at)
                 WHERE id = $1");
    reveal_strlit("SET status = $2");
    assert(UPDATE_JOB_SQL@.subrange(22, 37) =~= "SET status = $2"@);
    assert(stands_at(UPDATE_JOB_SQL@, "SET status = $2"@, 22));
    reveal_strlit("chunks_created = COALESCE($3, chunks_created)");
    assert(UPDATE_JOB_SQL@.subrange(56, 101) =~= "chunks_created = COALESCE($3, chunks_created)"@);
    assert(stands_at(UPDATE_JOB_SQL@, "chunks_created = COALESCE($3, chunks_created)"@, 56));
    reveal_strlit("graph_nodes = COALESCE($4, graph_nodes)");
    assert(UPDATE_JOB_SQL@.subrange(120, 159) =~= "graph_nodes = COALESCE($4, graph_nodes)"@);
    assert(stands_at(UPDATE_JOB_SQL@, "graph_nodes = COALESCE($4, graph_nodes)"@, 120));
    reveal_strlit("graph_edges = COALESCE($5, graph_edges)");
    assert(UPDATE_JOB_SQL@.subrange(178, 217) =~= "graph_edges = COALESCE($5, graph_edges)"@);
    assert(stands_at(UPDATE_JOB_SQL@, "graph_edges = COALESCE($5, graph_edges)"@, 178));
    reveal_strlit("error_message = COALESCE($6, error_message)");
    assert(UPDATE_JOB_SQL@.subrange(236, 279) =~= "error_message = COALESCE($6, error_message)"@);
    assert(stands_at(UPDATE_JOB_SQL@, "error_message = COALESCE($6, error_message)"@, 236));
    reveal_strlit("started_at = COALESCE($7, started_at)");
    assert(UPDATE_JOB_SQL@.subrange(298, 335) =~= "started_at = COALESCE($7, started_at)"@);
    assert(stands_at(UPDATE_JOB_SQL@, "started_at = COALESCE($7, started_at)"@, 298));
    reveal_strlit("completed_at = COALESCE($8, completed_at)");
    assert(UPDATE_JOB_SQL@.subrange(354, 395) =~= "completed_at = COALESCE($8, completed_at)"@);
    assert(stands_at(UPDATE_JOB_SQL@, "completed_at = COALESCE($8, completed_at)"@, 354));
    reveal_strlit("WHERE id = $1");
    assert(UPDATE_JOB_SQL@.subrange(413, 426) =~= "WHERE id = $1"@);
    assert(stands_at(UPDATE_JOB_SQL@, "WHERE id = $1"@, 413));
}

/// An entry is appended with what it was given, each part in its own column, and at low risk
/// where none is given.
pub proof fn law_append_parameters(input: CreateAuditLog)
    ensures
        append_statement(input).sql == APPEND_AUDIT_SQL@,
        append_statement(input).params.len() == 10,
        append_statement(input).params[0] == SqlView::Uuid(input.run_id),
        append_statement(input).params[1] == SqlView::Text(Some(input.action_type@)),
        append_statement(input).params[2] == SqlView::Document(Some(input.action_detail@)),
        match input.tool_name {
            Some(text) => append_statement(input).params[3] == SqlView::Text(Some(text@)),
            None => append_statement(input).params[3] == SqlView::Text(None),
        },
        match input.input_hash {
            Some(text) => append_statement(input).params[4] == SqlView::Text(Some(text@)),
            None => append_statement(input).params[4] == SqlView::Text(None),
        },
        match input.output_summary {
            Some(text) => append_statement(input).params[5] == SqlView::Text(Some(text@)),
            None => append_statement(input).params[5] == SqlView::Text(None),
        },
        match input.gate_name {
            Some(text) => append_statement(input).params[7] == SqlView::Text(Some(text@)),
            None => append_statement(input).params[7] == SqlView::Text(None),
        },
        match input.gate_result {
            Some(text) => append_statement(input).params[8] == SqlView::Text(Some(text@)),
            None => append_statement(input).params[8] == SqlView::Text(None),
        },
        append_statement(input).params[6] == SqlView::Int(input.token_count),
        match input.risk_level {
            Some(level) => append_statement(input).params[9] == SqlView::Text(Some(level@)),
            None => append_statement(input).params[9] == SqlView::Text(Some("low"@)),
        },
        has_part(APPEND_AUDIT_SQL@, "VALUES ($1, $2, $3, $4, $5, $6, $7, $8, $9, $10)"@),
        has_part(APPEND_AUDIT_SQL@, "(run_id, action_type, action_detail, tool_name,"@),
        has_part(APPEND_AUDIT_SQL@, " gate_name, gate_result, risk_level)"@),
        has_part(APPEND_AUDIT_SQL@, "input_hash, output_summary, token_count,"@),
{
    reveal_strlit("INSERT INTO audit_log (run_id, action_type, action_detail, tool_name,
                 input_hash, output_summary, token_count, gate_name, gate_result, risk_level)
                 VALUES ($1, $2, $3, $4, $5, $6, $7, $8, $9, $10)
                 RETURNING id");
    reveal_strlit("VALUES ($1, $2, $3, $4, $5, $6, $7, $8, $9, $10)");
    assert(APPEND_AUDIT_SQL@.subrange(181, 229)
        =~= "VALUES ($1, $2, $3, $4, $5, $6, $7, $8, $9, $10)"@);
    assert(stands_at(APPEND_AUDIT_SQL@, "VALUES ($1, $2, $3, $4, $5, $6, $7, $8, $9, $10)"@, 181));
    reveal_strlit("(run_id, action_type, action_detail, tool_name,");
    assert(APPEND_AUDIT_SQL@.subrange(22, 69)
        =~= "(run_id, action_type, action_detail, tool_name,"@);
    assert(stands_at(APPEND_AUDIT_SQL@, "(run_id, action_type, action_detail, tool_name,"@, 22));
    reveal_strlit(" gate_name, gate_result, risk_level)");
    assert(APPEND_AUDIT_SQL@.subrange(127, 163) =~= " gate_name, gate_result, risk_level)"@);
    assert(stands_at(APPEND_AUDIT_SQL@, " gate_name, gate_result, risk_level)"@, 127));
    reveal_strlit("input_hash, output_summary, token_count,");
    assert(APPEND_AUDIT_SQL@.subrange(87, 127) =~= "input_hash, output_summary, token_count,"@);
    assert(stands_at(APPEND_AUDIT_SQL@, "input_hash, output_summary, token_count,"@, 87));
}

/// A query of the audit log asks for the run, the action type and the limit that it was given,
/// each as the parameter that the statement compares with, and for the latest first.
pub proof fn law_audit_parameters(run_id: Option<u128>, action_type: Option<Seq<char>>, limit: i64)
    ensures
        ({
            let sent = audit_statement(run_id, action_type, limit);
            match (run_id, action_type) {
                (Some(run), Some(action)) => {
                    &&& sent.params == seq![
                        SqlView::Uuid(Some(run)),
                        SqlView::Text(Some(action)),
                        SqlView::BigInt(Some(limit)),
                    ]
                    &&& has_part(
                        sent.sql,
                        "WHERE run_id = $1 AND action_type = $2 ORDER BY timestamp DESC LIMIT $3"@,
                    )
                },
                (Some(run), None) => {
                    &&& sent.params == seq![SqlView::Uuid(Some(run)), SqlView::BigInt(Some(limit))]
                    &&& has_part(sent.sql, "WHERE run_id = $1 ORDER BY timestamp DESC LIMIT $2"@)
                },
                (None, Some(action)) => {
                    &&& sent.params == seq![
                        SqlView::Text(Some(action)),
                        SqlView::BigInt(Some(limit)),
                    ]
                    &&& has_part(
                        sent.sql,
                        "WHERE action_type = $1 ORDER BY timestamp DESC LIMIT $2"@,
                    )
                },
                (None, None) => {
                    &&& sent.params == seq![SqlView::BigInt(Some(limit))]
                    &&& has_part(sent.sql, "ORDER BY timestamp DESC LIMIT $1"@)
                },
            }
        }),
{
    reveal_strlit("SELECT * FROM audit_log WHERE run_id = $1 AND action_type = $2 ORDER BY timestamp DESC LIMIT $3");
    reveal_strlit("WHERE run_id = $1 AND action_type = $2 ORDER BY timestamp DESC LIMIT $3");
    assert(AUDIT_RUN_TYPE_SQL@.subrange(24, 95)
        =~= "WHERE run_id = $1 AND action_type = $2 ORDER BY timestamp DESC LIMIT $3"@);
    assert(stands_at(
        AUDIT_RUN_TYPE_SQL@,
        "WHERE run_id = $1 AND action_type = $2 ORDER BY timestamp DESC LIMIT $3"@,
        24,
    ));
    reveal_strlit("SELECT * FROM audit_log WHERE run_id = $1 ORDER BY timestamp DESC LIMIT $2");
    reveal_strlit("WHERE run_id = $1 ORDER BY timestamp DESC LIMIT $2");
    assert(AUDIT_RUN_SQL@.subrange(24, 74)
        =~= "WHERE run_id = $1 ORDER BY timestamp DESC LIMIT $2"@);
    assert(stands_at(AUDIT_RUN_SQL@, "WHERE run_id = $1 ORDER BY timestamp DESC LIMIT $2"@, 24));
    reveal_strlit("SELECT * FROM audit_log WHERE action_type = $1 ORDER BY timestamp DESC LIMIT $2");
    reveal_strlit("WHERE action_type = $1 ORDER BY timestamp DESC LIMIT $2");
    assert(AUDIT_TYPE_SQL@.subrange(24, 79)
        =~= "WHERE action_type = $1 ORDER BY timestamp DESC LIMIT $2"@);
    assert(stands_at(
        AUDIT_TYPE_SQL@,
        "WHERE action_type = $1 ORDER BY timestamp DESC LIMIT $2"@,
        24,
    ));
    reveal_strlit("SELECT * FROM audit_log ORDER BY timestamp DESC LIMIT $1");
    reveal_strlit("ORDER BY timestamp DESC LIMIT $1");
    assert(AUDIT_SQL@.subrange(24, 56) =~= "ORDER BY timestamp DESC LIMIT $1"@);
    assert(stands_at(AUDIT_SQL@, "ORDER BY timestamp DESC LIMIT $1"@, 24));
}

/// A list asks for the status and the limit that it was given, each as the parameter that the
/// statement compares with, and for the latest first; what is asked for by its identifier is
/// found and changed by it.
pub proof fn law_list_parameters(
    with_status: &str,
    without: &str,
    status: Option<Seq<char>>,
    limit: i64,
)
    ensures
        ({
            let sent = list_statement(with_status, without, status, limit);
            match status {
                Some(status) => {
                    &&& sent.sql == with_status@
                    &&& sent.params == seq![
                        SqlView::Text(Some(status)),
                        SqlView::BigInt(Some(limit)),
                    ]
                },
                None => {
                    &&& sent.sql == without@
                    &&& sent.params == seq![SqlView::BigInt(Some(limit))]
                },
            }
        }),
        has_part(LIST_RUNS_STATUS_SQL@, "WHERE status = $1 ORDER BY created_at DESC LIMIT $2"@),
        has_part(LIST_JOBS_STATUS_SQL@, "WHERE status = $1 ORDER BY created_at DESC LIMIT $2"@),
        has_part(LIST_RUNS_SQL@, "ORDER BY created_at DESC LIMIT $1"@),
        has_part(LIST_JOBS_SQL@, "ORDER BY created_at DESC LIMIT $1"@),
        has_part(LIST_TEMPLATES_STATUS_SQL@, "WHERE status = $1 ORDER BY created_at DESC"@),
        has_part(LIST_TEMPLATES_SQL@, "ORDER BY created_at DESC"@),
        has_part(GET_RUN_SQL@, "WHERE id = $1"@),
        has_part(GET_TEMPLATE_SQL@, "WHERE id = $1"@),
        has_part(APPROVE_TEMPLATE_SQL@, "WHERE id = $1"@),
{
    reveal_strlit("SELECT * FROM agent_runs WHERE status = $1 ORDER BY created_at DESC LIMIT $2");
    reveal_strlit("WHERE status = $1 ORDER BY created_at DESC LIMIT $2");
    assert(LIST_RUNS_STATUS_SQL@.subrange(25, 76)
        =~= "WHERE status = $1 ORDER BY created_at DESC LIMIT $2"@);
    assert(stands_at(
        LIST_RUNS_STATUS_SQL@,
        "WHERE status = $1 ORDER BY created_at DESC LIMIT $2"@,
        25,
    ));
    reveal_strlit("SELECT * FROM ingestion_jobs WHERE status = $1 ORDER BY created_at DESC LIMIT $2");
    assert(LIST_JOBS_STATUS_SQL@.subrange(29, 80)
        =~= "WHERE status = $1 ORDER BY created_at DESC LIMIT $2"@);
    assert(stands_at(
        LIST_JOBS_STATUS_SQL@,
        "WHERE status = $1 ORDER BY created_at DESC LIMIT $2"@,
        29,
    ));
    reveal_strlit("SELECT * FROM agent_runs ORDER BY created_at DESC LIMIT $1");
    reveal_strlit("ORDER BY created_at DESC LIMIT $1");
    assert(LIST_RUNS_SQL@.subrange(25, 58) =~= "ORDER BY created_at DESC LIMIT $1"@);
    assert(stands_at(LIST_RUNS_SQL@, "ORDER BY created_at DESC LIMIT $1"@, 25));
    reveal_strlit("SELECT * FROM ingestion_jobs ORDER BY created_at DESC LIMIT $1");
    assert(LIST_JOBS_SQL@.subrange(29, 62) =~= "ORDER BY created_at DESC LIMIT $1"@);
    assert(stands_at(LIST_JOBS_SQL@, "ORDER BY created_at DESC LIMIT $1"@, 29));
    reveal_strlit("SELECT * FROM sandbox_templates WHERE status = $1 ORDER BY created_at DESC");
    reveal_strlit("WHERE status = $1 ORDER BY created_at DESC");
    assert(LIST_TEMPLATES_STATUS_SQL@.subrange(32, 74)
        =~= "WHERE status = $1 ORDER BY created_at DESC"@);
    assert(stands_at(
        LIST_TEMPLATES_STATUS_SQL@,
        "WHERE status = $1 ORDER BY created_at DESC"@,
        32,
    ));
    reveal_strlit("SELECT * FROM sandbox_templates ORDER BY created_at DESC");
    reveal_strlit("ORDER BY created_at DESC");
    assert(LIST_TEMPLATES_SQL@.subrange(32, 56) =~= "ORDER BY created_at DESC"@);
    assert(stands_at(LIST_TEMPLATES_SQL@, "ORDER BY created_at DESC"@, 32));
    reveal_strlit("SELECT * FROM agent_runs WHERE id = $1");
    reveal_strlit("WHERE id = $1");
    assert(GET_RUN_SQL@.subrange(25, 38) =~= "WHERE id = $1"@);
    assert(stands_at(GET_RUN_SQL@, "WHERE id = $1"@, 25));
    reveal_strlit("SELECT * FROM sandbox_templates WHERE id = $1");
    assert(GET_TEMPLATE_SQL@.subrange(32, 45) =~= "WHERE id = $1"@);
    assert(stands_at(GET_TEMPLATE_SQL@, "WHERE id = $1"@, 32));
    reveal_strlit("UPDATE sandbox_templates SET status = 'approved', updated_at = now() WHERE id = $1");
    assert(APPROVE_TEMPLATE_SQL@.subrange(69, 82) =~= "WHERE id = $1"@);
    assert(stands_at(APPROVE_TEMPLATE_SQL@, "WHERE id = $1"@, 69));
}

/// A template and a job are created with each of their parameters in the column of its name.
pub proof fn law_created_columns(template: SandboxTemplate)
    ensures
        template_params(template).len() == create_template_columns().len(),
        has_part(CREATE_TEMPLATE_SQL@, "(name, repo_url, description, base_image, dockerfile,"@),
        has_part(
            CREATE_TEMPLATE_SQL@,
            "setup_script, languages, build_tools, pre_warm_count, resource_limits,"@,
        ),
        has_part(
            CREATE_TEMPLATE_SQL@,
            "gates_config, tools_config, network_policy, status, scan_results)"@,
        ),
        has_part(
            CREATE_TEMPLATE_SQL@,
            "VALUES ($1, $2, $3, $4, $5, $6, $7, $8, $9, $10, $11, $12, $13, $14, $15)"@,
        ),
        has_part(CREATE_JOB_SQL@, "(source_type, source_uri, status)"@),
        has_part(CREATE_JOB_SQL@, "VALUES ($1, $2, 'pending')"@),
{
    reveal_strlit("INSERT INTO sandbox_templates (name, repo_url, description, base_image, dockerfile,
                 setup_script, languages, build_tools, pre_warm_count, resource_limits,
                 gates_config, tools_config, network_policy, status, scan_results)
                 VALUES ($1, $2, $3, $4, $5, $6, $7, $8, $9, $10, $11, $12, $13, $14, $15)
                 RETURNING id");
    reveal_strlit("(name, repo_url, description, base_image, dockerfile,");
    assert(CREATE_TEMPLATE_SQL@.subrange(30, 83)
        =~= "(name, repo_url, description, base_image, dockerfile,"@);
    assert(stands_at(
        CREATE_TEMPLATE_SQL@,
        "(name, repo_url, description, base_image, dockerfile,"@,
        30,
    ));
    reveal_strlit("setup_script, languages, build_tools, pre_warm_count, resource_limits,");
    assert(CREATE_TEMPLATE_SQL@.subrange(101, 171)
        =~= "setup_script, languages, build_tools, pre_warm_count, resource_limits,"@);
    assert(stands_at(
        CREATE_TEMPLATE_SQL@,
        "setup_script, languages, build_tools, pre_warm_count, resource_limits,"@,
        101,
    ));
    reveal_strlit("gates_config, tools_config, network_policy, status, scan_results)");
    assert(CREATE_TEMPLATE_SQL@.subrange(189, 254)
        =~= "gates_config, tools_config, network_policy, status, scan_results)"@);
    assert(stands_at(
        CREATE_TEMPLATE_SQL@,
        "gates_config, tools_config, network_policy, status, scan_results)"@,
        189,
    ));
    reveal_strlit("VALUES ($1, $2, $3, $4, $5, $6, $7, $8, $9, $10, $11, $12, $13, $14, $15)");
    assert(CREATE_TEMPLATE_SQL@.subrange(272, 345)
        =~= "VALUES ($1, $2, $3, $4, $5, $6, $7, $8, $9, $10, $11, $12, $13, $14, $15)"@);
    assert(stands_at(
        CREATE_TEMPLATE_SQL@,
        "VALUES ($1, $2, $3, $4, $5, $6, $7, $8, $9, $10, $11, $12, $13, $14, $15)"@,
        272,
    ));
    reveal_strlit("INSERT INTO ingestion_jobs (source_type, source_uri, status)
                 VALUES ($1, $2, 'pending') RETURNING id");
    reveal_strlit("(source_type, source_uri, status)");
    assert(CREATE_JOB_SQL@.subrange(27, 60) =~= "(source_type, source_uri, status)"@);
    assert(stands_at(CREATE_JOB_SQL@, "(source_type, source_uri, status)"@, 27));
    reveal_strlit("VALUES ($1, $2, 'pending')");
    assert(CREATE_JOB_SQL@.subrange(78, 104) =~= "VALUES ($1, $2, 'pending')"@);
    assert(stands_at(CREATE_JOB_SQL@, "VALUES ($1, $2, 'pending')"@, 78));
}

/// What is asked for by its identifier is found in the first row of the answer, and nothing is
/// found just where the answer has none.
pub proof fn law_found(
    run: Option<AgentRun>,
    run_rows: Seq<Row>,
    template: Option<SandboxTemplate>,
    template_rows: Seq<Row>,
)
    requires
        is_found_agent_run(run, run_rows),
        is_found_template(template, template_rows),
    ensures
        run is Some <==> run_rows.len() > 0,
        run matches Some(run) ==> {
            &&& run_rows[0].cell("id"@) == Some(SqlView::Uuid(Some(run.id)))
            &&& run_rows[0].cell("status"@) == Some(SqlView::Text(Some(run.status@)))
            &&& run_rows[0].cell("session_id"@) == Some(SqlView::Text(Some(run.session_id@)))
        },
        template is Some <==> template_rows.len() > 0,
        template matches Some(template) ==> {
            &&& template_rows[0].cell("id"@) == Some(SqlView::Uuid(Some(template.id)))
            &&& template_rows[0].cell("status"@) == Some(SqlView::Text(Some(template.status@)))
            &&& template_rows[0].cell("name"@) == Some(SqlView::Text(Some(template.name@)))
        },
{
}

} // verus!
