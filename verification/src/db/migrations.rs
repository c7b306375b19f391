//! Schema migrations: which are pending, and the steps that apply them.

use vstd::prelude::*;
use vstd::string::*;

use crate::db::graph::LOAD_AGE_SQL;
use crate::db::statement::{sql_views, statement, SqlValue, SqlView, Statement, StatementView};
use crate::number::{
    decimal, digits_value, law_decimal, law_three_digits, three_digit_text, three_digits,
};

verus! {

/// The first schema: agent runs, audit log, sandbox templates, ingestion jobs.
pub const V001_INIT_SCHEMA: &'static str = r#"
-- Agent runs (extends Goose sessions with enterprise fields)
CREATE TABLE IF NOT EXISTS agent_runs (
    id              UUID PRIMARY KEY DEFAULT gen_random_uuid(),
    session_id      VARCHAR(100) NOT NULL,
    trigger_source  VARCHAR(50) NOT NULL,
    trigger_ref     TEXT,
    sandbox_id      VARCHAR(100),
    template_id     UUID,
    status          VARCHAR(20) NOT NULL DEFAULT 'pending',
    pr_url          TEXT,
    started_at      TIMESTAMPTZ,
    completed_at    TIMESTAMPTZ,
    created_by      VARCHAR(200) NOT NULL,
    approved_by     VARCHAR(200),
    metadata        JSONB DEFAULT '{}',
    created_at      TIMESTAMPTZ DEFAULT now(),
    updated_at      TIMESTAMPTZ DEFAULT now()
);

CREATE INDEX IF NOT EXISTS idx_agent_runs_session ON agent_runs(session_id);
CREATE INDEX IF NOT EXISTS idx_agent_runs_status ON agent_runs(status);
CREATE INDEX IF NOT EXISTS idx_agent_runs_trigger ON agent_runs(trigger_source);

-- Full audit trail (banking compliance requirement)
CREATE TABLE IF NOT EXISTS audit_log (
    id              BIGSERIAL PRIMARY KEY,
    run_id          UUID REFERENCES agent_runs(id) ON DELETE SET NULL,
    timestamp       TIMESTAMPTZ DEFAULT now(),
    action_type     VARCHAR(50) NOT NULL,
    action_detail   JSONB NOT NULL,
    tool_name       VARCHAR(200),
    input_hash      VARCHAR(64),
    output_summary  TEXT,
    token_count     INT,
    gate_name       VARCHAR(100),
    gate_result     VARCHAR(20),
    risk_level      VARCHAR(20) DEFAULT 'low'
);

CREATE INDEX IF NOT EXISTS idx_audit_log_run ON audit_log(run_id);
CREATE INDEX IF NOT EXISTS idx_audit_log_timestamp ON audit_log(timestamp);
CREATE INDEX IF NOT EXISTS idx_audit_log_action ON audit_log(action_type);
CREATE INDEX IF NOT EXISTS idx_audit_log_gate ON audit_log(gate_name) WHERE gate_name IS NOT NULL;

-- Sandbox templates
CREATE TABLE IF NOT EXISTS sandbox_templates (
    id              UUID PRIMARY KEY DEFAULT gen_random_uuid(),
    name            VARCHAR(200) NOT NULL,
    repo_url        TEXT,
    description     TEXT,
    base_image      VARCHAR(500) NOT NULL,
    dockerfile      TEXT NOT NULL,
    setup_script    TEXT,
    languages       TEXT[] DEFAULT '{}',
    build_tools     TEXT[] DEFAULT '{}',
    pre_warm_count  INT DEFAULT 2,
    resource_limits JSONB DEFAULT '{"cpu": 2, "memory_mb": 4096, "disk_mb": 10240}',
    gates_config    JSONB DEFAULT '{"gates": []}',
    tools_config    JSONB DEFAULT '{"tools": []}',
    network_policy  JSONB DEFAULT '{"allow": [], "deny_all_external": true}',
    status          VARCHAR(20) DEFAULT 'draft',
    scan_results    JSONB,
    created_at      TIMESTAMPTZ DEFAULT now(),
    updated_at      TIMESTAMPTZ DEFAULT now()
);

CREATE INDEX IF NOT EXISTS idx_sandbox_templates_status ON sandbox_templates(status);
CREATE INDEX IF NOT EXISTS idx_sandbox_templates_name ON sandbox_templates(name);

-- Document ingestion tracking
CREATE TABLE IF NOT EXISTS ingestion_jobs (
    id              UUID PRIMARY KEY DEFAULT gen_random_uuid(),
    source_type     VARCHAR(50) NOT NULL,
    source_uri      TEXT NOT NULL,
    status          VARCHAR(20) DEFAULT 'pending',
    chunks_created  INT DEFAULT 0,
    graph_nodes     INT DEFAULT 0,
    graph_edges     INT DEFAULT 0,
    error_message   TEXT,
    started_at      TIMESTAMPTZ,
    completed_at    TIMESTAMPTZ,
    created_at      TIMESTAMPTZ DEFAULT now()
);

CREATE INDEX IF NOT EXISTS idx_ingestion_jobs_status ON ingestion_jobs(status);

-- Migration tracking
CREATE TABLE IF NOT EXISTS schema_migrations (
    version     INT PRIMARY KEY,
    applied_at  TIMESTAMPTZ DEFAULT now()
);
"#;

/// The codebase graph, with its node and edge labels.
pub const V002_AGE_GRAPH_SCHEMA: &'static str = r#"
-- Create the codebase graph in Apache AGE
SELECT * FROM ag_catalog.create_graph('codebase');

-- Vertex labels
SELECT * FROM ag_catalog.create_vlabel('codebase', 'File');
SELECT * FROM ag_catalog.create_vlabel('codebase', 'Function');
SELECT * FROM ag_catalog.create_vlabel('codebase', 'Class');
SELECT * FROM ag_catalog.create_vlabel('codebase', 'Service');
SELECT * FROM ag_catalog.create_vlabel('codebase', 'Team');
SELECT * FROM ag_catalog.create_vlabel('codebase', 'Package');
SELECT * FROM ag_catalog.create_vlabel('codebase', 'Config');
SELECT * FROM ag_catalog.create_vlabel('codebase', 'Document');

-- Edge labels
SELECT * FROM ag_catalog.create_elabel('codebase', 'IMPORTS');
SELECT * FROM ag_catalog.create_elabel('codebase', 'CALLS');
SELECT * FROM ag_catalog.create_elabel('codebase', 'DEPENDS_ON');
SELECT * FROM ag_catalog.create_elabel('codebase', 'OWNS');
SELECT * FROM ag_catalog.create_elabel('codebase', 'DEPLOYS_TO');
SELECT * FROM ag_catalog.create_elabel('codebase', 'EXTENDS');
SELECT * FROM ag_catalog.create_elabel('codebase', 'IMPLEMENTS');
SELECT * FROM ag_catalog.create_elabel('codebase', 'DEFINED_IN');
SELECT * FROM ag_catalog.create_elabel('codebase', 'TESTED_BY');
SELECT * FROM ag_catalog.create_elabel('codebase', 'DOCUMENTS');
"#;

/// The embeddings and their indexes.
pub const V003_PGVECTOR_TABLES: &'static str = r#"
-- Embedding storage with pgvector
CREATE TABLE IF NOT EXISTS embeddings (
    id          UUID PRIMARY KEY DEFAULT gen_random_uuid(),
    source_type VARCHAR(50) NOT NULL,
    source_id   VARCHAR(500) NOT NULL,
    chunk_index INT NOT NULL DEFAULT 0,
    content     TEXT NOT NULL,
    metadata    JSONB NOT NULL DEFAULT '{}',
    embedding   vector(384) NOT NULL,
    created_at  TIMESTAMPTZ DEFAULT now(),
    updated_at  TIMESTAMPTZ DEFAULT now()
);

CREATE INDEX IF NOT EXISTS idx_embeddings_source ON embeddings(source_type, source_id);
CREATE INDEX IF NOT EXISTS idx_embeddings_source_type ON embeddings(source_type);

-- IVFFlat index for cosine similarity search
-- Note: This index should be created AFTER initial data load for best performance.
-- With small datasets, a sequential scan may be faster.
-- For production with >10k embeddings, create with: lists = sqrt(num_rows)
CREATE INDEX IF NOT EXISTS idx_embeddings_vector ON embeddings
    USING ivfflat (embedding vector_cosine_ops) WITH (lists = 100);

-- Unique constraint to prevent duplicate chunks
CREATE UNIQUE INDEX IF NOT EXISTS idx_embeddings_unique_chunk
    ON embeddings(source_type, source_id, chunk_index);
"#;

/// Makes the table that notes which migrations were applied.
pub const CREATE_MIGRATIONS_TABLE_SQL: &'static str =
    "CREATE TABLE IF NOT EXISTS schema_migrations (
                version INT PRIMARY KEY,
                applied_at TIMESTAMPTZ DEFAULT now()
            );";

/// Lists the versions that were applied.
pub const APPLIED_VERSIONS_SQL: &'static str =
    "SELECT version FROM schema_migrations ORDER BY version";

/// Notes that a version was applied.
pub const RECORD_VERSION_SQL: &'static str =
    "INSERT INTO schema_migrations (version) VALUES ($1)";

/// A migration of the schema.
#[derive(Debug, Clone, Copy)]
pub struct Migration {
    pub version: i32,
    pub name: &'static str,
    pub sql: &'static str,
    /// If true, the migration needs the graph extension loaded first.
    pub requires_age: bool,
}

/// What a `Migration` says.
#[verifier::ext_equal]
pub struct MigrationView {
    pub version: i32,
    pub name: Seq<char>,
    pub sql: Seq<char>,
    pub requires_age: bool,
}

impl View for Migration {
    type V = MigrationView;

    open spec fn view(&self) -> MigrationView {
        MigrationView {
            version: self.version,
            name: self.name@,
            sql: self.sql@,
            requires_age: self.requires_age,
        }
    }
}

/// What a list of migrations says.
pub open spec fn migration_views(migrations: Seq<Migration>) -> Seq<MigrationView> {
    Seq::new(migrations.len(), |i: int| migrations[i]@)
}

/// All migrations, in the order in which they are applied.
pub open spec fn all_migrations() -> Seq<MigrationView> {
    seq![
        MigrationView {
            version: 1,
            name: "init_schema"@,
            sql: V001_INIT_SCHEMA@,
            requires_age: false,
        },
        MigrationView {
            version: 2,
            name: "age_graph_schema"@,
            sql: V002_AGE_GRAPH_SCHEMA@,
            requires_age: true,
        },
        MigrationView {
            version: 3,
            name: "pgvector_tables"@,
            sql: V003_PGVECTOR_TABLES@,
            requires_age: false,
        },
    ]
}

/// All migrations, in the order in which they are applied.
pub fn migrations() -> (r: Vec<Migration>)
    ensures
        migration_views(r@) == all_migrations(),
{
    let all: Vec<Migration> = vec![
        Migration {
            version: 1,
            name: "init_schema",
            sql: V001_INIT_SCHEMA,
            requires_age: false,
        },
        Migration {
            version: 2,
            name: "age_graph_schema",
            sql: V002_AGE_GRAPH_SCHEMA,
            requires_age: true,
        },
        Migration {
            version: 3,
            name: "pgvector_tables",
            sql: V003_PGVECTOR_TABLES,
            requires_age: false,
        },
    ];
    assert(migration_views(all@) =~= all_migrations());
    all
}

/// The migrations of a list that were not applied yet, in order.
pub open spec fn not_applied(migrations: Seq<MigrationView>, applied: Seq<i32>) -> Seq<
    MigrationView,
>
    decreases migrations.len(),
{
    if migrations.len() == 0 {
        Seq::empty()
    } else {
        let earlier = not_applied(migrations.drop_last(), applied);
        if applied.contains(migrations.last().version) {
            earlier
        } else {
            earlier.push(migrations.last())
        }
    }
}

/// The migrations that were not applied yet, in order.
pub open spec fn pending_migrations(applied: Seq<i32>) -> Seq<MigrationView> {
    not_applied(all_migrations(), applied)
}

fn is_applied(applied: &Vec<i32>, version: i32) -> (r: bool)
    ensures
        r == applied@.contains(version),
{
    let mut i: usize = 0;
    while i < applied.len()
        invariant
            i <= applied@.len(),
            forall|k: int| 0 <= k < i ==> applied@[k] != version,
        decreases applied@.len() - i,
    {
        if applied[i] == version {
            return true;
        }
        i += 1;
    }
    false
}

/// The migrations that were not applied yet, in order.
pub fn pending(applied: &Vec<i32>) -> (r: Vec<Migration>)
    ensures
        migration_views(r@) == pending_migrations(applied@),
{
    let all = migrations();
    let ghost texts = all_migrations();
    let mut out: Vec<Migration> = Vec::new();
    let mut i: usize = 0;
    assert(migration_views(out@) =~= not_applied(texts.take(0), applied@));
    while i < all.len()
        invariant
            i <= all@.len(),
            migration_views(all@) == texts,
            migration_views(out@) == not_applied(texts.take(i as int), applied@),
        decreases all@.len() - i,
    {
        let migration = all[i];
        let ghost done = migration_views(out@);
        proof {
            assert(texts.take(i + 1).drop_last() =~= texts.take(i as int));
            assert(texts[i as int] == migration@);
        }
        if !is_applied(applied, migration.version) {
            out.push(migration);
            assert(migration_views(out@) =~= done.push(migration@));
        }
        i += 1;
    }
    assert(texts.take(i as int) =~= texts);
    out
}

// ---------------------------------------------------------------------------
// Steps
// ---------------------------------------------------------------------------

/// A step of applying migrations.
#[derive(Debug, Clone, Copy)]
pub enum MigrationStep {
    /// Loads the graph extension.
    LoadAge,
    /// Runs the script of a migration.
    Apply(Migration),
    /// Notes that a migration was applied.
    Record(Migration),
}

/// What a `MigrationStep` does.
pub enum StepView {
    LoadAge,
    Apply(MigrationView),
    Record(MigrationView),
}

impl View for MigrationStep {
    type V = StepView;

    open spec fn view(&self) -> StepView {
        match self {
            MigrationStep::LoadAge => StepView::LoadAge,
            MigrationStep::Apply(m) => StepView::Apply(m@),
            MigrationStep::Record(m) => StepView::Record(m@),
        }
    }
}

/// What a list of steps does.
pub open spec fn step_views(steps: Seq<MigrationStep>) -> Seq<StepView> {
    Seq::new(steps.len(), |i: int| steps[i]@)
}

/// The steps that apply one migration.
pub open spec fn steps_of(migration: MigrationView) -> Seq<StepView> {
    if migration.requires_age {
        seq![StepView::LoadAge, StepView::Apply(migration), StepView::Record(migration)]
    } else {
        seq![StepView::Apply(migration), StepView::Record(migration)]
    }
}

/// The steps that apply migrations one after the other.
pub open spec fn all_steps(migrations: Seq<MigrationView>) -> Seq<StepView>
    decreases migrations.len(),
{
    if migrations.len() == 0 {
        Seq::empty()
    } else {
        all_steps(migrations.drop_last()) + steps_of(migrations.last())
    }
}

/// Run all pending migrations: the steps, in order, given the versions that were applied.
/// A step that fails is the last one to be tried.
pub fn run(applied: &Vec<i32>) -> (r: Vec<MigrationStep>)
    ensures
        step_views(r@) == all_steps(pending_migrations(applied@)),
        forall|i: int| 0 <= i < r@.len() ==> (#[trigger] r@[i]).is_numbered(),
{
    let todo = pending(applied);
    let ghost texts = pending_migrations(applied@);
    proof {
        lemma_not_applied(all_migrations(), applied@);
        assert forall|i: int| 0 <= i < texts.len() implies (#[trigger] texts[i]).version >= 0 by {
            assert(all_migrations().contains(texts[i]));
        }
    }
    let mut steps: Vec<MigrationStep> = Vec::new();
    let mut i: usize = 0;
    assert(step_views(steps@) =~= all_steps(texts.take(0)));
    while i < todo.len()
        invariant
            i <= todo@.len(),
            migration_views(todo@) == texts,
            step_views(steps@) == all_steps(texts.take(i as int)),
            forall|i: int| 0 <= i < texts.len() ==> (#[trigger] texts[i]).version >= 0,
            forall|i: int| 0 <= i < steps@.len() ==> (#[trigger] steps@[i]).is_numbered(),
        decreases todo@.len() - i,
    {
        let migration = todo[i];
        let ghost done = step_views(steps@);
        assert(texts[i as int] == migration@);
        if migration.requires_age {
            steps.push(MigrationStep::LoadAge);
        }
        steps.push(MigrationStep::Apply(migration));
        steps.push(MigrationStep::Record(migration));
        proof {
            assert(texts.take(i + 1).drop_last() =~= texts.take(i as int));
            assert(step_views(steps@) =~= done + steps_of(migration@));
        }
        i += 1;
    }
    assert(texts.take(i as int) =~= texts);
    steps
}

/// The version of a migration with three digits at least, after a letter.
pub open spec fn version_label(version: i32) -> Seq<char> {
    "V"@ + three_digits(version as nat)
}

fn version_text(version: i32) -> (r: String)
    requires
        version >= 0,
    ensures
        r@ == version_label(version),
{
    let mut text = "V".to_owned();
    text.append(three_digit_text(version as u64).as_str());
    text
}

impl Migration {
    /// The version and the name of the migration.
    pub fn label(&self) -> (r: String)
        requires
            self.version >= 0,
        ensures
            r@ == version_label(self.version) + ": "@ + self.name@,
    {
        let mut text = version_text(self.version);
        text.append(": ");
        text.append(self.name);
        text
    }
}

impl MigrationStep {
    /// The step is one of a migration with a version that is not negative.
    pub open spec fn is_numbered(self) -> bool {
        match self {
            MigrationStep::LoadAge => true,
            MigrationStep::Apply(m) => m.version >= 0,
            MigrationStep::Record(m) => m.version >= 0,
        }
    }

    /// The statement that the step sends.
    pub open spec fn sends(self) -> StatementView {
        match self {
            MigrationStep::LoadAge => statement(LOAD_AGE_SQL, Seq::empty()),
            MigrationStep::Apply(m) => statement(m.sql, Seq::empty()),
            MigrationStep::Record(m) => statement(
                RECORD_VERSION_SQL,
                seq![SqlView::Int(Some(m.version))],
            ),
        }
    }

    /// The statement that the step sends.
    pub fn to_statement(&self) -> (r: Statement)
        ensures
            r@ == self.sends(),
    {
        let mut params: Vec<SqlValue> = Vec::new();
        match self {
            MigrationStep::LoadAge => {
                assert(sql_views(params@) =~= Seq::empty());
                Statement::new(LOAD_AGE_SQL, params)
            },
            MigrationStep::Apply(m) => {
                assert(sql_views(params@) =~= Seq::empty());
                Statement::new(m.sql, params)
            },
            MigrationStep::Record(m) => {
                params.push(SqlValue::Int(Some(m.version)));
                assert(sql_views(params@) =~= seq![SqlView::Int(Some(m.version))]);
                Statement::new(RECORD_VERSION_SQL, params)
            },
        }
    }

    /// What is said where the step fails.
    pub fn failure(&self) -> (r: String)
        requires
            self.is_numbered(),
        ensures
            r@ == (match *self {
                MigrationStep::LoadAge => "Failed to load AGE for migration"@,
                MigrationStep::Apply(m) => "Failed to apply migration "@ + (version_label(m.version)
                    + ": "@ + m.name@),
                MigrationStep::Record(m) => "Failed to record migration "@ + version_label(
                    m.version,
                ),
            }),
    {
        match self {
            MigrationStep::LoadAge => "Failed to load AGE for migration".to_owned(),
            MigrationStep::Apply(m) => {
                let mut text = "Failed to apply migration ".to_owned();
                text.append(m.label().as_str());
                text
            },
            MigrationStep::Record(m) => {
                let mut text = "Failed to record migration ".to_owned();
                text.append(version_text(m.version).as_str());
                text
            },
        }
    }
}

// ---------------------------------------------------------------------------
// Laws
// ---------------------------------------------------------------------------

/// The versions of a list of migrations.
pub open spec fn versions(migrations: Seq<MigrationView>) -> Seq<i32> {
    Seq::new(migrations.len(), |i: int| migrations[i].version)
}

/// No two migrations have one version, and the versions ascend.
pub proof fn law_versions_ascend(i: int, j: int)
    requires
        0 <= i < j < all_migrations().len(),
    ensures
        all_migrations()[i].version < all_migrations()[j].version,
{
}

proof fn lemma_not_applied(migrations: Seq<MigrationView>, applied: Seq<i32>)
    ensures
        forall|k: int|
            0 <= k < not_applied(migrations, applied).len() ==> !applied.contains(
                (#[trigger] not_applied(migrations, applied)[k]).version,
            ) && migrations.contains(not_applied(migrations, applied)[k]),
    decreases migrations.len(),
{
    if migrations.len() > 0 {
        let front = migrations.drop_last();
        lemma_not_applied(front, applied);
        assert forall|k: int| 0 <= k < not_applied(migrations, applied).len() implies
            !applied.contains((#[trigger] not_applied(migrations, applied)[k]).version)
            && migrations.contains(not_applied(migrations, applied)[k]) by {
            let m = not_applied(migrations, applied)[k];
            if k < not_applied(front, applied).len() {
                assert(m == not_applied(front, applied)[k]);
                let i = choose|i: int| 0 <= i < front.len() && front[i] == m;
                assert(migrations[i] == m);
            } else {
                assert(migrations[migrations.len() - 1] == m);
            }
        }
    }
}

/// Whatever was applied before: a migration that is pending was not applied, and is one
/// of the known migrations.
pub proof fn law_pending_not_applied(applied: Seq<i32>, k: int)
    requires
        0 <= k < pending_migrations(applied).len(),
    ensures
        !applied.contains(pending_migrations(applied)[k].version),
        all_migrations().contains(pending_migrations(applied)[k]),
{
    lemma_not_applied(all_migrations(), applied);
}

/// The versions of a list of migrations ascend.
pub open spec fn ascending(migrations: Seq<MigrationView>) -> bool {
    forall|i: int, j: int|
        0 <= i < j < migrations.len() ==> (#[trigger] migrations[i]).version < (
        #[trigger] migrations[j]).version
}

proof fn lemma_ascending(migrations: Seq<MigrationView>, applied: Seq<i32>)
    requires
        ascending(migrations),
    ensures
        ascending(not_applied(migrations, applied)),
    decreases migrations.len(),
{
    if migrations.len() > 0 {
        let front = migrations.drop_last();
        lemma_ascending(front, applied);
        lemma_not_applied(front, applied);
        let todo = not_applied(migrations, applied);
        assert forall|i: int, j: int| 0 <= i < j < todo.len() implies (#[trigger] todo[i]).version
            < (#[trigger] todo[j]).version by {
            let earlier = not_applied(front, applied);
            assert(todo[i] == earlier[i]);
            if j < earlier.len() {
                assert(todo[j] == earlier[j]);
            } else {
                let k = choose|k: int| 0 <= k < front.len() && front[k] == earlier[i];
                assert(migrations[k] == front[k]);
            }
        }
    }
}

proof fn lemma_complete(migrations: Seq<MigrationView>, applied: Seq<i32>, k: int)
    requires
        0 <= k < migrations.len(),
        !applied.contains(migrations[k].version),
    ensures
        not_applied(migrations, applied).contains(migrations[k]),
    decreases migrations.len(),
{
    let front = migrations.drop_last();
    let earlier = not_applied(front, applied);
    let todo = not_applied(migrations, applied);
    if k < front.len() {
        assert(front[k] == migrations[k]);
        lemma_complete(front, applied, k);
        let i = choose|i: int| 0 <= i < earlier.len() && earlier[i] == front[k];
        assert(todo[i] == migrations[k]);
    } else {
        assert(todo[earlier.len() as int] == migrations[k]);
    }
}

/// Where the versions up to a bound are recorded as well, what is pending are the
/// migrations above the bound that were pending before.
proof fn lemma_resume(migrations: Seq<MigrationView>, applied: Seq<i32>, noted: Seq<i32>, bound: int)
    requires
        ascending(migrations),
        forall|k: int|
            0 <= k < migrations.len() ==> (noted.contains((#[trigger] migrations[k]).version)
                <==> applied.contains(migrations[k].version) || migrations[k].version <= bound),
    ensures
        ({
            let todo = not_applied(migrations, applied);
            let rest = not_applied(migrations, noted);
            let cut = todo.len() - rest.len();
            &&& 0 <= cut
            &&& rest == todo.skip(cut)
            &&& forall|i: int| 0 <= i < cut ==> (#[trigger] todo[i]).version <= bound
            &&& forall|i: int| cut <= i < todo.len() ==> (#[trigger] todo[i]).version > bound
        }),
    decreases migrations.len(),
{
    if migrations.len() > 0 {
        let front = migrations.drop_last();
        let last = migrations.last();
        assert forall|k: int| 0 <= k < front.len() implies (noted.contains(
            (#[trigger] front[k]).version,
        ) <==> applied.contains(front[k].version) || front[k].version <= bound) by {
            assert(front[k] == migrations[k]);
        }
        lemma_resume(front, applied, noted, bound);
        assert(last == migrations[migrations.len() - 1]);
        let todo = not_applied(front, applied);
        let rest = not_applied(front, noted);
        if !applied.contains(last.version) {
            if last.version <= bound {
                lemma_not_applied(front, applied);
                assert(rest.len() == 0) by {
                    if rest.len() > 0 {
                        let i = todo.len() - 1;
                        assert(todo[i].version > bound);
                        let k = choose|k: int| 0 <= k < front.len() && front[k] == todo[i];
                        assert(migrations[k] == front[k]);
                    }
                }
                assert(not_applied(migrations, noted) =~= todo.push(last).skip(
                    todo.len() as int + 1,
                ));
            } else {
                assert(rest.push(last) =~= todo.push(last).skip(todo.len() - rest.len()));
            }
        }
    } else {
        assert(not_applied(migrations, noted) =~= not_applied(migrations, applied).skip(0));
    }
}

/// Where the first `n` pending migrations have been recorded, the others are what is
/// pending: a run that stopped halfway goes on where it stopped, and after a full run
/// nothing is pending.
pub proof fn law_run_resumes(applied: Seq<i32>, n: int)
    requires
        0 <= n <= pending_migrations(applied).len(),
    ensures
        pending_migrations(applied + versions(pending_migrations(applied).take(n)))
            == pending_migrations(applied).skip(n),
        n == pending_migrations(applied).len() ==> pending_migrations(
            applied + versions(pending_migrations(applied)),
        ).len() == 0,
{
    let all = all_migrations();
    let todo = pending_migrations(applied);
    let noted = applied + versions(todo.take(n));
    let bound: int = if n == 0 {
        0
    } else {
        todo[n - 1].version as int
    };
    lemma_ascending(all, applied);
    assert forall|k: int| 0 <= k < all.len() implies (noted.contains((#[trigger] all[k]).version)
        <==> applied.contains(all[k].version) || all[k].version <= bound) by {
        let v = all[k].version;
        let first = versions(todo.take(n));
        if noted.contains(v) && !applied.contains(v) {
            let i = choose|i: int| 0 <= i < noted.len() && noted[i] == v;
            assert(i >= applied.len());
            assert(first[i - applied.len()] == todo[i - applied.len()].version);
        }
        if applied.contains(v) {
            let i = choose|i: int| 0 <= i < applied.len() && applied[i] == v;
            assert(noted[i] == v);
        }
        if v <= bound && !applied.contains(v) {
            lemma_complete(all, applied, k);
            let i = choose|i: int| 0 <= i < todo.len() && todo[i] == all[k];
            assert(i < n);
            assert(noted[applied.len() + i] == v);
        }
    }
    lemma_resume(all, applied, noted, bound);
    let cut = todo.len() - pending_migrations(noted).len();
    lemma_not_applied(all, applied);
    assert(cut == n) by {
        if n > 0 {
            assert(todo[n - 1].version <= bound);
        } else if cut > 0 {
            assert(todo[0].version <= 0);
            assert(all.contains(todo[0]));
        }
        if cut > n {
            assert(todo[n].version <= bound);
        }
    }
    if n == todo.len() {
        assert(todo.take(n) =~= todo);
    }
}

/// Whatever was applied before: each known migration that was not applied is pending.
pub proof fn law_pending_complete(applied: Seq<i32>, k: int)
    requires
        0 <= k < all_migrations().len(),
        !applied.contains(all_migrations()[k].version),
    ensures
        pending_migrations(applied).contains(all_migrations()[k]),
{
    lemma_complete(all_migrations(), applied, k);
}

/// Pending migrations are applied in the order of their versions.
pub proof fn law_pending_ascend(applied: Seq<i32>, i: int, j: int)
    requires
        0 <= i < j < pending_migrations(applied).len(),
    ensures
        pending_migrations(applied)[i].version < pending_migrations(applied)[j].version,
{
    lemma_ascending(all_migrations(), applied);
}

/// Migrations are applied one after the other: the steps of two lists are those of the first,
/// and then those of the second.
pub proof fn law_steps_in_parts(a: Seq<MigrationView>, b: Seq<MigrationView>)
    ensures
        all_steps(a + b) == all_steps(a) + all_steps(b),
    decreases b.len(),
{
    if b.len() == 0 {
        assert(a + b =~= a);
        assert(all_steps(a) + all_steps(b) =~= all_steps(a));
    } else {
        law_steps_in_parts(a, b.drop_last());
        assert((a + b).drop_last() =~= a + b.drop_last());
        assert((a + b).last() == b.last());
        assert((all_steps(a) + all_steps(b.drop_last())) + steps_of(b.last()) =~= all_steps(a)
            + all_steps(b));
    }
}

/// A migration is applied and then recorded, and the graph extension is loaded before it where
/// it needs that.
pub proof fn law_steps_of_one(migration: MigrationView)
    ensures
        migration.requires_age ==> all_steps(seq![migration]) == seq![
            StepView::LoadAge,
            StepView::Apply(migration),
            StepView::Record(migration),
        ],
        !migration.requires_age ==> all_steps(seq![migration]) == seq![
            StepView::Apply(migration),
            StepView::Record(migration),
        ],
{
    let one = seq![migration];
    assert(one.drop_last() =~= Seq::empty());
    assert(one.last() == migration);
    assert(all_steps(one.drop_last()) =~= Seq::empty());
    assert(all_steps(one) =~= steps_of(migration));
}

/// A step sends the script of its migration, or the version that it records.
pub proof fn law_steps_send(step: MigrationStep)
    ensures
        match step {
            MigrationStep::LoadAge => step.sends().sql == LOAD_AGE_SQL@ && step.sends().params.len()
                == 0,
            MigrationStep::Apply(m) => step.sends().sql == m.sql@ && step.sends().params.len() == 0,
            MigrationStep::Record(m) => step.sends().sql == RECORD_VERSION_SQL@
                && step.sends().params == seq![SqlView::Int(Some(m.version))],
        },
{
}

/// Migrations and steps are seen as they are, in order.
pub proof fn law_migrations_seen(migrations: Seq<Migration>, steps: Seq<MigrationStep>)
    ensures
        migration_views(migrations).len() == migrations.len(),
        forall|i: int|
            0 <= i < migrations.len() ==> {
                let seen = #[trigger] migration_views(migrations)[i];
                &&& seen.version == migrations[i].version
                &&& seen.name == migrations[i].name@
                &&& seen.sql == migrations[i].sql@
                &&& seen.requires_age == migrations[i].requires_age
            },
        step_views(steps).len() == steps.len(),
        forall|i: int|
            0 <= i < steps.len() ==> match steps[i] {
                MigrationStep::LoadAge => #[trigger] step_views(steps)[i] == StepView::LoadAge,
                MigrationStep::Apply(m) => step_views(steps)[i] == StepView::Apply(m@),
                MigrationStep::Record(m) => step_views(steps)[i] == StepView::Record(m@),
            },
{
}

/// A migration is told by a letter and its number, which has three digits at least: migrations
/// with different numbers are told apart.
pub proof fn law_labels(a: i32, b: i32)
    requires
        a >= 0,
        b >= 0,
    ensures
        version_label(a).len() >= 4,
        version_label(a)[0] == 'V',
        digits_value(version_label(a).skip(1)) == a,
        version_label(a) == version_label(b) <==> a == b,
{
    reveal_strlit("V");
    law_decimal(a as nat);
    law_three_digits(a as nat);
    law_three_digits(b as nat);
    assert(version_label(a).skip(1) =~= three_digits(a as nat));
    assert(version_label(b).skip(1) =~= three_digits(b as nat));
    if a >= 1000 {
        reveal_with_fuel(decimal, 4);
    }
}

} // verus!
