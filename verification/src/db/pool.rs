//! Settings of the connection, and the context store.

use vstd::prelude::*;

use crate::db::graph::GraphStore;
use crate::db::migrations::{all_steps, pending_migrations, run, step_views, MigrationStep};
use crate::db::relational::RelationalStore;
use crate::db::vector::VectorStore;
use crate::number::{decimal, law_decimal, parse_number, parsed_number};
use crate::text::opt_view;

verus! {

/// Loads the extensions that the context store needs.
pub const LOAD_EXTENSIONS_SQL: &'static str =
    "CREATE EXTENSION IF NOT EXISTS vector; LOAD 'age'; SET search_path = ag_catalog, \"$user\", public;";

/// What is said where the extensions cannot be loaded.
pub const LOAD_EXTENSIONS_FAILED: &'static str =
    "Failed to load PostgreSQL extensions (vector, age). Ensure pgvector and Apache AGE are installed.";

/// What is said where there is no connection to be had for a statement.
pub const NO_CLIENT: &'static str = "Failed to get DB client";

/// The host that is used where none is given.
pub const DEFAULT_HOST: &'static str = "localhost";

/// The port that is used where none is given.
pub const DEFAULT_PORT: u16 = 5432;

/// The database that is used where none is given.
pub const DEFAULT_DATABASE: &'static str = "goose_context";

/// The user that is used where none is given.
pub const DEFAULT_USER: &'static str = "goose";

/// The size of the pool where none is given.
pub const DEFAULT_POOL_SIZE: usize = 16;

/// Configuration for connecting to PostgreSQL with AGE + pgvector.
#[derive(Debug, Clone)]
pub struct ContextStoreConfig {
    pub host: String,
    pub port: u16,
    pub database: String,
    pub user: String,
    pub password: String,
    pub max_pool_size: usize,
}

impl Default for ContextStoreConfig {
    fn default() -> (r: ContextStoreConfig)
        ensures
            r.host@ == DEFAULT_HOST@,
            r.port == DEFAULT_PORT,
            r.database@ == DEFAULT_DATABASE@,
            r.user@ == DEFAULT_USER@,
            r.password@ == Seq::<char>::empty(),
            r.max_pool_size == DEFAULT_POOL_SIZE,
    {
        ContextStoreConfig {
            host: DEFAULT_HOST.to_owned(),
            port: DEFAULT_PORT,
            database: DEFAULT_DATABASE.to_owned(),
            user: DEFAULT_USER.to_owned(),
            password: String::new(),
            max_pool_size: DEFAULT_POOL_SIZE,
        }
    }
}

/// The text that is given, or the default.
pub open spec fn given_or(given: Option<Seq<char>>, default: Seq<char>) -> Seq<char> {
    match given {
        Some(text) => text,
        None => default,
    }
}

/// The number that is given, or the default where none is given or it is no number that
/// fits.
pub open spec fn number_or(given: Option<Seq<char>>, max: nat, default: nat) -> nat {
    match given {
        Some(text) => match parsed_number(text, max) {
            Some(n) => n,
            None => default,
        },
        None => default,
    }
}

fn given_text(given: Option<String>, default: &str) -> (r: String)
    ensures
        r@ == given_or(opt_view(given), default@),
{
    match given {
        Some(text) => text,
        None => default.to_owned(),
    }
}

fn given_number(given: Option<String>, max: u64, default: u64) -> (r: u64)
    requires
        default <= max,
    ensures
        r == number_or(opt_view(given), max as nat, default as nat),
        r <= max,
{
    match given {
        Some(text) => match parse_number(text.as_str(), max) {
            Some(n) => n,
            None => default,
        },
        None => default,
    }
}

impl ContextStoreConfig {
    /// Load config from environment variables: each argument is the value of its variable,
    /// if it is set.
    pub fn from_env(
        host: Option<String>,
        port: Option<String>,
        database: Option<String>,
        user: Option<String>,
        password: Option<String>,
        pool_size: Option<String>,
    ) -> (r: ContextStoreConfig)
        ensures
            r.host@ == given_or(opt_view(host), DEFAULT_HOST@),
            r.port == number_or(opt_view(port), u16::MAX as nat, DEFAULT_PORT as nat),
            r.database@ == given_or(opt_view(database), DEFAULT_DATABASE@),
            r.user@ == given_or(opt_view(user), DEFAULT_USER@),
            r.password@ == given_or(opt_view(password), Seq::empty()),
            r.max_pool_size == number_or(
                opt_view(pool_size),
                usize::MAX as nat,
                DEFAULT_POOL_SIZE as nat,
            ),
    {
        let port: u64 = given_number(port, u16::MAX as u64, DEFAULT_PORT as u64);
        let size: u64 = given_number(pool_size, usize::MAX as u64, DEFAULT_POOL_SIZE as u64);
        let password = match password {
            Some(text) => text,
            None => String::new(),
        };
        ContextStoreConfig {
            host: given_text(host, DEFAULT_HOST),
            port: port as u16,
            database: given_text(database, DEFAULT_DATABASE),
            user: given_text(user, DEFAULT_USER),
            password,
            max_pool_size: size as usize,
        }
    }
}

/// Three-tier context store backed by PostgreSQL (AGE + pgvector + relational).
///
/// Provides unified access to:
/// - Graph queries via Apache AGE (Cypher)
/// - Vector similarity search via pgvector
/// - Structured data via standard SQL
#[derive(Debug, Clone)]
pub struct ContextStore {
    graph: GraphStore,
    vector: VectorStore,
    relational: RelationalStore,
}

impl ContextStore {
    /// The name of the graph of the store.
    pub closed spec fn graph_name(self) -> Seq<char> {
        self.graph.name()
    }

    /// The store of the codebase.
    pub fn new() -> (r: ContextStore)
        ensures
            r.graph_name() == "codebase"@,
    {
        ContextStore {
            graph: GraphStore::new(),
            vector: VectorStore::new(),
            relational: RelationalStore::new(),
        }
    }

    /// Run database migrations: the steps, given the versions that were applied.
    pub fn run_migrations(&self, applied: &Vec<i32>) -> (r: Vec<MigrationStep>)
        ensures
            step_views(r@) == all_steps(pending_migrations(applied@)),
            forall|i: int| 0 <= i < r@.len() ==> (#[trigger] r@[i]).is_numbered(),
    {
        run(applied)
    }

    /// Access the graph store (Apache AGE).
    pub fn graph(&self) -> (r: &GraphStore)
        ensures
            r.name() == self.graph_name(),
    {
        &self.graph
    }

    /// Access the vector store (pgvector).
    pub fn vector(&self) -> (r: &VectorStore)
        ensures
            *r == (VectorStore {  }),
    {
        &self.vector
    }

    /// Access the relational store (standard SQL).
    pub fn relational(&self) -> (r: &RelationalStore)
        ensures
            *r == (RelationalStore {  }),
    {
        &self.relational
    }
}

// ---------------------------------------------------------------------------
// Laws
// ---------------------------------------------------------------------------

/// What is given is used: a text as it is, and a number wherever its numeral stands for one that
/// fits. The default is used only where nothing is given, or no such number.
pub proof fn law_given_values(text: Seq<char>, n: nat, max: nat, default: nat, other: Seq<char>)
    ensures
        given_or(Some(text), other) == text,
        given_or(None, other) == other,
        n <= max ==> number_or(Some(decimal(n)), max, default) == n,
        n > max ==> number_or(Some(decimal(n)), max, default) == default,
        number_or(None, max, default) == default,
{
    law_decimal(n);
}

} // verus!
