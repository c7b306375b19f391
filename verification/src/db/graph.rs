//! Cypher queries against the codebase graph, on Apache AGE.

use vstd::prelude::*;
use vstd::string::*;

use crate::json::{json_parse, json_views, quoted, Json, JsonScalar};
use crate::number::{decimal, decimal_text};
use crate::text::{opt_str_view, views};

verus! {

/// Loads the graph extension for a connection.
pub const LOAD_AGE_SQL: &'static str =
    "LOAD 'age'; SET search_path = ag_catalog, \"$user\", public;";

/// What is said where the extension cannot be loaded.
pub const LOAD_AGE_FAILED: &'static str = "Failed to load AGE";

/// Graph store backed by Apache AGE on PostgreSQL.
///
/// Writes the Cypher queries of common operations on the codebase graph.
#[derive(Debug, Clone)]
pub struct GraphStore {
    graph_name: String,
}

/// A node returned from a graph query.
#[derive(Debug, Clone)]
pub struct GraphNode {
    pub id: String,
    pub label: String,
    pub properties: Json,
}

/// An edge returned from a graph query.
#[derive(Debug, Clone)]
pub struct GraphEdge {
    pub id: String,
    pub label: String,
    pub start_id: String,
    pub end_id: String,
    pub properties: Json,
}

/// A Cypher query and the SQL that runs it.
#[derive(Debug, Clone)]
pub struct GraphQuery {
    pub cypher: String,
    pub sql: String,
}

/// Result of a graph query: rows of nodes, edges, or scalar values.
#[derive(Debug, Clone)]
pub struct GraphQueryResult {
    pub columns: Vec<String>,
    pub rows: Vec<Vec<Json>>,
    pub row_count: usize,
}

/// The SQL that runs a Cypher query on a graph.
pub open spec fn cypher_sql(graph: Seq<char>, cypher: Seq<char>) -> Seq<char> {
    "SELECT * FROM ag_catalog.cypher('"@ + graph + "', $$ "@ + cypher
        + " $$) AS (result ag_catalog.agtype);"@
}

impl GraphQuery {
    /// The query runs that Cypher on that graph.
    pub open spec fn runs(self, graph: Seq<char>, cypher: Seq<char>) -> bool {
        self.cypher@ == cypher && self.sql@ == cypher_sql(graph, cypher)
    }

    /// What is said where the query fails.
    pub fn failure(&self) -> (r: String)
        ensures
            r@ == "Cypher query failed: "@ + self.cypher@,
    {
        let mut text = "Cypher query failed: ".to_owned();
        text.append(self.cypher.as_str());
        text
    }
}

/// The JSON value that an answer of the graph holds: what it says as JSON, or else the
/// answer as a string.
pub open spec fn graph_value(answer: Seq<char>) -> Seq<char> {
    match json_parse(answer) {
        Some(value) => value,
        None => quoted(answer),
    }
}

fn read_value(answer: &str) -> (r: Json)
    ensures
        r@ == graph_value(answer@),
{
    match Json::parse(answer) {
        Some(value) => value,
        None => Json::scalar(&JsonScalar::Text(answer.to_owned())),
    }
}

/// The values of the rows of a result.
pub open spec fn row_views(rows: Seq<Vec<Json>>) -> Seq<Seq<Seq<char>>> {
    Seq::new(rows.len(), |i: int| json_views(rows[i]@))
}

/// The rows of a result: one for each answer, with the one value.
pub open spec fn graph_rows(answers: Seq<Seq<char>>) -> Seq<Seq<Seq<char>>> {
    Seq::new(answers.len(), |i: int| seq![graph_value(answers[i])])
}

impl GraphQueryResult {
    /// The result of a query that the graph answered with these rows.
    pub fn from_answers(answers: &Vec<String>) -> (r: GraphQueryResult)
        ensures
            views(r.columns@) == seq!["result"@],
            row_views(r.rows@) == graph_rows(views(answers@)),
            r.row_count == answers@.len(),
    {
        let mut rows: Vec<Vec<Json>> = Vec::new();
        let ghost all = graph_rows(views(answers@));
        let mut i: usize = 0;
        while i < answers.len()
            invariant
                i <= answers@.len(),
                all == graph_rows(views(answers@)),
                row_views(rows@) == all.take(i as int),
            decreases answers@.len() - i,
        {
            let value = read_value(answers[i].as_str());
            let mut row: Vec<Json> = Vec::new();
            row.push(value);
            let ghost done = row_views(rows@);
            rows.push(row);
            proof {
                assert(json_views(row@) =~= all[i as int]);
                assert(row_views(rows@) =~= done.push(json_views(row@)));
                assert(all.take(i + 1) =~= all.take(i as int).push(all[i as int]));
            }
            i += 1;
        }
        let mut columns: Vec<String> = Vec::new();
        columns.push("result".to_owned());
        proof {
            assert(views(columns@) =~= seq!["result"@]);
            assert(all.take(i as int) =~= all);
        }
        let row_count: usize = rows.len();
        GraphQueryResult { columns, rows, row_count }
    }
}

/// A document that may be absent.
pub open spec fn opt_json_ref_view(json: Option<&Json>) -> Option<Seq<char>> {
    match json {
        Some(json) => Some(json@),
        None => None,
    }
}

/// The properties of an edge, none if they are not given.
pub open spec fn properties_text(properties: Option<Seq<char>>) -> Seq<char> {
    match properties {
        Some(text) => text,
        None => "{}"@,
    }
}

/// The condition of a query, with the word before it, if there is one.
pub open spec fn where_clause(filter: Option<Seq<char>>) -> Seq<char> {
    match filter {
        Some(filter) => " WHERE "@ + filter,
        None => ""@,
    }
}

fn properties_or_none(properties: Option<&Json>) -> (r: String)
    ensures
        r@ == properties_text(opt_json_ref_view(properties)),
{
    match properties {
        Some(json) => json.as_text().to_owned(),
        None => "{}".to_owned(),
    }
}

fn where_text(filter: Option<&str>) -> (r: String)
    ensures
        r@ == where_clause(opt_str_view(filter)),
{
    match filter {
        Some(filter) => {
            let mut text = " WHERE ".to_owned();
            text.append(filter);
            text
        },
        None => "".to_owned(),
    }
}

/// The Cypher of `GraphStore::create_node`.
pub open spec fn create_node_cypher(label: Seq<char>, properties: Seq<char>) -> Seq<char> {
    "CREATE (n:"@ + label + " "@ + properties + ") RETURN n"@
}

/// The Cypher of `GraphStore::create_edge`.
pub open spec fn create_edge_cypher(
    from_label: Seq<char>,
    from_match: Seq<char>,
    to_label: Seq<char>,
    to_match: Seq<char>,
    edge_label: Seq<char>,
    properties: Option<Seq<char>>,
) -> Seq<char> {
    "MATCH (a:"@ + from_label + " {"@ + from_match + "}), (b:"@ + to_label + " {"@ + to_match
        + "}) CREATE (a)-[e:"@ + edge_label + " "@ + properties_text(properties)
        + "]->(b) RETURN e"@
}

/// The Cypher of `GraphStore::find_neighbors`.
pub open spec fn find_neighbors_cypher(
    label: Seq<char>,
    match_clause: Seq<char>,
    depth: nat,
) -> Seq<char> {
    "MATCH (n:"@ + label + " {"@ + match_clause + "})-[*1.."@ + decimal(depth)
        + "]-(neighbor) RETURN DISTINCT neighbor"@
}

/// The Cypher of `GraphStore::find_path`.
pub open spec fn find_path_cypher(
    from_label: Seq<char>,
    from_match: Seq<char>,
    to_label: Seq<char>,
    to_match: Seq<char>,
) -> Seq<char> {
    "MATCH path = shortestPath((a:"@ + from_label + " {"@ + from_match + "})-[*]-(b:"@ + to_label
        + " {"@ + to_match + "})) RETURN path"@
}

/// The Cypher of `GraphStore::find_nodes`.
pub open spec fn find_nodes_cypher(
    label: Seq<char>,
    filter: Option<Seq<char>>,
    limit: nat,
) -> Seq<char> {
    "MATCH (n:"@ + label + ")"@ + where_clause(filter) + "  RETURN n LIMIT "@ + decimal(limit)
}

/// The Cypher of `GraphStore::get_owners`.
pub open spec fn get_owners_cypher(entity_label: Seq<char>, entity_match: Seq<char>) -> Seq<char> {
    "MATCH (t:Team)-[:OWNS]->(e:"@ + entity_label + " {"@ + entity_match + "}) RETURN t"@
}

/// The Cypher of `GraphStore::get_dependencies`.
pub open spec fn get_dependencies_cypher(
    entity_label: Seq<char>,
    entity_match: Seq<char>,
) -> Seq<char> {
    "MATCH (e:"@ + entity_label + " {"@ + entity_match
        + "})-[:DEPENDS_ON|IMPORTS*1..3]->(dep) RETURN DISTINCT dep"@
}

/// The Cypher of `GraphStore::get_test_coverage`.
pub open spec fn get_test_coverage_cypher(
    entity_label: Seq<char>,
    entity_match: Seq<char>,
) -> Seq<char> {
    "MATCH (e:"@ + entity_label + " {"@ + entity_match + "})<-[:TESTED_BY]-(test) RETURN test"@
}

/// The Cypher of `GraphStore::clear_source`.
pub open spec fn clear_source_cypher(repo: Seq<char>) -> Seq<char> {
    "MATCH (n {repo: '"@ + repo + "'}) DETACH DELETE n RETURN count(*) as deleted"@
}

impl GraphStore {
    /// The name of the graph.
    pub closed spec fn name(self) -> Seq<char> {
        self.graph_name@
    }

    /// The store of the codebase graph.
    pub fn new() -> (r: GraphStore)
        ensures
            r.name() == "codebase"@,
    {
        GraphStore { graph_name: "codebase".to_owned() }
    }

    /// A raw Cypher query against the codebase graph.
    ///
    /// The query is wrapped in `ag_catalog.cypher()`. Parameters should be embedded in the
    /// Cypher query string using AGE syntax. The caller must see to it that they are
    /// properly escaped.
    pub fn cypher_query(&self, cypher: &str) -> (r: GraphQuery)
        ensures
            r.runs(self.name(), cypher@),
    {
        let mut sql = "SELECT * FROM ag_catalog.cypher('".to_owned();
        sql.append(self.graph_name.as_str());
        sql.append("', $$ ");
        sql.append(cypher);
        sql.append(" $$) AS (result ag_catalog.agtype);");
        GraphQuery { cypher: cypher.to_owned(), sql }
    }

    /// Create a vertex in the graph.
    pub fn create_node(&self, label: &str, properties: &Json) -> (r: GraphQuery)
        ensures
            r.runs(self.name(), create_node_cypher(label@, properties@)),
    {
        let mut cypher = "CREATE (n:".to_owned();
        cypher.append(label);
        cypher.append(" ");
        cypher.append(properties.as_text());
        cypher.append(") RETURN n");
        self.cypher_query(cypher.as_str())
    }

    /// Create an edge between two nodes.
    pub fn create_edge(
        &self,
        from_label: &str,
        from_match: &str,
        to_label: &str,
        to_match: &str,
        edge_label: &str,
        properties: Option<&Json>,
    ) -> (r: GraphQuery)
        ensures
            r.runs(
                self.name(),
                create_edge_cypher(
                    from_label@,
                    from_match@,
                    to_label@,
                    to_match@,
                    edge_label@,
                    opt_json_ref_view(properties),
                ),
            ),
    {
        let mut cypher = "MATCH (a:".to_owned();
        cypher.append(from_label);
        cypher.append(" {");
        cypher.append(from_match);
        cypher.append("}), (b:");
        cypher.append(to_label);
        cypher.append(" {");
        cypher.append(to_match);
        cypher.append("}) CREATE (a)-[e:");
        cypher.append(edge_label);
        cypher.append(" ");
        cypher.append(properties_or_none(properties).as_str());
        cypher.append("]->(b) RETURN e");
        self.cypher_query(cypher.as_str())
    }

    /// Find neighbors of a node by label and property match.
    pub fn find_neighbors(&self, label: &str, match_clause: &str, depth: u32) -> (r: GraphQuery)
        ensures
            r.runs(self.name(), find_neighbors_cypher(label@, match_clause@, depth as nat)),
    {
        let mut cypher = "MATCH (n:".to_owned();
        cypher.append(label);
        cypher.append(" {");
        cypher.append(match_clause);
        cypher.append("})-[*1..");
        cypher.append(decimal_text(depth as u64).as_str());
        cypher.append("]-(neighbor) RETURN DISTINCT neighbor");
        self.cypher_query(cypher.as_str())
    }

    /// Find the shortest path between two nodes.
    pub fn find_path(
        &self,
        from_label: &str,
        from_match: &str,
        to_label: &str,
        to_match: &str,
    ) -> (r: GraphQuery)
        ensures
            r.runs(self.name(), find_path_cypher(from_label@, from_match@, to_label@, to_match@)),
    {
        let mut cypher = "MATCH path = shortestPath((a:".to_owned();
        cypher.append(from_label);
        cypher.append(" {");
        cypher.append(from_match);
        cypher.append("})-[*]-(b:");
        cypher.append(to_label);
        cypher.append(" {");
        cypher.append(to_match);
        cypher.append("})) RETURN path");
        self.cypher_query(cypher.as_str())
    }

    /// Get all nodes of a given label with optional property filter.
    pub fn find_nodes(&self, label: &str, filter: Option<&str>, limit: u32) -> (r: GraphQuery)
        ensures
            r.runs(self.name(), find_nodes_cypher(label@, opt_str_view(filter), limit as nat)),
    {
        let mut cypher = "MATCH (n:".to_owned();
        cypher.append(label);
        cypher.append(")");
        cypher.append(where_text(filter).as_str());
        cypher.append("  RETURN n LIMIT ");
        cypher.append(decimal_text(limit as u64).as_str());
        self.cypher_query(cypher.as_str())
    }

    /// Get team ownership for a file or service.
    pub fn get_owners(&self, entity_label: &str, entity_match: &str) -> (r: GraphQuery)
        ensures
            r.runs(self.name(), get_owners_cypher(entity_label@, entity_match@)),
    {
        let mut cypher = "MATCH (t:Team)-[:OWNS]->(e:".to_owned();
        cypher.append(entity_label);
        cypher.append(" {");
        cypher.append(entity_match);
        cypher.append("}) RETURN t");
        self.cypher_query(cypher.as_str())
    }

    /// Get dependencies of a service or file.
    pub fn get_dependencies(&self, entity_label: &str, entity_match: &str) -> (r: GraphQuery)
        ensures
            r.runs(self.name(), get_dependencies_cypher(entity_label@, entity_match@)),
    {
        let mut cypher = "MATCH (e:".to_owned();
        cypher.append(entity_label);
        cypher.append(" {");
        cypher.append(entity_match);
        cypher.append("})-[:DEPENDS_ON|IMPORTS*1..3]->(dep) RETURN DISTINCT dep");
        self.cypher_query(cypher.as_str())
    }

    /// Get tests that cover a file or function.
    pub fn get_test_coverage(&self, entity_label: &str, entity_match: &str) -> (r: GraphQuery)
        ensures
            r.runs(self.name(), get_test_coverage_cypher(entity_label@, entity_match@)),
    {
        let mut cypher = "MATCH (e:".to_owned();
        cypher.append(entity_label);
        cypher.append(" {");
        cypher.append(entity_match);
        cypher.append("})<-[:TESTED_BY]-(test) RETURN test");
        self.cypher_query(cypher.as_str())
    }

    /// Delete all nodes and edges for a given source (e.g., a specific repo).
    pub fn clear_source(&self, repo: &str) -> (r: GraphQuery)
        ensures
            r.runs(self.name(), clear_source_cypher(repo@)),
    {
        let mut cypher = "MATCH (n {repo: '".to_owned();
        cypher.append(repo);
        cypher.append("'}) DETACH DELETE n RETURN count(*) as deleted");
        self.cypher_query(cypher.as_str())
    }
}

// ---------------------------------------------------------------------------
// Laws
// ---------------------------------------------------------------------------

/// A text begins with one part, ends with the other, and has nothing between them.
pub open spec fn is_made_of(text: Seq<char>, front: Seq<char>, back: Seq<char>) -> bool {
    &&& front.is_prefix_of(text)
    &&& back.is_suffix_of(text)
    &&& text.len() == front.len() + back.len()
}

proof fn lemma_made(text: Seq<char>, front: Seq<char>, back: Seq<char>)
    requires
        text =~= front + back,
    ensures
        is_made_of(text, front, back),
{
    assert(text.subrange(0, front.len() as int) =~= front);
    assert(text.subrange(front.len() as int, text.len() as int) =~= back);
}

/// A query is wrapped whole: the SQL names the graph, and holds the Cypher as it was given.
pub proof fn law_wrapped(query: GraphQuery, graph: Seq<char>, cypher: Seq<char>)
    requires
        query.runs(graph, cypher),
    ensures
        query.cypher@ == cypher,
        is_made_of(
            query.sql@,
            "SELECT * FROM ag_catalog.cypher('"@ + graph,
            "', $$ "@ + cypher + " $$) AS (result ag_catalog.agtype);"@,
        ),
{
    lemma_made(
        query.sql@,
        "SELECT * FROM ag_catalog.cypher('"@ + graph,
        "', $$ "@ + cypher + " $$) AS (result ag_catalog.agtype);"@,
    );
}

/// A node is created with its label and all its properties, and an edge from the node that was
/// given first to the one that was given second.
pub proof fn law_created(
    label: Seq<char>,
    properties: Seq<char>,
    from_label: Seq<char>,
    from_match: Seq<char>,
    to_label: Seq<char>,
    to_match: Seq<char>,
    given: Option<Seq<char>>,
)
    ensures
        is_made_of(
            create_node_cypher(label, properties),
            "CREATE (n:"@ + label,
            " "@ + properties + ") RETURN n"@,
        ),
        is_made_of(
            create_edge_cypher(from_label, from_match, to_label, to_match, label, given),
            "MATCH (a:"@ + from_label + " {"@ + from_match + "}), (b:"@ + to_label + " {"@
                + to_match + "})"@,
            " CREATE (a)-[e:"@ + label + " "@ + (match given {
                Some(text) => text,
                None => "{}"@,
            }) + "]->(b) RETURN e"@,
        ),
{
    lemma_made(
        create_node_cypher(label, properties),
        "CREATE (n:"@ + label,
        " "@ + properties + ") RETURN n"@,
    );
    reveal_strlit("}) CREATE (a)-[e:");
    reveal_strlit("})");
    reveal_strlit(" CREATE (a)-[e:");
    assert("}) CREATE (a)-[e:"@ =~= "})"@ + " CREATE (a)-[e:"@);
    lemma_made(
        create_edge_cypher(from_label, from_match, to_label, to_match, label, given),
        "MATCH (a:"@ + from_label + " {"@ + from_match + "}), (b:"@ + to_label + " {"@ + to_match
            + "})"@,
        " CREATE (a)-[e:"@ + label + " "@ + (match given {
            Some(text) => text,
            None => "{}"@,
        }) + "]->(b) RETURN e"@,
    );
}

/// A search goes from the entity that was given, as far, to where and for as many as asked.
pub proof fn law_searched(
    label: Seq<char>,
    clause: Seq<char>,
    to_label: Seq<char>,
    to_clause: Seq<char>,
    filter: Option<Seq<char>>,
    n: nat,
)
    ensures
        is_made_of(
            find_neighbors_cypher(label, clause, n),
            "MATCH (n:"@ + label + " {"@ + clause + "})"@,
            "-[*1.."@ + decimal(n) + "]-(neighbor) RETURN DISTINCT neighbor"@,
        ),
        is_made_of(
            find_path_cypher(label, clause, to_label, to_clause),
            "MATCH path = shortestPath((a:"@ + label + " {"@ + clause + "})"@,
            "-[*]-(b:"@ + to_label + " {"@ + to_clause + "})) RETURN path"@,
        ),
        is_made_of(
            find_nodes_cypher(label, filter, n),
            "MATCH (n:"@ + label + ")"@ + (match filter {
                Some(filter) => " WHERE "@ + filter,
                None => Seq::empty(),
            }),
            "  RETURN n LIMIT "@ + decimal(n),
        ),
{
    reveal_strlit("})-[*1..");
    reveal_strlit("})");
    reveal_strlit("-[*1..");
    assert("})-[*1.."@ =~= "})"@ + "-[*1.."@);
    lemma_made(
        find_neighbors_cypher(label, clause, n),
        "MATCH (n:"@ + label + " {"@ + clause + "})"@,
        "-[*1.."@ + decimal(n) + "]-(neighbor) RETURN DISTINCT neighbor"@,
    );
    reveal_strlit("})-[*]-(b:");
    reveal_strlit("-[*]-(b:");
    assert("})-[*]-(b:"@ =~= "})"@ + "-[*]-(b:"@);
    lemma_made(
        find_path_cypher(label, clause, to_label, to_clause),
        "MATCH path = shortestPath((a:"@ + label + " {"@ + clause + "})"@,
        "-[*]-(b:"@ + to_label + " {"@ + to_clause + "})) RETURN path"@,
    );
    reveal_strlit("");
    assert(""@ =~= Seq::empty());
    lemma_made(
        find_nodes_cypher(label, filter, n),
        "MATCH (n:"@ + label + ")"@ + (match filter {
            Some(filter) => " WHERE "@ + filter,
            None => Seq::empty(),
        }),
        "  RETURN n LIMIT "@ + decimal(n),
    );
}

/// Owners, dependencies and tests are looked up of the entity that was given, and a source is
/// cleared by its name.
pub proof fn law_looked_up(label: Seq<char>, clause: Seq<char>, repo: Seq<char>)
    ensures
        is_made_of(
            get_owners_cypher(label, clause),
            "MATCH (t:Team)-[:OWNS]->(e:"@ + label,
            " {"@ + clause + "}) RETURN t"@,
        ),
        is_made_of(
            get_dependencies_cypher(label, clause),
            "MATCH (e:"@ + label,
            " {"@ + clause + "})-[:DEPENDS_ON|IMPORTS*1..3]->(dep) RETURN DISTINCT dep"@,
        ),
        is_made_of(
            get_test_coverage_cypher(label, clause),
            "MATCH (e:"@ + label,
            " {"@ + clause + "})<-[:TESTED_BY]-(test) RETURN test"@,
        ),
        is_made_of(
            clear_source_cypher(repo),
            "MATCH (n {repo: '"@ + repo,
            "'}) DETACH DELETE n RETURN count(*) as deleted"@,
        ),
{
    lemma_made(
        get_owners_cypher(label, clause),
        "MATCH (t:Team)-[:OWNS]->(e:"@ + label,
        " {"@ + clause + "}) RETURN t"@,
    );
    lemma_made(
        get_dependencies_cypher(label, clause),
        "MATCH (e:"@ + label,
        " {"@ + clause + "})-[:DEPENDS_ON|IMPORTS*1..3]->(dep) RETURN DISTINCT dep"@,
    );
    lemma_made(
        get_test_coverage_cypher(label, clause),
        "MATCH (e:"@ + label,
        " {"@ + clause + "})<-[:TESTED_BY]-(test) RETURN test"@,
    );
    lemma_made(
        clear_source_cypher(repo),
        "MATCH (n {repo: '"@ + repo,
        "'}) DETACH DELETE n RETURN count(*) as deleted"@,
    );
}

/// Each answer of the graph makes one row, in order, with one value: the JSON that the answer
/// is, or else the answer as a string.
pub proof fn law_rows_of_answers(result: GraphQueryResult, answers: Seq<Seq<char>>, i: int)
    requires
        row_views(result.rows@) == graph_rows(answers),
        0 <= i < answers.len(),
    ensures
        result.rows@.len() == answers.len(),
        result.rows@[i]@.len() == 1,
        result.rows@[i]@[0]@ == (match json_parse(answers[i]) {
            Some(value) => value,
            None => quoted(answers[i]),
        }),
{
    let seen = row_views(result.rows@);
    assert(seen.len() == result.rows@.len());
    assert(seen[i] == json_views(result.rows@[i]@));
    assert(seen[i] == seq![graph_value(answers[i])]);
    assert(json_views(result.rows@[i]@)[0] == result.rows@[i]@[0]@);
}

/// The rows of a result are seen as they are, value by value, in order.
pub proof fn law_rows_seen(rows: Seq<Vec<Json>>)
    ensures
        row_views(rows).len() == rows.len(),
        forall|i: int, k: int|
            0 <= i < rows.len() && 0 <= k < rows[i]@.len() ==> row_views(rows)[i].len()
                == rows[i]@.len() && #[trigger] row_views(rows)[i][k] == rows[i]@[k]@,
{
    assert forall|i: int, k: int|
        0 <= i < rows.len() && 0 <= k < rows[i]@.len() implies row_views(rows)[i].len()
        == rows[i]@.len() && #[trigger] row_views(rows)[i][k] == rows[i]@[k]@ by {
        assert(row_views(rows)[i] == json_views(rows[i]@));
    }
}

} // verus!
