//! Scanning a repository into the context store.

use vstd::prelude::*;
use vstd::string::*;

use crate::db::graph::{create_node_cypher, is_made_of, law_created, law_wrapped, GraphQuery};
use crate::db::pool::ContextStore;
use crate::db::statement::copy_text;
use crate::db::vector::{EmbeddingInput, EmbeddingView};
use crate::json::{
    ascending_names, field_views, member, object_json, text_member, text_scalar, Json, JsonScalar,
    ScalarView,
};
use crate::lists::distinct;
use crate::ordering::lemma_less_at;
use crate::path::{file_name, file_name_of, is_name, law_file_name};
use crate::scanner::chunk::{
    chunk_text, law_piece_sizes, law_pieces_rejoin, pieces, rejoined,
};
use crate::scanner::classify::{
    code_file_views, code_files_of, config_files_of, config_views, dep_files_of, file_views,
    languages_of, law_dep_files, tally, tally_views, tools_of, Classified, CodeFile, CodeFileView,
    ConfigFile, ConfigView, FileView, FoundFile,
};
use crate::scanner::codeowners::{codeowners_teams, parse_codeowners_teams};
use crate::scanner::dep_parser::{
    dependency_views, is_readable_requirements, manifest_dependencies, parse_dependencies,
    requirements_readable, DependencyView, ParsedDependency,
};
use crate::scanner::language::path_build_tool;
use crate::scanner::walk::WalkRules;
use crate::text::{byte_count, byte_len, is_some_text, opt_str_view, opt_view, text_less, views};

verus! {

/// The size of the largest file that is indexed.
pub const MAX_FILE_SIZE: u64 = 100_000;

/// The size below which a file is not embedded.
pub const MIN_EMBEDDED_BYTES: usize = 50;

/// The number of characters of a chunk.
pub const CHUNK_SIZE: usize = 512;

/// The number of characters that a chunk has in common with the one before it.
pub const CHUNK_OVERLAP: usize = 64;

/// Result of scanning a git repository.
#[derive(Debug, Clone)]
pub struct ScanResult {
    pub repo_path: String,
    pub repo_name: String,
    /// The languages, each once, with the number of its files.
    pub languages: Vec<(String, usize)>,
    /// The build tools, each once.
    pub build_tools: Vec<String>,
    pub total_files: usize,
    pub code_files: usize,
    pub config_files: Vec<ConfigFile>,
    pub dependencies: Vec<DepInfo>,
    pub teams: Vec<String>,
    pub graph_nodes_created: usize,
    pub embeddings_created: usize,
}

/// A dependency of a repository.
#[derive(Debug, Clone)]
pub struct DepInfo {
    pub name: String,
    pub version: Option<String>,
    pub ecosystem: String,
    pub dep_type: String,
}

impl View for DepInfo {
    type V = DependencyView;

    open spec fn view(&self) -> DependencyView {
        DependencyView {
            name: self.name@,
            version: opt_view(self.version),
            ecosystem: self.ecosystem@,
            dep_type: self.dep_type@,
        }
    }
}

/// What a list of dependencies says.
pub open spec fn dep_views(deps: Seq<DepInfo>) -> Seq<DependencyView> {
    Seq::new(deps.len(), |i: int| deps[i]@)
}

/// Git repository scanner.
///
/// Says which files of a repository are kept, what becomes of each, and what is stored of
/// them in the three tiers of the context store.
#[derive(Debug, Clone)]
pub struct GitScanner {
    store: ContextStore,
    rules: WalkRules,
}

/// The names of entries that are not kept.
pub open spec fn skipped_names() -> Seq<Seq<char>> {
    seq![
        "node_modules"@,
        ".git"@,
        "target"@,
        "build"@,
        "dist"@,
        ".idea"@,
        ".vscode"@,
        "__pycache__"@,
        ".gradle"@,
        "vendor"@,
        ".next"@,
    ]
}

impl GitScanner {
    /// The name of the graph that is filled.
    pub closed spec fn graph_name(self) -> Seq<char> {
        self.store.graph_name()
    }

    /// What is kept of a repository.
    pub closed spec fn keeps(self) -> WalkRules {
        self.rules
    }

    /// A scanner with the usual rules.
    pub fn new(store: ContextStore) -> (r: GitScanner)
        ensures
            r.graph_name() == store.graph_name(),
            r.keeps().max_file_size == MAX_FILE_SIZE,
            views(r.keeps().skip_patterns@) == skipped_names(),
    {
        let skip_patterns: Vec<String> = vec![
            "node_modules".to_owned(),
            ".git".to_owned(),
            "target".to_owned(),
            "build".to_owned(),
            "dist".to_owned(),
            ".idea".to_owned(),
            ".vscode".to_owned(),
            "__pycache__".to_owned(),
            ".gradle".to_owned(),
            "vendor".to_owned(),
            ".next".to_owned(),
        ];
        assert(views(skip_patterns@) =~= skipped_names());
        GitScanner { store, rules: WalkRules { max_file_size: MAX_FILE_SIZE, skip_patterns } }
    }

    /// What is kept of a repository.
    pub fn rules(&self) -> (r: &WalkRules)
        ensures
            *r == self.keeps(),
    {
        &self.rules
    }
}

/// The name of a repository: the last part of its path, if there is one.
pub open spec fn repo_name(path: Option<Seq<char>>) -> Seq<char> {
    match path {
        Some(path) => match file_name_of(path) {
            Some(name) => name,
            None => "unknown"@,
        },
        None => "unknown"@,
    }
}

/// The name of a repository: the last part of its path, if there is one and it is UTF-8.
pub fn repo_name_of(path: Option<&str>) -> (r: String)
    ensures
        r@ == repo_name(opt_str_view(path)),
{
    match path {
        Some(path) => match file_name(path) {
            Some(name) => name,
            None => "unknown".to_owned(),
        },
        None => "unknown".to_owned(),
    }
}

// ---------------------------------------------------------------------------
// Dependencies and teams
// ---------------------------------------------------------------------------

/// A manifest: its path, and its text if it could be read.
#[derive(Debug, Clone)]
pub struct Manifest {
    pub path: String,
    pub content: Option<String>,
}

/// What a `Manifest` says.
#[verifier::ext_equal]
pub struct ManifestView {
    pub path: Seq<char>,
    pub content: Option<Seq<char>>,
}

impl View for Manifest {
    type V = ManifestView;

    open spec fn view(&self) -> ManifestView {
        ManifestView { path: self.path@, content: opt_view(self.content) }
    }
}

/// What a list of manifests says.
pub open spec fn manifest_views(manifests: Seq<Manifest>) -> Seq<ManifestView> {
    Seq::new(manifests.len(), |i: int| manifests[i]@)
}

/// The dependencies of one manifest.
pub open spec fn declared(manifest: ManifestView) -> Seq<DependencyView> {
    match manifest.content {
        Some(content) => manifest_dependencies(file_name_of(manifest.path), content),
        None => Seq::empty(),
    }
}

/// The dependencies of manifests, in order.
pub open spec fn all_declared(manifests: Seq<ManifestView>) -> Seq<DependencyView>
    decreases manifests.len(),
{
    if manifests.len() == 0 {
        Seq::empty()
    } else {
        all_declared(manifests.drop_last()) + declared(manifests.last())
    }
}

/// The manifest is not a requirements.txt file in which a version begins inside a
/// character.
pub open spec fn is_readable(manifest: ManifestView) -> bool {
    match manifest.content {
        Some(content) => file_name_of(manifest.path) == Some("requirements.txt"@)
            ==> requirements_readable(content),
        None => true,
    }
}

/// Each of the manifests can be read.
pub open spec fn all_readable(manifests: Seq<ManifestView>) -> bool {
    forall|i: int| 0 <= i < manifests.len() ==> is_readable(#[trigger] manifests[i])
}

impl Manifest {
    /// Whether the manifest can be read.
    pub fn can_read(&self) -> (r: bool)
        ensures
            r == is_readable(self@),
    {
        match &self.content {
            Some(content) => {
                let name = file_name(self.path.as_str());
                assert(opt_view(name) == file_name_of(self.path@));
                !is_some_text(&name, "requirements.txt") || is_readable_requirements(
                    content.as_str(),
                )
            },
            None => true,
        }
    }
}

fn push_dependencies(out: &mut Vec<DepInfo>, deps: &Vec<ParsedDependency>)
    ensures
        dep_views(final(out)@) == dep_views(old(out)@) + dependency_views(deps@),
{
    let ghost start = dep_views(out@);
    let ghost all = dependency_views(deps@);
    let mut i: usize = 0;
    assert(start + all.take(0) =~= start);
    while i < deps.len()
        invariant
            i <= deps@.len(),
            all == dependency_views(deps@),
            dep_views(out@) == start + all.take(i as int),
        decreases deps@.len() - i,
    {
        let dep = &deps[i];
        let info = DepInfo {
            name: dep.name.clone(),
            version: copy_text(&dep.version),
            ecosystem: dep.ecosystem.clone(),
            dep_type: dep.dep_type.clone(),
        };
        let ghost done = dep_views(out@);
        out.push(info);
        proof {
            assert(info@ == all[i as int]);
            assert(dep_views(out@) =~= done.push(info@));
            assert(start + all.take(i + 1) =~= (start + all.take(i as int)).push(all[i as int]));
        }
        i += 1;
    }
    assert(all.take(i as int) =~= all);
}

/// Parse dependencies: those of each manifest that could be read, in order.
pub fn collect_dependencies(manifests: &Vec<Manifest>) -> (r: Vec<DepInfo>)
    requires
        all_readable(manifest_views(manifests@)),
    ensures
        dep_views(r@) == all_declared(manifest_views(manifests@)),
{
    let ghost all = manifest_views(manifests@);
    let mut out: Vec<DepInfo> = Vec::new();
    let mut i: usize = 0;
    assert(dep_views(out@) =~= all_declared(all.take(0)));
    while i < manifests.len()
        invariant
            i <= manifests@.len(),
            all == manifest_views(manifests@),
            all_readable(all),
            dep_views(out@) == all_declared(all.take(i as int)),
        decreases manifests@.len() - i,
    {
        let manifest = &manifests[i];
        let ghost done = dep_views(out@);
        proof {
            assert(all.take(i + 1).drop_last() =~= all.take(i as int));
            assert(all[i as int] == manifest@);
            assert(is_readable(all[i as int]));
        }
        match &manifest.content {
            Some(content) => {
                let deps = parse_dependencies(manifest.path.as_str(), content.as_str());
                push_dependencies(&mut out, &deps);
            },
            None => {
                assert(done + declared(manifest@) =~= done);
            },
        }
        i += 1;
    }
    assert(all.take(i as int) =~= all);
    out
}

/// The teams that a CODEOWNERS file names; none where there is none or it could not be
/// read.
pub open spec fn teams_of(codeowners: Option<Seq<char>>) -> Seq<Seq<char>> {
    match codeowners {
        Some(content) => codeowners_teams(content),
        None => Seq::empty(),
    }
}

/// The teams that a CODEOWNERS file names; none where there is none or it could not be
/// read.
pub fn collect_teams(codeowners: Option<&str>) -> (r: Vec<String>)
    ensures
        views(r@) == teams_of(opt_str_view(codeowners)),
{
    match codeowners {
        Some(content) => parse_codeowners_teams(content),
        None => {
            let none: Vec<String> = Vec::new();
            assert(views(none@) =~= Seq::empty());
            none
        },
    }
}

// ---------------------------------------------------------------------------
// Graph
// ---------------------------------------------------------------------------

/// A node: its label and its properties.
pub struct NodeView {
    pub label: Seq<char>,
    pub properties: Seq<(Seq<char>, ScalarView)>,
}

/// The node for a code file.
pub open spec fn file_node(repo: Seq<char>, file: CodeFileView) -> NodeView {
    NodeView {
        label: "File"@,
        properties: seq![
            ("language"@, ScalarView::Text(file.language)),
            ("path"@, ScalarView::Text(file.path)),
            ("repo"@, ScalarView::Text(repo)),
        ],
    }
}

/// The node for a configuration file.
pub open spec fn config_node(repo: Seq<char>, file: ConfigView) -> NodeView {
    NodeView {
        label: "Config"@,
        properties: seq![
            ("config_type"@, ScalarView::Text(file.config_type)),
            ("path"@, ScalarView::Text(file.path)),
            ("repo"@, ScalarView::Text(repo)),
        ],
    }
}

/// The node for a dependency.
pub open spec fn package_node(dep: DependencyView) -> NodeView {
    NodeView {
        label: "Package"@,
        properties: seq![
            ("ecosystem"@, ScalarView::Text(dep.ecosystem)),
            ("name"@, ScalarView::Text(dep.name)),
            (
                "version"@,
                match dep.version {
                    Some(version) => ScalarView::Text(version),
                    None => ScalarView::Null,
                },
            ),
        ],
    }
}

/// The node for a team.
pub open spec fn team_node(repo: Seq<char>, team: Seq<char>) -> NodeView {
    NodeView {
        label: "Team"@,
        properties: seq![
            ("name"@, ScalarView::Text(team)),
            ("repo"@, ScalarView::Text(repo)),
        ],
    }
}

/// The nodes of a repository: one for each code file, each configuration file, each
/// dependency and each team.
pub open spec fn graph_nodes(
    repo: Seq<char>,
    code_files: Seq<CodeFileView>,
    config_files: Seq<ConfigView>,
    dependencies: Seq<DependencyView>,
    teams: Seq<Seq<char>>,
) -> Seq<NodeView> {
    Seq::new(code_files.len(), |i: int| file_node(repo, code_files[i])) + Seq::new(
        config_files.len(),
        |i: int| config_node(repo, config_files[i]),
    ) + Seq::new(dependencies.len(), |i: int| package_node(dependencies[i])) + Seq::new(
        teams.len(),
        |i: int| team_node(repo, teams[i]),
    )
}

/// The Cypher that creates a node.
pub open spec fn node_cypher(node: NodeView) -> Seq<char> {
    create_node_cypher(node.label, object_json(node.properties))
}

/// The queries create the nodes, one for each, in order.
pub open spec fn creates(queries: Seq<GraphQuery>, graph: Seq<char>, nodes: Seq<NodeView>) -> bool {
    &&& queries.len() == nodes.len()
    &&& forall|i: int|
        0 <= i < queries.len() ==> (#[trigger] queries[i]).runs(graph, node_cypher(nodes[i]))
}

/// Names whose first characters ascend stand in ascending order.
proof fn lemma_first_letters(fields: Seq<(Seq<char>, ScalarView)>)
    requires
        forall|i: int| 0 <= i < fields.len() ==> (#[trigger] fields[i]).0.len() > 0,
        forall|i: int, j: int|
            0 <= i < j < fields.len() ==> (#[trigger] fields[i]).0[0] < (#[trigger] fields[j]).0[0],
    ensures
        ascending_names(fields),
{
    assert forall|i: int, j: int| 0 <= i < j < fields.len() implies text_less(
        #[trigger] fields[i].0,
        #[trigger] fields[j].0,
    ) by {
        lemma_less_at(fields[i].0, fields[j].0, 0);
    }
}

fn file_properties(repo: &str, file: &CodeFile) -> (r: Json)
    ensures
        r@ == object_json(file_node(repo@, file@).properties),
{
    let fields: Vec<(String, JsonScalar)> = vec![
        member("language", text_scalar(file.language.as_str())),
        member("path", text_scalar(file.path.as_str())),
        member("repo", text_scalar(repo)),
    ];
    proof {
        reveal_strlit("language");
        reveal_strlit("path");
        reveal_strlit("repo");
        assert(field_views(fields@) =~= file_node(repo@, file@).properties);
        lemma_first_letters(field_views(fields@));
    }
    Json::object(&fields)
}

fn config_properties(repo: &str, file: &ConfigFile) -> (r: Json)
    ensures
        r@ == object_json(config_node(repo@, file@).properties),
{
    let fields: Vec<(String, JsonScalar)> = vec![
        member("config_type", text_scalar(file.config_type.as_str())),
        member("path", text_scalar(file.path.as_str())),
        member("repo", text_scalar(repo)),
    ];
    proof {
        reveal_strlit("config_type");
        reveal_strlit("path");
        reveal_strlit("repo");
        assert(field_views(fields@) =~= config_node(repo@, file@).properties);
        lemma_first_letters(field_views(fields@));
    }
    Json::object(&fields)
}

fn package_properties(dep: &DepInfo) -> (r: Json)
    ensures
        r@ == object_json(package_node(dep@).properties),
{
    let version = match &dep.version {
        Some(version) => text_scalar(version.as_str()),
        None => JsonScalar::Null,
    };
    let fields: Vec<(String, JsonScalar)> = vec![
        member("ecosystem", text_scalar(dep.ecosystem.as_str())),
        member("name", text_scalar(dep.name.as_str())),
        member("version", version),
    ];
    proof {
        reveal_strlit("ecosystem");
        reveal_strlit("name");
        reveal_strlit("version");
        assert(field_views(fields@) =~= package_node(dep@).properties);
        lemma_first_letters(field_views(fields@));
    }
    Json::object(&fields)
}

fn team_properties(repo: &str, team: &str) -> (r: Json)
    ensures
        r@ == object_json(team_node(repo@, team@).properties),
{
    let fields: Vec<(String, JsonScalar)> = vec![
        member("name", text_scalar(team)),
        member("repo", text_scalar(repo)),
    ];
    proof {
        reveal_strlit("name");
        reveal_strlit("repo");
        assert(field_views(fields@) =~= team_node(repo@, team@).properties);
        lemma_first_letters(field_views(fields@));
    }
    Json::object(&fields)
}

impl GitScanner {
    /// Populate the graph store: the queries that create the nodes of a repository. As many
    /// nodes are counted as there are queries, whether or not each succeeds.
    pub fn populate_graph(
        &self,
        repo_name: &str,
        code_files: &Vec<CodeFile>,
        config_files: &Vec<ConfigFile>,
        dependencies: &Vec<DepInfo>,
        teams: &Vec<String>,
    ) -> (r: Vec<GraphQuery>)
        ensures
            creates(
                r@,
                self.graph_name(),
                graph_nodes(
                    repo_name@,
                    code_file_views(code_files@),
                    config_views(config_files@),
                    dep_views(dependencies@),
                    views(teams@),
                ),
            ),
            r@.len() == code_files@.len() + config_files@.len() + dependencies@.len()
                + teams@.len(),
    {
        let graph = self.store.graph();
        let ghost nodes = graph_nodes(
            repo_name@,
            code_file_views(code_files@),
            config_views(config_files@),
            dep_views(dependencies@),
            views(teams@),
        );
        let mut out: Vec<GraphQuery> = Vec::new();
        let mut i: usize = 0;
        while i < code_files.len()
            invariant
                i <= code_files@.len(),
                graph.name() == self.graph_name(),
                nodes == graph_nodes(
                    repo_name@,
                    code_file_views(code_files@),
                    config_views(config_files@),
                    dep_views(dependencies@),
                    views(teams@),
                ),
                out@.len() == i,
                forall|k: int|
                    0 <= k < out@.len() ==> (#[trigger] out@[k]).runs(
                        self.graph_name(),
                        node_cypher(nodes[k]),
                    ),
            decreases code_files@.len() - i,
        {
            out.push(graph.create_node("File", &file_properties(repo_name, &code_files[i])));
            assert(nodes[i as int] == file_node(repo_name@, code_files@[i as int]@));
            i += 1;
        }
        i = 0;
        while i < config_files.len()
            invariant
                i <= config_files@.len(),
                graph.name() == self.graph_name(),
                nodes == graph_nodes(
                    repo_name@,
                    code_file_views(code_files@),
                    config_views(config_files@),
                    dep_views(dependencies@),
                    views(teams@),
                ),
                out@.len() == code_files@.len() + i,
                forall|k: int|
                    0 <= k < out@.len() ==> (#[trigger] out@[k]).runs(
                        self.graph_name(),
                        node_cypher(nodes[k]),
                    ),
            decreases config_files@.len() - i,
        {
            out.push(graph.create_node("Config", &config_properties(repo_name, &config_files[i])));
            assert(nodes[code_files@.len() + i] == config_node(
                repo_name@,
                config_files@[i as int]@,
            ));
            i += 1;
        }
        i = 0;
        while i < dependencies.len()
            invariant
                i <= dependencies@.len(),
                graph.name() == self.graph_name(),
                nodes == graph_nodes(
                    repo_name@,
                    code_file_views(code_files@),
                    config_views(config_files@),
                    dep_views(dependencies@),
                    views(teams@),
                ),
                out@.len() == code_files@.len() + config_files@.len() + i,
                forall|k: int|
                    0 <= k < out@.len() ==> (#[trigger] out@[k]).runs(
                        self.graph_name(),
                        node_cypher(nodes[k]),
                    ),
            decreases dependencies@.len() - i,
        {
            out.push(graph.create_node("Package", &package_properties(&dependencies[i])));
            assert(nodes[code_files@.len() + config_files@.len() + i] == package_node(
                dependencies@[i as int]@,
            ));
            i += 1;
        }
        i = 0;
        while i < teams.len()
            invariant
                i <= teams@.len(),
                graph.name() == self.graph_name(),
                nodes == graph_nodes(
                    repo_name@,
                    code_file_views(code_files@),
                    config_views(config_files@),
                    dep_views(dependencies@),
                    views(teams@),
                ),
                out@.len() == code_files@.len() + config_files@.len() + dependencies@.len() + i,
                forall|k: int|
                    0 <= k < out@.len() ==> (#[trigger] out@[k]).runs(
                        self.graph_name(),
                        node_cypher(nodes[k]),
                    ),
            decreases teams@.len() - i,
        {
            out.push(graph.create_node("Team", &team_properties(repo_name, teams[i].as_str())));
            assert(nodes[code_files@.len() + config_files@.len() + dependencies@.len() + i]
                == team_node(repo_name@, teams@[i as int]@));
            i += 1;
        }
        out
    }
}

// ---------------------------------------------------------------------------
// Embeddings
// ---------------------------------------------------------------------------

/// A chunk of a file that has no embedding yet.
#[derive(Debug, Clone)]
pub struct CodeChunk {
    pub source_id: String,
    pub chunk_index: i32,
    pub content: String,
    pub metadata: Json,
}

/// What a `CodeChunk` says.
#[verifier::ext_equal]
pub struct ChunkView {
    pub source_id: Seq<char>,
    pub chunk_index: i32,
    pub content: Seq<char>,
    pub metadata: Seq<char>,
}

impl View for CodeChunk {
    type V = ChunkView;

    open spec fn view(&self) -> ChunkView {
        ChunkView {
            source_id: self.source_id@,
            chunk_index: self.chunk_index,
            content: self.content@,
            metadata: self.metadata@,
        }
    }
}

/// What a list of chunks says.
pub open spec fn chunk_views(chunks: Seq<CodeChunk>) -> Seq<ChunkView> {
    Seq::new(chunks.len(), |i: int| chunks[i]@)
}

/// A number in 32 bits with a sign: what is above is left out.
pub open spec fn low_bits(n: int) -> int {
    let low = n % 0x1_0000_0000;
    if low < 0x8000_0000 {
        low
    } else {
        low - 0x1_0000_0000
    }
}

fn low_bits_of(n: usize) -> (r: i32)
    ensures
        r == low_bits(n as int),
{
    let low: u64 = n as u64 % 0x1_0000_0000;
    if low < 0x8000_0000 {
        low as i32
    } else {
        (low as i64 - 0x1_0000_0000) as i32
    }
}

/// The metadata of a chunk.
pub open spec fn chunk_fields(
    repo: Seq<char>,
    path: Seq<char>,
    language: Seq<char>,
    i: int,
    total: nat,
) -> Seq<(Seq<char>, ScalarView)> {
    seq![
        ("chunk"@, ScalarView::Number(i)),
        ("file_path"@, ScalarView::Text(path)),
        ("language"@, ScalarView::Text(language)),
        ("repo"@, ScalarView::Text(repo)),
        ("total_chunks"@, ScalarView::Number(total as int)),
    ]
}

/// A chunk of a file.
pub open spec fn code_chunk(
    repo: Seq<char>,
    path: Seq<char>,
    language: Seq<char>,
    parts: Seq<Seq<char>>,
    i: int,
) -> ChunkView {
    ChunkView {
        source_id: repo + ":"@ + path,
        chunk_index: low_bits(i) as i32,
        content: parts[i],
        metadata: object_json(chunk_fields(repo, path, language, i, parts.len())),
    }
}

/// The chunks of a file: none if it is very small.
pub open spec fn code_chunks(
    repo: Seq<char>,
    path: Seq<char>,
    language: Seq<char>,
    content: Seq<char>,
) -> Seq<ChunkView> {
    if byte_len(content) < MIN_EMBEDDED_BYTES {
        Seq::empty()
    } else {
        let parts = pieces(content, CHUNK_SIZE as nat, CHUNK_OVERLAP as nat);
        Seq::new(parts.len(), |i: int| code_chunk(repo, path, language, parts, i))
    }
}

fn chunk_metadata(repo: &str, path: &str, language: &str, i: usize, total: usize) -> (r: Json)
    ensures
        r@ == object_json(chunk_fields(repo@, path@, language@, i as int, total as nat)),
        text_member(r@, "language"@) == Some(language@),
        text_member(r@, "repo"@) == Some(repo@),
        text_member(r@, "file_path"@) == Some(path@),
{
    let fields: Vec<(String, JsonScalar)> = vec![
        member("chunk", JsonScalar::Count(i as u64)),
        member("file_path", text_scalar(path)),
        member("language", text_scalar(language)),
        member("repo", text_scalar(repo)),
        member("total_chunks", JsonScalar::Count(total as u64)),
    ];
    proof {
        reveal_strlit("chunk");
        reveal_strlit("file_path");
        reveal_strlit("language");
        reveal_strlit("repo");
        reveal_strlit("total_chunks");
        assert(field_views(fields@) =~= chunk_fields(
            repo@,
            path@,
            language@,
            i as int,
            total as nat,
        ));
        lemma_first_letters(field_views(fields@));
        assert(fields@[1].0@ == "file_path"@ && fields@[2].0@ == "language"@ && fields@[3].0@
            == "repo"@);
    }
    Json::object(&fields)
}

/// The metadata of a chunk give back what the chunk is of.
pub open spec fn tells_source(
    chunk: CodeChunk,
    repo: Seq<char>,
    path: Seq<char>,
    language: Seq<char>,
) -> bool {
    &&& text_member(chunk.metadata@, "language"@) == Some(language)
    &&& text_member(chunk.metadata@, "repo"@) == Some(repo)
    &&& text_member(chunk.metadata@, "file_path"@) == Some(path)
}

/// Chunk a code file for the vector store. The chunks are embedded one by one, and stored
/// in batches.
pub fn populate_embeddings(repo_name: &str, path: &str, language: &str, content: &str) -> (r: Vec<
    CodeChunk,
>)
    ensures
        chunk_views(r@) == code_chunks(repo_name@, path@, language@, content@),
        forall|i: int|
            0 <= i < r@.len() ==> tells_source(#[trigger] r@[i], repo_name@, path@, language@),
{
    let mut out: Vec<CodeChunk> = Vec::new();
    let ghost all = code_chunks(repo_name@, path@, language@, content@);
    if byte_count(content) < MIN_EMBEDDED_BYTES {
        assert(chunk_views(out@) =~= all);
        return out;
    }
    let chunks = chunk_text(content, CHUNK_SIZE, CHUNK_OVERLAP);
    let ghost parts = pieces(content@, CHUNK_SIZE as nat, CHUNK_OVERLAP as nat);
    let mut source_id = repo_name.to_owned();
    source_id.append(":");
    source_id.append(path);
    let mut i: usize = 0;
    assert(chunk_views(out@) =~= all.take(0));
    while i < chunks.len()
        invariant
            i <= chunks@.len(),
            views(chunks@) == parts,
            all == Seq::new(
                parts.len(),
                |i: int| code_chunk(repo_name@, path@, language@, parts, i),
            ),
            source_id@ == repo_name@ + ":"@ + path@,
            chunk_views(out@) == all.take(i as int),
            forall|k: int|
                0 <= k < out@.len() ==> tells_source(
                    #[trigger] out@[k],
                    repo_name@,
                    path@,
                    language@,
                ),
        decreases chunks@.len() - i,
    {
        let chunk = CodeChunk {
            source_id: source_id.clone(),
            chunk_index: low_bits_of(i),
            content: chunks[i].clone(),
            metadata: chunk_metadata(repo_name, path, language, i, chunks.len()),
        };
        let ghost done = chunk_views(out@);
        out.push(chunk);
        proof {
            assert(parts[i as int] == chunks@[i as int]@);
            assert(parts.len() == chunks@.len());
            assert(chunk@ =~= all[i as int]);
            assert(chunk_views(out@) =~= done.push(chunk@));
            assert(all.take(i + 1) =~= all.take(i as int).push(all[i as int]));
        }
        i += 1;
    }
    assert(all.take(i as int) =~= all);
    out
}

impl CodeChunk {
    /// The chunk with its embedding.
    pub fn with_embedding(self, embedding: Vec<u32>) -> (r: EmbeddingInput)
        ensures
            r@ == (EmbeddingView {
                source_type: "code"@,
                source_id: self.source_id@,
                chunk_index: self.chunk_index,
                content: self.content@,
                metadata: self.metadata@,
                embedding: embedding@,
            }),
    {
        EmbeddingInput {
            source_type: "code".to_owned(),
            source_id: self.source_id,
            chunk_index: self.chunk_index,
            content: self.content,
            metadata: self.metadata,
            embedding,
        }
    }
}

// ---------------------------------------------------------------------------
// The result of a scan
// ---------------------------------------------------------------------------

/// The manifests among the files of a repository, with the texts that were read.
pub open spec fn manifests_of(files: Seq<FileView>, contents: Seq<Option<Seq<char>>>) -> Seq<
    ManifestView,
> {
    let places = dep_files_of(files);
    Seq::new(
        places.len(),
        |i: int| ManifestView { path: files[places[i] as int].exact, content: contents[i] },
    )
}

/// Texts that may be absent.
pub open spec fn content_views(contents: Seq<Option<String>>) -> Seq<Option<Seq<char>>> {
    Seq::new(contents.len(), |i: int| opt_view(contents[i]))
}

/// A scan before its code is embedded: the result so far, what is sent to the graph, and
/// the code files that are left to be embedded.
#[derive(Debug, Clone)]
pub struct Scan {
    pub result: ScanResult,
    pub graph_queries: Vec<GraphQuery>,
    pub code_files: Vec<CodeFile>,
}

/// Whether the manifests among the files of a repository can be read, given the places of the
/// files that a build tool reads and their texts.
pub fn are_readable(
    files: &Vec<FoundFile>,
    places: &Vec<usize>,
    contents: &Vec<Option<String>>,
) -> (r: bool)
    requires
        places@ == dep_files_of(file_views(files@)),
        contents@.len() == places@.len(),
    ensures
        r == all_readable(manifests_of(file_views(files@), content_views(contents@))),
{
    let all = manifests(files, places, contents);
    let ghost seen = manifest_views(all@);
    let mut i: usize = 0;
    while i < all.len()
        invariant
            i <= all@.len(),
            seen == manifest_views(all@),
            seen == manifests_of(file_views(files@), content_views(contents@)),
            forall|k: int| 0 <= k < i ==> is_readable(#[trigger] seen[k]),
        decreases all@.len() - i,
    {
        assert(seen[i as int] == all@[i as int]@);
        if !all[i].can_read() {
            assert(!is_readable(seen[i as int]));
            return false;
        }
        i += 1;
    }
    true
}

fn manifests(files: &Vec<FoundFile>, places: &Vec<usize>, contents: &Vec<Option<String>>) -> (r:
    Vec<Manifest>)
    requires
        places@ == dep_files_of(file_views(files@)),
        contents@.len() == places@.len(),
    ensures
        manifest_views(r@) == manifests_of(file_views(files@), content_views(contents@)),
{
    let ghost all = manifests_of(file_views(files@), content_views(contents@));
    let mut out: Vec<Manifest> = Vec::new();
    let mut i: usize = 0;
    let len: usize = files.len();
    proof {
        law_dep_files(file_views(files@));
        assert(manifest_views(out@) =~= all.take(0));
    }
    while i < places.len()
        invariant
            i <= places@.len(),
            len == files@.len(),
            places@ == dep_files_of(file_views(files@)),
            contents@.len() == places@.len(),
            all == manifests_of(file_views(files@), content_views(contents@)),
            forall|i: int| 0 <= i < places@.len() ==> (#[trigger] places@[i]) < len,
            manifest_views(out@) == all.take(i as int),
        decreases places@.len() - i,
    {
        let file = &files[places[i]];
        let manifest = Manifest { path: file.exact.clone(), content: copy_text(&contents[i]) };
        let ghost done = manifest_views(out@);
        out.push(manifest);
        proof {
            assert(manifest@ =~= all[i as int]);
            assert(manifest_views(out@) =~= done.push(manifest@));
            assert(all.take(i + 1) =~= all.take(i as int).push(all[i as int]));
        }
        i += 1;
    }
    assert(all.take(i as int) =~= all);
    out
}

impl GitScanner {
    /// Scan a local git repository: what is known of it from its files, and what is sent to
    /// the graph.
    ///
    /// `classified` is what the files are, `contents` the texts of the files that a build
    /// tool reads, and `codeowners` the text of the file that names the owners, as far as
    /// they could be read.
    pub fn scan(
        &self,
        repo_path: &str,
        repo_name: &str,
        files: &Vec<FoundFile>,
        classified: Classified,
        contents: Vec<Option<String>>,
        codeowners: Option<&str>,
    ) -> (r: Scan)
        requires
            classified.classifies(file_views(files@)),
            contents@.len() == classified.dep_files@.len(),
            all_readable(manifests_of(file_views(files@), content_views(contents@))),
        ensures
            r.result.repo_path@ == repo_path@,
            r.result.repo_name@ == repo_name@,
            tally_views(r.result.languages@) == tally(
                languages_of(code_files_of(file_views(files@))),
            ),
            views(r.result.build_tools@) == distinct(tools_of(file_views(files@))),
            r.result.total_files == files@.len(),
            r.result.code_files == code_files_of(file_views(files@)).len(),
            config_views(r.result.config_files@) == config_files_of(file_views(files@)),
            dep_views(r.result.dependencies@) == all_declared(
                manifests_of(file_views(files@), content_views(contents@)),
            ),
            views(r.result.teams@) == teams_of(opt_str_view(codeowners)),
            r.result.graph_nodes_created == r.graph_queries@.len(),
            r.result.embeddings_created == 0,
            code_file_views(r.code_files@) == code_files_of(file_views(files@)),
            creates(
                r.graph_queries@,
                self.graph_name(),
                graph_nodes(
                    repo_name@,
                    code_files_of(file_views(files@)),
                    config_files_of(file_views(files@)),
                    dep_views(r.result.dependencies@),
                    views(r.result.teams@),
                ),
            ),
    {
        let declared = manifests(files, &classified.dep_files, &contents);
        let dependencies = collect_dependencies(&declared);
        let teams = collect_teams(codeowners);
        let graph_queries = self.populate_graph(
            repo_name,
            &classified.code_files,
            &classified.config_files,
            &dependencies,
            &teams,
        );
        let code_files: usize = classified.code_files.len();
        let graph_nodes_created: usize = graph_queries.len();
        proof {
            assert(code_file_views(classified.code_files@).len() == code_files);
        }
        let result = ScanResult {
            repo_path: repo_path.to_owned(),
            repo_name: repo_name.to_owned(),
            languages: classified.languages,
            build_tools: classified.build_tools,
            total_files: files.len(),
            code_files,
            config_files: classified.config_files,
            dependencies,
            teams,
            graph_nodes_created,
            embeddings_created: 0,
        };
        Scan { result, graph_queries, code_files: classified.code_files }
    }
}

// ---------------------------------------------------------------------------
// Laws
// ---------------------------------------------------------------------------

/// Manifests are read one by one: those of two lists declare what the first list does, and
/// then what the second does.
pub proof fn law_collected_in_parts(a: Seq<ManifestView>, b: Seq<ManifestView>)
    ensures
        all_declared(a + b) == all_declared(a) + all_declared(b),
    decreases b.len(),
{
    if b.len() == 0 {
        assert(a + b =~= a);
        assert(all_declared(a) + all_declared(b) =~= all_declared(a));
    } else {
        law_collected_in_parts(a, b.drop_last());
        assert((a + b).drop_last() =~= a + b.drop_last());
        assert((a + b).last() == b.last());
        assert((all_declared(a) + all_declared(b.drop_last())) + declared(b.last()) =~= all_declared(
            a,
        ) + all_declared(b));
    }
}

/// The number of dependencies of manifests, each counted by itself.
pub open spec fn declared_count(manifests: Seq<ManifestView>) -> nat
    decreases manifests.len(),
{
    if manifests.len() == 0 {
        0
    } else {
        let rest = declared_count(manifests.skip(1));
        match manifests[0].content {
            Some(content) => rest + manifest_dependencies(
                file_name_of(manifests[0].path),
                content,
            ).len(),
            None => rest,
        }
    }
}

/// The dependencies of one manifest are those of its text, by its name; one that could not be
/// read has none.
pub proof fn law_collected_from_one(manifest: ManifestView)
    ensures
        match manifest.content {
            Some(content) => all_declared(seq![manifest]) == manifest_dependencies(
                file_name_of(manifest.path),
                content,
            ),
            None => all_declared(seq![manifest]) == Seq::<DependencyView>::empty(),
        },
{
    let one = seq![manifest];
    assert(one.drop_last() =~= Seq::empty());
    assert(one.last() == manifest);
    assert(all_declared(one.drop_last()) =~= Seq::empty());
    assert(all_declared(one) =~= declared(manifest));
}

/// Nothing that a manifest declares is left out, and nothing is added: each dependency of each
/// manifest that could be read is among those that are collected, and they are as many as the
/// manifests declare together.
pub proof fn law_collected_from_all(manifests: Seq<ManifestView>)
    ensures
        forall|i: int, k: int|
            0 <= i < manifests.len() && manifests[i].content is Some && 0 <= k
                < manifest_dependencies(
                file_name_of(manifests[i].path),
                manifests[i].content->0,
            ).len() ==> all_declared(manifests).contains(
                #[trigger] manifest_dependencies(
                    file_name_of(manifests[i].path),
                    manifests[i].content->0,
                )[k],
            ),
        all_declared(manifests).len() == declared_count(manifests),
    decreases manifests.len(),
{
    if manifests.len() > 0 {
        let first = seq![manifests[0]];
        let rest = manifests.skip(1);
        law_collected_from_all(rest);
        law_collected_from_one(manifests[0]);
        law_collected_in_parts(first, rest);
        assert(first + rest =~= manifests);
        let all = all_declared(manifests);
        assert forall|i: int, k: int|
            0 <= i < manifests.len() && manifests[i].content is Some && 0 <= k
                < manifest_dependencies(
                file_name_of(manifests[i].path),
                manifests[i].content->0,
            ).len() implies all.contains(
            #[trigger] manifest_dependencies(
                file_name_of(manifests[i].path),
                manifests[i].content->0,
            )[k],
        ) by {
            let deps = manifest_dependencies(
                file_name_of(manifests[i].path),
                manifests[i].content->0,
            );
            if i == 0 {
                assert(all[k] == deps[k]);
            } else {
                assert(rest[i - 1] == manifests[i]);
                assert(all_declared(rest).contains(deps[k]));
                let j = choose|j: int|
                    0 <= j < all_declared(rest).len() && all_declared(rest)[j] == deps[k];
                assert(all[all_declared(first).len() + j] == deps[k]);
            }
        }
    }
}

/// Each file that a build tool reads is a manifest of the repository, in order, at its exact
/// path and with the text that was read for it.
pub proof fn law_manifests(files: Seq<FileView>, contents: Seq<Option<Seq<char>>>)
    requires
        files.len() <= usize::MAX,
        contents.len() == dep_files_of(files).len(),
    ensures
        manifests_of(files, contents).len() == dep_files_of(files).len(),
        forall|k: int|
            0 <= k < contents.len() ==> {
                let manifest = #[trigger] manifests_of(files, contents)[k];
                &&& manifest.path == files[dep_files_of(files)[k] as int].exact
                &&& manifest.content == contents[k]
            },
        forall|i: int|
            0 <= i < files.len() && path_build_tool((#[trigger] files[i]).exact) is Some
                ==> exists|k: int|
                0 <= k < contents.len() && dep_files_of(files)[k] == i && (
                #[trigger] manifests_of(files, contents)[k]).path == files[i].exact,
{
    law_dep_files(files);
    assert forall|i: int|
        0 <= i < files.len() && path_build_tool((#[trigger] files[i]).exact) is Some implies exists|
        k: int,
    |
        0 <= k < contents.len() && dep_files_of(files)[k] == i && (
        #[trigger] manifests_of(files, contents)[k]).path == files[i].exact by {
        let k = choose|k: int|
            0 <= k < dep_files_of(files).len() && dep_files_of(files)[k] == i as usize;
        assert(manifests_of(files, contents)[k].path == files[i].exact);
    }
}

/// What any manifest of a repository declares, the scan has: where the text of a file that a
/// build tool reads could be read, each dependency of that text is one of the repository.
pub proof fn law_scanned_dependencies(
    files: Seq<FileView>,
    contents: Seq<Option<Seq<char>>>,
    k: int,
    j: int,
)
    requires
        files.len() <= usize::MAX,
        contents.len() == dep_files_of(files).len(),
        0 <= k < contents.len(),
        contents[k] is Some,
        0 <= j < manifest_dependencies(
            file_name_of(files[dep_files_of(files)[k] as int].exact),
            contents[k]->0,
        ).len(),
    ensures
        all_declared(manifests_of(files, contents)).contains(
            manifest_dependencies(
                file_name_of(files[dep_files_of(files)[k] as int].exact),
                contents[k]->0,
            )[j],
        ),
{
    let manifests = manifests_of(files, contents);
    law_manifests(files, contents);
    law_collected_from_all(manifests);
    assert(manifests[k].content == contents[k]);
}

/// The graph of a repository has one node for each code file, each configuration file, each
/// dependency and each team, in that order, with what is known of each.
pub proof fn law_graph_nodes(
    repo: Seq<char>,
    code_files: Seq<CodeFileView>,
    config_files: Seq<ConfigView>,
    dependencies: Seq<DependencyView>,
    teams: Seq<Seq<char>>,
)
    ensures
        ({
            let nodes = graph_nodes(repo, code_files, config_files, dependencies, teams);
            let configs = code_files.len() as int;
            let packages = configs + config_files.len();
            let owners = packages + dependencies.len();
            &&& nodes.len() == owners + teams.len()
            &&& forall|i: int|
                0 <= i < code_files.len() ==> {
                    &&& (#[trigger] nodes[i]).label == "File"@
                    &&& nodes[i].properties == seq![
                        ("language"@, ScalarView::Text(code_files[i].language)),
                        ("path"@, ScalarView::Text(code_files[i].path)),
                        ("repo"@, ScalarView::Text(repo)),
                    ]
                }
            &&& forall|i: int|
                0 <= i < config_files.len() ==> {
                    let node = nodes[configs + i];
                    &&& node.label == "Config"@
                    &&& node.properties == seq![
                        ("config_type"@, ScalarView::Text((#[trigger] config_files[i]).config_type)),
                        ("path"@, ScalarView::Text(config_files[i].path)),
                        ("repo"@, ScalarView::Text(repo)),
                    ]
                }
            &&& forall|i: int|
                0 <= i < dependencies.len() ==> {
                    let node = nodes[packages + i];
                    let version = match (#[trigger] dependencies[i]).version {
                        Some(version) => ScalarView::Text(version),
                        None => ScalarView::Null,
                    };
                    &&& node.label == "Package"@
                    &&& node.properties == seq![
                        ("ecosystem"@, ScalarView::Text(dependencies[i].ecosystem)),
                        ("name"@, ScalarView::Text(dependencies[i].name)),
                        ("version"@, version),
                    ]
                }
            &&& forall|i: int|
                0 <= i < teams.len() ==> {
                    let node = nodes[owners + i];
                    &&& node.label == "Team"@
                    &&& node.properties == seq![
                        ("name"@, ScalarView::Text(#[trigger] teams[i])),
                        ("repo"@, ScalarView::Text(repo)),
                    ]
                }
        }),
{
    let nodes = graph_nodes(repo, code_files, config_files, dependencies, teams);
    assert forall|i: int| 0 <= i < code_files.len() implies #[trigger] nodes[i] == file_node(
        repo,
        code_files[i],
    ) by {}
    assert forall|i: int| 0 <= i < config_files.len() implies nodes[code_files.len() + i]
        == config_node(repo, #[trigger] config_files[i]) by {}
    assert forall|i: int| 0 <= i < dependencies.len() implies nodes[code_files.len()
        + config_files.len() + i] == package_node(#[trigger] dependencies[i]) by {}
    assert forall|i: int| 0 <= i < teams.len() implies nodes[code_files.len() + config_files.len()
        + dependencies.len() + i] == team_node(repo, #[trigger] teams[i]) by {}
}

/// The contents of chunks.
pub open spec fn chunk_contents(chunks: Seq<ChunkView>) -> Seq<Seq<char>> {
    Seq::new(chunks.len(), |i: int| chunks[i].content)
}

/// A file of fifty bytes or more is chunked without loss: the contents of its chunks, without
/// what each repeats, make the file again. Each chunk tells its repository and path, its place,
/// and how many there are. A smaller file has no chunks.
pub proof fn law_chunks(repo: Seq<char>, path: Seq<char>, language: Seq<char>, content: Seq<char>)
    ensures
        ({
            let chunks = code_chunks(repo, path, language, content);
            if byte_len(content) < 50 {
                chunks.len() == 0
            } else {
                &&& chunks.len() > 0
                &&& rejoined(chunk_contents(chunks), 64) == content
                &&& forall|i: int|
                    0 <= i < chunks.len() ==> {
                        &&& (#[trigger] chunks[i]).source_id == repo + ":"@ + path
                        &&& i <= i32::MAX ==> chunks[i].chunk_index == i
                        &&& 0 < chunks[i].content.len() <= 512
                        &&& i < chunks.len() - 1 ==> chunks[i].content.len() == 512
                        &&& chunks[i].metadata == object_json(
                            seq![
                                ("chunk"@, ScalarView::Number(i)),
                                ("file_path"@, ScalarView::Text(path)),
                                ("language"@, ScalarView::Text(language)),
                                ("repo"@, ScalarView::Text(repo)),
                                ("total_chunks"@, ScalarView::Number(chunks.len() as int)),
                            ],
                        )
                    }
            }
        }),
{
    let chunks = code_chunks(repo, path, language, content);
    if byte_len(content) >= 50 {
        let parts = pieces(content, 512, 64);
        law_pieces_rejoin(content, 512, 64);
        assert(chunk_contents(chunks) =~= parts);
        assert(content.len() > 0) by {
            if content.len() == 0 {
                assert(byte_len(content) == 0);
            }
        }
        if parts.len() == 0 {
            assert(rejoined(parts, 64).len() == 0);
        }
        assert forall|i: int| 0 <= i < chunks.len() implies {
            &&& (#[trigger] chunks[i]).source_id == repo + ":"@ + path
            &&& i <= i32::MAX ==> chunks[i].chunk_index == i
            &&& 0 < chunks[i].content.len() <= 512
            &&& i < chunks.len() - 1 ==> chunks[i].content.len() == 512
            &&& chunks[i].metadata == object_json(
                seq![
                    ("chunk"@, ScalarView::Number(i)),
                    ("file_path"@, ScalarView::Text(path)),
                    ("language"@, ScalarView::Text(language)),
                    ("repo"@, ScalarView::Text(repo)),
                    ("total_chunks"@, ScalarView::Number(chunks.len() as int)),
                ],
            )
        } by {
            law_piece_sizes(content, 512, 64, i);
        }
    }
}

/// A repository is named by the last part of its path; one without is unknown.
pub proof fn law_repo_name(dir: Seq<char>, name: Seq<char>)
    requires
        is_name(name),
    ensures
        repo_name(Some(dir.push('/') + name)) == name,
        repo_name(Some(name)) == name,
        repo_name(None) == "unknown"@,
{
    law_file_name(dir, name);
}

/// The teams of a repository are those that its CODEOWNERS file names.
pub proof fn law_teams_of(content: Seq<char>)
    ensures
        teams_of(Some(content)) == codeowners_teams(content),
        teams_of(None).len() == 0,
{
}

/// Manifests are seen as they are, each with its path and its text, in order.
pub proof fn law_manifests_seen(manifests: Seq<Manifest>)
    ensures
        manifest_views(manifests).len() == manifests.len(),
        forall|i: int|
            0 <= i < manifests.len() ==> {
                let seen = #[trigger] manifest_views(manifests)[i];
                &&& seen.path == manifests[i].path@
                &&& seen.content == (match manifests[i].content {
                    Some(text) => Some(text@),
                    None => None,
                })
            },
{
}

/// Dependencies are seen as they are, in order.
pub proof fn law_dependencies_seen(deps: Seq<DepInfo>)
    ensures
        dep_views(deps).len() == deps.len(),
        forall|i: int|
            0 <= i < deps.len() ==> {
                let seen = #[trigger] dep_views(deps)[i];
                &&& seen.name == deps[i].name@
                &&& seen.version == (match deps[i].version {
                    Some(text) => Some(text@),
                    None => None,
                })
                &&& seen.ecosystem == deps[i].ecosystem@
                &&& seen.dep_type == deps[i].dep_type@
            },
{
}

/// Chunks are seen as they are, in order.
pub proof fn law_chunks_seen(chunks: Seq<CodeChunk>)
    ensures
        chunk_views(chunks).len() == chunks.len(),
        forall|i: int|
            0 <= i < chunks.len() ==> {
                let seen = #[trigger] chunk_views(chunks)[i];
                &&& seen.source_id == chunks[i].source_id@
                &&& seen.chunk_index == chunks[i].chunk_index
                &&& seen.content == chunks[i].content@
                &&& seen.metadata == chunks[i].metadata@
            },
{
}

/// Texts that may be absent are seen as they are, in order.
pub proof fn law_contents_seen(contents: Seq<Option<String>>)
    ensures
        content_views(contents).len() == contents.len(),
        forall|i: int|
            0 <= i < contents.len() ==> {
                let seen = #[trigger] content_views(contents)[i];
                &&& seen == (match contents[i] { Some(text) => Some(text@), None => None })
            },
{
}

/// The entries that are never kept are those of dependencies, builds and tools, and no others,
/// and files are kept up to a hundred thousand bytes.
pub proof fn law_skipped_names(name: Seq<char>)
    ensures
        MAX_FILE_SIZE == 100_000,
        skipped_names().contains(name) <==> {
            ||| name == "node_modules"@
            ||| name == ".git"@
            ||| name == "target"@
            ||| name == "build"@
            ||| name == "dist"@
            ||| name == ".idea"@
            ||| name == ".vscode"@
            ||| name == "__pycache__"@
            ||| name == ".gradle"@
            ||| name == "vendor"@
            ||| name == ".next"@
        },
{
    let names = skipped_names();
    assert(names[0] == "node_modules"@ && names[1] == ".git"@ && names[2] == "target"@ && names[3]
        == "build"@ && names[4] == "dist"@ && names[5] == ".idea"@ && names[6] == ".vscode"@
        && names[7] == "__pycache__"@ && names[8] == ".gradle"@ && names[9] == "vendor"@
        && names[10] == ".next"@);
}

/// Every manifest is read but one of requirements: what stands in it, or that it could not be
/// had, is no reason to refuse it.
pub proof fn law_readable(manifests: Seq<ManifestView>)
    requires
        forall|i: int|
            0 <= i < manifests.len() ==> file_name_of((#[trigger] manifests[i]).path) != Some(
                "requirements.txt"@,
            ) || manifests[i].content is None,
    ensures
        all_readable(manifests),
{
}

/// There is one query for each node, in order, and it creates that node: with its label, and
/// with its properties as a document.
pub proof fn law_nodes_are_created(
    queries: Seq<GraphQuery>,
    graph: Seq<char>,
    nodes: Seq<NodeView>,
    i: int,
)
    requires
        creates(queries, graph, nodes),
        0 <= i < nodes.len(),
    ensures
        queries.len() == nodes.len(),
        is_made_of(
            queries[i].cypher@,
            "CREATE (n:"@ + nodes[i].label,
            " "@ + object_json(nodes[i].properties) + ") RETURN n"@,
        ),
{
    let none = Seq::<char>::empty();
    law_wrapped(queries[i], graph, node_cypher(nodes[i]));
    law_created(
        nodes[i].label,
        object_json(nodes[i].properties),
        none,
        none,
        none,
        none,
        None,
    );
}

} // verus!
