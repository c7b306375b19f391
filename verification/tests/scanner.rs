use goose_context::db::vector::EmbeddingInput;
use goose_context::json::Json;
use goose_context::scanner::batch::Batcher;
use goose_context::scanner::chunk::chunk_text;
use goose_context::scanner::classify::{classify, FoundFile};
use goose_context::scanner::codeowners::parse_codeowners_teams;
use goose_context::scanner::dep_parser::{
    gradle_dependencies_of, is_readable_requirements, maven_dependencies_of, npm_dependencies_of,
    parse_cargo_toml, parse_dependencies, parse_go_mod, parse_gradle, parse_package_json,
    parse_pom_xml, parse_requirements_txt, ParsedDependency,
};
use goose_context::scanner::git_scanner::{
    are_readable, collect_dependencies, collect_teams, populate_embeddings, repo_name_of, DepInfo, Manifest,
};
use goose_context::scanner::language::{detect_build_tool, detect_config_type, detect_language};
use goose_context::scanner::walk::{DirEntry, EntryKind, Walk, WalkRules};
use goose_context::{ContextStore, GitScanner};

fn shown(deps: &[ParsedDependency]) -> Vec<(String, Option<String>, String, String)> {
    deps.iter()
        .map(|d| (d.name.clone(), d.version.clone(), d.ecosystem.clone(), d.dep_type.clone()))
        .collect()
}

fn dep(name: &str, version: Option<&str>, eco: &str, kind: &str) -> (String, Option<String>, String, String) {
    (name.to_string(), version.map(|v| v.to_string()), eco.to_string(), kind.to_string())
}

#[test]
fn languages_by_extension() {
    let cases = [
        ("src/Main.java", Some("java")),
        ("a.kt", Some("kotlin")),
        ("a.kts", Some("kotlin")),
        ("a.py", Some("python")),
        ("a.rs", Some("rust")),
        ("a.go", Some("go")),
        ("a.mjs", Some("javascript")),
        ("a.jsx", Some("javascript")),
        ("a.tsx", Some("typescript")),
        ("a.cts", Some("typescript")),
        ("a.rb", Some("ruby")),
        ("a.cs", Some("csharp")),
        ("a.cxx", Some("cpp")),
        ("a.h", Some("c")),
        ("a.swift", Some("swift")),
        ("a.scala", Some("scala")),
        ("a.php", Some("php")),
        ("a.bash", Some("shell")),
        ("a.sql", Some("sql")),
        ("a.yml", Some("yaml")),
        ("a.json", Some("json")),
        ("a.xml", Some("xml")),
        ("a.toml", Some("toml")),
        ("a.markdown", Some("markdown")),
        ("a.hcl", Some("terraform")),
        ("a.proto", Some("protobuf")),
        ("a.gql", Some("graphql")),
        ("a.RS", None),
        ("Makefile", None),
        (".rs", None),
        ("a.tar.gz", None),
        ("dir.rs/file", None),
        ("dir/a.rs/", Some("rust")),
        ("", None),
        ("..", None),
    ];
    for (path, language) in cases {
        assert_eq!(detect_language(path), language, "{}", path);
    }
}

#[test]
fn config_types_by_name_and_path() {
    let cases = [
        ("Dockerfile", Some("dockerfile")),
        ("DOCKERFILE", Some("dockerfile")),
        ("x/docker-compose.YML", Some("docker-compose")),
        ("compose.yaml", Some("docker-compose")),
        ("Jenkinsfile", Some("ci")),
        (".gitlab-ci.yml", Some("ci")),
        ("Makefile", Some("build")),
        ("docs/CODEOWNERS", Some("codeowners")),
        (".codeowners", Some("codeowners")),
        (".github/workflows/ci.yml", Some("ci")),
        (".github/workflows/readme.md", None),
        ("k8s/app.yaml", Some("k8s")),
        ("kubernetes/app.txt", None),
        ("deploy/charts/app.txt", None),
        ("charts/app.txt", Some("helm")),
        ("HelmRelease.txt", Some("helm")),
        ("main.tf", Some("terraform")),
        ("main.TF", None),
        ("a.yml", None),
        ("/", None),
    ];
    for (path, kind) in cases {
        assert_eq!(detect_config_type(path), kind, "{}", path);
    }
}

#[test]
fn build_tools_by_name() {
    let cases = [
        ("a/pom.xml", Some("maven")),
        ("build.gradle.kts", Some("gradle")),
        ("package.json", Some("npm")),
        ("Cargo.toml", Some("cargo")),
        ("go.mod", Some("go")),
        ("Pipfile", Some("pip")),
        ("setup.py", Some("pip")),
        ("Gemfile", Some("bundler")),
        ("build.sbt", Some("sbt")),
        ("CMakeLists.txt", Some("cmake")),
        ("Makefile", Some("make")),
        ("App.csproj", Some("dotnet")),
        ("App.sln", Some("dotnet")),
        ("makefile", None),
        ("pom.xml.bak", None),
    ];
    for (path, tool) in cases {
        assert_eq!(detect_build_tool(path), tool, "{}", path);
    }
}

#[test]
fn package_json_sections() {
    let deps = parse_package_json(
        r#"{ "name": "x", "dependencies": { "b": "^1.0", "a": {"x": 1} },
             "devDependencies": { "jest": "29" } }"#,
    );
    assert_eq!(
        shown(&deps),
        vec![
            dep("a", None, "npm", "runtime"),
            dep("b", Some("^1.0"), "npm", "runtime"),
            dep("jest", Some("29"), "npm", "dev"),
        ]
    );
    assert!(parse_package_json("{ not json").is_empty());
    assert!(parse_package_json("[1]").is_empty());
    assert!(parse_package_json(r#"{"dependencies": 3}"#).is_empty());
}

#[test]
fn npm_entries_become_dependencies() {
    let deps = npm_dependencies_of(
        Some(vec![("a".to_string(), Some("1".to_string()))]),
        Some(vec![("b".to_string(), None)]),
    );
    assert_eq!(
        shown(&deps),
        vec![dep("a", Some("1"), "npm", "runtime"), dep("b", None, "npm", "dev")]
    );
    assert!(npm_dependencies_of(None, None).is_empty());
}

#[test]
fn cargo_sections_and_versions() {
    let deps = parse_cargo_toml(
        "[package]\nname = \"x\"\n\n[dependencies]\n serde = { version = \"1\", features = [] }\n\
         regex = \"1.10\"\n# note = 1\n= \"none\"\nno_equals\n[features]\nf = []\n\
         [dev-dependencies]\r\ntempfile = \"3\"\r\n[build-dependencies]\ncc=\"1\"\n[target.x]\ny = \"1\"",
    );
    assert_eq!(
        shown(&deps),
        vec![
            dep("serde", Some("version = \"1"), "cargo", "runtime"),
            dep("regex", Some("1.10"), "cargo", "runtime"),
            dep("tempfile", Some("3"), "cargo", "dev"),
            dep("cc", Some("1"), "cargo", "build"),
        ]
    );
    assert!(parse_cargo_toml("").is_empty());
}

#[test]
fn requirements_with_and_without_versions() {
    let content = "# comment\n-r other.txt\n\nflask==2.0\nrequests>=2,<3\nnumpy\n~=1\n foo==1\n";
    assert!(is_readable_requirements(content));
    let deps = parse_requirements_txt(content);
    assert_eq!(
        shown(&deps),
        vec![
            dep("flask", Some("==2.0"), "pip", "runtime"),
            dep("requests", Some(">=2,<3"), "pip", "runtime"),
            dep("numpy", None, "pip", "runtime"),
            dep("foo", Some("o==1"), "pip", "runtime"),
        ]
    );
    // The bytes of the name end inside a character of the line.
    assert!(!is_readable_requirements(" \u{e9}==1"));
    assert!(is_readable_requirements("\u{e9}==1"));
    assert_eq!(
        shown(&parse_requirements_txt("\u{e9}==1")),
        vec![dep("\u{e9}", Some("==1"), "pip", "runtime")]
    );
}

#[test]
fn go_require_blocks() {
    let deps = parse_go_mod(
        "module x\n\nrequire (\n\tgithub.com/a/b v1.2.3 // indirect\n\tlonely\n)\n\nrequire c v1\n",
    );
    assert_eq!(
        shown(&deps),
        vec![dep("github.com/a/b", Some("v1.2.3"), "go", "runtime")]
    );
}

#[test]
fn maven_elements() {
    let deps = parse_pom_xml(
        "<dependencies><dependency>\n <groupId>g</groupId>\n <artifactId>a</artifactId>\n \
         <version>1</version>\n <scope>test</scope></dependency>\n<dependency><groupId>h</groupId>\
         <artifactId>b</artifactId></dependency><dependency><groupId>i</groupId>\
         <artifactId>c</artifactId><scope>provided</scope></dependency></dependencies>",
    );
    assert_eq!(
        shown(&deps),
        vec![
            dep("g:a", Some("1"), "maven", "test"),
            dep("h:b", None, "maven", "runtime"),
            dep("i:c", None, "maven", "runtime"),
        ]
    );
    assert!(parse_pom_xml("<project/>").is_empty());
}

#[test]
fn gradle_lines() {
    let deps = parse_gradle(
        "dependencies {\n  implementation 'org.x:core:1.2'\n  testImplementation \"j:unit\"\n  \
         annotationProcessor 'a:b:1'\n  api 'c:d:2'\n}",
    );
    assert_eq!(
        shown(&deps),
        vec![
            dep("org.x:core", Some("1.2"), "gradle", "runtime"),
            dep("j:unit", None, "gradle", "test"),
            dep("c:d", Some("2"), "gradle", "runtime"),
        ]
    );
}

#[test]
fn captures_become_dependencies() {
    let some = |s: &str| Some(s.to_string());
    let maven = maven_dependencies_of(&vec![
        vec![some("all"), some("g"), some("a"), None, some("test")],
        vec![],
    ]);
    assert_eq!(
        shown(&maven),
        vec![dep("g:a", None, "maven", "test"), dep(":", None, "maven", "runtime")]
    );
    let gradle = gradle_dependencies_of(&vec![vec![
        some("all"),
        some("testRuntimeOnly"),
        some("g"),
        some("a"),
        some("3"),
    ]]);
    assert_eq!(shown(&gradle), vec![dep("g:a", Some("3"), "gradle", "test")]);
}

#[test]
fn manifests_are_told_by_their_names() {
    let gradle = "implementation 'a:b:1'";
    assert_eq!(parse_dependencies("x/build.gradle", gradle).len(), 1);
    assert_eq!(parse_dependencies("x/build.gradle.kts", gradle).len(), 1);
    assert_eq!(parse_dependencies("x/Cargo.toml", "[dependencies]\na = \"1\"").len(), 1);
    assert_eq!(parse_dependencies("package.json", r#"{"dependencies":{"a":"1"}}"#).len(), 1);
    assert_eq!(parse_dependencies("requirements.txt", "a\nb").len(), 2);
    assert_eq!(parse_dependencies("go.mod", "require (\na v1\n)").len(), 1);
    assert_eq!(
        parse_dependencies(
            "pom.xml",
            "<dependency><groupId>g</groupId><artifactId>a</artifactId></dependency>"
        )
        .len(),
        1
    );
    assert!(parse_dependencies("Gemfile", "gem 'rails'").is_empty());
    assert!(parse_dependencies("", "[dependencies]\na = \"1\"").is_empty());
}

#[test]
fn dependency_kinds_are_known() {
    let content = "[dependencies]\na = \"1\"\n[dev-dependencies]\nb = \"1\"\n[build-dependencies]\nc = \"1\"";
    for dep in parse_dependencies("Cargo.toml", content) {
        assert!(["runtime", "dev", "build", "test"].contains(&dep.dep_type.as_str()));
        assert_eq!(dep.ecosystem, "cargo");
    }
}

#[test]
fn owners_of_code() {
    let teams = parse_codeowners_teams(
        "# owners\n* @org/core @alice\n\n/docs docs@example.com @org/core\n  /src @@bob # @carol\n@only\n",
    );
    assert_eq!(teams, vec!["org/core", "alice", "bob", "carol"]);
    assert!(parse_codeowners_teams("").is_empty());
    assert!(collect_teams(None).is_empty());
    assert_eq!(collect_teams(Some("* @a")), vec!["a"]);
}

#[test]
fn chunks_overlap_and_cover() {
    assert_eq!(chunk_text("abcdefghij", 4, 1), vec!["abcd", "defg", "ghij"]);
    assert_eq!(chunk_text("abcdefghijk", 4, 1), vec!["abcd", "defg", "ghij", "jk"]);
    assert_eq!(chunk_text("abc", 4, 9), vec!["abc"]);
    assert_eq!(chunk_text("", 4, 1), vec![""]);
    assert_eq!(chunk_text("\u{e9}\u{e8}\u{ea}", 2, 0), vec!["\u{e9}\u{e8}", "\u{ea}"]);

    let text: String = (0..1500).map(|i| char::from(b'a' + (i % 26) as u8)).collect();
    let chunks = chunk_text(&text, 512, 64);
    assert_eq!(chunks.len(), 4);
    let mut joined = chunks[0].clone();
    for pair in chunks.windows(2) {
        assert_eq!(pair[0].len(), 512);
        assert_eq!(pair[0][448..], pair[1][..64]);
        joined.push_str(&pair[1][64..]);
    }
    assert_eq!(joined, text);
}

fn entry(id: usize, name: &str, kind: EntryKind) -> DirEntry {
    DirEntry { id, name: name.to_string(), kind }
}

#[test]
fn walk_is_depth_first_and_skips() {
    let scanner = GitScanner::new(ContextStore::new());
    let rules = scanner.rules();
    assert_eq!(rules.max_file_size, 100_000);
    let mut walk = Walk::new(0);
    assert_eq!(walk.next_directory(), Some(0));
    walk.enter(
        rules,
        &vec![
            entry(1, "a.rs", EntryKind::File(Some(10))),
            entry(2, "src", EntryKind::Directory),
            entry(3, "node_modules", EntryKind::Directory),
            entry(4, ".hidden", EntryKind::File(Some(1))),
            entry(5, ".github", EntryKind::Directory),
            entry(6, "big", EntryKind::File(Some(100_001))),
            entry(7, "edge", EntryKind::File(Some(100_000))),
            entry(8, "odd", EntryKind::File(None)),
            entry(9, "pipe", EntryKind::Other),
            entry(10, ".codeowners", EntryKind::File(Some(3))),
        ],
    );
    assert_eq!(walk.next_directory(), Some(2));
    walk.enter(
        rules,
        &vec![
            entry(11, "inner", EntryKind::Directory),
            entry(12, "b.rs", EntryKind::File(Some(5))),
        ],
    );
    assert_eq!(walk.next_directory(), Some(11));
    walk.enter(rules, &vec![entry(13, "c.rs", EntryKind::File(Some(5)))]);
    assert_eq!(walk.next_directory(), Some(5));
    walk.enter(rules, &vec![]);
    assert_eq!(walk.next_directory(), None);
    assert_eq!(walk.into_files(), vec![1, 13, 12, 7, 10]);
}

#[test]
fn rules_keep_names() {
    let rules = WalkRules { max_file_size: 1, skip_patterns: vec!["target".to_string()] };
    assert!(rules.is_kept_name("src"));
    assert!(!rules.is_kept_name("target"));
    assert!(!rules.is_kept_name(".git"));
    assert!(rules.is_kept_name(".github"));
    assert!(rules.is_kept_name(".codeowners"));
}

fn file(path: &str) -> FoundFile {
    let name = path.rsplit('/').next().unwrap_or("");
    FoundFile { shown: path.to_string(), name: name.to_string(), exact: path.to_string() }
}

#[test]
fn files_are_classified() {
    let files = vec![
        file("src/a.rs"),
        file("Cargo.toml"),
        file("src/b.rs"),
        file("CODEOWNERS"),
        file("web/package.json"),
        file("sub/Cargo.toml"),
        file("Dockerfile"),
        file("docs/CODEOWNERS"),
        file("LICENSE"),
    ];
    let found = classify(&files);
    assert_eq!(
        found.languages,
        vec![("rust".to_string(), 2), ("toml".to_string(), 2), ("json".to_string(), 1)]
    );
    assert_eq!(found.build_tools, vec!["cargo", "npm"]);
    assert_eq!(found.dep_files, vec![1, 4, 5]);
    assert_eq!(found.codeowners, Some(7));
    let code: Vec<(usize, &str, &str)> = found
        .code_files
        .iter()
        .map(|c| (c.index, c.path.as_str(), c.language.as_str()))
        .collect();
    assert_eq!(
        code,
        vec![
            (0, "src/a.rs", "rust"),
            (1, "Cargo.toml", "toml"),
            (2, "src/b.rs", "rust"),
            (4, "web/package.json", "json"),
            (5, "sub/Cargo.toml", "toml"),
        ]
    );
    let total: usize = found.languages.iter().map(|l| l.1).sum();
    assert_eq!(total, found.code_files.len());
    let configs: Vec<(&str, &str)> = found
        .config_files
        .iter()
        .map(|c| (c.path.as_str(), c.config_type.as_str()))
        .collect();
    assert_eq!(
        configs,
        vec![
            ("CODEOWNERS", "codeowners"),
            ("Dockerfile", "dockerfile"),
            ("docs/CODEOWNERS", "codeowners"),
        ]
    );
}

#[test]
fn scan_collects_everything() {
    let scanner = GitScanner::new(ContextStore::new());
    let files = vec![file("a.rs"), file("Cargo.toml"), file("go.mod"), file("CODEOWNERS")];
    let classified = classify(&files);
    let contents = vec![Some("[dependencies]\nserde = \"1\"".to_string()), None];
    assert!(are_readable(&files, &classified.dep_files, &contents));
    let scan = scanner.scan(
        "/repos/x",
        "x",
        &files,
        classified,
        contents,
        Some("* @core"),
    );
    assert_eq!(scan.result.repo_path, "/repos/x");
    assert_eq!(scan.result.repo_name, "x");
    assert_eq!(scan.result.total_files, 4);
    assert_eq!(scan.result.code_files, 2);
    assert_eq!(scan.result.build_tools, vec!["cargo", "go"]);
    assert_eq!(scan.result.dependencies.len(), 1);
    assert_eq!(scan.result.teams, vec!["core"]);
    assert_eq!(scan.result.graph_nodes_created, 5);
    assert_eq!(scan.result.embeddings_created, 0);
    assert_eq!(scan.code_files.len(), 2);
    let cypher: Vec<&str> = scan.graph_queries.iter().map(|q| q.cypher.as_str()).collect();
    assert_eq!(
        cypher,
        vec![
            "CREATE (n:File {\"language\":\"rust\",\"path\":\"a.rs\",\"repo\":\"x\"}) RETURN n",
            "CREATE (n:File {\"language\":\"toml\",\"path\":\"Cargo.toml\",\"repo\":\"x\"}) RETURN n",
            "CREATE (n:Config {\"config_type\":\"codeowners\",\"path\":\"CODEOWNERS\",\"repo\":\"x\"}) RETURN n",
            "CREATE (n:Package {\"ecosystem\":\"cargo\",\"name\":\"serde\",\"version\":\"1\"}) RETURN n",
            "CREATE (n:Team {\"name\":\"core\",\"repo\":\"x\"}) RETURN n",
        ]
    );
}

#[test]
fn packages_without_version_have_null() {
    let scanner = GitScanner::new(ContextStore::new());
    let queries = scanner.populate_graph(
        "r",
        &vec![],
        &vec![],
        &vec![DepInfo {
            name: "a\"b".to_string(),
            version: None,
            ecosystem: "pip".to_string(),
            dep_type: "runtime".to_string(),
        }],
        &vec![],
    );
    assert_eq!(queries.len(), 1);
    assert_eq!(
        queries[0].cypher,
        "CREATE (n:Package {\"ecosystem\":\"pip\",\"name\":\"a\\\"b\",\"version\":null}) RETURN n"
    );
}

#[test]
fn unreadable_manifests_are_told() {
    let good = Manifest { path: "requirements.txt".to_string(), content: Some("a==1".to_string()) };
    let bad = Manifest {
        path: "x/requirements.txt".to_string(),
        content: Some(" \u{e9}==1".to_string()),
    };
    let other = Manifest { path: "go.mod".to_string(), content: Some(" \u{e9}==1".to_string()) };
    let absent = Manifest { path: "requirements.txt".to_string(), content: None };
    assert!(good.can_read());
    assert!(!bad.can_read());
    assert!(other.can_read());
    assert!(absent.can_read());
    assert_eq!(collect_dependencies(&vec![good, other, absent]).len(), 1);
    let files = vec![file("requirements.txt")];
    let bad = vec![Some(" \u{e9}==1".to_string())];
    assert!(!are_readable(&files, &classify(&files).dep_files, &bad));
}

#[test]
fn repository_names() {
    assert_eq!(repo_name_of(Some("/repos/goose")), "goose");
    assert_eq!(repo_name_of(Some("/")), "unknown");
    assert_eq!(repo_name_of(None), "unknown");
}

#[test]
fn code_is_chunked_with_its_source() {
    assert!(populate_embeddings("r", "a.rs", "rust", &"x".repeat(49)).is_empty());
    // Two bytes for each character.
    assert_eq!(populate_embeddings("r", "a.rs", "rust", &"\u{e9}".repeat(25)).len(), 1);
    let chunks = populate_embeddings("r", "a.rs", "rust", &"x".repeat(600));
    assert_eq!(chunks.len(), 2);
    assert_eq!(chunks[0].source_id, "r:a.rs");
    assert_eq!(chunks[1].chunk_index, 1);
    assert_eq!(chunks[0].content.len(), 512);
    assert_eq!(chunks[1].content.len(), 152);
    assert_eq!(
        chunks[1].metadata.as_text(),
        "{\"chunk\":1,\"file_path\":\"a.rs\",\"language\":\"rust\",\"repo\":\"r\",\"total_chunks\":2}"
    );
    assert_eq!(chunks[0].metadata.get_text("language"), Some("rust".to_string()));
    let input = chunks.into_iter().next().unwrap().with_embedding(vec![7, 8]);
    assert_eq!(input.source_type, "code");
    assert_eq!(input.embedding, vec![7, 8]);
    assert_eq!(input.chunk_index, 0);
}

fn input(i: i32) -> EmbeddingInput {
    EmbeddingInput {
        source_type: "code".to_string(),
        source_id: "s".to_string(),
        chunk_index: i,
        content: String::new(),
        metadata: Json::empty_object(),
        embedding: vec![],
    }
}

#[test]
fn batches_are_full_and_in_order() {
    let mut batcher = Batcher::new();
    let mut seen: Vec<i32> = Vec::new();
    let mut sizes: Vec<usize> = Vec::new();
    for i in 0..120 {
        if let Some(batch) = batcher.push(input(i)) {
            sizes.push(batch.len());
            seen.extend(batch.iter().map(|b| b.chunk_index));
        }
    }
    assert_eq!(sizes, vec![50, 50]);
    assert_eq!(batcher.handed_out(), 100);
    let rest = batcher.finish().unwrap();
    assert_eq!(rest.len(), 20);
    seen.extend(rest.iter().map(|b| b.chunk_index));
    assert_eq!(seen, (0..120).collect::<Vec<i32>>());
    assert_eq!(batcher.handed_out(), 120);
    assert!(batcher.finish().is_none());
}

#[test]
fn cargo_headings_start_anew() {
    let texts = ["", "x = 1", "[dependencies]\na = \"1\"\r", "[dev-dependencies]\nb = 2\n", "[x]\n"];
    let later = "  [build-dependencies]\nc = { version = \"3\", features = [\"f\"] }\n";
    for text in texts {
        let both = shown(&parse_cargo_toml(&format!("{}\n{}", text, later)));
        let mut parts = shown(&parse_cargo_toml(text));
        parts.extend(shown(&parse_cargo_toml(later)));
        assert_eq!(both, parts, "{:?}", text);
        for (name, version, ecosystem, _) in both {
            let version = version.unwrap();
            assert!(!name.is_empty() && !name.contains('=') && name.trim() == name);
            assert!(!version.contains(',') && !version.starts_with('"') && !version.ends_with('"'));
            assert_eq!(ecosystem, "cargo");
        }
    }
}

#[test]
fn ecosystem_is_that_of_the_build_tool() {
    let cases = [
        ("a/package.json", r#"{"dependencies":{"a":"1"}}"#),
        ("a/Cargo.toml", "[dependencies]\na = \"1\""),
        ("a/requirements.txt", "a==1"),
        ("a/go.mod", "require (\na v1\n)"),
        ("a/build.gradle", "api 'a:b:1'"),
        ("a/build.gradle.kts", "api 'a:b:1'"),
        ("a/pom.xml", "<dependency><groupId>g</groupId><artifactId>a</artifactId></dependency>"),
    ];
    for (path, content) in cases {
        let deps = parse_dependencies(path, content);
        assert_eq!(deps.len(), 1, "{}", path);
        assert_eq!(Some(deps[0].ecosystem.as_str()), detect_build_tool(path));
        let elsewhere = path.replace("a/", "b/c/");
        assert_eq!(shown(&parse_dependencies(&elsewhere, content)), shown(&deps));
        assert!(parse_dependencies(&format!("{}.bak", path), content).is_empty());
    }
}
