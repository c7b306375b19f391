//! Dependencies that manifest files declare.

use vstd::prelude::*;
use vstd::string::*;

use crate::json::{entry_views, json_parse, text_entries_of, Json};
use crate::path::{file_name, file_name_of};
use crate::scanner::language::{build_tool, path_build_tool};
use crate::text::{
    before, behind_bytes, byte_count, byte_len, cut_at, is_empty, is_some_text, lemma_span,
    lemma_span_is, lemma_strip, lemma_strip_push, lines, lines_of, opt_str_view, opt_view, same,
    skip_bytes, span, split_once, starts_with, strip, strip_ends, trim, trimmed, views, without_cr,
    words, words_of, CharClass,
};

verus! {

/// A parsed dependency.
#[derive(Debug, Clone)]
pub struct ParsedDependency {
    pub name: String,
    pub version: Option<String>,
    pub ecosystem: String,
    /// "runtime", "dev", "build" or "test".
    pub dep_type: String,
}

/// What a `ParsedDependency` says.
#[verifier::ext_equal]
pub struct DependencyView {
    pub name: Seq<char>,
    pub version: Option<Seq<char>>,
    pub ecosystem: Seq<char>,
    pub dep_type: Seq<char>,
}

impl View for ParsedDependency {
    type V = DependencyView;

    open spec fn view(&self) -> DependencyView {
        DependencyView {
            name: self.name@,
            version: opt_view(self.version),
            ecosystem: self.ecosystem@,
            dep_type: self.dep_type@,
        }
    }
}

/// What a list of dependencies says.
pub open spec fn dependency_views(deps: Seq<ParsedDependency>) -> Seq<DependencyView> {
    Seq::new(deps.len(), |i: int| deps[i]@)
}

/// A dependency.
pub open spec fn dependency(
    name: Seq<char>,
    version: Option<Seq<char>>,
    ecosystem: &str,
    dep_type: Seq<char>,
) -> DependencyView {
    DependencyView { name, version, ecosystem: ecosystem@, dep_type }
}

fn make(name: String, version: Option<String>, ecosystem: &str, dep_type: &str) -> (r:
    ParsedDependency)
    ensures
        r@ == dependency(name@, opt_view(version), ecosystem, dep_type@),
{
    ParsedDependency {
        name,
        version,
        ecosystem: ecosystem.to_owned(),
        dep_type: dep_type.to_owned(),
    }
}

fn push(deps: &mut Vec<ParsedDependency>, dep: ParsedDependency)
    ensures
        dependency_views(final(deps)@) == dependency_views(old(deps)@).push(dep@),
{
    deps.push(dep);
    assert(dependency_views(deps@) =~= dependency_views(old(deps)@).push(dep@));
}

// ---------------------------------------------------------------------------
// package.json
// ---------------------------------------------------------------------------

/// The dependencies of one section of a package.json file.
pub open spec fn npm_section(
    entries: Option<Seq<(Seq<char>, Option<Seq<char>>)>>,
    dep_type: &str,
) -> Seq<DependencyView> {
    match entries {
        Some(entries) => Seq::new(
            entries.len(),
            |i: int| dependency(entries[i].0, entries[i].1, "npm", dep_type@),
        ),
        None => Seq::empty(),
    }
}

/// The dependencies of a package.json file with these two sections.
pub open spec fn npm_dependencies(
    runtime: Option<Seq<(Seq<char>, Option<Seq<char>>)>>,
    dev: Option<Seq<(Seq<char>, Option<Seq<char>>)>>,
) -> Seq<DependencyView> {
    npm_section(runtime, "runtime") + npm_section(dev, "dev")
}

/// The dependencies that a package.json file declares: none if it is not JSON.
pub open spec fn package_json_dependencies(content: Seq<char>) -> Seq<DependencyView> {
    match json_parse(content) {
        Some(doc) => npm_dependencies(
            text_entries_of(doc, "dependencies"@),
            text_entries_of(doc, "devDependencies"@),
        ),
        None => Seq::empty(),
    }
}

/// What a section holds, as names and versions.
pub open spec fn section_view(section: Option<Vec<(String, Option<String>)>>) -> Option<
    Seq<(Seq<char>, Option<Seq<char>>)>,
> {
    match section {
        Some(entries) => Some(entry_views(entries@)),
        None => None,
    }
}

fn push_npm_section(
    deps: &mut Vec<ParsedDependency>,
    section: Option<Vec<(String, Option<String>)>>,
    dep_type: &str,
)
    ensures
        dependency_views(final(deps)@) == dependency_views(old(deps)@) + npm_section(
            section_view(section),
            dep_type,
        ),
{
    let ghost before = dependency_views(deps@);
    let ghost all = npm_section(section_view(section), dep_type);
    match section {
        Some(entries) => {
            let mut i: usize = 0;
            assert(before + all.take(0) =~= before);
            while i < entries.len()
                invariant
                    i <= entries@.len(),
                    all == npm_section(Some(entry_views(entries@)), dep_type),
                    dependency_views(deps@) == before + all.take(i as int),
                decreases entries@.len() - i,
            {
                let version = match &entries[i].1 {
                    Some(v) => Some(v.clone()),
                    None => None,
                };
                assert(opt_view(version) == opt_view(entries@[i as int].1));
                push(deps, make(entries[i].0.clone(), version, "npm", dep_type));
                assert(all.take(i + 1) =~= all.take(i as int).push(all[i as int]));
                assert(before + all.take(i + 1) =~= (before + all.take(i as int)).push(
                    all[i as int],
                ));
                i += 1;
            }
            assert(all.take(i as int) =~= all);
        },
        None => {
            assert(before + all =~= before);
        },
    }
}

/// The dependencies of a package.json file whose "dependencies" and "devDependencies"
/// hold these names and versions.
pub fn npm_dependencies_of(
    runtime: Option<Vec<(String, Option<String>)>>,
    dev: Option<Vec<(String, Option<String>)>>,
) -> (r: Vec<ParsedDependency>)
    ensures
        dependency_views(r@) == npm_dependencies(section_view(runtime), section_view(dev)),
{
    let mut deps: Vec<ParsedDependency> = Vec::new();
    let ghost none = dependency_views(deps@);
    push_npm_section(&mut deps, runtime, "runtime");
    assert(none + npm_section(section_view(runtime), "runtime") =~= npm_section(
        section_view(runtime),
        "runtime",
    ));
    push_npm_section(&mut deps, dev, "dev");
    deps
}

/// The dependencies that a package.json file declares.
pub fn parse_package_json(content: &str) -> (r: Vec<ParsedDependency>)
    ensures
        dependency_views(r@) == package_json_dependencies(content@),
{
    match Json::parse(content) {
        Some(doc) => npm_dependencies_of(
            doc.text_entries("dependencies"),
            doc.text_entries("devDependencies"),
        ),
        None => {
            let deps: Vec<ParsedDependency> = Vec::new();
            assert(dependency_views(deps@) =~= Seq::empty());
            deps
        },
    }
}

// ---------------------------------------------------------------------------
// Cargo.toml
// ---------------------------------------------------------------------------

/// What a line of a Cargo.toml file opens: nothing, if it is no heading; else the kind
/// of the dependencies that follow, if it heads such a section.
pub open spec fn cargo_heading(line: Seq<char>) -> Option<Option<Seq<char>>> {
    if line == "[dependencies]"@ {
        Some(Some("runtime"@))
    } else if line == "[dev-dependencies]"@ {
        Some(Some("dev"@))
    } else if line == "[build-dependencies]"@ {
        Some(Some("build"@))
    } else if "["@.is_prefix_of(line) {
        Some(None)
    } else {
        None
    }
}

/// The version that stands behind the equals sign of an entry: up to the first comma,
/// without white space, quotes and an opening brace around it.
pub open spec fn cargo_version(rest: Seq<char>) -> Seq<char> {
    let bare = strip(strip(trimmed(rest), CharClass::Is('"')), CharClass::Is('{'));
    let first = bare.take(span(bare, CharClass::Is(',')) as int);
    strip(trimmed(first), CharClass::Is('"'))
}

/// The dependency that a line of a section of that kind declares, if any.
pub open spec fn cargo_entry(line: Seq<char>, kind: Seq<char>) -> Option<DependencyView> {
    match cut_at(line, CharClass::Is('=')) {
        Some(parts) => {
            let name = trimmed(parts.0);
            if name.len() == 0 || "#"@.is_prefix_of(name) {
                None
            } else {
                Some(dependency(name, Some(cargo_version(parts.1)), "cargo", kind))
            }
        },
        None => None,
    }
}

/// A list of the one value, if there is one.
pub open spec fn listed(dep: Option<DependencyView>) -> Seq<DependencyView> {
    match dep {
        Some(dep) => seq![dep],
        None => Seq::empty(),
    }
}

/// The dependencies that lines of a Cargo.toml file declare, where the first of them
/// stands in a section of that kind, or in no such section.
pub open spec fn cargo_lines(lines: Seq<Seq<char>>, section: Option<Seq<char>>) -> Seq<
    DependencyView,
>
    decreases lines.len(),
{
    if lines.len() == 0 {
        Seq::empty()
    } else {
        let line = trimmed(lines[0]);
        match cargo_heading(line) {
            Some(next) => cargo_lines(lines.skip(1), next),
            None => {
                let here = match section {
                    Some(kind) => listed(cargo_entry(line, kind)),
                    None => Seq::empty(),
                };
                here + cargo_lines(lines.skip(1), section)
            },
        }
    }
}

/// The dependencies that a Cargo.toml file declares.
pub open spec fn cargo_dependencies(content: Seq<char>) -> Seq<DependencyView> {
    cargo_lines(lines_of(content), None)
}

fn cargo_version_of(rest: &str) -> (r: String)
    ensures
        r@ == cargo_version(rest@),
{
    let unquoted = strip_ends(trim(rest).as_str(), CharClass::Is('"'));
    let bare = strip_ends(unquoted.as_str(), CharClass::Is('{'));
    let first = before(bare.as_str(), CharClass::Is(','));
    strip_ends(trim(first.as_str()).as_str(), CharClass::Is('"'))
}

fn cargo_entry_of(line: &str, kind: &str) -> (r: Option<ParsedDependency>)
    ensures
        match r {
            Some(dep) => cargo_entry(line@, kind@) == Some(dep@),
            None => cargo_entry(line@, kind@) is None,
        },
{
    match split_once(line, CharClass::Is('=')) {
        Some((left, rest)) => {
            let name = trim(left.as_str());
            if is_empty(name.as_str()) || starts_with(name.as_str(), "#") {
                None
            } else {
                Some(make(name, Some(cargo_version_of(rest.as_str())), "cargo", kind))
            }
        },
        None => None,
    }
}

/// The dependencies that a Cargo.toml file declares.
pub fn parse_cargo_toml(content: &str) -> (r: Vec<ParsedDependency>)
    ensures
        dependency_views(r@) == cargo_dependencies(content@),
{
    let all = lines(content);
    let ghost texts = lines_of(content@);
    let mut deps: Vec<ParsedDependency> = Vec::new();
    let mut section: Option<&'static str> = None;
    let mut i: usize = 0;
    assert(texts.skip(0) =~= texts);
    assert(dependency_views(deps@) + cargo_lines(texts, None) =~= cargo_lines(texts, None));
    while i < all.len()
        invariant
            i <= all@.len(),
            views(all@) == texts,
            dependency_views(deps@) + cargo_lines(
                texts.skip(i as int),
                opt_str_view(section),
            ) == cargo_lines(texts, None),
        decreases all@.len() - i,
    {
        let line = trim(all[i].as_str());
        let ghost rest = texts.skip(i as int);
        let ghost done = dependency_views(deps@);
        proof {
            assert(rest.skip(1) =~= texts.skip(i + 1));
            assert(rest[0] == all@[i as int]@);
        }
        i += 1;
        if same(line.as_str(), "[dependencies]") {
            section = Some("runtime");
        } else if same(line.as_str(), "[dev-dependencies]") {
            section = Some("dev");
        } else if same(line.as_str(), "[build-dependencies]") {
            section = Some("build");
        } else if starts_with(line.as_str(), "[") {
            section = None;
        } else {
            let ghost tail = cargo_lines(texts.skip(i as int), opt_str_view(section));
            match section {
                Some(kind) => match cargo_entry_of(line.as_str(), kind) {
                    Some(dep) => {
                        push(&mut deps, dep);
                        assert(done.push(dep@) + tail =~= done + (seq![dep@] + tail));
                    },
                    None => {
                        assert(Seq::<DependencyView>::empty() + tail =~= tail);
                    },
                },
                None => {
                    assert(Seq::<DependencyView>::empty() + tail =~= tail);
                },
            }
        }
    }
    proof {
        assert(cargo_lines(texts.skip(i as int), opt_str_view(section)) =~= Seq::empty());
        assert(dependency_views(deps@) + Seq::empty() =~= dependency_views(deps@));
    }
    deps
}

// ---------------------------------------------------------------------------
// requirements.txt
// ---------------------------------------------------------------------------

/// The name that a line of a requirements.txt file starts with: what stands before the
/// first version mark.
pub open spec fn requirement_name(line: Seq<char>) -> Seq<char> {
    trimmed(line.take(span(line, CharClass::VersionMark) as int))
}

/// Whether a line of a requirements.txt file declares something.
pub open spec fn is_requirement(line: Seq<char>) -> bool {
    &&& trimmed(line).len() > 0
    &&& !"#"@.is_prefix_of(line)
    &&& !"-"@.is_prefix_of(line)
    &&& requirement_name(line).len() > 0
}

/// Whether a line gives a version behind the name.
pub open spec fn has_version(line: Seq<char>) -> bool {
    span(line, CharClass::VersionMark) < line.len()
}

/// Where a line declares a version, the bytes behind as many as the name has, which must
/// not begin inside a character.
pub open spec fn requirement_readable(line: Seq<char>) -> bool {
    is_requirement(line) && has_version(line) ==> behind_bytes(
        line,
        byte_len(requirement_name(line)),
    ) is Some
}

/// The dependency that a line of a requirements.txt file declares, if any. Its version is
/// what follows as many bytes as the name has.
pub open spec fn requirement_entry(line: Seq<char>) -> Option<DependencyView> {
    if !is_requirement(line) {
        None
    } else {
        let name = requirement_name(line);
        let version = if has_version(line) {
            match behind_bytes(line, byte_len(name)) {
                Some(rest) => Some(trimmed(rest)),
                None => None,
            }
        } else {
            None
        };
        Some(dependency(name, version, "pip", "runtime"@))
    }
}

/// The dependencies that lines of a requirements.txt file declare.
pub open spec fn requirement_lines(lines: Seq<Seq<char>>) -> Seq<DependencyView>
    decreases lines.len(),
{
    if lines.len() == 0 {
        Seq::empty()
    } else {
        listed(requirement_entry(lines[0])) + requirement_lines(lines.skip(1))
    }
}

/// The dependencies that a requirements.txt file declares.
pub open spec fn pip_dependencies(content: Seq<char>) -> Seq<DependencyView> {
    requirement_lines(lines_of(content))
}

/// No line of a requirements.txt file has its version begin inside a character.
pub open spec fn requirements_readable(content: Seq<char>) -> bool {
    forall|i: int|
        0 <= i < lines_of(content).len() ==> requirement_readable(#[trigger] lines_of(content)[i])
}

fn declares_requirement(line: &str) -> (r: bool)
    ensures
        r == is_requirement(line@),
{
    let name = trim(before(line, CharClass::VersionMark).as_str());
    !is_empty(trim(line).as_str()) && !starts_with(line, "#") && !starts_with(line, "-")
        && !is_empty(name.as_str())
}

/// Whether no line of a requirements.txt file has its version begin inside a character.
pub fn is_readable_requirements(content: &str) -> (r: bool)
    ensures
        r == requirements_readable(content@),
{
    let all = lines(content);
    let ghost texts = lines_of(content@);
    let mut i: usize = 0;
    while i < all.len()
        invariant
            i <= all@.len(),
            views(all@) == texts,
            texts == lines_of(content@),
            forall|k: int| 0 <= k < i ==> requirement_readable(#[trigger] texts[k]),
        decreases all@.len() - i,
    {
        let line = all[i].as_str();
        assert(line@ == texts[i as int]);
        if declares_requirement(line) && split_once(line, CharClass::VersionMark).is_some() {
            let name = trim(before(line, CharClass::VersionMark).as_str());
            if skip_bytes(line, byte_count(name.as_str())).is_none() {
                assert(!requirement_readable(texts[i as int]));
                return false;
            }
        }
        i += 1;
    }
    true
}

fn requirement_of(line: &str) -> (r: Option<ParsedDependency>)
    requires
        requirement_readable(line@),
    ensures
        match r {
            Some(dep) => requirement_entry(line@) == Some(dep@),
            None => requirement_entry(line@) is None,
        },
{
    if !declares_requirement(line) {
        return None;
    }
    let name = trim(before(line, CharClass::VersionMark).as_str());
    let version = match split_once(line, CharClass::VersionMark) {
        Some(_) => match skip_bytes(line, byte_count(name.as_str())) {
            Some(rest) => Some(trim(rest.as_str())),
            None => None,
        },
        None => None,
    };
    Some(make(name, version, "pip", "runtime"))
}

/// The dependencies that a requirements.txt file declares.
pub fn parse_requirements_txt(content: &str) -> (r: Vec<ParsedDependency>)
    requires
        requirements_readable(content@),
    ensures
        dependency_views(r@) == pip_dependencies(content@),
{
    let all = lines(content);
    let ghost texts = lines_of(content@);
    let mut deps: Vec<ParsedDependency> = Vec::new();
    let mut i: usize = 0;
    assert(texts.skip(0) =~= texts);
    assert(dependency_views(deps@) + requirement_lines(texts) =~= requirement_lines(texts));
    while i < all.len()
        invariant
            i <= all@.len(),
            views(all@) == texts,
            texts == lines_of(content@),
            requirements_readable(content@),
            dependency_views(deps@) + requirement_lines(texts.skip(i as int)) == requirement_lines(
                texts,
            ),
        decreases all@.len() - i,
    {
        let ghost rest = texts.skip(i as int);
        let ghost done = dependency_views(deps@);
        let ghost tail = requirement_lines(texts.skip(i + 1));
        proof {
            assert(rest.skip(1) =~= texts.skip(i + 1));
            assert(rest[0] == texts[i as int]);
            assert(texts[i as int] == all@[i as int]@);
        }
        match requirement_of(all[i].as_str()) {
            Some(dep) => {
                push(&mut deps, dep);
                assert(done.push(dep@) + tail =~= done + (seq![dep@] + tail));
            },
            None => {
                assert(Seq::<DependencyView>::empty() + tail =~= tail);
            },
        }
        i += 1;
    }
    proof {
        assert(requirement_lines(texts.skip(i as int)) =~= Seq::empty());
        assert(dependency_views(deps@) + Seq::empty() =~= dependency_views(deps@));
    }
    deps
}

// ---------------------------------------------------------------------------
// go.mod
// ---------------------------------------------------------------------------

/// The dependency that a line inside a require block of a go.mod file declares: its first
/// two words, if it has as many.
pub open spec fn go_entry(line: Seq<char>) -> Option<DependencyView> {
    let parts = words_of(line);
    if parts.len() >= 2 {
        Some(dependency(parts[0], Some(parts[1]), "go", "runtime"@))
    } else {
        None
    }
}

/// The dependencies that lines of a go.mod file declare, where the first of them stands
/// inside a require block or not.
pub open spec fn go_lines(lines: Seq<Seq<char>>, inside: bool) -> Seq<DependencyView>
    decreases lines.len(),
{
    if lines.len() == 0 {
        Seq::empty()
    } else {
        let line = trimmed(lines[0]);
        if line == "require ("@ {
            go_lines(lines.skip(1), true)
        } else if line == ")"@ {
            go_lines(lines.skip(1), false)
        } else if inside {
            listed(go_entry(line)) + go_lines(lines.skip(1), inside)
        } else {
            go_lines(lines.skip(1), inside)
        }
    }
}

/// The dependencies that a go.mod file declares.
pub open spec fn go_dependencies(content: Seq<char>) -> Seq<DependencyView> {
    go_lines(lines_of(content), false)
}

fn go_entry_of(line: &str) -> (r: Option<ParsedDependency>)
    ensures
        match r {
            Some(dep) => go_entry(line@) == Some(dep@),
            None => go_entry(line@) is None,
        },
{
    let parts = words(line);
    assert(views(parts@) == words_of(line@));
    if parts.len() >= 2 {
        assert(words_of(line@)[0] == parts@[0]@);
        assert(words_of(line@)[1] == parts@[1]@);
        Some(make(parts[0].clone(), Some(parts[1].clone()), "go", "runtime"))
    } else {
        None
    }
}

/// The dependencies that a go.mod file declares.
pub fn parse_go_mod(content: &str) -> (r: Vec<ParsedDependency>)
    ensures
        dependency_views(r@) == go_dependencies(content@),
{
    let all = lines(content);
    let ghost texts = lines_of(content@);
    let mut deps: Vec<ParsedDependency> = Vec::new();
    let mut inside: bool = false;
    let mut i: usize = 0;
    assert(texts.skip(0) =~= texts);
    assert(dependency_views(deps@) + go_lines(texts, false) =~= go_lines(texts, false));
    while i < all.len()
        invariant
            i <= all@.len(),
            views(all@) == texts,
            dependency_views(deps@) + go_lines(texts.skip(i as int), inside) == go_lines(
                texts,
                false,
            ),
        decreases all@.len() - i,
    {
        let line = trim(all[i].as_str());
        let ghost rest = texts.skip(i as int);
        let ghost done = dependency_views(deps@);
        let ghost tail = go_lines(texts.skip(i + 1), inside);
        proof {
            assert(rest.skip(1) =~= texts.skip(i + 1));
            assert(rest[0] == all@[i as int]@);
        }
        i += 1;
        if same(line.as_str(), "require (") {
            inside = true;
        } else if same(line.as_str(), ")") {
            inside = false;
        } else if inside {
            match go_entry_of(line.as_str()) {
                Some(dep) => {
                    push(&mut deps, dep);
                    assert(done.push(dep@) + tail =~= done + (seq![dep@] + tail));
                },
                None => {
                    assert(Seq::<DependencyView>::empty() + tail =~= tail);
                },
            }
        }
    }
    proof {
        assert(go_lines(texts.skip(i as int), inside) =~= Seq::empty());
        assert(dependency_views(deps@) + Seq::empty() =~= dependency_views(deps@));
    }
    deps
}

// ---------------------------------------------------------------------------
// pom.xml and build.gradle
// ---------------------------------------------------------------------------

/// The shape of a dependency element of a pom.xml file, with its group, artifact, version
/// and scope.
pub const POM_PATTERN: &'static str =
    r"<dependency>\s*<groupId>([^<]+)</groupId>\s*<artifactId>([^<]+)</artifactId>(?:\s*<version>([^<]*)</version>)?(?:\s*<scope>([^<]*)</scope>)?";

/// The shape of a dependency line of a build.gradle file, with its configuration, group,
/// artifact and version.
pub const GRADLE_PATTERN: &'static str =
    r#"(implementation|api|compileOnly|runtimeOnly|testImplementation|testRuntimeOnly)\s+['"]([\w.\-]+):([\w.\-]+)(?::([\w.\-]+))?['"]"#;

/// The matches of a regular expression in a text, one after the other, each with the
/// texts of its groups, the whole match first; nothing where the expression is malformed.
pub uninterp spec fn regex_captures(pattern: Seq<char>, text: Seq<char>) -> Option<
    Seq<Seq<Option<Seq<char>>>>,
>;

/// The texts of the groups of one match.
pub open spec fn group_views(groups: Seq<Option<String>>) -> Seq<Option<Seq<char>>> {
    Seq::new(groups.len(), |i: int| opt_view(groups[i]))
}

/// The texts of the groups of a list of matches.
pub open spec fn capture_views(captures: Seq<Vec<Option<String>>>) -> Seq<Seq<Option<Seq<char>>>> {
    Seq::new(captures.len(), |i: int| group_views(captures[i]@))
}

/// Compiles a regular expression with `regex::Regex::new` and lists its matches with
/// `Regex::captures_iter`, each as the texts of its groups. Which matches there are is
/// left to the regular expression engine; they depend on the expression and the text
/// alone.
#[verifier::external_body]
fn find_captures(pattern: &str, text: &str) -> (r: Option<Vec<Vec<Option<String>>>>)
    ensures
        match r {
            Some(captures) => regex_captures(pattern@, text@) == Some(capture_views(captures@)),
            None => regex_captures(pattern@, text@) is None,
        },
{
    let re = regex::Regex::new(pattern).ok()?;
    let captures = re.captures_iter(text);
    Some(captures.map(|c| c.iter().map(|m| m.map(|m| m.as_str().to_string())).collect()).collect())
}

/// The text of a group of a match, or the given text where the group took no part.
pub open spec fn group_or(groups: Seq<Option<Seq<char>>>, i: int, default: &str) -> Seq<char> {
    match group_at(groups, i) {
        Some(text) => text,
        None => default@,
    }
}

/// The text of a group of a match, if the group took part.
pub open spec fn group_at(groups: Seq<Option<Seq<char>>>, i: int) -> Option<Seq<char>> {
    if 0 <= i < groups.len() {
        groups[i]
    } else {
        None
    }
}

/// The dependency that a dependency element of a pom.xml file declares.
pub open spec fn maven_entry(groups: Seq<Option<Seq<char>>>) -> DependencyView {
    dependency(
        group_or(groups, 1, "") + ":"@ + group_or(groups, 2, ""),
        group_at(groups, 3),
        "maven",
        if group_or(groups, 4, "compile") == "test"@ {
            "test"@
        } else {
            "runtime"@
        },
    )
}

/// The dependency that a dependency line of a build.gradle file declares.
pub open spec fn gradle_entry(groups: Seq<Option<Seq<char>>>) -> DependencyView {
    dependency(
        group_or(groups, 2, "") + ":"@ + group_or(groups, 3, ""),
        group_at(groups, 4),
        "gradle",
        if "test"@.is_prefix_of(group_or(groups, 1, "")) {
            "test"@
        } else {
            "runtime"@
        },
    )
}

/// The dependencies that the dependency elements of a pom.xml file declare.
pub open spec fn maven_dependencies(captures: Seq<Seq<Option<Seq<char>>>>) -> Seq<DependencyView> {
    Seq::new(captures.len(), |i: int| maven_entry(captures[i]))
}

/// The dependencies that the dependency lines of a build.gradle file declare.
pub open spec fn gradle_dependencies(captures: Seq<Seq<Option<Seq<char>>>>) -> Seq<DependencyView> {
    Seq::new(captures.len(), |i: int| gradle_entry(captures[i]))
}

/// The dependencies that a pom.xml file declares.
pub open spec fn pom_dependencies(content: Seq<char>) -> Seq<DependencyView> {
    match regex_captures(POM_PATTERN@, content) {
        Some(captures) => maven_dependencies(captures),
        None => Seq::empty(),
    }
}

/// The dependencies that a build.gradle file declares.
pub open spec fn gradle_file_dependencies(content: Seq<char>) -> Seq<DependencyView> {
    match regex_captures(GRADLE_PATTERN@, content) {
        Some(captures) => gradle_dependencies(captures),
        None => Seq::empty(),
    }
}

fn copy_group(groups: &Vec<Option<String>>, i: usize) -> (r: Option<String>)
    ensures
        opt_view(r) == group_at(group_views(groups@), i as int),
{
    if i < groups.len() {
        match &groups[i] {
            Some(text) => Some(text.clone()),
            None => None,
        }
    } else {
        None
    }
}

fn group_text(groups: &Vec<Option<String>>, i: usize, default: &str) -> (r: String)
    ensures
        r@ == group_or(group_views(groups@), i as int, default),
{
    match copy_group(groups, i) {
        Some(text) => text,
        None => default.to_owned(),
    }
}

fn pair_name(group: String, artifact: String) -> (r: String)
    ensures
        r@ == group@ + ":"@ + artifact@,
{
    let mut name = group;
    name.append(":");
    name.append(artifact.as_str());
    name
}

/// The dependencies that the dependency elements of a pom.xml file declare, given the
/// groups of each.
pub fn maven_dependencies_of(captures: &Vec<Vec<Option<String>>>) -> (r: Vec<ParsedDependency>)
    ensures
        dependency_views(r@) == maven_dependencies(capture_views(captures@)),
{
    let ghost all = maven_dependencies(capture_views(captures@));
    let mut deps: Vec<ParsedDependency> = Vec::new();
    let mut i: usize = 0;
    assert(dependency_views(deps@) =~= all.take(0));
    while i < captures.len()
        invariant
            i <= captures@.len(),
            all == maven_dependencies(capture_views(captures@)),
            dependency_views(deps@) == all.take(i as int),
        decreases captures@.len() - i,
    {
        let groups = &captures[i];
        let name = pair_name(group_text(groups, 1, ""), group_text(groups, 2, ""));
        let scope = group_text(groups, 4, "compile");
        let dep_type = if same(scope.as_str(), "test") {
            "test"
        } else {
            "runtime"
        };
        push(&mut deps, make(name, copy_group(groups, 3), "maven", dep_type));
        assert(all.take(i + 1) =~= all.take(i as int).push(all[i as int]));
        i += 1;
    }
    assert(all.take(i as int) =~= all);
    deps
}

/// The dependencies that the dependency lines of a build.gradle file declare, given the
/// groups of each.
pub fn gradle_dependencies_of(captures: &Vec<Vec<Option<String>>>) -> (r: Vec<ParsedDependency>)
    ensures
        dependency_views(r@) == gradle_dependencies(capture_views(captures@)),
{
    let ghost all = gradle_dependencies(capture_views(captures@));
    let mut deps: Vec<ParsedDependency> = Vec::new();
    let mut i: usize = 0;
    assert(dependency_views(deps@) =~= all.take(0));
    while i < captures.len()
        invariant
            i <= captures@.len(),
            all == gradle_dependencies(capture_views(captures@)),
            dependency_views(deps@) == all.take(i as int),
        decreases captures@.len() - i,
    {
        let groups = &captures[i];
        let name = pair_name(group_text(groups, 2, ""), group_text(groups, 3, ""));
        let dep_type = if starts_with(group_text(groups, 1, "").as_str(), "test") {
            "test"
        } else {
            "runtime"
        };
        push(&mut deps, make(name, copy_group(groups, 4), "gradle", dep_type));
        assert(all.take(i + 1) =~= all.take(i as int).push(all[i as int]));
        i += 1;
    }
    assert(all.take(i as int) =~= all);
    deps
}

/// The dependencies that a pom.xml file declares.
pub fn parse_pom_xml(content: &str) -> (r: Vec<ParsedDependency>)
    ensures
        dependency_views(r@) == pom_dependencies(content@),
{
    match find_captures(POM_PATTERN, content) {
        Some(captures) => maven_dependencies_of(&captures),
        None => {
            let deps: Vec<ParsedDependency> = Vec::new();
            assert(dependency_views(deps@) =~= Seq::empty());
            deps
        },
    }
}

/// The dependencies that a build.gradle file declares.
pub fn parse_gradle(content: &str) -> (r: Vec<ParsedDependency>)
    ensures
        dependency_views(r@) == gradle_file_dependencies(content@),
{
    match find_captures(GRADLE_PATTERN, content) {
        Some(captures) => gradle_dependencies_of(&captures),
        None => {
            let deps: Vec<ParsedDependency> = Vec::new();
            assert(dependency_views(deps@) =~= Seq::empty());
            deps
        },
    }
}

// ---------------------------------------------------------------------------
// Any manifest
// ---------------------------------------------------------------------------

/// The dependencies that a manifest file of that name declares; none if the name is not
/// that of a known kind of manifest.
pub open spec fn manifest_dependencies(name: Option<Seq<char>>, content: Seq<char>) -> Seq<
    DependencyView,
> {
    if name == Some("package.json"@) {
        package_json_dependencies(content)
    } else if name == Some("Cargo.toml"@) {
        cargo_dependencies(content)
    } else if name == Some("pom.xml"@) {
        pom_dependencies(content)
    } else if name == Some("requirements.txt"@) {
        pip_dependencies(content)
    } else if name == Some("go.mod"@) {
        go_dependencies(content)
    } else if name == Some("build.gradle"@) || name == Some("build.gradle.kts"@) {
        gradle_file_dependencies(content)
    } else {
        Seq::empty()
    }
}

/// Parse dependencies from a manifest file, at a path with `/` between its parts.
pub fn parse_dependencies(path: &str, content: &str) -> (r: Vec<ParsedDependency>)
    requires
        file_name_of(path@) == Some("requirements.txt"@) ==> requirements_readable(content@),
    ensures
        dependency_views(r@) == manifest_dependencies(file_name_of(path@), content@),
{
    let name = file_name(path);
    assert(opt_view(name) == file_name_of(path@));
    if is_some_text(&name, "package.json") {
        parse_package_json(content)
    } else if is_some_text(&name, "Cargo.toml") {
        parse_cargo_toml(content)
    } else if is_some_text(&name, "pom.xml") {
        parse_pom_xml(content)
    } else if is_some_text(&name, "requirements.txt") {
        parse_requirements_txt(content)
    } else if is_some_text(&name, "go.mod") {
        parse_go_mod(content)
    } else if is_some_text(&name, "build.gradle") || is_some_text(&name, "build.gradle.kts") {
        parse_gradle(content)
    } else {
        let deps: Vec<ParsedDependency> = Vec::new();
        assert(dependency_views(deps@) =~= Seq::empty());
        deps
    }
}

// ---------------------------------------------------------------------------
// Laws
// ---------------------------------------------------------------------------

/// The kinds of dependency.
pub open spec fn is_dep_type(kind: Seq<char>) -> bool {
    kind == "runtime"@ || kind == "dev"@ || kind == "build"@ || kind == "test"@
}

/// The ecosystems.
pub open spec fn is_ecosystem(name: Seq<char>) -> bool {
    ||| name == "npm"@
    ||| name == "cargo"@
    ||| name == "maven"@
    ||| name == "pip"@
    ||| name == "go"@
    ||| name == "gradle"@
}

/// Each of the dependencies has one of the kinds, and comes from one of the ecosystems.
pub open spec fn well_kinded(deps: Seq<DependencyView>) -> bool {
    forall|i: int|
        0 <= i < deps.len() ==> is_dep_type((#[trigger] deps[i]).dep_type) && is_ecosystem(
            deps[i].ecosystem,
        )
}

proof fn lemma_cargo_kinds(lines: Seq<Seq<char>>, section: Option<Seq<char>>)
    requires
        section matches Some(kind) ==> is_dep_type(kind),
    ensures
        well_kinded(cargo_lines(lines, section)),
    decreases lines.len(),
{
    if lines.len() > 0 {
        let next = match cargo_heading(trimmed(lines[0])) {
            Some(next) => next,
            None => section,
        };
        lemma_cargo_kinds(lines.skip(1), next);
    }
}

proof fn lemma_requirement_kinds(lines: Seq<Seq<char>>)
    ensures
        well_kinded(requirement_lines(lines)),
    decreases lines.len(),
{
    if lines.len() > 0 {
        lemma_requirement_kinds(lines.skip(1));
    }
}

proof fn lemma_go_kinds(lines: Seq<Seq<char>>, inside: bool)
    ensures
        well_kinded(go_lines(lines, inside)),
    decreases lines.len(),
{
    if lines.len() > 0 {
        lemma_go_kinds(lines.skip(1), true);
        lemma_go_kinds(lines.skip(1), false);
    }
}

proof fn lemma_lines_concat(a: Seq<char>, b: Seq<char>)
    ensures
        lines_of(a + seq!['\n'] + b) == lines_of(a + seq!['\n']) + lines_of(b),
    decreases a.len(),
{
    let newline = CharClass::Is('\n');
    let head = a + seq!['\n'];
    let all = head + b;
    let n = span(a, newline) as int;
    lemma_span(a, newline);
    assert forall|i: int| 0 <= i < n implies !newline.has(#[trigger] all[i]) by {
        assert(all[i] == a[i]);
    }
    assert forall|i: int| 0 <= i < n implies !newline.has(#[trigger] head[i]) by {
        assert(head[i] == a[i]);
    }
    lemma_span_is(all, newline, n as nat);
    lemma_span_is(head, newline, n as nat);
    assert(all.take(n) =~= head.take(n));
    let first = seq![without_cr(all.take(n))];
    if n < a.len() {
        let rest = a.skip(n + 1);
        lemma_lines_concat(rest, b);
        assert(all.skip(n + 1) =~= rest + seq!['\n'] + b);
        assert(head.skip(n + 1) =~= rest + seq!['\n']);
        assert(first + (lines_of(rest + seq!['\n']) + lines_of(b)) =~= (first + lines_of(
            rest + seq!['\n'],
        )) + lines_of(b));
    } else {
        assert(all.skip(n + 1) =~= b);
        assert(head.skip(n + 1) =~= Seq::empty());
        assert(first + lines_of(Seq::empty()) =~= first);
    }
}

proof fn lemma_same_trimmed(a: Seq<char>, b: Seq<char>, section: Option<Seq<char>>)
    requires
        trimmed(a) == trimmed(b),
    ensures
        cargo_lines(seq![a], section) == cargo_lines(seq![b], section),
{
    let none = Seq::<Seq<char>>::empty();
    assert(seq![a].skip(1) =~= none);
    assert(seq![b].skip(1) =~= none);
}

proof fn lemma_blank_line(section: Option<Seq<char>>)
    ensures
        cargo_lines(seq![Seq::empty()], section) == Seq::<DependencyView>::empty(),
{
    reveal_strlit("[dependencies]");
    reveal_strlit("[dev-dependencies]");
    reveal_strlit("[build-dependencies]");
    reveal_strlit("[");
    let blank = Seq::<char>::empty();
    assert(trimmed(blank) == blank);
    assert("[dependencies]"@.len() == 14);
    assert("[dev-dependencies]"@.len() == 18);
    assert("[build-dependencies]"@.len() == 20);
    assert(cargo_heading(blank) is None);
    assert(seq![blank].skip(1) =~= Seq::empty());
    assert(seq![blank][0] == blank);
    assert(cargo_lines(seq![blank].skip(1), section) =~= Seq::empty());
    match section {
        Some(kind) => {
            assert(cargo_entry(blank, kind) is None);
        },
        None => {},
    }
    assert(cargo_lines(seq![blank], section) =~= Seq::empty());
}

/// A line break at the end of a text declares nothing.
proof fn lemma_final_newline(a: Seq<char>, section: Option<Seq<char>>)
    ensures
        cargo_lines(lines_of(a + seq!['\n']), section) == cargo_lines(lines_of(a), section),
    decreases a.len(),
{
    let newline = CharClass::Is('\n');
    let head = a + seq!['\n'];
    let n = span(a, newline) as int;
    lemma_span(a, newline);
    assert forall|i: int| 0 <= i < n implies !newline.has(#[trigger] head[i]) by {
        assert(head[i] == a[i]);
    }
    lemma_span_is(head, newline, n as nat);
    assert(head.take(n) =~= a.take(n));
    let first = without_cr(a.take(n));
    if n < a.len() {
        let rest = a.skip(n + 1);
        assert(head.skip(n + 1) =~= rest + seq!['\n']);
        let x = seq![first] + lines_of(rest + seq!['\n']);
        let y = seq![first] + lines_of(rest);
        assert(x.skip(1) =~= lines_of(rest + seq!['\n']));
        assert(y.skip(1) =~= lines_of(rest));
        assert(x[0] == y[0]);
        let next = match cargo_heading(trimmed(first)) {
            Some(next) => next,
            None => section,
        };
        lemma_final_newline(rest, next);
    } else {
        assert(a.take(n) =~= a);
        assert(head.skip(n + 1) =~= Seq::empty());
        assert(seq![first] + lines_of(Seq::empty()) =~= seq![first]);
        assert(lines_of(head) == seq![first]);
        if a.len() == 0 {
            assert(first =~= Seq::empty());
            lemma_blank_line(section);
            assert(cargo_lines(lines_of(a), section) =~= Seq::empty());
        } else {
            assert(trimmed(first) == trimmed(a)) by {
                if a.last() == '\r' {
                    lemma_strip_push(a.drop_last(), CharClass::Space, '\r');
                    assert(a.drop_last().push('\r') =~= a);
                }
            }
            lemma_same_trimmed(first, a, section);
        }
    }
}

/// A line that begins with a bracket starts anew.
pub proof fn lemma_section_starts(x: Seq<Seq<char>>, y: Seq<Seq<char>>, section: Option<Seq<char>>)
    requires
        y.len() > 0,
        "["@.is_prefix_of(trimmed(y[0])),
    ensures
        cargo_lines(x + y, section) == cargo_lines(x, section) + cargo_lines(y, None),
    decreases x.len(),
{
    if x.len() == 0 {
        assert(x + y =~= y);
        assert(cargo_heading(trimmed(y[0])) is Some);
        assert(cargo_lines(x, section) + cargo_lines(y, None) =~= cargo_lines(y, None));
    } else {
        let line = trimmed(x[0]);
        assert((x + y).skip(1) =~= x.skip(1) + y);
        assert((x + y)[0] == x[0]);
        let next = match cargo_heading(line) {
            Some(next) => next,
            None => section,
        };
        lemma_section_starts(x.skip(1), y, next);
        if cargo_heading(line) is None {
            let here = match section {
                Some(kind) => listed(cargo_entry(line, kind)),
                None => Seq::empty(),
            };
            assert(here + (cargo_lines(x.skip(1), section) + cargo_lines(y, None)) =~= (here
                + cargo_lines(x.skip(1), section)) + cargo_lines(y, None));
        }
    }
}

/// A heading starts anew: where the first line of a text, trimmed, begins with a bracket, the
/// text declares behind any other what it declares by itself.
pub proof fn law_cargo_sections(a: Seq<char>, b: Seq<char>)
    requires
        lines_of(b).len() > 0,
        "["@.is_prefix_of(trimmed(lines_of(b)[0])),
    ensures
        cargo_dependencies(a + seq!['\n'] + b) == cargo_dependencies(a) + cargo_dependencies(b),
{
    lemma_lines_concat(a, b);
    lemma_section_starts(lines_of(a + seq!['\n']), lines_of(b), None);
    lemma_final_newline(a, None);
}

/// A dependency has the shape of those of a Cargo.toml file: a bare name, a kind, and a
/// version without commas and without quotes around it.
pub open spec fn is_cargo_dependency(dep: DependencyView) -> bool {
    &&& dep.ecosystem == "cargo"@
    &&& is_cargo_kind(dep.dep_type)
    &&& dep.name.len() > 0
    &&& trimmed(dep.name) == dep.name
    &&& !dep.name.contains('=')
    &&& !"#"@.is_prefix_of(dep.name)
    &&& dep.version is Some
    &&& !dep.version->0.contains(',')
    &&& dep.version->0.len() > 0 ==> dep.version->0[0] != '"' && dep.version->0.last() != '"'
}

/// The kinds of the sections of a Cargo.toml file.
pub open spec fn is_cargo_kind(kind: Seq<char>) -> bool {
    kind == "runtime"@ || kind == "dev"@ || kind == "build"@
}

proof fn lemma_lacks(s: Seq<char>, class: CharClass, c: char)
    requires
        !s.contains(c),
    ensures
        !strip(s, class).contains(c),
{
    lemma_strip(s, class);
    if strip(s, class).contains(c) {
        let i = choose|i: int| 0 <= i < strip(s, class).len() && strip(s, class)[i] == c;
        assert(s.contains(strip(s, class)[i]));
    }
}

proof fn lemma_cut_lacks(s: Seq<char>, c: char)
    ensures
        !s.take(span(s, CharClass::Is(c)) as int).contains(c),
{
    lemma_span(s, CharClass::Is(c));
    let cut = s.take(span(s, CharClass::Is(c)) as int);
    if cut.contains(c) {
        let i = choose|i: int| 0 <= i < cut.len() && cut[i] == c;
        assert(!CharClass::Is(c).has(s[i]));
    }
}

proof fn lemma_cargo_entry(line: Seq<char>, kind: Seq<char>)
    requires
        is_cargo_kind(kind),
    ensures
        match cargo_entry(line, kind) {
            Some(dep) => is_cargo_dependency(dep),
            None => true,
        },
{
    match cut_at(line, CharClass::Is('=')) {
        Some(parts) => {
            lemma_cut_lacks(line, '=');
            lemma_lacks(parts.0, CharClass::Space, '=');
            lemma_strip(parts.0, CharClass::Space);
            let bare = strip(strip(trimmed(parts.1), CharClass::Is('"')), CharClass::Is('{'));
            let first = bare.take(span(bare, CharClass::Is(',')) as int);
            lemma_cut_lacks(bare, ',');
            lemma_lacks(first, CharClass::Space, ',');
            lemma_lacks(trimmed(first), CharClass::Is('"'), ',');
            lemma_strip(trimmed(first), CharClass::Is('"'));
        },
        None => {},
    }
}

proof fn lemma_cargo_shapes(lines: Seq<Seq<char>>, section: Option<Seq<char>>)
    requires
        section matches Some(kind) ==> is_cargo_kind(kind),
    ensures
        forall|i: int|
            0 <= i < cargo_lines(lines, section).len() ==> is_cargo_dependency(
                #[trigger] cargo_lines(lines, section)[i],
            ),
    decreases lines.len(),
{
    if lines.len() > 0 {
        let line = trimmed(lines[0]);
        let next = match cargo_heading(line) {
            Some(next) => next,
            None => section,
        };
        lemma_cargo_shapes(lines.skip(1), next);
        let tail = cargo_lines(lines.skip(1), next);
        let all = cargo_lines(lines, section);
        let here = match section {
            Some(kind) => listed(cargo_entry(line, kind)),
            None => Seq::empty(),
        };
        match section {
            Some(kind) => {
                lemma_cargo_entry(line, kind);
            },
            None => {},
        }
        assert forall|i: int| 0 <= i < all.len() implies is_cargo_dependency(
            #[trigger] all[i],
        ) by {
            if cargo_heading(line) is Some {
                assert(all[i] == tail[i]);
            } else if i >= here.len() {
                assert(all[i] == tail[i - here.len()]);
            } else {
                assert(all[i] == here[i]);
            }
        }
    }
}

/// Each dependency of a Cargo.toml file has the shape of one.
pub proof fn law_cargo_shapes(content: Seq<char>)
    ensures
        forall|i: int|
            0 <= i < cargo_dependencies(content).len() ==> is_cargo_dependency(
                #[trigger] cargo_dependencies(content)[i],
            ),
{
    lemma_cargo_shapes(lines_of(content), None);
}

/// The names of the manifests that are read.
pub open spec fn is_manifest_name(name: Seq<char>) -> bool {
    ||| name == "package.json"@
    ||| name == "Cargo.toml"@
    ||| name == "pom.xml"@
    ||| name == "requirements.txt"@
    ||| name == "go.mod"@
    ||| name == "build.gradle"@
    ||| name == "build.gradle.kts"@
}

/// Each of the dependencies comes from the ecosystem.
pub open spec fn all_from(deps: Seq<DependencyView>, ecosystem: Seq<char>) -> bool {
    forall|i: int| 0 <= i < deps.len() ==> (#[trigger] deps[i]).ecosystem == ecosystem
}

proof fn lemma_requirement_ecosystem(lines: Seq<Seq<char>>)
    ensures
        all_from(requirement_lines(lines), "pip"@),
    decreases lines.len(),
{
    if lines.len() > 0 {
        lemma_requirement_ecosystem(lines.skip(1));
    }
}

proof fn lemma_go_ecosystem(lines: Seq<Seq<char>>, inside: bool)
    ensures
        all_from(go_lines(lines, inside), "go"@),
    decreases lines.len(),
{
    if lines.len() > 0 {
        lemma_go_ecosystem(lines.skip(1), true);
        lemma_go_ecosystem(lines.skip(1), false);
    }
}

proof fn lemma_manifest_tools()
    ensures
        build_tool("package.json"@) == Some("npm"@),
        build_tool("Cargo.toml"@) == Some("cargo"@),
        build_tool("pom.xml"@) == Some("maven"@),
        build_tool("requirements.txt"@) == Some("pip"@),
        build_tool("go.mod"@) == Some("go"@),
        build_tool("build.gradle"@) == Some("gradle"@),
        build_tool("build.gradle.kts"@) == Some("gradle"@),
{
    reveal_strlit("package.json");
    reveal_strlit("Cargo.toml");
    reveal_strlit("pom.xml");
    reveal_strlit("requirements.txt");
    reveal_strlit("go.mod");
    reveal_strlit("build.gradle");
    reveal_strlit("build.gradle.kts");
    assert("package.json"@.len() == 12 && "package.json"@[0] == 'p');
    assert("Cargo.toml"@.len() == 10);
    assert("pom.xml"@.len() == 7);
    assert("requirements.txt"@.len() == 16 && "requirements.txt"@[0] == 'r');
    assert("go.mod"@.len() == 6);
    assert("build.gradle"@.len() == 12 && "build.gradle"@[0] == 'b');
    assert("build.gradle.kts"@.len() == 16 && "build.gradle.kts"@[0] == 'b');
}

/// Each dependency that is read from the file at a path comes from the ecosystem of the build
/// tool that reads the file, and only manifests of the known names declare any.
pub proof fn law_dependency_ecosystem(path: Seq<char>, content: Seq<char>)
    ensures
        forall|i: int|
            0 <= i < manifest_dependencies(file_name_of(path), content).len() ==> path_build_tool(
                path,
            ) == Some((#[trigger] manifest_dependencies(file_name_of(path), content)[i]).ecosystem),
        manifest_dependencies(file_name_of(path), content).len() > 0 ==> file_name_of(
            path,
        ) is Some && is_manifest_name(file_name_of(path)->0),
{
    lemma_manifest_tools();
    law_cargo_shapes(content);
    lemma_requirement_ecosystem(lines_of(content));
    lemma_go_ecosystem(lines_of(content), false);
}

/// Only the name of a file counts: files of one name and one content declare the same.
pub proof fn law_dependencies_by_name(path: Seq<char>, other: Seq<char>, content: Seq<char>)
    requires
        file_name_of(path) == file_name_of(other),
    ensures
        manifest_dependencies(file_name_of(path), content) == manifest_dependencies(
            file_name_of(other),
            content,
        ),
{
}

/// Whatever a manifest holds, each dependency that is read from it is a runtime, dev,
/// build or test dependency of a known ecosystem.
pub proof fn law_dependency_kinds(name: Option<Seq<char>>, content: Seq<char>)
    ensures
        well_kinded(manifest_dependencies(name, content)),
{
    lemma_cargo_kinds(lines_of(content), None);
    lemma_requirement_kinds(lines_of(content));
    lemma_go_kinds(lines_of(content), false);
}

/// Parsed dependencies are seen as they are, in order.
pub proof fn law_parsed_seen(deps: Seq<ParsedDependency>)
    ensures
        dependency_views(deps).len() == deps.len(),
        forall|i: int|
            0 <= i < deps.len() ==> {
                let seen = #[trigger] dependency_views(deps)[i];
                &&& seen.name == deps[i].name@
                &&& seen.version == (match deps[i].version {
                    Some(text) => Some(text@),
                    None => None,
                })
                &&& seen.ecosystem == deps[i].ecosystem@
                &&& seen.dep_type == deps[i].dep_type@
            },
{
}

/// The groups of matches, and the entries of a section, are seen as they are, in order.
pub proof fn law_captures_seen(
    captures: Seq<Vec<Option<String>>>,
    entries: Vec<(String, Option<String>)>,
)
    ensures
        capture_views(captures).len() == captures.len(),
        forall|i: int, k: int|
            0 <= i < captures.len() && 0 <= k < captures[i]@.len() ==> capture_views(
                captures,
            )[i].len() == captures[i]@.len() && #[trigger] capture_views(captures)[i][k] == (
            match captures[i]@[k] {
                Some(text) => Some(text@),
                None => None,
            }),
        section_view(Some(entries)) is Some,
        section_view(Some(entries))->0.len() == entries@.len(),
        forall|i: int|
            0 <= i < entries@.len() ==> {
                let seen = #[trigger] section_view(Some(entries))->0[i];
                &&& seen.0 == entries@[i].0@
                &&& seen.1 == (match entries@[i].1 {
                    Some(text) => Some(text@),
                    None => None,
                })
            },
        section_view(None) is None,
{
    assert forall|i: int, k: int|
        0 <= i < captures.len() && 0 <= k < captures[i]@.len() implies capture_views(
        captures,
    )[i].len() == captures[i]@.len() && #[trigger] capture_views(captures)[i][k] == (
    match captures[i]@[k] {
        Some(text) => Some(text@),
        None => None,
    }) by {
        assert(capture_views(captures)[i] == group_views(captures[i]@));
    }
}

} // verus!
