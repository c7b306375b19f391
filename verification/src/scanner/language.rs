//! What a file is, by its name and path. A path is a text with `/` between its parts.

use vstd::prelude::*;

use crate::path::{
    extension, extension_of, file_name, file_name_of, is_name, law_extension, law_file_name,
};
use crate::text::{all_ascii, contains, ends_with, has_part, opt_str_view, same, starts_with};

verus! {

/// The language of the files with that extension, if it is known.
pub open spec fn extension_language(ext: Seq<char>) -> Option<Seq<char>> {
    if ext == "java"@ {
        Some("java"@)
    } else if ext == "kt"@ || ext == "kts"@ {
        Some("kotlin"@)
    } else if ext == "py"@ {
        Some("python"@)
    } else if ext == "rs"@ {
        Some("rust"@)
    } else if ext == "go"@ {
        Some("go"@)
    } else if ext == "js"@ || ext == "mjs"@ || ext == "cjs"@ {
        Some("javascript"@)
    } else if ext == "ts"@ || ext == "mts"@ || ext == "cts"@ {
        Some("typescript"@)
    } else if ext == "tsx"@ {
        Some("typescript"@)
    } else if ext == "jsx"@ {
        Some("javascript"@)
    } else if ext == "rb"@ {
        Some("ruby"@)
    } else if ext == "cs"@ {
        Some("csharp"@)
    } else if ext == "cpp"@ || ext == "cc"@ || ext == "cxx"@ {
        Some("cpp"@)
    } else if ext == "c"@ || ext == "h"@ {
        Some("c"@)
    } else if ext == "swift"@ {
        Some("swift"@)
    } else if ext == "scala"@ {
        Some("scala"@)
    } else if ext == "php"@ {
        Some("php"@)
    } else if ext == "sh"@ || ext == "bash"@ {
        Some("shell"@)
    } else if ext == "sql"@ {
        Some("sql"@)
    } else if ext == "yaml"@ || ext == "yml"@ {
        Some("yaml"@)
    } else if ext == "json"@ {
        Some("json"@)
    } else if ext == "xml"@ {
        Some("xml"@)
    } else if ext == "toml"@ {
        Some("toml"@)
    } else if ext == "md"@ || ext == "markdown"@ {
        Some("markdown"@)
    } else if ext == "tf"@ || ext == "hcl"@ {
        Some("terraform"@)
    } else if ext == "proto"@ {
        Some("protobuf"@)
    } else if ext == "graphql"@ || ext == "gql"@ {
        Some("graphql"@)
    } else {
        None
    }
}

/// The language of the file at a path, by its extension.
pub open spec fn path_language(path: Seq<char>) -> Option<Seq<char>> {
    match extension_of(path) {
        Some(ext) => extension_language(ext),
        None => None,
    }
}

/// The language of the files with that extension, if it is known.
pub fn language_of_extension(ext: &str) -> (r: Option<&'static str>)
    ensures
        opt_str_view(r) == extension_language(ext@),
{
    if same(ext, "java") {
        Some("java")
    } else if same(ext, "kt") || same(ext, "kts") {
        Some("kotlin")
    } else if same(ext, "py") {
        Some("python")
    } else if same(ext, "rs") {
        Some("rust")
    } else if same(ext, "go") {
        Some("go")
    } else if same(ext, "js") || same(ext, "mjs") || same(ext, "cjs") {
        Some("javascript")
    } else if same(ext, "ts") || same(ext, "mts") || same(ext, "cts") {
        Some("typescript")
    } else if same(ext, "tsx") {
        Some("typescript")
    } else if same(ext, "jsx") {
        Some("javascript")
    } else if same(ext, "rb") {
        Some("ruby")
    } else if same(ext, "cs") {
        Some("csharp")
    } else if same(ext, "cpp") || same(ext, "cc") || same(ext, "cxx") {
        Some("cpp")
    } else if same(ext, "c") || same(ext, "h") {
        Some("c")
    } else if same(ext, "swift") {
        Some("swift")
    } else if same(ext, "scala") {
        Some("scala")
    } else if same(ext, "php") {
        Some("php")
    } else if same(ext, "sh") || same(ext, "bash") {
        Some("shell")
    } else if same(ext, "sql") {
        Some("sql")
    } else if same(ext, "yaml") || same(ext, "yml") {
        Some("yaml")
    } else if same(ext, "json") {
        Some("json")
    } else if same(ext, "xml") {
        Some("xml")
    } else if same(ext, "toml") {
        Some("toml")
    } else if same(ext, "md") || same(ext, "markdown") {
        Some("markdown")
    } else if same(ext, "tf") || same(ext, "hcl") {
        Some("terraform")
    } else if same(ext, "proto") {
        Some("protobuf")
    } else if same(ext, "graphql") || same(ext, "gql") {
        Some("graphql")
    } else {
        None
    }
}

/// Detect the programming language from a file extension.
pub fn detect_language(path: &str) -> (r: Option<&'static str>)
    ensures
        opt_str_view(r) == path_language(path@),
{
    match extension(path) {
        Some(ext) => language_of_extension(ext.as_str()),
        None => None,
    }
}

// ---------------------------------------------------------------------------
// Configuration files
// ---------------------------------------------------------------------------

/// The lower-case text that `str::to_lowercase` makes of a text.
pub uninterp spec fn unicode_lowercase(s: Seq<char>) -> Seq<char>;

/// The lower-case letter of an ASCII letter; any other character as it is.
pub open spec fn ascii_lower(c: char) -> char {
    if 'A' <= c <= 'Z' {
        (c as u32 + 32) as char
    } else {
        c
    }
}

/// An ASCII text in lower case.
pub open spec fn ascii_lowercase(s: Seq<char>) -> Seq<char> {
    Seq::new(s.len(), |i: int| ascii_lower(s[i]))
}

/// Makes a text lower-case with `str::to_lowercase`, which depends on the text alone and
/// maps the letters of an ASCII text one by one. What it makes of other texts is Unicode's
/// to say, and left unsaid here.
#[verifier::external_body]
fn to_lowercase(s: &str) -> (r: String)
    ensures
        r@ == unicode_lowercase(s@),
        all_ascii(s@) ==> r@ == ascii_lowercase(s@),
{
    s.to_lowercase()
}

/// Whether a name has the ending of a YAML file.
pub open spec fn is_yaml(name: Seq<char>) -> bool {
    ".yml"@.is_suffix_of(name) || ".yaml"@.is_suffix_of(name)
}

/// The kind of configuration of a file, by its path, its name and its lower-case name.
pub open spec fn config_type(path: Seq<char>, name: Seq<char>, lower: Seq<char>) -> Option<
    Seq<char>,
> {
    if lower == "dockerfile"@ {
        Some("dockerfile"@)
    } else if lower == "docker-compose.yml"@ || lower == "docker-compose.yaml"@
        || lower == "compose.yml"@ || lower == "compose.yaml"@ {
        Some("docker-compose"@)
    } else if lower == "jenkinsfile"@ || lower == ".gitlab-ci.yml"@ {
        Some("ci"@)
    } else if lower == "makefile"@ {
        Some("build"@)
    } else if lower == "codeowners"@ || lower == ".codeowners"@ {
        Some("codeowners"@)
    } else {
        if has_part(path, ".github/workflows/"@) && is_yaml(name) {
            Some("ci"@)
        } else if has_part(path, "k8s/"@) || has_part(path, "kubernetes/"@) || has_part(
            path,
            "deploy/"@,
        ) {
            if is_yaml(name) {
                Some("k8s"@)
            } else {
                None
            }
        } else if "helm"@.is_prefix_of(lower) || has_part(path, "charts/"@) {
            Some("helm"@)
        } else if ".tf"@.is_suffix_of(name) {
            Some("terraform"@)
        } else {
            None
        }
    }
}

/// The kind of configuration of the file at a path.
pub open spec fn path_config_type(path: Seq<char>) -> Option<Seq<char>> {
    match file_name_of(path) {
        Some(name) => config_type(path, name, unicode_lowercase(name)),
        None => None,
    }
}

fn yaml_name(name: &str) -> (r: bool)
    ensures
        r == is_yaml(name@),
{
    ends_with(name, ".yml") || ends_with(name, ".yaml")
}

/// The kind of configuration of a file, by its path, its name and its lower-case name.
pub fn config_type_of(path: &str, name: &str, lower: &str) -> (r: Option<&'static str>)
    ensures
        opt_str_view(r) == config_type(path@, name@, lower@),
{
    if same(lower, "dockerfile") {
        Some("dockerfile")
    } else if same(lower, "docker-compose.yml") || same(lower, "docker-compose.yaml")
        || same(lower, "compose.yml") || same(lower, "compose.yaml") {
        Some("docker-compose")
    } else if same(lower, "jenkinsfile") || same(lower, ".gitlab-ci.yml") {
        Some("ci")
    } else if same(lower, "makefile") {
        Some("build")
    } else if same(lower, "codeowners") || same(lower, ".codeowners") {
        Some("codeowners")
    } else {
        if contains(path, ".github/workflows/") && yaml_name(name) {
            Some("ci")
        } else if contains(path, "k8s/") || contains(path, "kubernetes/") || contains(
            path,
            "deploy/",
        ) {
            if yaml_name(name) {
                Some("k8s")
            } else {
                None
            }
        } else if starts_with(lower, "helm") || contains(path, "charts/") {
            Some("helm")
        } else if ends_with(name, ".tf") {
            Some("terraform")
        } else {
            None
        }
    }
}

/// Detect the config type of a file by its name/path.
pub fn detect_config_type(path: &str) -> (r: Option<&'static str>)
    ensures
        opt_str_view(r) == path_config_type(path@),
        match file_name_of(path@) {
            Some(name) => all_ascii(name) ==> opt_str_view(r) == config_type(
                path@,
                name,
                ascii_lowercase(name),
            ),
            None => r is None,
        },
{
    match file_name(path) {
        Some(name) => {
            let lower = to_lowercase(name.as_str());
            config_type_of(path, name.as_str(), lower.as_str())
        },
        None => None,
    }
}

// ---------------------------------------------------------------------------
// Build tools
// ---------------------------------------------------------------------------

/// The build tool that reads files of that name, if it is known.
pub open spec fn build_tool(name: Seq<char>) -> Option<Seq<char>> {
    if name == "pom.xml"@ {
        Some("maven"@)
    } else if name == "build.gradle"@ || name == "build.gradle.kts"@ {
        Some("gradle"@)
    } else if name == "package.json"@ {
        Some("npm"@)
    } else if name == "Cargo.toml"@ {
        Some("cargo"@)
    } else if name == "go.mod"@ {
        Some("go"@)
    } else if name == "requirements.txt"@ || name == "setup.py"@ || name == "pyproject.toml"@
        || name == "Pipfile"@ {
        Some("pip"@)
    } else if name == "Gemfile"@ {
        Some("bundler"@)
    } else if name == "build.sbt"@ {
        Some("sbt"@)
    } else if name == "CMakeLists.txt"@ {
        Some("cmake"@)
    } else if name == "Makefile"@ {
        Some("make"@)
    } else {
        if ".csproj"@.is_suffix_of(name) || ".sln"@.is_suffix_of(name) {
            Some("dotnet"@)
        } else {
            None
        }
    }
}

/// The build tool that reads the file at a path.
pub open spec fn path_build_tool(path: Seq<char>) -> Option<Seq<char>> {
    match file_name_of(path) {
        Some(name) => build_tool(name),
        None => None,
    }
}

/// The build tool that reads files of that name, if it is known.
pub fn build_tool_of(name: &str) -> (r: Option<&'static str>)
    ensures
        opt_str_view(r) == build_tool(name@),
{
    if same(name, "pom.xml") {
        Some("maven")
    } else if same(name, "build.gradle") || same(name, "build.gradle.kts") {
        Some("gradle")
    } else if same(name, "package.json") {
        Some("npm")
    } else if same(name, "Cargo.toml") {
        Some("cargo")
    } else if same(name, "go.mod") {
        Some("go")
    } else if same(name, "requirements.txt") || same(name, "setup.py")
        || same(name, "pyproject.toml") || same(name, "Pipfile") {
        Some("pip")
    } else if same(name, "Gemfile") {
        Some("bundler")
    } else if same(name, "build.sbt") {
        Some("sbt")
    } else if same(name, "CMakeLists.txt") {
        Some("cmake")
    } else if same(name, "Makefile") {
        Some("make")
    } else {
        if ends_with(name, ".csproj") || ends_with(name, ".sln") {
            Some("dotnet")
        } else {
            None
        }
    }
}

/// Detect build tool from a manifest file name.
pub fn detect_build_tool(path: &str) -> (r: Option<&'static str>)
    ensures
        opt_str_view(r) == path_build_tool(path@),
{
    match file_name(path) {
        Some(name) => build_tool_of(name.as_str()),
        None => None,
    }
}

// ---------------------------------------------------------------------------
// Laws
// ---------------------------------------------------------------------------

/// The files of a language are those with its extensions, and no others.
pub proof fn law_languages(ext: Seq<char>)
    ensures
        extension_language(ext) == Some("java"@) <==> ext == "java"@,
        extension_language(ext) == Some("kotlin"@) <==> ext == "kt"@ || ext == "kts"@,
        extension_language(ext) == Some("python"@) <==> ext == "py"@,
        extension_language(ext) == Some("rust"@) <==> ext == "rs"@,
        extension_language(ext) == Some("go"@) <==> ext == "go"@,
        extension_language(ext) == Some("javascript"@) <==> ext == "js"@ || ext == "mjs"@
            || ext == "cjs"@ || ext == "jsx"@,
        extension_language(ext) == Some("typescript"@) <==> ext == "ts"@ || ext == "mts"@
            || ext == "cts"@ || ext == "tsx"@,
        extension_language(ext) == Some("ruby"@) <==> ext == "rb"@,
        extension_language(ext) == Some("csharp"@) <==> ext == "cs"@,
        extension_language(ext) == Some("cpp"@) <==> ext == "cpp"@ || ext == "cc"@ || ext == "cxx"@,
        extension_language(ext) == Some("c"@) <==> ext == "c"@ || ext == "h"@,
        extension_language(ext) == Some("swift"@) <==> ext == "swift"@,
        extension_language(ext) == Some("scala"@) <==> ext == "scala"@,
        extension_language(ext) == Some("php"@) <==> ext == "php"@,
        extension_language(ext) == Some("shell"@) <==> ext == "sh"@ || ext == "bash"@,
        extension_language(ext) == Some("sql"@) <==> ext == "sql"@,
        extension_language(ext) == Some("yaml"@) <==> ext == "yaml"@ || ext == "yml"@,
        extension_language(ext) == Some("json"@) <==> ext == "json"@,
        extension_language(ext) == Some("xml"@) <==> ext == "xml"@,
        extension_language(ext) == Some("toml"@) <==> ext == "toml"@,
        extension_language(ext) == Some("markdown"@) <==> ext == "md"@ || ext == "markdown"@,
        extension_language(ext) == Some("terraform"@) <==> ext == "tf"@ || ext == "hcl"@,
        extension_language(ext) == Some("protobuf"@) <==> ext == "proto"@,
        extension_language(ext) == Some("graphql"@) <==> ext == "graphql"@ || ext == "gql"@,
        extension_language(ext) is Some <==> {
            ||| ext == "java"@
            ||| ext == "kt"@
            ||| ext == "kts"@
            ||| ext == "py"@
            ||| ext == "rs"@
            ||| ext == "go"@
            ||| ext == "js"@
            ||| ext == "mjs"@
            ||| ext == "cjs"@
            ||| ext == "jsx"@
            ||| ext == "ts"@
            ||| ext == "mts"@
            ||| ext == "cts"@
            ||| ext == "tsx"@
            ||| ext == "rb"@
            ||| ext == "cs"@
            ||| ext == "cpp"@
            ||| ext == "cc"@
            ||| ext == "cxx"@
            ||| ext == "c"@
            ||| ext == "h"@
            ||| ext == "swift"@
            ||| ext == "scala"@
            ||| ext == "php"@
            ||| ext == "sh"@
            ||| ext == "bash"@
            ||| ext == "sql"@
            ||| ext == "yaml"@
            ||| ext == "yml"@
            ||| ext == "json"@
            ||| ext == "xml"@
            ||| ext == "toml"@
            ||| ext == "md"@
            ||| ext == "markdown"@
            ||| ext == "tf"@
            ||| ext == "hcl"@
            ||| ext == "proto"@
            ||| ext == "graphql"@
            ||| ext == "gql"@
        },
{
    reveal_strlit("java");
    reveal_strlit("kt");
    reveal_strlit("kts");
    reveal_strlit("py");
    reveal_strlit("rs");
    reveal_strlit("go");
    reveal_strlit("js");
    reveal_strlit("mjs");
    reveal_strlit("cjs");
    reveal_strlit("jsx");
    reveal_strlit("ts");
    reveal_strlit("mts");
    reveal_strlit("cts");
    reveal_strlit("tsx");
    reveal_strlit("rb");
    reveal_strlit("cs");
    reveal_strlit("cpp");
    reveal_strlit("cc");
    reveal_strlit("cxx");
    reveal_strlit("c");
    reveal_strlit("h");
    reveal_strlit("swift");
    reveal_strlit("scala");
    reveal_strlit("php");
    reveal_strlit("sh");
    reveal_strlit("bash");
    reveal_strlit("sql");
    reveal_strlit("yaml");
    reveal_strlit("yml");
    reveal_strlit("json");
    reveal_strlit("xml");
    reveal_strlit("toml");
    reveal_strlit("md");
    reveal_strlit("markdown");
    reveal_strlit("tf");
    reveal_strlit("hcl");
    reveal_strlit("proto");
    reveal_strlit("graphql");
    reveal_strlit("gql");
    reveal_strlit("kotlin");
    reveal_strlit("python");
    reveal_strlit("rust");
    reveal_strlit("javascript");
    reveal_strlit("typescript");
    reveal_strlit("ruby");
    reveal_strlit("csharp");
    reveal_strlit("shell");
    reveal_strlit("terraform");
    reveal_strlit("protobuf");
    assert("java"@.len() == 4 && "java"@[0] == 'j' && "java"@[1] == 'a');
    assert("kt"@.len() == 2 && "kt"@[0] == 'k');
    assert("kts"@.len() == 3 && "kts"@[0] == 'k');
    assert("py"@.len() == 2 && "py"@[0] == 'p');
    assert("rs"@.len() == 2 && "rs"@[0] == 'r' && "rs"@[1] == 's');
    assert("go"@.len() == 2 && "go"@[0] == 'g');
    assert("js"@.len() == 2 && "js"@[0] == 'j');
    assert("mjs"@.len() == 3 && "mjs"@[0] == 'm' && "mjs"@[1] == 'j');
    assert("cjs"@.len() == 3 && "cjs"@[0] == 'c' && "cjs"@[1] == 'j');
    assert("jsx"@.len() == 3 && "jsx"@[0] == 'j');
    assert("ts"@.len() == 2 && "ts"@[0] == 't' && "ts"@[1] == 's');
    assert("mts"@.len() == 3 && "mts"@[0] == 'm' && "mts"@[1] == 't');
    assert("cts"@.len() == 3 && "cts"@[0] == 'c' && "cts"@[1] == 't');
    assert("tsx"@.len() == 3 && "tsx"@[0] == 't');
    assert("rb"@.len() == 2 && "rb"@[0] == 'r' && "rb"@[1] == 'b');
    assert("cs"@.len() == 2 && "cs"@[0] == 'c' && "cs"@[1] == 's');
    assert("cpp"@.len() == 3 && "cpp"@[0] == 'c' && "cpp"@[1] == 'p');
    assert("cc"@.len() == 2 && "cc"@[0] == 'c' && "cc"@[1] == 'c');
    assert("cxx"@.len() == 3 && "cxx"@[0] == 'c' && "cxx"@[1] == 'x');
    assert("c"@.len() == 1 && "c"@[0] == 'c');
    assert("h"@.len() == 1 && "h"@[0] == 'h');
    assert("swift"@.len() == 5 && "swift"@[0] == 's' && "swift"@[1] == 'w');
    assert("scala"@.len() == 5 && "scala"@[0] == 's' && "scala"@[1] == 'c');
    assert("php"@.len() == 3 && "php"@[0] == 'p');
    assert("sh"@.len() == 2 && "sh"@[0] == 's');
    assert("bash"@.len() == 4 && "bash"@[0] == 'b');
    assert("sql"@.len() == 3 && "sql"@[0] == 's');
    assert("yaml"@.len() == 4 && "yaml"@[0] == 'y');
    assert("yml"@.len() == 3 && "yml"@[0] == 'y');
    assert("json"@.len() == 4 && "json"@[0] == 'j' && "json"@[1] == 's');
    assert("xml"@.len() == 3 && "xml"@[0] == 'x');
    assert("toml"@.len() == 4 && "toml"@[0] == 't');
    assert("md"@.len() == 2 && "md"@[0] == 'm');
    assert("markdown"@.len() == 8 && "markdown"@[0] == 'm');
    assert("tf"@.len() == 2 && "tf"@[0] == 't' && "tf"@[1] == 'f');
    assert("hcl"@.len() == 3 && "hcl"@[0] == 'h');
    assert("proto"@.len() == 5 && "proto"@[0] == 'p');
    assert("graphql"@.len() == 7);
    assert("gql"@.len() == 3 && "gql"@[0] == 'g');
    assert("kotlin"@.len() == 6 && "kotlin"@[0] == 'k');
    assert("python"@.len() == 6 && "python"@[0] == 'p');
    assert("rust"@.len() == 4 && "rust"@[0] == 'r' && "rust"@[2] == 's');
    assert("javascript"@.len() == 10 && "javascript"@[0] == 'j');
    assert("typescript"@.len() == 10 && "typescript"@[0] == 't');
    assert("ruby"@.len() == 4 && "ruby"@[0] == 'r' && "ruby"@[2] == 'b');
    assert("csharp"@.len() == 6 && "csharp"@[0] == 'c');
    assert("shell"@.len() == 5 && "shell"@[0] == 's' && "shell"@[1] == 'h');
    assert("terraform"@.len() == 9);
    assert("protobuf"@.len() == 8 && "protobuf"@[0] == 'p');
}

/// A build tool reads the files of its names, and no others; that of .NET reads project and
/// solution files by their endings.
pub proof fn law_build_tools(name: Seq<char>)
    ensures
        build_tool(name) == Some("maven"@) <==> name == "pom.xml"@,
        build_tool(name) == Some("gradle"@) <==> name == "build.gradle"@
            || name == "build.gradle.kts"@,
        build_tool(name) == Some("npm"@) <==> name == "package.json"@,
        build_tool(name) == Some("cargo"@) <==> name == "Cargo.toml"@,
        build_tool(name) == Some("go"@) <==> name == "go.mod"@,
        build_tool(name) == Some("pip"@) <==> name == "requirements.txt"@ || name == "setup.py"@
            || name == "pyproject.toml"@ || name == "Pipfile"@,
        build_tool(name) == Some("bundler"@) <==> name == "Gemfile"@,
        build_tool(name) == Some("sbt"@) <==> name == "build.sbt"@,
        build_tool(name) == Some("cmake"@) <==> name == "CMakeLists.txt"@,
        build_tool(name) == Some("make"@) <==> name == "Makefile"@,
        build_tool(name) == Some("dotnet"@) <==> ".csproj"@.is_suffix_of(name)
            || ".sln"@.is_suffix_of(name),
{
    reveal_strlit("pom.xml");
    reveal_strlit("build.gradle");
    reveal_strlit("build.gradle.kts");
    reveal_strlit("package.json");
    reveal_strlit("Cargo.toml");
    reveal_strlit("go.mod");
    reveal_strlit("requirements.txt");
    reveal_strlit("setup.py");
    reveal_strlit("pyproject.toml");
    reveal_strlit("Pipfile");
    reveal_strlit("Gemfile");
    reveal_strlit("build.sbt");
    reveal_strlit("CMakeLists.txt");
    reveal_strlit("Makefile");
    reveal_strlit("maven");
    reveal_strlit("gradle");
    reveal_strlit("npm");
    reveal_strlit("cargo");
    reveal_strlit("go");
    reveal_strlit("pip");
    reveal_strlit("bundler");
    reveal_strlit("sbt");
    reveal_strlit("cmake");
    reveal_strlit("make");
    reveal_strlit("dotnet");
    reveal_strlit(".csproj");
    reveal_strlit(".sln");
    assert("pom.xml"@.len() == 7 && "pom.xml"@[0] == 'p');
    assert("build.gradle"@.len() == 12 && "build.gradle"@[0] == 'b');
    assert("build.gradle.kts"@.len() == 16 && "build.gradle.kts"@[0] == 'b');
    assert("package.json"@.len() == 12 && "package.json"@[0] == 'p');
    assert("Cargo.toml"@.len() == 10);
    assert("go.mod"@.len() == 6 && "go.mod"@[0] == 'g' && "go.mod"@[1] == 'o');
    assert("requirements.txt"@.len() == 16 && "requirements.txt"@[0] == 'r');
    assert("setup.py"@.len() == 8 && "setup.py"@[0] == 's');
    assert("pyproject.toml"@.len() == 14 && "pyproject.toml"@[0] == 'p');
    assert("Pipfile"@.len() == 7 && "Pipfile"@[0] == 'P');
    assert("Gemfile"@.len() == 7 && "Gemfile"@[0] == 'G');
    assert("build.sbt"@.len() == 9);
    assert("CMakeLists.txt"@.len() == 14 && "CMakeLists.txt"@[0] == 'C');
    assert("Makefile"@.len() == 8 && "Makefile"@[0] == 'M');
    assert("maven"@.len() == 5 && "maven"@[0] == 'm');
    assert("gradle"@.len() == 6 && "gradle"@[0] == 'g' && "gradle"@[1] == 'r');
    assert("npm"@.len() == 3 && "npm"@[0] == 'n');
    assert("cargo"@.len() == 5 && "cargo"@[0] == 'c' && "cargo"@[1] == 'a');
    assert("go"@.len() == 2);
    assert("pip"@.len() == 3 && "pip"@[0] == 'p');
    assert("bundler"@.len() == 7 && "bundler"@[0] == 'b');
    assert("sbt"@.len() == 3 && "sbt"@[0] == 's');
    assert("cmake"@.len() == 5 && "cmake"@[0] == 'c' && "cmake"@[1] == 'm');
    assert("make"@.len() == 4 && "make"@[0] == 'm');
    assert("dotnet"@.len() == 6 && "dotnet"@[0] == 'd');
    assert(".csproj"@.len() == 7 && ".csproj"@[0] == '.');
    assert(".sln"@.len() == 4 && ".sln"@[0] == '.');
    if ".csproj"@.is_suffix_of(name) {
        lemma_ending(name, ".csproj"@, 'j');
    }
    if ".sln"@.is_suffix_of(name) {
        lemma_ending(name, ".sln"@, 'n');
        assert(name[name.len() - 4] == ".sln"@[0]) by {
            assert(name.subrange(name.len() - 4, name.len() as int)[0] == ".sln"@[0]);
        }
    }
}

proof fn lemma_ending(name: Seq<char>, ending: Seq<char>, c: char)
    requires
        ending.is_suffix_of(name),
        ending.len() > 0,
        ending.last() == c,
    ensures
        name.len() >= ending.len(),
        name.last() == c,
{
    let n = name.len() as int;
    let k = ending.len() as int;
    assert(name.subrange(n - k, n)[k - 1] == ending[k - 1]);
}

/// The name, in lower case, tells the kind of a configuration file by itself.
pub open spec fn is_telling_name(lower: Seq<char>) -> bool {
    ||| lower == "dockerfile"@
    ||| lower == "docker-compose.yml"@
    ||| lower == "docker-compose.yaml"@
    ||| lower == "compose.yml"@
    ||| lower == "compose.yaml"@
    ||| lower == "jenkinsfile"@
    ||| lower == ".gitlab-ci.yml"@
    ||| lower == "makefile"@
    ||| lower == "codeowners"@
    ||| lower == ".codeowners"@
}

/// The path is one of a workflow of GitHub.
pub open spec fn is_workflow(path: Seq<char>, name: Seq<char>) -> bool {
    has_part(path, ".github/workflows/"@) && (".yml"@.is_suffix_of(name) || ".yaml"@.is_suffix_of(
        name,
    ))
}

/// The path leads through a directory of deployments.
pub open spec fn is_deployed(path: Seq<char>) -> bool {
    has_part(path, "k8s/"@) || has_part(path, "kubernetes/"@) || has_part(path, "deploy/"@)
}

/// A file is of a kind of configuration just if its name says so, or else the directories that
/// its path leads through, those of workflows first, then those of deployments, then charts.
pub proof fn law_config_types(path: Seq<char>, name: Seq<char>, lower: Seq<char>)
    ensures
        config_type(path, name, lower) == Some("dockerfile"@) <==> lower == "dockerfile"@,
        config_type(path, name, lower) == Some("docker-compose"@) <==> lower
            == "docker-compose.yml"@ || lower == "docker-compose.yaml"@ || lower == "compose.yml"@
            || lower == "compose.yaml"@,
        config_type(path, name, lower) == Some("build"@) <==> lower == "makefile"@,
        config_type(path, name, lower) == Some("codeowners"@) <==> lower == "codeowners"@ || lower
            == ".codeowners"@,
        config_type(path, name, lower) == Some("ci"@) <==> lower == "jenkinsfile"@ || lower
            == ".gitlab-ci.yml"@ || (!is_telling_name(lower) && is_workflow(path, name)),
        config_type(path, name, lower) == Some("k8s"@) <==> !is_telling_name(lower) && !is_workflow(
            path,
            name,
        ) && is_deployed(path) && (".yml"@.is_suffix_of(name) || ".yaml"@.is_suffix_of(name)),
        config_type(path, name, lower) == Some("helm"@) <==> !is_telling_name(lower)
            && !is_workflow(path, name) && !is_deployed(path) && ("helm"@.is_prefix_of(lower)
            || has_part(path, "charts/"@)),
        config_type(path, name, lower) == Some("terraform"@) <==> !is_telling_name(lower)
            && !is_workflow(path, name) && !is_deployed(path) && !"helm"@.is_prefix_of(lower)
            && !has_part(path, "charts/"@) && ".tf"@.is_suffix_of(name),
{
    reveal_strlit("dockerfile");
    reveal_strlit("docker-compose.yml");
    reveal_strlit("docker-compose.yaml");
    reveal_strlit("compose.yml");
    reveal_strlit("compose.yaml");
    reveal_strlit("jenkinsfile");
    reveal_strlit(".gitlab-ci.yml");
    reveal_strlit("makefile");
    reveal_strlit("codeowners");
    reveal_strlit(".codeowners");
    reveal_strlit("docker-compose");
    reveal_strlit("ci");
    reveal_strlit("build");
    reveal_strlit("k8s");
    reveal_strlit("helm");
    reveal_strlit("terraform");
    assert("dockerfile"@.len() == 10 && "dockerfile"@[0] == 'd');
    assert("docker-compose.yml"@.len() == 18);
    assert("docker-compose.yaml"@.len() == 19);
    assert("compose.yml"@.len() == 11 && "compose.yml"@[0] == 'c');
    assert("compose.yaml"@.len() == 12);
    assert("jenkinsfile"@.len() == 11 && "jenkinsfile"@[0] == 'j');
    assert(".gitlab-ci.yml"@.len() == 14 && ".gitlab-ci.yml"@[0] == '.');
    assert("makefile"@.len() == 8);
    assert("codeowners"@.len() == 10 && "codeowners"@[0] == 'c');
    assert(".codeowners"@.len() == 11 && ".codeowners"@[0] == '.');
    assert("docker-compose"@.len() == 14 && "docker-compose"@[0] == 'd');
    assert("ci"@.len() == 2);
    assert("build"@.len() == 5);
    assert("k8s"@.len() == 3);
    assert("helm"@.len() == 4);
    assert("terraform"@.len() == 9);
}

/// Language, build tool and kind of configuration of a file are told by its name, wherever it
/// lies; the kind of configuration by its path too.
pub proof fn law_told_by_name(dir: Seq<char>, stem: Seq<char>, ext: Seq<char>)
    requires
        !stem.contains('/'),
        !ext.contains('/'),
        !ext.contains('.'),
        is_name(stem.push('.') + ext),
    ensures
        ({
            let name = stem.push('.') + ext;
            let path = dir.push('/') + name;
            &&& stem.len() > 0 ==> path_language(path) == extension_language(ext) && path_language(
                name,
            ) == extension_language(ext)
            &&& path_build_tool(path) == build_tool(name)
            &&& path_config_type(path) == config_type(path, name, unicode_lowercase(name))
            &&& is_name(ext) ==> path_language(dir.push('/') + ext) is None && path_build_tool(
                dir.push('/') + ext,
            ) == build_tool(ext)
        }),
{
    law_extension(dir, stem, ext);
    law_file_name(dir, stem.push('.') + ext);
    if is_name(ext) {
        law_file_name(dir, ext);
    }
}

} // verus!
