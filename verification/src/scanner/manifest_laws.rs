//! What manifests declare, told by how they are written.

use vstd::prelude::*;

use crate::json::{json_get, json_object, json_parse, json_str};
use crate::scanner::dep_parser::{
    cargo_dependencies, cargo_entry, cargo_heading, cargo_lines, cargo_version, go_dependencies,
    go_entry, go_lines, gradle_file_dependencies, lemma_section_starts, listed,
    manifest_dependencies, package_json_dependencies, pip_dependencies, pom_dependencies,
    regex_captures, requirement_entry, requirement_lines, requirement_name, requirement_readable,
    requirements_readable, DependencyView, GRADLE_PATTERN, POM_PATTERN,
};
use crate::text::{
    are_lines, is_blank, is_line, is_space, is_trim, is_word, law_bytes, law_cut,
    law_lines_read_back, law_one_word, law_strip, law_trimmed, law_words_part, lemma_span,
    lemma_strip_back, lines_of, span, strip_back, strip_front, trimmed, words_of, written,
    CharClass,
};

verus! {

proof fn lemma_joined_lines(a: Seq<Seq<char>>, b: Seq<Seq<char>>)
    requires
        are_lines(a),
        are_lines(b),
    ensures
        are_lines(a + b),
{
    assert forall|i: int| 0 <= i < (a + b).len() implies is_line(#[trigger] (a + b)[i]) by {
        if i < a.len() {
            assert((a + b)[i] == a[i]);
        } else {
            assert((a + b)[i] == b[i - a.len()]);
        }
    }
}

proof fn lemma_one_line(line: Seq<char>)
    requires
        is_line(line),
    ensures
        are_lines(seq![line]),
{
}

// ---------------------------------------------------------------------------
// go.mod
// ---------------------------------------------------------------------------

/// Whether what follows lines stands inside a require block, where what stands before them
/// does or does not.
pub open spec fn in_block(lines: Seq<Seq<char>>, before: bool) -> bool
    decreases lines.len(),
{
    if lines.len() == 0 {
        before
    } else {
        let line = trimmed(lines[0]);
        in_block(
            lines.skip(1),
            if line == "require ("@ {
                true
            } else if line == ")"@ {
                false
            } else {
                before
            },
        )
    }
}

proof fn lemma_go_parts(a: Seq<Seq<char>>, b: Seq<Seq<char>>, inside: bool)
    ensures
        go_lines(a + b, inside) == go_lines(a, inside) + go_lines(b, in_block(a, inside)),
        in_block(a + b, inside) == in_block(b, in_block(a, inside)),
    decreases a.len(),
{
    if a.len() == 0 {
        assert(a + b =~= b);
        assert(go_lines(a, inside) + go_lines(b, inside) =~= go_lines(b, inside));
    } else {
        let line = trimmed(a[0]);
        let next = if line == "require ("@ {
            true
        } else if line == ")"@ {
            false
        } else {
            inside
        };
        assert((a + b).skip(1) =~= a.skip(1) + b);
        assert((a + b)[0] == a[0]);
        lemma_go_parts(a.skip(1), b, next);
        let tail = go_lines(b, in_block(a, inside));
        let here = listed(go_entry(line));
        assert(here + (go_lines(a.skip(1), next) + tail) =~= (here + go_lines(a.skip(1), next))
            + tail);
    }
}

proof fn lemma_words_behind_blank(front: Seq<char>, s: Seq<char>)
    requires
        is_blank(front),
    ensures
        words_of(front + s) == words_of(s),
    decreases front.len(),
{
    if front.len() > 0 {
        let c = front[0];
        let rest = front.skip(1);
        assert forall|i: int| 0 <= i < rest.len() implies is_space(#[trigger] rest[i]) by {
            assert(rest[i] == front[i + 1]);
        }
        lemma_words_behind_blank(rest, s);
        let none = Seq::<char>::empty();
        law_words_part(none, c, rest + s);
        law_one_word(none);
        assert(none.push(c) + (rest + s) =~= front + s);
        assert(words_of(none) + words_of(rest + s) =~= words_of(rest + s));
    } else {
        assert(front + s =~= s);
    }
}

proof fn lemma_words_stripped_front(s: Seq<char>)
    ensures
        words_of(strip_front(s, CharClass::Space)) == words_of(s),
    decreases s.len(),
{
    if s.len() > 0 && is_space(s[0]) {
        lemma_words_stripped_front(s.skip(1));
        lemma_words_behind_blank(seq![s[0]], s.skip(1));
        assert(seq![s[0]] + s.skip(1) =~= s);
    }
}

proof fn lemma_words_stripped_back(s: Seq<char>)
    ensures
        words_of(strip_back(s, CharClass::Space)) == words_of(s),
    decreases s.len(),
{
    if s.len() > 0 && is_space(s.last()) {
        let front = s.drop_last();
        lemma_words_stripped_back(front);
        let none = Seq::<char>::empty();
        law_words_part(front, s.last(), none);
        law_one_word(none);
        assert(front.push(s.last()) + none =~= s);
        assert(words_of(front) + words_of(none) =~= words_of(front));
    }
}

/// Trimming a line changes none of its words.
pub proof fn law_words_of_trimmed(s: Seq<char>)
    ensures
        words_of(trimmed(s)) == words_of(s),
{
    lemma_words_stripped_front(s);
    lemma_words_stripped_back(strip_front(s, CharClass::Space));
}

/// A line of a require block: white space, a name, a version, and what follows, if anything
/// does.
pub open spec fn go_line(
    indent: Seq<char>,
    name: Seq<char>,
    version: Seq<char>,
    more: Seq<char>,
) -> Seq<char> {
    indent + (name.push(' ') + (version + more))
}

/// The parts make a line of a require block, and not one that opens a block.
pub open spec fn is_go_line(
    indent: Seq<char>,
    name: Seq<char>,
    version: Seq<char>,
    more: Seq<char>,
) -> bool {
    &&& is_blank(indent)
    &&& is_word(name)
    &&& is_word(version)
    &&& more.len() > 0 ==> is_space(more[0])
    &&& name != "require"@
    &&& is_line(go_line(indent, name, version, more))
}

/// A dependency of a go.mod file.
pub open spec fn go_dependency(name: Seq<char>, version: Seq<char>) -> DependencyView {
    DependencyView {
        name,
        version: Some(version),
        ecosystem: "go"@,
        dep_type: "runtime"@,
    }
}

proof fn lemma_block_marks()
    ensures
        words_of("require ("@) == seq!["require"@, "("@],
        words_of(")"@) == seq![")"@],
        trimmed("require ("@) == "require ("@,
        trimmed(")"@) == ")"@,
        is_line("require ("@),
        is_line(")"@),
        "require ("@ != ")"@,
{
    reveal_strlit("require (");
    reveal_strlit("require");
    reveal_strlit("(");
    reveal_strlit(")");
    law_words_part("require"@, ' ', "("@);
    law_one_word("require"@);
    law_one_word("("@);
    law_one_word(")"@);
    assert("require"@.push(' ') + "("@ =~= "require ("@);
    assert(seq!["require"@] + seq!["("@] =~= seq!["require"@, "("@]);
    let none = Seq::<char>::empty();
    law_trimmed(none, "require ("@, none);
    law_trimmed(none, ")"@, none);
    assert("require ("@.len() == 9 && ")"@.len() == 1);
}

proof fn lemma_go_line(
    indent: Seq<char>,
    name: Seq<char>,
    version: Seq<char>,
    more: Seq<char>,
    inside: bool,
)
    requires
        is_go_line(indent, name, version, more),
    ensures
        go_lines(seq![go_line(indent, name, version, more)], inside) == (if inside {
            seq![go_dependency(name, version)]
        } else {
            Seq::empty()
        }),
        in_block(seq![go_line(indent, name, version, more)], inside) == inside,
{
    let line = go_line(indent, name, version, more);
    let bare = trimmed(line);
    let none = Seq::<char>::empty();
    lemma_words_behind_blank(indent, name.push(' ') + (version + more));
    law_words_part(name, ' ', version + more);
    law_one_word(name);
    law_one_word(version);
    if more.len() > 0 {
        law_words_part(version, more[0], more.skip(1));
        assert(version.push(more[0]) + more.skip(1) =~= version + more);
    } else {
        assert(version + more =~= version);
    }
    law_words_of_trimmed(line);
    let parts = words_of(bare);
    assert(parts.len() >= 2 && parts[0] == name && parts[1] == version);
    lemma_block_marks();
    if bare == "require ("@ {
        assert(parts[0] == "require"@);
    }
    assert(bare != ")"@);
    let rest = seq![line].skip(1);
    assert(rest =~= Seq::empty());
    assert(go_lines(rest, inside) =~= Seq::empty());
    assert(in_block(rest, inside) == inside);
    if inside {
        assert(go_entry(bare) == Some(go_dependency(name, version)));
        assert(seq![go_dependency(name, version)] + go_lines(rest, inside) =~= seq![
            go_dependency(name, version),
        ]);
    }
}

/// A requirement that is written into a require block adds that dependency, and changes no
/// other; one that is written elsewhere adds none.
pub proof fn law_go_requirement(
    before: Seq<Seq<char>>,
    indent: Seq<char>,
    name: Seq<char>,
    version: Seq<char>,
    more: Seq<char>,
    after: Seq<Seq<char>>,
)
    requires
        are_lines(before),
        are_lines(after),
        is_go_line(indent, name, version, more),
    ensures
        ({
            let line = go_line(indent, name, version, more);
            let without = go_dependencies(written(before + after));
            let with = go_dependencies(written(before + seq![line] + after));
            let place = go_dependencies(written(before)).len() as int;
            if in_block(before, false) {
                place <= without.len() && with == without.insert(
                    place,
                    go_dependency(name, version),
                )
            } else {
                with == without
            }
        }),
{
    let line = go_line(indent, name, version, more);
    let inside = in_block(before, false);
    lemma_one_line(line);
    lemma_joined_lines(before, after);
    lemma_joined_lines(before, seq![line]);
    lemma_joined_lines(before + seq![line], after);
    law_lines_read_back(before);
    law_lines_read_back(before + after);
    law_lines_read_back(before + seq![line] + after);
    lemma_go_parts(before, after, false);
    lemma_go_parts(before, seq![line] + after, false);
    lemma_go_parts(seq![line], after, inside);
    lemma_go_line(indent, name, version, more, inside);
    assert(before + seq![line] + after =~= before + (seq![line] + after));
    let first = go_lines(before, false);
    let last = go_lines(after, inside);
    if inside {
        let dep = go_dependency(name, version);
        assert(first + (seq![dep] + last) =~= (first + last).insert(first.len() as int, dep));
    } else {
        assert(first + (Seq::empty() + last) =~= first + last);
    }
}

/// The lines of requirements.
pub open spec fn go_block(names: Seq<Seq<char>>, versions: Seq<Seq<char>>) -> Seq<Seq<char>> {
    Seq::new(names.len(), |i: int| go_line(seq!['\t'], names[i], versions[i], Seq::empty()))
}

proof fn lemma_go_block(names: Seq<Seq<char>>, versions: Seq<Seq<char>>)
    requires
        names.len() == versions.len(),
        forall|i: int|
            0 <= i < names.len() ==> is_word(#[trigger] names[i]) && names[i] != "require"@,
        forall|i: int| 0 <= i < versions.len() ==> is_word(#[trigger] versions[i]),
    ensures
        are_lines(go_block(names, versions)),
        go_lines(go_block(names, versions), true) == Seq::new(
            names.len(),
            |i: int| go_dependency(names[i], versions[i]),
        ),
        in_block(go_block(names, versions), true),
    decreases names.len(),
{
    let lines = go_block(names, versions);
    let deps = Seq::new(names.len(), |i: int| go_dependency(names[i], versions[i]));
    if names.len() == 0 {
        assert(go_lines(lines, true) =~= deps);
    } else {
        let none = Seq::<char>::empty();
        let name = names[0];
        let version = versions[0];
        let line = go_line(seq!['\t'], name, version, none);
        assert(is_word(names[0]) && is_word(versions[0]));
        assert(line[line.len() - 1] == version.last());
        assert forall|k: int| 0 <= k < line.len() implies line[k] != '\n' by {
            if 1 <= k < 1 + name.len() {
                assert(line[k] == name[k - 1]);
            } else if k >= 2 + name.len() {
                assert(line[k] == version[k - 2 - name.len()]);
            }
        }
        assert(!is_space(version.last()));
        assert(is_line(line));
        assert(is_go_line(seq!['\t'], name, version, none));
        lemma_go_line(seq!['\t'], name, version, none, true);
        let rest = go_block(names.skip(1), versions.skip(1));
        lemma_go_block(names.skip(1), versions.skip(1));
        assert(seq![line] + rest =~= lines) by {
            assert forall|i: int| 0 <= i < lines.len() implies (seq![line] + rest)[i]
                == lines[i] by {
                if i > 0 {
                    assert(names.skip(1)[i - 1] == names[i]);
                    assert(versions.skip(1)[i - 1] == versions[i]);
                }
            }
        }
        lemma_one_line(line);
        lemma_joined_lines(seq![line], rest);
        lemma_go_parts(seq![line], rest, true);
        let more = Seq::new(
            names.skip(1).len(),
            |i: int| go_dependency(names.skip(1)[i], versions.skip(1)[i]),
        );
        assert(seq![go_dependency(name, version)] + more =~= deps);
    }
}

/// A require block gives one dependency for each of its lines, in order, with the name and the
/// version of the line, between those that stand before the block and those behind it.
pub proof fn law_go_block(
    before: Seq<Seq<char>>,
    names: Seq<Seq<char>>,
    versions: Seq<Seq<char>>,
    after: Seq<Seq<char>>,
)
    requires
        are_lines(before),
        are_lines(after),
        names.len() == versions.len(),
        forall|i: int|
            0 <= i < names.len() ==> is_word(#[trigger] names[i]) && names[i] != "require"@,
        forall|i: int| 0 <= i < versions.len() ==> is_word(#[trigger] versions[i]),
    ensures
        go_dependencies(
            written(
                before + seq!["require ("@] + go_block(names, versions) + seq![")"@] + after,
            ),
        ) == go_dependencies(written(before)) + Seq::new(
            names.len(),
            |i: int|
                DependencyView {
                    name: names[i],
                    version: Some(versions[i]),
                    ecosystem: "go"@,
                    dep_type: "runtime"@,
                },
        ) + go_dependencies(written(after)),
{
    let lines = go_block(names, versions);
    let open = seq!["require ("@];
    let close = seq![")"@];
    lemma_block_marks();
    lemma_go_block(names, versions);
    lemma_one_line("require ("@);
    lemma_one_line(")"@);
    lemma_joined_lines(before, open);
    lemma_joined_lines(before + open, lines);
    lemma_joined_lines(before + open + lines, close);
    lemma_joined_lines(before + open + lines + close, after);
    law_lines_read_back(before);
    law_lines_read_back(after);
    law_lines_read_back(before + open + lines + close + after);
    let inside = in_block(before, false);
    lemma_go_parts(before, open + (lines + (close + after)), false);
    lemma_go_parts(open, lines + (close + after), inside);
    lemma_go_parts(lines, close + after, true);
    lemma_go_parts(close, after, true);
    assert(open.skip(1) =~= Seq::empty());
    assert(close.skip(1) =~= Seq::empty());
    assert(open[0] == "require ("@ && close[0] == ")"@);
    assert(in_block(open.skip(1), true));
    assert(!in_block(close.skip(1), false));
    assert(go_lines(open.skip(1), true) =~= Seq::empty());
    assert(go_lines(close.skip(1), false) =~= Seq::empty());
    assert(go_lines(open, inside) =~= Seq::empty());
    assert(go_lines(close, true) =~= Seq::empty());
    assert(before + open + lines + close + after =~= before + (open + (lines + (close + after))));
    let first = go_lines(before, false);
    let block = go_lines(lines, true);
    let last = go_lines(after, false);
    assert(first + (Seq::empty() + (block + (Seq::empty() + last))) =~= first + block + last);
}

/// A line of fewer than two words, other than one that closes a block, declares nothing
/// wherever it stands.
pub proof fn law_go_short_line(before: Seq<Seq<char>>, line: Seq<char>, after: Seq<Seq<char>>)
    requires
        are_lines(before),
        is_line(line),
        are_lines(after),
        words_of(line).len() < 2,
        trimmed(line) != ")"@,
    ensures
        go_dependencies(written(before + seq![line] + after)) == go_dependencies(
            written(before + after),
        ),
{
    let inside = in_block(before, false);
    lemma_one_line(line);
    lemma_joined_lines(before, after);
    lemma_joined_lines(before, seq![line]);
    lemma_joined_lines(before + seq![line], after);
    law_lines_read_back(before + after);
    law_lines_read_back(before + seq![line] + after);
    lemma_go_parts(before, after, false);
    lemma_go_parts(before, seq![line] + after, false);
    lemma_go_parts(seq![line], after, inside);
    assert(before + seq![line] + after =~= before + (seq![line] + after));
    law_words_of_trimmed(line);
    lemma_block_marks();
    let bare = trimmed(line);
    assert(bare != "require ("@);
    let rest = seq![line].skip(1);
    assert(rest =~= Seq::empty());
    assert(go_lines(rest, inside) =~= Seq::empty());
    assert(in_block(rest, inside) == inside);
    assert(seq![line][0] == line);
    assert(go_lines(seq![line], inside) =~= Seq::empty());
    assert(go_lines(before, false) + (Seq::empty() + go_lines(after, inside)) =~= go_lines(
        before,
        false,
    ) + go_lines(after, inside));
}

// ---------------------------------------------------------------------------
// Cargo.toml
// ---------------------------------------------------------------------------

/// The kind of the dependencies that follow lines, if they stand in a section of
/// dependencies, where what stands before the lines is in such a section or in none.
pub open spec fn section_behind(lines: Seq<Seq<char>>, before: Option<Seq<char>>) -> Option<
    Seq<char>,
>
    decreases lines.len(),
{
    if lines.len() == 0 {
        before
    } else {
        let line = trimmed(lines[0]);
        section_behind(
            lines.skip(1),
            if line == "[dependencies]"@ {
                Some("runtime"@)
            } else if line == "[dev-dependencies]"@ {
                Some("dev"@)
            } else if line == "[build-dependencies]"@ {
                Some("build"@)
            } else if line.len() > 0 && line[0] == '[' {
                None
            } else {
                before
            },
        )
    }
}

proof fn lemma_heading(line: Seq<char>)
    ensures
        cargo_heading(line) == (if line == "[dependencies]"@ {
            Some(Some("runtime"@))
        } else if line == "[dev-dependencies]"@ {
            Some(Some("dev"@))
        } else if line == "[build-dependencies]"@ {
            Some(Some("build"@))
        } else if line.len() > 0 && line[0] == '[' {
            Some(None)
        } else {
            None
        }),
{
    reveal_strlit("[");
    if line.len() > 0 && line[0] == '[' {
        assert("["@ =~= line.take(1));
        assert("["@.is_prefix_of(line));
    }
    assert("["@.len() == 1 && "["@[0] == '[');
    if "["@.is_prefix_of(line) {
        assert("["@[0] == line.subrange(0, 1)[0]);
    }
}

proof fn lemma_cargo_parts(a: Seq<Seq<char>>, b: Seq<Seq<char>>, section: Option<Seq<char>>)
    ensures
        cargo_lines(a + b, section) == cargo_lines(a, section) + cargo_lines(
            b,
            section_behind(a, section),
        ),
        section_behind(a + b, section) == section_behind(b, section_behind(a, section)),
    decreases a.len(),
{
    if a.len() == 0 {
        assert(a + b =~= b);
        assert(cargo_lines(a, section) + cargo_lines(b, section) =~= cargo_lines(b, section));
    } else {
        let line = trimmed(a[0]);
        lemma_heading(line);
        let next = match cargo_heading(line) {
            Some(next) => next,
            None => section,
        };
        assert((a + b).skip(1) =~= a.skip(1) + b);
        assert((a + b)[0] == a[0]);
        lemma_cargo_parts(a.skip(1), b, next);
        if cargo_heading(line) is None {
            let here = match section {
                Some(kind) => listed(cargo_entry(line, kind)),
                None => Seq::empty(),
            };
            let tail = cargo_lines(b, section_behind(a, section));
            assert(here + (cargo_lines(a.skip(1), section) + tail) =~= (here + cargo_lines(
                a.skip(1),
                section,
            )) + tail);
        }
    }
}

/// A line that gives a name a version in quotes.
pub open spec fn cargo_line(name: Seq<char>, version: Seq<char>) -> Seq<char> {
    name + seq![' ', '=', ' ', '"'] + version + seq!['"']
}

/// The name and the version can stand on such a line, and are told from its marks.
pub open spec fn is_cargo_line(name: Seq<char>, version: Seq<char>) -> bool {
    &&& is_trim(name)
    &&& name[0] != '#'
    &&& name[0] != '['
    &&& forall|i: int| 0 <= i < name.len() ==> #[trigger] name[i] != '=' && name[i] != '\n'
    &&& version.len() > 0 ==> is_trim(version)
    &&& forall|i: int|
        0 <= i < version.len() ==> #[trigger] version[i] != '"' && version[i] != ','
            && version[i] != '{' && version[i] != '\n'
}

/// A dependency of a Cargo.toml file.
pub open spec fn cargo_dependency(
    name: Seq<char>,
    version: Seq<char>,
    kind: Seq<char>,
) -> DependencyView {
    DependencyView { name, version: Some(version), ecosystem: "cargo"@, dep_type: kind }
}

proof fn lemma_cargo_version(version: Seq<char>)
    requires
        version.len() > 0 ==> is_trim(version),
        forall|i: int|
            0 <= i < version.len() ==> #[trigger] version[i] != '"' && version[i] != ','
                && version[i] != '{',
    ensures
        cargo_version(seq![' ', '"'] + version + seq!['"']) == version,
{
    let none = Seq::<char>::empty();
    let quotes = seq!['"'] + version + seq!['"'];
    let rest = seq![' ', '"'] + version + seq!['"'];
    law_trimmed(seq![' '], quotes, none);
    assert(seq![' '] + quotes + none =~= rest);
    law_strip(seq!['"'], version, seq!['"'], CharClass::Is('"'));
    law_strip(none, version, none, CharClass::Is('{'));
    assert(none + version + none =~= version);
    lemma_span(version, CharClass::Is(','));
    let n = span(version, CharClass::Is(',')) as int;
    assert(version.take(n) =~= version);
    law_trimmed(none, version, none);
    law_strip(none, version, none, CharClass::Is('"'));
}

proof fn lemma_cargo_line(name: Seq<char>, version: Seq<char>, section: Option<Seq<char>>)
    requires
        is_cargo_line(name, version),
    ensures
        is_line(cargo_line(name, version)),
        cargo_lines(seq![cargo_line(name, version)], section) == (match section {
            Some(kind) => seq![cargo_dependency(name, version, kind)],
            None => Seq::empty(),
        }),
        section_behind(seq![cargo_line(name, version)], section) == section,
{
    let line = cargo_line(name, version);
    let none = Seq::<char>::empty();
    assert(line[0] == name[0]);
    assert(line.last() == '"');
    law_trimmed(none, line, none);
    assert forall|k: int| 0 <= k < line.len() implies line[k] != '\n' by {
        let n = name.len() as int;
        if k < n {
            assert(line[k] == name[k]);
        } else if n + 4 <= k < line.len() - 1 {
            assert(line[k] == version[k - n - 4]);
        }
    }
    assert(is_line(line));
    reveal_strlit("[dependencies]");
    reveal_strlit("[dev-dependencies]");
    reveal_strlit("[build-dependencies]");
    assert("[dependencies]"@[0] == '[' && "[dev-dependencies]"@[0] == '['
        && "[build-dependencies]"@[0] == '[');
    lemma_heading(line);
    assert(cargo_heading(line) is None);
    let left = name + seq![' '];
    let right = seq![' ', '"'] + version + seq!['"'];
    assert(left.push('=') + right =~= line);
    assert forall|i: int| 0 <= i < left.len() implies !CharClass::Is('=').has(
        #[trigger] left[i],
    ) by {
        if i < name.len() {
            assert(left[i] == name[i]);
        }
    }
    law_cut(left, '=', right, CharClass::Is('='));
    law_trimmed(none, name, seq![' ']);
    assert(none + name + seq![' '] =~= left);
    lemma_cargo_version(version);
    reveal_strlit("#");
    assert("#"@[0] == '#');
    assert(!"#"@.is_prefix_of(name));
    let rest = seq![line].skip(1);
    assert(rest =~= Seq::empty());
    assert(seq![line][0] == line);
    assert(cargo_lines(rest, section) =~= Seq::empty());
    assert(section_behind(rest, section) == section);
    match section {
        Some(kind) => {
            assert(cargo_entry(line, kind) == Some(cargo_dependency(name, version, kind)));
            assert(listed(cargo_entry(line, kind)) + cargo_lines(rest, section) =~= seq![
                cargo_dependency(name, version, kind),
            ]);
        },
        None => {
            assert(cargo_lines(seq![line], section) =~= Seq::empty());
        },
    }
}

/// An entry that is written into a section of dependencies adds that dependency, of the kind
/// of the section, and changes no other; one that is written elsewhere adds none.
pub proof fn law_cargo_entry(
    before: Seq<Seq<char>>,
    name: Seq<char>,
    version: Seq<char>,
    after: Seq<Seq<char>>,
)
    requires
        are_lines(before),
        are_lines(after),
        is_cargo_line(name, version),
    ensures
        ({
            let without = cargo_dependencies(written(before + after));
            let with = cargo_dependencies(
                written(before + seq![cargo_line(name, version)] + after),
            );
            let place = cargo_dependencies(written(before)).len() as int;
            match section_behind(before, None) {
                Some(kind) => place <= without.len() && with == without.insert(
                    place,
                    cargo_dependency(name, version, kind),
                ),
                None => with == without,
            }
        }),
{
    let line = cargo_line(name, version);
    let section = section_behind(before, None);
    lemma_cargo_line(name, version, section);
    lemma_one_line(line);
    lemma_joined_lines(before, after);
    lemma_joined_lines(before, seq![line]);
    lemma_joined_lines(before + seq![line], after);
    law_lines_read_back(before);
    law_lines_read_back(before + after);
    law_lines_read_back(before + seq![line] + after);
    lemma_cargo_parts(before, after, None);
    lemma_cargo_parts(before, seq![line] + after, None);
    lemma_cargo_parts(seq![line], after, section);
    assert(before + seq![line] + after =~= before + (seq![line] + after));
    let first = cargo_lines(before, None);
    let last = cargo_lines(after, section);
    match section {
        Some(kind) => {
            let dep = cargo_dependency(name, version, kind);
            assert(first + (seq![dep] + last) =~= (first + last).insert(first.len() as int, dep));
        },
        None => {
            assert(first + (Seq::empty() + last) =~= first + last);
        },
    }
}

/// The lines of entries.
pub open spec fn cargo_block(names: Seq<Seq<char>>, versions: Seq<Seq<char>>) -> Seq<Seq<char>> {
    Seq::new(names.len(), |i: int| cargo_line(names[i], versions[i]))
}

/// A heading opens a section of dependencies of a kind.
pub open spec fn heads(heading: Seq<char>, kind: Seq<char>) -> bool {
    ||| heading == "[dependencies]"@ && kind == "runtime"@
    ||| heading == "[dev-dependencies]"@ && kind == "dev"@
    ||| heading == "[build-dependencies]"@ && kind == "build"@
}

proof fn lemma_cargo_block(names: Seq<Seq<char>>, versions: Seq<Seq<char>>, kind: Seq<char>)
    requires
        names.len() == versions.len(),
        forall|i: int| 0 <= i < names.len() ==> is_cargo_line(#[trigger] names[i], versions[i]),
    ensures
        are_lines(cargo_block(names, versions)),
        cargo_lines(cargo_block(names, versions), Some(kind)) == Seq::new(
            names.len(),
            |i: int| cargo_dependency(names[i], versions[i], kind),
        ),
    decreases names.len(),
{
    let lines = cargo_block(names, versions);
    let deps = Seq::new(names.len(), |i: int| cargo_dependency(names[i], versions[i], kind));
    if names.len() == 0 {
        assert(cargo_lines(lines, Some(kind)) =~= deps);
    } else {
        let line = cargo_line(names[0], versions[0]);
        let fewer = names.skip(1);
        let others = versions.skip(1);
        assert(is_cargo_line(names[0], versions[0]));
        lemma_cargo_line(names[0], versions[0], Some(kind));
        assert forall|i: int| 0 <= i < fewer.len() implies is_cargo_line(
            #[trigger] fewer[i],
            others[i],
        ) by {
            assert(is_cargo_line(names[i + 1], versions[i + 1]));
        }
        lemma_cargo_block(fewer, others, kind);
        let rest = cargo_block(fewer, others);
        assert(seq![line] + rest =~= lines) by {
            assert forall|i: int| 0 <= i < lines.len() implies (seq![line] + rest)[i]
                == lines[i] by {
                if i > 0 {
                    assert(fewer[i - 1] == names[i]);
                    assert(others[i - 1] == versions[i]);
                }
            }
        }
        lemma_one_line(line);
        lemma_joined_lines(seq![line], rest);
        lemma_cargo_parts(seq![line], rest, Some(kind));
        let more = Seq::new(
            fewer.len(),
            |i: int| cargo_dependency(fewer[i], others[i], kind),
        );
        assert(seq![cargo_dependency(names[0], versions[0], kind)] + more =~= deps);
    }
}

proof fn lemma_heads(heading: Seq<char>, kind: Seq<char>)
    requires
        heads(heading, kind),
    ensures
        is_line(heading),
        trimmed(heading) == heading,
        cargo_heading(heading) == Some(Some(kind)),
{
    let none = Seq::<char>::empty();
    reveal_strlit("[dependencies]");
    reveal_strlit("[dev-dependencies]");
    reveal_strlit("[build-dependencies]");
    assert("[dependencies]"@.len() == 14 && "[dependencies]"@[0] == '[' && "[dependencies]"@[13]
        == ']');
    assert("[dev-dependencies]"@.len() == 18 && "[dev-dependencies]"@[0] == '['
        && "[dev-dependencies]"@[17] == ']');
    assert("[build-dependencies]"@.len() == 20 && "[build-dependencies]"@[0] == '['
        && "[build-dependencies]"@[19] == ']');
    law_trimmed(none, heading, none);
    assert forall|i: int| 0 <= i < heading.len() implies heading[i] != '\n' by {}
}

/// A section of dependencies gives one for each of its entries, in order, with the name and
/// the version of the entry and the kind of the section, between those that stand before the
/// section and those of the sections behind it.
pub proof fn law_cargo_section(
    before: Seq<Seq<char>>,
    heading: Seq<char>,
    kind: Seq<char>,
    names: Seq<Seq<char>>,
    versions: Seq<Seq<char>>,
    after: Seq<Seq<char>>,
)
    requires
        are_lines(before),
        are_lines(after),
        heads(heading, kind),
        names.len() == versions.len(),
        forall|i: int| 0 <= i < names.len() ==> is_cargo_line(#[trigger] names[i], versions[i]),
        after.len() > 0 ==> trimmed(after[0]).len() > 0 && trimmed(after[0])[0] == '[',
    ensures
        cargo_dependencies(
            written(before + seq![heading] + cargo_block(names, versions) + after),
        ) == cargo_dependencies(written(before)) + Seq::new(
            names.len(),
            |i: int|
                DependencyView {
                    name: names[i],
                    version: Some(versions[i]),
                    ecosystem: "cargo"@,
                    dep_type: kind,
                },
        ) + cargo_dependencies(written(after)),
{
    let lines = cargo_block(names, versions);
    let head = seq![heading];
    lemma_heads(heading, kind);
    lemma_cargo_block(names, versions, kind);
    lemma_one_line(heading);
    lemma_joined_lines(before, head);
    lemma_joined_lines(before + head, lines);
    lemma_joined_lines(before + head + lines, after);
    law_lines_read_back(before);
    law_lines_read_back(after);
    law_lines_read_back(before + head + lines + after);
    let section = section_behind(before, None);
    lemma_cargo_parts(before, head + (lines + after), None);
    lemma_cargo_parts(head, lines + after, section);
    lemma_heading(heading);
    assert(head.skip(1) =~= Seq::empty());
    assert(head[0] == heading);
    assert(section_behind(head.skip(1), Some(kind)) == Some(kind));
    assert(cargo_lines(head.skip(1), Some(kind)) =~= Seq::empty());
    assert(cargo_lines(head, section) =~= Seq::empty());
    assert(section_behind(head, section) == Some(kind));
    if after.len() > 0 {
        reveal_strlit("[");
        assert("["@ =~= trimmed(after[0]).take(1));
        lemma_section_starts(lines, after, Some(kind));
    } else {
        assert(lines + after =~= lines);
        assert(cargo_lines(after, None) =~= Seq::empty());
        assert(cargo_lines(lines, Some(kind)) + cargo_lines(after, None) =~= cargo_lines(
            lines,
            Some(kind),
        ));
    }
    assert(before + head + lines + after =~= before + (head + (lines + after)));
    let first = cargo_lines(before, None);
    let block = cargo_lines(lines, Some(kind));
    let last = cargo_lines(after, None);
    assert(first + (Seq::empty() + (block + last)) =~= first + block + last);
}

proof fn lemma_back_keeps_first(s: Seq<char>, class: CharClass)
    requires
        s.len() > 0,
        !class.has(s[0]),
    ensures
        strip_back(s, class).len() > 0,
        strip_back(s, class)[0] == s[0],
    decreases s.len(),
{
    if class.has(s.last()) {
        assert(s.len() > 1);
        lemma_back_keeps_first(s.drop_last(), class);
    }
}

/// Of a table only its first entry is told, as it stands there but for the quotes around it; a
/// table with one entry is told with the brace behind it.
pub proof fn law_cargo_table(entry: Seq<char>, rest: Seq<char>)
    requires
        entry.len() > 0,
        !is_space(entry[0]),
        entry[0] != '"',
        entry.last() != '"',
        !entry.contains(','),
        rest.len() > 0,
        rest.last() == '}',
    ensures
        cargo_version(seq!['{', ' '] + entry.push('"') + seq![','] + rest) == entry,
        cargo_version(seq!['{', ' '] + entry.push('"') + seq![' ', '}']) == entry.push('"') + seq![
            ' ',
            '}',
        ],
{
    let none = Seq::<char>::empty();
    let quote = CharClass::Is('"');
    let brace = CharClass::Is('{');
    let comma = CharClass::Is(',');
    let first = entry.push('"');
    assert forall|i: int| 0 <= i < first.len() implies !comma.has(#[trigger] first[i]) by {
        if i < entry.len() {
            assert(entry.contains(entry[i]));
        }
    }
    let bare = seq![' '] + first + seq![','] + rest;
    let table = seq!['{', ' '] + first + seq![','] + rest;
    assert(table =~= seq!['{'] + bare);
    assert(table.last() == '}' && bare.last() == '}');
    law_trimmed(none, table, none);
    law_strip(none, table, none, quote);
    law_strip(seq!['{'], bare, none, brace);
    assert(none + table + none =~= table);
    assert(seq!['{'] + bare + none =~= table);
    let front = seq![' '] + first;
    assert forall|i: int| 0 <= i < front.len() implies !comma.has(#[trigger] front[i]) by {
        if i > 0 {
            assert(front[i] == first[i - 1]);
        }
    }
    law_cut(front, ',', rest, comma);
    assert(front.push(',') + rest =~= bare);
    assert(bare.take(front.len() as int) =~= front);
    law_trimmed(seq![' '], first, none);
    assert(seq![' '] + first + none =~= front);
    law_strip(none, entry, seq!['"'], quote);
    assert(none + entry + seq!['"'] =~= first);
    let whole = first + seq![' ', '}'];
    let one = seq!['{', ' '] + first + seq![' ', '}'];
    let inner = seq![' '] + whole;
    assert(one =~= seq!['{'] + inner);
    law_trimmed(none, one, none);
    law_strip(none, one, none, quote);
    law_strip(seq!['{'], inner, none, brace);
    assert(none + one + none =~= one);
    assert(seq!['{'] + inner + none =~= one);
    assert forall|i: int| 0 <= i < inner.len() implies !comma.has(#[trigger] inner[i]) by {
        if 1 <= i <= first.len() {
            assert(inner[i] == first[i - 1]);
        }
    }
    law_cut(inner, ',', none, comma);
    assert(inner.take(inner.len() as int) =~= inner);
    law_trimmed(seq![' '], whole, none);
    assert(seq![' '] + whole + none =~= inner);
    law_strip(none, whole, none, quote);
    assert(none + whole + none =~= whole);
}

/// A line that is no heading, and has no equals sign, or begins with a hash mark or an equals
/// sign, declares nothing wherever it stands.
pub proof fn law_cargo_other_line(before: Seq<Seq<char>>, line: Seq<char>, after: Seq<Seq<char>>)
    requires
        are_lines(before),
        is_line(line),
        are_lines(after),
        trimmed(line).len() > 0 ==> trimmed(line)[0] != '[',
        !trimmed(line).contains('=') || (trimmed(line).len() > 0 && (trimmed(line)[0] == '#'
            || trimmed(line)[0] == '=')),
    ensures
        cargo_dependencies(written(before + seq![line] + after)) == cargo_dependencies(
            written(before + after),
        ),
{
    let section = section_behind(before, None);
    let bare = trimmed(line);
    lemma_one_line(line);
    lemma_joined_lines(before, after);
    lemma_joined_lines(before, seq![line]);
    lemma_joined_lines(before + seq![line], after);
    law_lines_read_back(before + after);
    law_lines_read_back(before + seq![line] + after);
    lemma_cargo_parts(before, after, None);
    lemma_cargo_parts(before, seq![line] + after, None);
    lemma_cargo_parts(seq![line], after, section);
    assert(before + seq![line] + after =~= before + (seq![line] + after));
    lemma_heading(bare);
    reveal_strlit("[dependencies]");
    reveal_strlit("[dev-dependencies]");
    reveal_strlit("[build-dependencies]");
    assert("[dependencies]"@[0] == '[' && "[dev-dependencies]"@[0] == '['
        && "[build-dependencies]"@[0] == '[');
    assert(cargo_heading(bare) is None);
    lemma_span(bare, CharClass::Is('='));
    let n = span(bare, CharClass::Is('=')) as int;
    if n < bare.len() {
        assert(bare.contains(bare[n]));
        let left = bare.take(n);
        if n > 0 {
            assert(bare[0] == '#');
            assert(left[0] == '#');
            lemma_back_keeps_first(left, CharClass::Space);
            assert(strip_front(left, CharClass::Space) == left);
            reveal_strlit("#");
            assert("#"@ =~= trimmed(left).take(1));
        } else {
            assert(left =~= Seq::empty());
            assert(trimmed(left).len() == 0);
        }
    }
    let rest = seq![line].skip(1);
    assert(rest =~= Seq::empty());
    assert(seq![line][0] == line);
    assert(cargo_lines(rest, section) =~= Seq::empty());
    assert(section_behind(rest, section) == section);
    assert(section matches Some(kind) ==> cargo_entry(bare, kind) is None);
    assert(cargo_lines(seq![line], section) =~= Seq::empty());
    assert(cargo_lines(before, None) + (Seq::empty() + cargo_lines(after, section)) =~= cargo_lines(
        before,
        None,
    ) + cargo_lines(after, section));
}

// ---------------------------------------------------------------------------
// requirements.txt
// ---------------------------------------------------------------------------

proof fn lemma_requirement_parts(a: Seq<Seq<char>>, b: Seq<Seq<char>>)
    ensures
        requirement_lines(a + b) == requirement_lines(a) + requirement_lines(b),
    decreases a.len(),
{
    if a.len() == 0 {
        assert(a + b =~= b);
        assert(requirement_lines(a) + requirement_lines(b) =~= requirement_lines(b));
    } else {
        lemma_requirement_parts(a.skip(1), b);
        assert((a + b).skip(1) =~= a.skip(1) + b);
        assert((a + b)[0] == a[0]);
        let here = listed(requirement_entry(a[0]));
        assert(here + (requirement_lines(a.skip(1)) + requirement_lines(b)) =~= (here
            + requirement_lines(a.skip(1))) + requirement_lines(b));
    }
}

/// A character that opens a version constraint.
pub open spec fn is_mark(c: char) -> bool {
    c == '=' || c == '>' || c == '<' || c == '~' || c == '!'
}

/// A name and a constraint, which may be empty, make a line of a requirements.txt file.
pub open spec fn is_requirement_line(name: Seq<char>, constraint: Seq<char>) -> bool {
    &&& is_trim(name)
    &&& name[0] != '#'
    &&& name[0] != '-'
    &&& forall|i: int| 0 <= i < name.len() ==> !is_mark(#[trigger] name[i])
    &&& constraint.len() > 0 ==> is_mark(constraint[0]) && is_trim(constraint)
    &&& is_line(name + constraint)
}

/// A dependency of a requirements.txt file: the constraint is its version, if there is one.
pub open spec fn pip_dependency(name: Seq<char>, constraint: Seq<char>) -> DependencyView {
    DependencyView {
        name,
        version: if constraint.len() > 0 {
            Some(constraint)
        } else {
            None
        },
        ecosystem: "pip"@,
        dep_type: "runtime"@,
    }
}

/// A requirement adds that dependency wherever it stands, with its constraint as the version,
/// and changes no other.
pub proof fn law_requirement(
    before: Seq<Seq<char>>,
    name: Seq<char>,
    constraint: Seq<char>,
    after: Seq<Seq<char>>,
)
    requires
        are_lines(before),
        are_lines(after),
        is_requirement_line(name, constraint),
    ensures
        ({
            let without = pip_dependencies(written(before + after));
            let with = pip_dependencies(written(before + seq![name + constraint] + after));
            let place = pip_dependencies(written(before)).len() as int;
            place <= without.len() && with == without.insert(
                place,
                DependencyView {
                    name,
                    version: if constraint.len() > 0 {
                        Some(constraint)
                    } else {
                        None
                    },
                    ecosystem: "pip"@,
                    dep_type: "runtime"@,
                },
            )
        }),
{
    let line = name + constraint;
    let none = Seq::<char>::empty();
    let mark = CharClass::VersionMark;
    lemma_one_line(line);
    lemma_joined_lines(before, after);
    lemma_joined_lines(before, seq![line]);
    lemma_joined_lines(before + seq![line], after);
    law_lines_read_back(before);
    law_lines_read_back(before + after);
    law_lines_read_back(before + seq![line] + after);
    lemma_requirement_parts(before, after);
    lemma_requirement_parts(before + seq![line], after);
    lemma_requirement_parts(before, seq![line]);
    assert forall|i: int| 0 <= i < name.len() implies !mark.has(#[trigger] name[i]) by {
        assert(!is_mark(name[i]));
    }
    law_trimmed(none, name, none);
    law_bytes(name, constraint);
    assert(line[0] == name[0]);
    if constraint.len() > 0 {
        law_cut(name, constraint[0], constraint.skip(1), mark);
        assert(name.push(constraint[0]) + constraint.skip(1) =~= line);
        law_trimmed(none, constraint, none);
        assert(line.last() == constraint.last());
    } else {
        law_cut(name, '=', none, mark);
        assert(line =~= name);
    }
    assert(span(line, mark) == name.len());
    assert(line.take(name.len() as int) =~= name);
    assert(requirement_name(line) == name);
    law_trimmed(none, line, none);
    reveal_strlit("#");
    reveal_strlit("-");
    assert("#"@[0] == '#' && "-"@[0] == '-');
    assert(!"#"@.is_prefix_of(line) && !"-"@.is_prefix_of(line));
    let dep = pip_dependency(name, constraint);
    assert(requirement_entry(line) == Some(dep));
    let rest = seq![line].skip(1);
    assert(rest =~= Seq::empty());
    assert(seq![line][0] == line);
    assert(requirement_lines(rest) =~= Seq::empty());
    assert(requirement_lines(seq![line]) =~= seq![dep]);
    let first = requirement_lines(before);
    let last = requirement_lines(after);
    assert((first + seq![dep]) + last =~= (first + last).insert(first.len() as int, dep));
}

/// A line that is blank, or begins with a hash mark, a minus sign or a version mark, declares
/// nothing wherever it stands.
pub proof fn law_no_requirement(before: Seq<Seq<char>>, line: Seq<char>, after: Seq<Seq<char>>)
    requires
        are_lines(before),
        is_line(line),
        are_lines(after),
        is_blank(line) || line[0] == '#' || line[0] == '-' || is_mark(line[0]),
    ensures
        pip_dependencies(written(before + seq![line] + after)) == pip_dependencies(
            written(before + after),
        ),
{
    let none = Seq::<char>::empty();
    lemma_one_line(line);
    lemma_joined_lines(before, after);
    lemma_joined_lines(before, seq![line]);
    lemma_joined_lines(before + seq![line], after);
    law_lines_read_back(before + after);
    law_lines_read_back(before + seq![line] + after);
    lemma_requirement_parts(before, after);
    lemma_requirement_parts(before + seq![line], after);
    lemma_requirement_parts(before, seq![line]);
    reveal_strlit("#");
    reveal_strlit("-");
    if is_blank(line) {
        law_trimmed(line, none, none);
        assert(line + none + none =~= line);
    } else if line.len() > 0 && line[0] == '#' {
        assert("#"@ =~= line.take(1));
    } else if line.len() > 0 && line[0] == '-' {
        assert("-"@ =~= line.take(1));
    } else if line.len() > 0 {
        assert(span(line, CharClass::VersionMark) == 0);
        assert(line.take(0) =~= none);
        law_trimmed(none, none, none);
        assert(none + none + none =~= none);
    }
    assert(requirement_entry(line) is None);
    let rest = seq![line].skip(1);
    assert(rest =~= Seq::empty());
    assert(seq![line][0] == line);
    assert(requirement_lines(rest) =~= Seq::empty());
    assert(requirement_lines(seq![line]) =~= Seq::empty());
    assert((requirement_lines(before) + Seq::empty()) + requirement_lines(after)
        =~= requirement_lines(before) + requirement_lines(after));
}

// ---------------------------------------------------------------------------
// package.json
// ---------------------------------------------------------------------------

/// The members of the object under a name of a document; none where there is no object.
pub open spec fn members_under(doc: Seq<char>, name: Seq<char>) -> Seq<(Seq<char>, Seq<char>)> {
    match json_get(doc, name) {
        Some(value) => match json_object(value) {
            Some(members) => members,
            None => Seq::empty(),
        },
        None => Seq::empty(),
    }
}

/// A package.json file declares one dependency for each member of its two sections, in order,
/// with the name of the member and its text as the version, if it is one; a text that is not
/// JSON declares none.
pub proof fn law_npm_sections(content: Seq<char>)
    ensures
        match json_parse(content) {
            Some(doc) => {
                let runtime = members_under(doc, "dependencies"@);
                let dev = members_under(doc, "devDependencies"@);
                let deps = package_json_dependencies(content);
                &&& deps.len() == runtime.len() + dev.len()
                &&& forall|i: int|
                    0 <= i < runtime.len() ==> #[trigger] deps[i] == (DependencyView {
                        name: runtime[i].0,
                        version: json_str(runtime[i].1),
                        ecosystem: "npm"@,
                        dep_type: "runtime"@,
                    })
                &&& forall|i: int|
                    runtime.len() <= i < deps.len() ==> #[trigger] deps[i] == (DependencyView {
                        name: dev[i - runtime.len()].0,
                        version: json_str(dev[i - runtime.len()].1),
                        ecosystem: "npm"@,
                        dep_type: "dev"@,
                    })
            },
            None => package_json_dependencies(content).len() == 0,
        },
{
}

// ---------------------------------------------------------------------------
// pom.xml and build.gradle
// ---------------------------------------------------------------------------

/// Each match in a pom.xml file gives one dependency, in order: group and artifact make its
/// name, it has the version of the match, if there is one, and it is a test dependency just
/// if its scope says so.
pub proof fn law_maven_matches(content: Seq<char>)
    ensures
        match regex_captures(POM_PATTERN@, content) {
            Some(captures) => {
                let deps = pom_dependencies(content);
                &&& deps.len() == captures.len()
                &&& forall|i: int|
                    0 <= i < captures.len() && captures[i].len() == 5 && captures[i][1] is Some
                        && captures[i][2] is Some ==> {
                        &&& (#[trigger] deps[i]).name == captures[i][1]->0 + ":"@
                            + captures[i][2]->0
                        &&& deps[i].version == captures[i][3]
                        &&& deps[i].ecosystem == "maven"@
                        &&& deps[i].dep_type == if captures[i][4] == Some("test"@) {
                            "test"@
                        } else {
                            "runtime"@
                        }
                    }
            },
            None => pom_dependencies(content).len() == 0,
        },
{
    reveal_strlit("compile");
    reveal_strlit("test");
    assert("compile"@.len() == 7 && "test"@.len() == 4);
}

/// Each match in a build.gradle file gives one dependency, in order: group and artifact make
/// its name, it has the version of the match, if there is one, and it is a test dependency
/// just if its configuration begins so.
pub proof fn law_gradle_matches(content: Seq<char>)
    ensures
        match regex_captures(GRADLE_PATTERN@, content) {
            Some(captures) => {
                let deps = gradle_file_dependencies(content);
                &&& deps.len() == captures.len()
                &&& forall|i: int|
                    0 <= i < captures.len() && captures[i].len() == 5 && captures[i][1] is Some
                        && captures[i][2] is Some && captures[i][3] is Some ==> {
                        &&& (#[trigger] deps[i]).name == captures[i][2]->0 + ":"@
                            + captures[i][3]->0
                        &&& deps[i].version == captures[i][4]
                        &&& deps[i].ecosystem == "gradle"@
                        &&& deps[i].dep_type == if "test"@.is_prefix_of(captures[i][1]->0) {
                            "test"@
                        } else {
                            "runtime"@
                        }
                    }
            },
            None => gradle_file_dependencies(content).len() == 0,
        },
{
}

// ---------------------------------------------------------------------------
// Any manifest
// ---------------------------------------------------------------------------

/// Each kind of manifest is told by its name, and read as what it is.
pub proof fn law_manifests_by_name(content: Seq<char>)
    ensures
        manifest_dependencies(Some("package.json"@), content) == package_json_dependencies(
            content,
        ),
        manifest_dependencies(Some("Cargo.toml"@), content) == cargo_dependencies(content),
        manifest_dependencies(Some("pom.xml"@), content) == pom_dependencies(content),
        manifest_dependencies(Some("requirements.txt"@), content) == pip_dependencies(content),
        manifest_dependencies(Some("go.mod"@), content) == go_dependencies(content),
        manifest_dependencies(Some("build.gradle"@), content) == gradle_file_dependencies(content),
        manifest_dependencies(Some("build.gradle.kts"@), content) == gradle_file_dependencies(
            content,
        ),
{
    reveal_strlit("package.json");
    reveal_strlit("Cargo.toml");
    reveal_strlit("pom.xml");
    reveal_strlit("requirements.txt");
    reveal_strlit("go.mod");
    reveal_strlit("build.gradle");
    reveal_strlit("build.gradle.kts");
    assert("package.json"@.len() == 12 && "package.json"@[0] == 'p');
    assert("Cargo.toml"@.len() == 10);
    assert("pom.xml"@.len() == 7);
    assert("requirements.txt"@.len() == 16 && "requirements.txt"@[0] == 'r');
    assert("go.mod"@.len() == 6);
    assert("build.gradle"@.len() == 12 && "build.gradle"@[0] == 'b');
    assert("build.gradle.kts"@.len() == 16 && "build.gradle.kts"@[0] == 'b');
}

/// A file of requirements is read where no line of it begins with white space.
pub proof fn law_readable_requirements(content: Seq<char>)
    requires
        forall|i: int|
            0 <= i < lines_of(content).len() && (#[trigger] lines_of(content)[i]).len() > 0
                ==> !is_space(lines_of(content)[i][0]),
    ensures
        requirements_readable(content),
{
    assert forall|i: int| 0 <= i < lines_of(content).len() implies requirement_readable(
        #[trigger] lines_of(content)[i],
    ) by {
        let line = lines_of(content)[i];
        let mark = CharClass::VersionMark;
        lemma_span(line, mark);
        let front = line.take(span(line, mark) as int);
        let name = requirement_name(line);
        if name.len() > 0 {
            if front.len() > 0 {
                assert(front[0] == line[0]);
            }
            assert(strip_front(front, CharClass::Space) == front);
            lemma_strip_back(front, CharClass::Space);
            assert(name.is_prefix_of(front));
            assert(line =~= name + line.skip(name.len() as int));
            law_bytes(name, line.skip(name.len() as int));
        }
    }
}

} // verus!
