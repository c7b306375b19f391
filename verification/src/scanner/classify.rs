//! Sorting the files of a repository by what they are.

use vstd::prelude::*;

use crate::lists::{add_distinct, distinct, law_distinct, lemma_occurrences, occurrences};
use crate::path::{file_name, file_name_of};
use crate::scanner::language::{
    detect_build_tool, detect_config_type, detect_language, path_build_tool, path_config_type,
    path_language,
};
use crate::text::{is_some_text, opt_view, same, views};

verus! {

/// A file of a repository.
#[derive(Debug, Clone)]
pub struct FoundFile {
    /// The path below the repository as it is shown, with what is not UTF-8 in it replaced.
    pub shown: String,
    /// The name of the file, with what is not UTF-8 in it replaced.
    pub name: String,
    /// The path below the repository, if it is UTF-8 and its parts are separated by slashes;
    /// else the name of the file, if that is UTF-8; else nothing.
    pub exact: String,
}

/// What a `FoundFile` says.
pub struct FileView {
    pub shown: Seq<char>,
    pub name: Seq<char>,
    pub exact: Seq<char>,
}

impl View for FoundFile {
    type V = FileView;

    open spec fn view(&self) -> FileView {
        FileView { shown: self.shown@, name: self.name@, exact: self.exact@ }
    }
}

/// What a list of files says.
pub open spec fn file_views(files: Seq<FoundFile>) -> Seq<FileView> {
    Seq::new(files.len(), |i: int| files[i]@)
}

/// A file in a known language. The index is its place in the list of files.
#[derive(Debug, Clone)]
pub struct CodeFile {
    pub index: usize,
    pub path: String,
    pub language: String,
}

/// What a `CodeFile` says.
#[verifier::ext_equal]
pub struct CodeFileView {
    pub index: int,
    pub path: Seq<char>,
    pub language: Seq<char>,
}

impl View for CodeFile {
    type V = CodeFileView;

    open spec fn view(&self) -> CodeFileView {
        CodeFileView { index: self.index as int, path: self.path@, language: self.language@ }
    }
}

/// What a list of code files says.
pub open spec fn code_file_views(files: Seq<CodeFile>) -> Seq<CodeFileView> {
    Seq::new(files.len(), |i: int| files[i]@)
}

/// A configuration file.
#[derive(Debug, Clone)]
pub struct ConfigFile {
    pub path: String,
    pub config_type: String,
}

/// What a `ConfigFile` says.
#[verifier::ext_equal]
pub struct ConfigView {
    pub path: Seq<char>,
    pub config_type: Seq<char>,
}

impl View for ConfigFile {
    type V = ConfigView;

    open spec fn view(&self) -> ConfigView {
        ConfigView { path: self.path@, config_type: self.config_type@ }
    }
}

/// What a list of configuration files says.
pub open spec fn config_views(files: Seq<ConfigFile>) -> Seq<ConfigView> {
    Seq::new(files.len(), |i: int| files[i]@)
}

/// The files of a repository by what they are.
#[derive(Debug, Clone)]
pub struct Classified {
    /// The languages, each with the number of its files.
    pub languages: Vec<(String, usize)>,
    /// The build tools, each once.
    pub build_tools: Vec<String>,
    /// The files in a known language.
    pub code_files: Vec<CodeFile>,
    /// The configuration files.
    pub config_files: Vec<ConfigFile>,
    /// The places of the files that a build tool reads.
    pub dep_files: Vec<usize>,
    /// The place of the file that names the owners of the code.
    pub codeowners: Option<usize>,
}

// ---------------------------------------------------------------------------
// What is expected of each part
// ---------------------------------------------------------------------------

/// The files in a known language, in order.
pub open spec fn code_files_of(files: Seq<FileView>) -> Seq<CodeFileView>
    decreases files.len(),
{
    if files.len() == 0 {
        Seq::empty()
    } else {
        let earlier = code_files_of(files.drop_last());
        let file = files.last();
        match path_language(file.name) {
            Some(language) => earlier.push(
                CodeFileView { index: files.len() - 1, path: file.shown, language },
            ),
            None => earlier,
        }
    }
}

/// The languages of a list of code files.
pub open spec fn languages_of(files: Seq<CodeFileView>) -> Seq<Seq<char>> {
    Seq::new(files.len(), |i: int| files[i].language)
}

/// The values of a list, each where it occurs first, with the number of its occurrences.
pub open spec fn tally(values: Seq<Seq<char>>) -> Seq<(Seq<char>, nat)> {
    Seq::new(
        distinct(values).len(),
        |i: int| (distinct(values)[i], occurrences(values, distinct(values)[i])),
    )
}

/// A tally as texts and numbers.
pub open spec fn tally_views(tally: Seq<(String, usize)>) -> Seq<(Seq<char>, nat)> {
    Seq::new(tally.len(), |i: int| (tally[i].0@, tally[i].1 as nat))
}

/// The configuration files, in order.
pub open spec fn config_files_of(files: Seq<FileView>) -> Seq<ConfigView>
    decreases files.len(),
{
    if files.len() == 0 {
        Seq::empty()
    } else {
        let earlier = config_files_of(files.drop_last());
        match path_config_type(files.last().exact) {
            Some(config_type) => earlier.push(
                ConfigView { path: files.last().shown, config_type },
            ),
            None => earlier,
        }
    }
}

/// The build tools of files, in order, a tool once for each file that it reads.
pub open spec fn tools_of(files: Seq<FileView>) -> Seq<Seq<char>>
    decreases files.len(),
{
    if files.len() == 0 {
        Seq::empty()
    } else {
        let earlier = tools_of(files.drop_last());
        match path_build_tool(files.last().exact) {
            Some(tool) => earlier.push(tool),
            None => earlier,
        }
    }
}

/// The places of the files that a build tool reads, in order.
pub open spec fn dep_files_of(files: Seq<FileView>) -> Seq<usize>
    decreases files.len(),
{
    if files.len() == 0 {
        Seq::empty()
    } else {
        let earlier = dep_files_of(files.drop_last());
        if path_build_tool(files.last().exact) is Some {
            earlier.push((files.len() - 1) as usize)
        } else {
            earlier
        }
    }
}

/// Whether a file names the owners of the code.
pub open spec fn names_owners(file: FileView) -> bool {
    file_name_of(file.exact) == Some("CODEOWNERS"@) || file_name_of(file.exact) == Some(
        ".codeowners"@,
    )
}

/// The place of the last file that names the owners of the code.
pub open spec fn codeowners_of(files: Seq<FileView>) -> Option<usize>
    decreases files.len(),
{
    if files.len() == 0 {
        None
    } else if names_owners(files.last()) {
        Some((files.len() - 1) as usize)
    } else {
        codeowners_of(files.drop_last())
    }
}

impl Classified {
    /// The parts are those of the files.
    pub open spec fn classifies(self, files: Seq<FileView>) -> bool {
        &&& code_file_views(self.code_files@) == code_files_of(files)
        &&& tally_views(self.languages@) == tally(languages_of(code_files_of(files)))
        &&& config_views(self.config_files@) == config_files_of(files)
        &&& views(self.build_tools@) == distinct(tools_of(files))
        &&& self.dep_files@ == dep_files_of(files)
        &&& self.codeowners == codeowners_of(files)
    }
}

// ---------------------------------------------------------------------------
// Classifying
// ---------------------------------------------------------------------------

proof fn lemma_tally_push(values: Seq<Seq<char>>, value: Seq<char>)
    ensures
        ({
            let old_tally = tally(values);
            let new_tally = tally(values.push(value));
            let keys = distinct(values);
            &&& !keys.contains(value) ==> new_tally == old_tally.push((value, 1))
            &&& forall|i: int|
                0 <= i < keys.len() && keys[i] == value ==> new_tally == #[trigger] old_tally.update(
                    i,
                    (value, old_tally[i].1 + 1),
                )
        }),
{
    let more = values.push(value);
    let keys = distinct(values);
    assert(more.drop_last() =~= values);
    law_distinct(values);
    assert forall|x: Seq<char>| #[trigger] occurrences(more, x) == occurrences(values, x) + (if x
        == value {
        1nat
    } else {
        0
    }) by {
    }
    if !keys.contains(value) {
        lemma_occurrences(values, value);
        assert(!values.contains(value));
        assert(tally(more) =~= tally(values).push((value, 1)));
    } else {
        assert(distinct(more) == keys);
        assert forall|i: int| 0 <= i < keys.len() && keys[i] == value implies tally(more)
            == #[trigger] tally(values).update(i, (value, tally(values)[i].1 + 1)) by {
            assert(tally(more) =~= tally(values).update(i, (value, tally(values)[i].1 + 1)));
        }
    }
}

fn count(languages: &mut Vec<(String, usize)>, language: &str, Ghost(earlier): Ghost<
    Seq<Seq<char>>,
>)
    requires
        tally_views(old(languages)@) == tally(earlier),
        earlier.len() < usize::MAX,
    ensures
        tally_views(final(languages)@) == tally(earlier.push(language@)),
{
    let ghost keys = distinct(earlier);
    let ghost start = tally(earlier);
    let mut i: usize = 0;
    proof {
        lemma_tally_push(earlier, language@);
    }
    while i < languages.len()
        invariant
            i <= languages@.len(),
            languages@ == old(languages)@,
            tally_views(languages@) == start,
            start == tally(earlier),
            keys == distinct(earlier),
            earlier.len() < usize::MAX,
            forall|k: int| 0 <= k < i ==> #[trigger] keys[k] != language@,
            forall|i: int|
                0 <= i < keys.len() && keys[i] == language@ ==> tally(earlier.push(language@))
                    == #[trigger] start.update(i, (language@, start[i].1 + 1)),
        decreases languages@.len() - i,
    {
        proof {
            assert(tally_views(languages@).len() == languages@.len());
            assert(start.len() == keys.len());
            assert(start[i as int] == (languages@[i as int].0@, languages@[i as int].1 as nat));
        }
        if same(languages[i].0.as_str(), language) {
            let seen: usize = languages[i].1;
            proof {
                lemma_occurrences(earlier, language@);
                assert(start[i as int] == (keys[i as int], occurrences(earlier, keys[i as int])));
            }
            languages.set(i, (language.to_owned(), seen + 1));
            proof {
                assert(tally_views(languages@) =~= start.update(
                    i as int,
                    (language@, start[i as int].1 + 1),
                ));
            }
            return;
        }
        i += 1;
    }
    let ghost before = languages@;
    languages.push((language.to_owned(), 1));
    proof {
        assert(!keys.contains(language@));
        assert(tally_views(languages@) =~= start.push((language@, 1)));
    }
}

/// Classify files and collect metadata.
pub fn classify(files: &Vec<FoundFile>) -> (r: Classified)
    ensures
        r.classifies(file_views(files@)),
{
    let ghost all = file_views(files@);
    let mut languages: Vec<(String, usize)> = Vec::new();
    let mut build_tools: Vec<String> = Vec::new();
    let mut code_files: Vec<CodeFile> = Vec::new();
    let mut config_files: Vec<ConfigFile> = Vec::new();
    let mut dep_files: Vec<usize> = Vec::new();
    let mut codeowners: Option<usize> = None;
    let mut i: usize = 0;
    proof {
        let none = all.take(0);
        assert(code_file_views(code_files@) =~= code_files_of(none));
        assert(tally_views(languages@) =~= tally(languages_of(code_files_of(none))));
        assert(config_views(config_files@) =~= config_files_of(none));
        assert(views(build_tools@) =~= distinct(tools_of(none)));
        assert(dep_files@ =~= dep_files_of(none));
    }
    while i < files.len()
        invariant
            i <= files@.len(),
            all == file_views(files@),
            code_file_views(code_files@) == code_files_of(all.take(i as int)),
            code_files@.len() <= i,
            tally_views(languages@) == tally(languages_of(code_files_of(all.take(i as int)))),
            config_views(config_files@) == config_files_of(all.take(i as int)),
            views(build_tools@) == distinct(tools_of(all.take(i as int))),
            dep_files@ == dep_files_of(all.take(i as int)),
            codeowners == codeowners_of(all.take(i as int)),
        decreases files@.len() - i,
    {
        let file = &files[i];
        let ghost before = all.take(i as int);
        let ghost next = all.take(i + 1);
        proof {
            assert(next.drop_last() =~= before);
            assert(next.last() == file@);
        }
        match detect_language(file.name.as_str()) {
            Some(language) => {
                let ghost known = languages_of(code_files_of(before));
                assert(known.len() == code_files@.len()) by {
                    assert(code_file_views(code_files@).len() == code_files@.len());
                }
                count(&mut languages, language, Ghost(known));
                let code = CodeFile {
                    index: i,
                    path: file.shown.clone(),
                    language: language.to_owned(),
                };
                let ghost done = code_file_views(code_files@);
                code_files.push(code);
                proof {
                    assert(code_file_views(code_files@) =~= done.push(code@));
                    assert(languages_of(code_files_of(next)) =~= known.push(language@));
                }
            },
            None => {},
        }
        match detect_config_type(file.exact.as_str()) {
            Some(config_type) => {
                let config = ConfigFile {
                    path: file.shown.clone(),
                    config_type: config_type.to_owned(),
                };
                let ghost done = config_views(config_files@);
                config_files.push(config);
                assert(config_views(config_files@) =~= done.push(config@));
            },
            None => {},
        }
        match detect_build_tool(file.exact.as_str()) {
            Some(tool) => {
                add_distinct(&mut build_tools, tool);
                dep_files.push(i);
                assert(tools_of(next).drop_last() =~= tools_of(before));
            },
            None => {},
        }
        let name = file_name(file.exact.as_str());
        assert(opt_view(name) == file_name_of(file.exact@));
        if is_some_text(&name, "CODEOWNERS") || is_some_text(&name, ".codeowners") {
            codeowners = Some(i);
        }
        i += 1;
    }
    assert(all.take(i as int) =~= all);
    Classified { languages, build_tools, code_files, config_files, dep_files, codeowners }
}

// ---------------------------------------------------------------------------
// Laws
// ---------------------------------------------------------------------------

/// The sum of the numbers of a tally.
pub open spec fn total(tally: Seq<(Seq<char>, nat)>) -> nat
    decreases tally.len(),
{
    if tally.len() == 0 {
        0
    } else {
        total(tally.drop_last()) + tally.last().1
    }
}

proof fn lemma_total_update(t: Seq<(Seq<char>, nat)>, i: int, value: (Seq<char>, nat))
    requires
        0 <= i < t.len(),
    ensures
        total(t.update(i, value)) == total(t) - t[i].1 + value.1,
    decreases t.len(),
{
    let u = t.update(i, value);
    if i < t.len() - 1 {
        lemma_total_update(t.drop_last(), i, value);
        assert(u.drop_last() =~= t.drop_last().update(i, value));
    } else {
        assert(u.drop_last() =~= t.drop_last());
    }
}

/// The numbers of a tally add up to the length of the list: each file in a known language
/// is counted under its language, and once.
pub proof fn law_tally_total(values: Seq<Seq<char>>)
    ensures
        total(tally(values)) == values.len(),
    decreases values.len(),
{
    if values.len() > 0 {
        let front = values.drop_last();
        let last = values.last();
        law_tally_total(front);
        lemma_tally_push(front, last);
        assert(front.push(last) =~= values);
        let keys = distinct(front);
        if keys.contains(last) {
            let i = choose|i: int| 0 <= i < keys.len() && keys[i] == last;
            let t = tally(front);
            assert(tally(values) == t.update(i, (last, t[i].1 + 1)));
            lemma_total_update(t, i, (last, t[i].1 + 1));
        } else {
            assert(tally(values).drop_last() =~= tally(front));
        }
    }
}

/// A value is in a tally just if it occurs in the list, with a number above zero, and none
/// is in it twice.
pub proof fn law_tally_keys(values: Seq<Seq<char>>)
    ensures
        forall|i: int|
            0 <= i < tally(values).len() ==> values.contains((#[trigger] tally(values)[i]).0)
                && tally(values)[i].1 > 0,
        forall|i: int, j: int|
            0 <= i < j < tally(values).len() ==> (#[trigger] tally(values)[i]).0 != (
            #[trigger] tally(values)[j]).0,
        forall|k: int|
            0 <= k < values.len() ==> exists|i: int|
                0 <= i < tally(values).len() && (#[trigger] tally(values)[i]).0
                    == #[trigger] values[k],
{
    let keys = distinct(values);
    law_distinct(values);
    assert forall|i: int| 0 <= i < tally(values).len() implies values.contains(
        (#[trigger] tally(values)[i]).0,
    ) && tally(values)[i].1 > 0 by {
        assert(keys.contains(keys[i]));
        lemma_occurrences(values, keys[i]);
    }
    assert forall|k: int| 0 <= k < values.len() implies exists|i: int|
        0 <= i < tally(values).len() && (#[trigger] tally(values)[i]).0 == #[trigger] values[k] by {
        assert(values.contains(values[k]));
        assert(keys.contains(values[k]));
        let i = choose|i: int| 0 <= i < keys.len() && keys[i] == values[k];
        assert(tally(values)[i].0 == values[k]);
    }
}

/// Each file in a known language is listed once, in order, under its place, with its path and
/// its language, and no other file is.
pub proof fn law_code_files(files: Seq<FileView>)
    ensures
        forall|k: int|
            0 <= k < code_files_of(files).len() ==> {
                let code = #[trigger] code_files_of(files)[k];
                &&& 0 <= code.index < files.len()
                &&& code.path == files[code.index].shown
                &&& path_language(files[code.index].name) == Some(code.language)
            },
        forall|j: int, k: int|
            0 <= j < k < code_files_of(files).len() ==> (#[trigger] code_files_of(files)[j]).index
                < (#[trigger] code_files_of(files)[k]).index,
        forall|i: int|
            0 <= i < files.len() && path_language((#[trigger] files[i]).name) is Some ==> exists|
                k: int,
            |
                0 <= k < code_files_of(files).len() && (#[trigger] code_files_of(files)[k]).index
                    == i,
    decreases files.len(),
{
    if files.len() > 0 {
        let front = files.drop_last();
        let earlier = code_files_of(front);
        let all = code_files_of(files);
        law_code_files(front);
        assert forall|k: int| 0 <= k < all.len() implies {
            let code = #[trigger] all[k];
            &&& 0 <= code.index < files.len()
            &&& code.path == files[code.index].shown
            &&& path_language(files[code.index].name) == Some(code.language)
        } by {
            if k < earlier.len() {
                assert(all[k] == earlier[k]);
                assert(front[earlier[k].index] == files[earlier[k].index]);
            }
        }
        assert forall|j: int, k: int| 0 <= j < k < all.len() implies (#[trigger] all[j]).index < (
        #[trigger] all[k]).index by {
            assert(all[j] == earlier[j]);
            if k < earlier.len() {
                assert(all[k] == earlier[k]);
            }
        }
        assert forall|i: int|
            0 <= i < files.len() && path_language((#[trigger] files[i]).name) is Some implies exists|
            k: int,
        |
            0 <= k < all.len() && (#[trigger] all[k]).index == i by {
            if i < front.len() {
                assert(front[i] == files[i]);
                let k = choose|k: int| 0 <= k < earlier.len() && (#[trigger] earlier[k]).index == i;
                assert(all[k] == earlier[k]);
            } else {
                assert(all[earlier.len() as int].index == i);
            }
        }
    }
}

/// Configuration files and build tools are told file by file: those of two lists of files are
/// those of the first, and then those of the second.
pub proof fn law_files_in_parts(a: Seq<FileView>, b: Seq<FileView>)
    ensures
        config_files_of(a + b) == config_files_of(a) + config_files_of(b),
        tools_of(a + b) == tools_of(a) + tools_of(b),
    decreases b.len(),
{
    if b.len() == 0 {
        assert(a + b =~= a);
        assert(config_files_of(a) + config_files_of(b) =~= config_files_of(a));
        assert(tools_of(a) + tools_of(b) =~= tools_of(a));
    } else {
        let front = b.drop_last();
        law_files_in_parts(a, front);
        assert((a + b).drop_last() =~= a + front);
        assert((a + b).last() == b.last());
        assert(config_files_of(a + b) =~= config_files_of(a) + config_files_of(b));
        assert(tools_of(a + b) =~= tools_of(a) + tools_of(b));
    }
}

/// A file with a kind of configuration is listed with its path and that kind, one that a build
/// tool reads gives that tool, and any other gives nothing.
pub proof fn law_files_one_by_one(file: FileView)
    ensures
        match path_config_type(file.exact) {
            Some(kind) => config_files_of(seq![file]) == seq![
                ConfigView { path: file.shown, config_type: kind },
            ],
            None => config_files_of(seq![file]).len() == 0,
        },
        match path_build_tool(file.exact) {
            Some(tool) => tools_of(seq![file]) == seq![tool],
            None => tools_of(seq![file]).len() == 0,
        },
{
    let one = seq![file];
    assert(one.drop_last() =~= Seq::empty());
    assert(one.last() == file);
    assert(config_files_of(one.drop_last()) =~= Seq::empty());
    assert(tools_of(one.drop_last()) =~= Seq::empty());
    match path_config_type(file.exact) {
        Some(kind) => {
            assert(config_files_of(one) =~= seq![
                ConfigView { path: file.shown, config_type: kind },
            ]);
        },
        None => {},
    }
    match path_build_tool(file.exact) {
        Some(tool) => {
            assert(tools_of(one) =~= seq![tool]);
        },
        None => {},
    }
}

/// The places of the files that a build tool reads ascend, and are those of all such files
/// and of no other.
pub proof fn law_dep_files(files: Seq<FileView>)
    requires
        files.len() <= usize::MAX,
    ensures
        forall|k: int|
            0 <= k < dep_files_of(files).len() ==> (#[trigger] dep_files_of(files)[k]) < files.len()
                && path_build_tool(files[dep_files_of(files)[k] as int].exact) is Some,
        forall|j: int, k: int|
            0 <= j < k < dep_files_of(files).len() ==> #[trigger] dep_files_of(files)[j]
                < #[trigger] dep_files_of(files)[k],
        forall|i: int|
            0 <= i < files.len() && path_build_tool((#[trigger] files[i]).exact) is Some
                ==> dep_files_of(files).contains(i as usize),
    decreases files.len(),
{
    if files.len() > 0 {
        let front = files.drop_last();
        let earlier = dep_files_of(front);
        let all = dep_files_of(files);
        law_dep_files(front);
        assert forall|k: int| 0 <= k < all.len() implies (#[trigger] all[k]) < files.len()
            && path_build_tool(files[all[k] as int].exact) is Some by {
            if k < earlier.len() {
                assert(all[k] == earlier[k]);
                assert(front[earlier[k] as int] == files[earlier[k] as int]);
            }
        }
        assert forall|j: int, k: int| 0 <= j < k < all.len() implies #[trigger] all[j]
            < #[trigger] all[k] by {
            assert(all[j] == earlier[j]);
            if k < earlier.len() {
                assert(all[k] == earlier[k]);
            }
        }
        assert forall|i: int|
            0 <= i < files.len() && path_build_tool(
                (#[trigger] files[i]).exact,
            ) is Some implies all.contains(i as usize) by {
            if i < front.len() {
                assert(front[i] == files[i]);
                let k = choose|k: int| 0 <= k < earlier.len() && earlier[k] == i as usize;
                assert(all[k] == earlier[k]);
            } else {
                assert(all[earlier.len() as int] == i as usize);
            }
        }
    }
}

/// The owners are read from the last file of one of the two names, and from none where no
/// file has such a name.
pub proof fn law_codeowners(files: Seq<FileView>)
    requires
        files.len() <= usize::MAX,
    ensures
        match codeowners_of(files) {
            Some(at) => {
                &&& at < files.len()
                &&& file_name_of(files[at as int].exact) == Some("CODEOWNERS"@) || file_name_of(
                    files[at as int].exact,
                ) == Some(".codeowners"@)
                &&& forall|i: int|
                    at < i < files.len() ==> file_name_of((#[trigger] files[i]).exact) != Some(
                        "CODEOWNERS"@,
                    ) && file_name_of(files[i].exact) != Some(".codeowners"@)
            },
            None => forall|i: int|
                0 <= i < files.len() ==> file_name_of((#[trigger] files[i]).exact) != Some(
                    "CODEOWNERS"@,
                ) && file_name_of(files[i].exact) != Some(".codeowners"@),
        },
    decreases files.len(),
{
    if files.len() > 0 && !names_owners(files.last()) {
        let front = files.drop_last();
        law_codeowners(front);
        assert forall|i: int| 0 <= i < files.len() implies files[i] == if i < front.len() {
            front[i]
        } else {
            files.last()
        } by {}
    }
}

/// The number of files of a language in a tally of code files is the number of the code files
/// that have it.
pub proof fn law_tally_counts(values: Seq<Seq<char>>, value: Seq<char>, i: int)
    requires
        0 <= i < tally(values).len(),
        tally(values)[i].0 == value,
    ensures
        tally(values)[i].1 == values.filter(|v: Seq<char>| v == value).len(),
{
    lemma_occurrences_filter(values, value);
}

proof fn lemma_occurrences_filter(values: Seq<Seq<char>>, value: Seq<char>)
    ensures
        occurrences(values, value) == values.filter(|v: Seq<char>| v == value).len(),
    decreases values.len(),
{
    reveal(Seq::filter);
    if values.len() > 0 {
        lemma_occurrences_filter(values.drop_last(), value);
    }
}

/// Files are seen as they are, each with its path and its name, in order.
pub proof fn law_files_seen(files: Seq<FoundFile>)
    ensures
        file_views(files).len() == files.len(),
        forall|i: int|
            0 <= i < files.len() ==> {
                let seen = #[trigger] file_views(files)[i];
                &&& seen.shown == files[i].shown@
                &&& seen.name == files[i].name@
                &&& seen.exact == files[i].exact@
            },
{
}

/// Code files are seen as they are, in order.
pub proof fn law_code_files_seen(files: Seq<CodeFile>)
    ensures
        code_file_views(files).len() == files.len(),
        forall|i: int|
            0 <= i < files.len() ==> {
                let seen = #[trigger] code_file_views(files)[i];
                &&& seen.index == files[i].index
                &&& seen.path == files[i].path@
                &&& seen.language == files[i].language@
            },
{
}

/// Configuration files are seen as they are, in order.
pub proof fn law_configs_seen(files: Seq<ConfigFile>)
    ensures
        config_views(files).len() == files.len(),
        forall|i: int|
            0 <= i < files.len() ==> {
                let seen = #[trigger] config_views(files)[i];
                &&& seen.path == files[i].path@
                &&& seen.config_type == files[i].config_type@
            },
{
}

/// A tally is seen as it is, in order.
pub proof fn law_tally_seen(counts: Seq<(String, usize)>)
    ensures
        tally_views(counts).len() == counts.len(),
        forall|i: int|
            0 <= i < counts.len() ==> {
                let seen = #[trigger] tally_views(counts)[i];
                &&& seen.0 == counts[i].0@
                &&& seen.1 == counts[i].1
            },
{
}

/// Each code file is counted, under its own language.
pub proof fn law_languages_counted(a: Seq<CodeFileView>, b: Seq<CodeFileView>, file: CodeFileView)
    ensures
        languages_of(a + b) == languages_of(a) + languages_of(b),
        languages_of(seq![file]) == seq![file.language],
        total(tally(languages_of(a))) == a.len(),
{
    law_tally_total(languages_of(a));
    assert(languages_of(a + b) =~= languages_of(a) + languages_of(b));
    assert(languages_of(seq![file]) =~= seq![file.language]);
}

/// What is classified tells all that the files do: each code file with its language, each
/// manifest by its place, and the last file that names owners.
pub proof fn law_classified(classified: Classified, files: Seq<FileView>)
    requires
        classified.classifies(files),
        files.len() <= usize::MAX,
    ensures
        forall|k: int|
            0 <= k < classified.code_files@.len() ==> {
                let code = #[trigger] classified.code_files@[k];
                &&& code.index < files.len()
                &&& code.path@ == files[code.index as int].shown
                &&& path_language(files[code.index as int].name) == Some(code.language@)
            },
        forall|i: int|
            0 <= i < files.len() && path_build_tool((#[trigger] files[i]).exact) is Some
                ==> classified.dep_files@.contains(i as usize),
        forall|k: int|
            0 <= k < classified.dep_files@.len() ==> (#[trigger] classified.dep_files@[k])
                < files.len() && path_build_tool(
                files[classified.dep_files@[k] as int].exact,
            ) is Some,
        classified.codeowners is None <==> forall|i: int|
            0 <= i < files.len() ==> file_name_of((#[trigger] files[i]).exact) != Some(
                "CODEOWNERS"@,
            ) && file_name_of(files[i].exact) != Some(".codeowners"@),
        classified.codeowners matches Some(at) ==> {
            &&& at < files.len()
            &&& file_name_of(files[at as int].exact) == Some("CODEOWNERS"@) || file_name_of(
                files[at as int].exact,
            ) == Some(".codeowners"@)
            &&& forall|i: int|
                at < i < files.len() ==> file_name_of((#[trigger] files[i]).exact) != Some(
                    "CODEOWNERS"@,
                ) && file_name_of(files[i].exact) != Some(".codeowners"@)
        },
        total(tally_views(classified.languages@)) == classified.code_files@.len(),
{
    law_code_files(files);
    law_dep_files(files);
    law_codeowners(files);
    law_tally_total(languages_of(code_files_of(files)));
    assert(code_file_views(classified.code_files@).len() == classified.code_files@.len());
    assert forall|k: int| 0 <= k < classified.code_files@.len() implies {
        let code = #[trigger] classified.code_files@[k];
        &&& code.index < files.len()
        &&& code.path@ == files[code.index as int].shown
        &&& path_language(files[code.index as int].name) == Some(code.language@)
    } by {
        assert(code_file_views(classified.code_files@)[k] == code_files_of(files)[k]);
    }
}

} // verus!
