//! Walking the file tree of a repository.
//!
//! The directories are listed by the caller; the walk decides what is kept, what is listed
//! next, and in which order the files are found. Entries are told apart by numbers that the
//! caller gives.

use vstd::prelude::*;

use crate::lists::position_of;
use crate::text::{same, starts_with, views};

verus! {

/// What an entry of a directory is.
#[derive(Debug, Clone, Copy, PartialEq, Eq, Structural)]
pub enum EntryKind {
    Directory,
    /// A file, with its size if it is known.
    File(Option<u64>),
    Other,
}

/// An entry of a directory.
#[derive(Debug, Clone)]
pub struct DirEntry {
    pub id: usize,
    pub name: String,
    pub kind: EntryKind,
}

/// What remains to be visited.
#[derive(Debug, Clone, Copy, PartialEq, Eq, Structural)]
pub enum Visit {
    Directory(usize),
    File(usize),
}

/// Which entries of a repository are kept.
#[derive(Debug, Clone)]
pub struct WalkRules {
    /// The size of the largest file that is kept.
    pub max_file_size: u64,
    /// The names of entries that are not kept.
    pub skip_patterns: Vec<String>,
}

/// A hidden entry that is not kept: its name begins with a dot, and is not one of the two
/// that hold the owners of the code.
pub open spec fn is_hidden(name: Seq<char>) -> bool {
    "."@.is_prefix_of(name) && name != ".github"@ && name != ".codeowners"@
}

impl WalkRules {
    /// An entry of that name is kept.
    pub open spec fn keeps_name(self, name: Seq<char>) -> bool {
        !is_hidden(name) && !views(self.skip_patterns@).contains(name)
    }

    /// What is to be visited for an entry, if it is kept.
    pub open spec fn kept(self, entry: DirEntry) -> Option<Visit> {
        if !self.keeps_name(entry.name@) {
            None
        } else {
            match entry.kind {
                EntryKind::Directory => Some(Visit::Directory(entry.id)),
                EntryKind::File(Some(size)) => if size <= self.max_file_size {
                    Some(Visit::File(entry.id))
                } else {
                    None
                },
                _ => None,
            }
        }
    }

    /// What is to be visited for the entries of a directory, in order.
    pub open spec fn all_kept(self, entries: Seq<DirEntry>) -> Seq<Visit>
        decreases entries.len(),
    {
        if entries.len() == 0 {
            Seq::empty()
        } else {
            let rest = self.all_kept(entries.skip(1));
            match self.kept(entries[0]) {
                Some(visit) => seq![visit] + rest,
                None => rest,
            }
        }
    }

    /// Whether an entry of that name is kept.
    pub fn is_kept_name(&self, name: &str) -> (r: bool)
        ensures
            r == self.keeps_name(name@),
    {
        if starts_with(name, ".") && !same(name, ".github") && !same(name, ".codeowners") {
            return false;
        }
        position_of(&self.skip_patterns, name).is_none()
    }

    /// What is to be visited for an entry, if it is kept.
    pub fn visit_of(&self, entry: &DirEntry) -> (r: Option<Visit>)
        ensures
            r == self.kept(*entry),
    {
        if !self.is_kept_name(entry.name.as_str()) {
            return None;
        }
        match entry.kind {
            EntryKind::Directory => Some(Visit::Directory(entry.id)),
            EntryKind::File(Some(size)) => {
                if size <= self.max_file_size {
                    Some(Visit::File(entry.id))
                } else {
                    None
                }
            },
            _ => None,
        }
    }
}

/// The number of files before the first directory.
pub open spec fn leading_files(todo: Seq<Visit>) -> nat
    decreases todo.len(),
{
    if todo.len() == 0 {
        0
    } else {
        match todo[0] {
            Visit::Directory(_) => 0,
            Visit::File(_) => 1 + leading_files(todo.skip(1)),
        }
    }
}

/// The numbers of visits.
pub open spec fn visit_ids(visits: Seq<Visit>) -> Seq<usize> {
    Seq::new(
        visits.len(),
        |i: int|
            match visits[i] {
                Visit::Directory(id) => id,
                Visit::File(id) => id,
            },
    )
}

/// A walk through a file tree.
#[derive(Debug, Clone)]
pub struct Walk {
    /// What remains to be visited, the next one last.
    pending: Vec<Visit>,
    files: Vec<usize>,
}

impl Walk {
    /// What remains to be visited, in order.
    pub closed spec fn todo(self) -> Seq<Visit> {
        self.pending@.reverse()
    }

    /// The files that were found, in order.
    pub closed spec fn found(self) -> Seq<usize> {
        self.files@
    }

    /// A walk that begins at a directory.
    pub fn new(root: usize) -> (r: Walk)
        ensures
            r.todo() == seq![Visit::Directory(root)],
            r.found() == Seq::<usize>::empty(),
    {
        let mut pending: Vec<Visit> = Vec::new();
        pending.push(Visit::Directory(root));
        let r = Walk { pending, files: Vec::new() };
        assert(r.todo() =~= seq![Visit::Directory(root)]);
        r
    }

    /// Goes on to the next directory, and gives it to be listed; nothing where the walk is
    /// over. The files on the way are found.
    pub fn next_directory(&mut self) -> (r: Option<usize>)
        ensures
            ({
                let todo = old(self).todo();
                let n = leading_files(todo) as int;
                &&& n <= todo.len()
                &&& final(self).found() == old(self).found() + visit_ids(todo.take(n))
                &&& match r {
                    Some(id) => {
                        &&& n < todo.len()
                        &&& todo[n] == Visit::Directory(id)
                        &&& final(self).todo() == todo.skip(n + 1)
                    },
                    None => n == todo.len() && final(self).todo().len() == 0,
                }
            }),
    {
        let ghost todo = self.todo();
        let ghost found = self.found();
        let ghost mut n: int = 0;
        assert(todo.skip(0) =~= todo);
        assert(found + visit_ids(todo.take(0)) =~= found);
        while self.pending.len() > 0
            invariant
                todo == old(self).todo(),
                found == old(self).found(),
                0 <= n <= todo.len(),
                self.todo() == todo.skip(n),
                self.found() == found + visit_ids(todo.take(n)),
                leading_files(todo) == n + leading_files(todo.skip(n)),
            decreases self.pending@.len(),
        {
            let ghost before = self.pending@;
            let ghost rest = todo.skip(n);
            let next = self.pending.pop().unwrap();
            proof {
                assert(next == before.last());
                assert(before.reverse()[0] == next);
                assert(rest[0] == next);
                assert(todo[n] == next);
                assert(self.pending@ =~= before.drop_last());
                assert(self.pending@.reverse() =~= rest.skip(1));
                assert(rest.skip(1) =~= todo.skip(n + 1));
            }
            match next {
                Visit::Directory(id) => {
                    return Some(id);
                },
                Visit::File(id) => {
                    let ghost files = self.files@;
                    self.files.push(id);
                    proof {
                        assert(visit_ids(todo.take(n + 1)) =~= visit_ids(todo.take(n)).push(id));
                        assert(found + visit_ids(todo.take(n + 1)) =~= files.push(id));
                        n = n + 1;
                    }
                },
            }
        }
        proof {
            assert(self.todo().len() == 0);
            assert(todo.skip(n).len() == 0);
        }
        None
    }

    /// Takes the entries of the directory that was given last.
    pub fn enter(&mut self, rules: &WalkRules, entries: &Vec<DirEntry>)
        ensures
            final(self).todo() == rules.all_kept(entries@) + old(self).todo(),
            final(self).found() == old(self).found(),
    {
        let ghost todo = self.todo();
        let mut i: usize = entries.len();
        assert(entries@.skip(i as int) =~= Seq::empty());
        assert(rules.all_kept(entries@.skip(i as int)) + todo =~= todo);
        while i > 0
            invariant
                i <= entries@.len(),
                self.todo() == rules.all_kept(entries@.skip(i as int)) + todo,
                self.found() == old(self).found(),
            decreases i,
        {
            let ghost kept = rules.all_kept(entries@.skip(i as int));
            i -= 1;
            proof {
                assert(entries@.skip(i as int).skip(1) =~= entries@.skip(i + 1));
                assert(entries@.skip(i as int)[0] == entries@[i as int]);
            }
            match rules.visit_of(&entries[i]) {
                Some(visit) => {
                    let ghost before = self.pending@;
                    self.pending.push(visit);
                    proof {
                        assert(self.pending@.reverse() =~= seq![visit] + before.reverse());
                        assert(seq![visit] + (kept + todo) =~= (seq![visit] + kept) + todo);
                    }
                },
                None => {},
            }
        }
        assert(entries@.skip(0) =~= entries@);
    }

    /// The files that were found, in order.
    pub fn into_files(self) -> (r: Vec<usize>)
        ensures
            r@ == self.found(),
    {
        self.files
    }
}

// ---------------------------------------------------------------------------
// Laws
// ---------------------------------------------------------------------------

/// The files of a list of visits, depth first, down to a depth: a file by itself, and a
/// directory by the files of what is kept of it.
pub open spec fn files_below(
    children: spec_fn(usize) -> Seq<Visit>,
    todo: Seq<Visit>,
    depth: nat,
) -> Seq<usize>
    decreases depth, todo.len(),
{
    if todo.len() == 0 {
        Seq::empty()
    } else {
        let first = match todo[0] {
            Visit::File(id) => seq![id],
            Visit::Directory(id) => if depth == 0 {
                Seq::empty()
            } else {
                files_below(children, children(id), (depth - 1) as nat)
            },
        };
        first + files_below(children, todo.skip(1), depth)
    }
}

/// The directories of a tree have heights: that of a directory is above those of the
/// directories in it.
pub open spec fn is_tree(
    children: spec_fn(usize) -> Seq<Visit>,
    height: spec_fn(usize) -> nat,
) -> bool {
    forall|id: usize, i: int|
        0 <= i < children(id).len() ==> lower(#[trigger] children(id)[i], height, height(id))
}

/// A visit is that of a file, or of a directory below a height.
pub open spec fn lower(visit: Visit, height: spec_fn(usize) -> nat, bound: nat) -> bool {
    match visit {
        Visit::File(_) => true,
        Visit::Directory(id) => height(id) < bound,
    }
}

/// All visits are those of files, or of directories below a height.
pub open spec fn all_lower(todo: Seq<Visit>, height: spec_fn(usize) -> nat, bound: nat) -> bool {
    forall|i: int| 0 <= i < todo.len() ==> lower(#[trigger] todo[i], height, bound)
}

proof fn lemma_concat(
    children: spec_fn(usize) -> Seq<Visit>,
    a: Seq<Visit>,
    b: Seq<Visit>,
    depth: nat,
)
    ensures
        files_below(children, a + b, depth) == files_below(children, a, depth) + files_below(
            children,
            b,
            depth,
        ),
    decreases a.len(),
{
    if a.len() == 0 {
        assert(a + b =~= b);
        assert(files_below(children, a, depth) + files_below(children, b, depth) =~= files_below(
            children,
            b,
            depth,
        ));
    } else {
        lemma_concat(children, a.skip(1), b, depth);
        assert((a + b).skip(1) =~= a.skip(1) + b);
        assert((a + b)[0] == a[0]);
        let first = match a[0] {
            Visit::File(id) => seq![id],
            Visit::Directory(id) => if depth == 0 {
                Seq::empty()
            } else {
                files_below(children, children(id), (depth - 1) as nat)
            },
        };
        assert(first + (files_below(children, a.skip(1), depth) + files_below(children, b, depth))
            =~= (first + files_below(children, a.skip(1), depth)) + files_below(
            children,
            b,
            depth,
        ));
    }
}

/// A depth that reaches the bottom of the tree gives all files.
proof fn lemma_deep_enough(
    children: spec_fn(usize) -> Seq<Visit>,
    height: spec_fn(usize) -> nat,
    todo: Seq<Visit>,
    depth: nat,
)
    requires
        is_tree(children, height),
        all_lower(todo, height, depth),
    ensures
        files_below(children, todo, depth) == files_below(children, todo, depth + 1),
    decreases depth, todo.len(),
{
    if todo.len() > 0 {
        assert forall|i: int| 0 <= i < todo.skip(1).len() implies lower(
            #[trigger] todo.skip(1)[i],
            height,
            depth,
        ) by {
            assert(lower(todo[i + 1], height, depth));
        }
        lemma_deep_enough(children, height, todo.skip(1), depth);
        assert(lower(todo[0], height, depth));
        match todo[0] {
            Visit::File(_) => {},
            Visit::Directory(id) => {
                let inside = children(id);
                assert forall|i: int| 0 <= i < inside.len() implies lower(
                    #[trigger] inside[i],
                    height,
                    (depth - 1) as nat,
                ) by {
                    assert(lower(children(id)[i], height, height(id)));
                }
                lemma_deep_enough(children, height, inside, (depth - 1) as nat);
            },
        }
    }
}

proof fn lemma_leading(
    children: spec_fn(usize) -> Seq<Visit>,
    todo: Seq<Visit>,
    depth: nat,
)
    ensures
        leading_files(todo) <= todo.len(),
        files_below(children, todo, depth) == visit_ids(todo.take(leading_files(todo) as int))
            + files_below(children, todo.skip(leading_files(todo) as int), depth),
    decreases todo.len(),
{
    let n = leading_files(todo) as int;
    if todo.len() > 0 && todo[0] is File {
        let rest = todo.skip(1);
        lemma_leading(children, rest, depth);
        let id = todo[0]->File_0;
        assert(todo.skip(n) =~= rest.skip(n - 1));
        assert(visit_ids(todo.take(n)) =~= seq![id] + visit_ids(rest.take(n - 1)));
        assert(seq![id] + (visit_ids(rest.take(n - 1)) + files_below(
            children,
            rest.skip(n - 1),
            depth,
        )) =~= visit_ids(todo.take(n)) + files_below(children, todo.skip(n), depth));
    } else {
        assert(todo.skip(0) =~= todo);
        assert(visit_ids(todo.take(0)) + files_below(children, todo, depth) =~= files_below(
            children,
            todo,
            depth,
        ));
    }
}

/// One round of a walk changes nothing of the files that it finds in the end. The walk goes
/// on to the next directory and takes what is kept of it: the files found so far, followed
/// by those of what remains to be visited, depth first, stay the same. So a walk that is
/// over has found the files of the tree, depth first.
pub proof fn law_walk_round(
    children: spec_fn(usize) -> Seq<Visit>,
    height: spec_fn(usize) -> nat,
    found: Seq<usize>,
    todo: Seq<Visit>,
    depth: nat,
)
    requires
        is_tree(children, height),
        all_lower(todo, height, depth),
    ensures
        ({
            let n = leading_files(todo) as int;
            let now = found + visit_ids(todo.take(n));
            if n < todo.len() {
                &&& todo[n] is Directory
                &&& found + files_below(children, todo, depth) == now + files_below(
                    children,
                    children(todo[n]->Directory_0) + todo.skip(n + 1),
                    depth,
                )
                &&& all_lower(children(todo[n]->Directory_0) + todo.skip(n + 1), height, depth)
            } else {
                n == todo.len() && found + files_below(children, todo, depth) == now
            }
        }),
{
    let n = leading_files(todo) as int;
    lemma_leading(children, todo, depth);
    let rest = todo.skip(n);
    if n < todo.len() {
        lemma_leading_stops(todo);
        let id = todo[n]->Directory_0;
        let inside = children(id);
        assert(lower(todo[n], height, depth));
        assert forall|i: int| 0 <= i < inside.len() implies lower(
            #[trigger] inside[i],
            height,
            (depth - 1) as nat,
        ) by {
            assert(lower(children(id)[i], height, height(id)));
        }
        lemma_deep_enough(children, height, inside, (depth - 1) as nat);
        lemma_concat(children, inside, todo.skip(n + 1), depth);
        assert(rest.skip(1) =~= todo.skip(n + 1));
        assert(rest[0] == todo[n]);
        let below = files_below(children, rest, depth);
        assert(below == files_below(children, inside + todo.skip(n + 1), depth));
        assert(found + (visit_ids(todo.take(n)) + below) =~= (found + visit_ids(todo.take(n)))
            + below);
        let next = inside + todo.skip(n + 1);
        assert forall|i: int| 0 <= i < next.len() implies lower(
            #[trigger] next[i],
            height,
            depth,
        ) by {
            if i < inside.len() {
                assert(lower(inside[i], height, (depth - 1) as nat));
            } else {
                assert(next[i] == todo[n + 1 + (i - inside.len())]);
            }
        }
    } else {
        assert(files_below(children, rest, depth) =~= Seq::empty());
        assert(found + (visit_ids(todo.take(n)) + Seq::empty()) =~= found + visit_ids(
            todo.take(n),
        ));
    }
}

proof fn lemma_leading_stops(todo: Seq<Visit>)
    requires
        leading_files(todo) < todo.len(),
    ensures
        todo[leading_files(todo) as int] is Directory,
    decreases todo.len(),
{
    if todo[0] is File {
        lemma_leading_stops(todo.skip(1));
    }
}

/// The entries of a directory are judged one by one, in order.
pub proof fn law_kept_in_parts(rules: WalkRules, a: Seq<DirEntry>, b: Seq<DirEntry>)
    ensures
        rules.all_kept(a + b) == rules.all_kept(a) + rules.all_kept(b),
    decreases a.len(),
{
    if a.len() == 0 {
        assert(a + b =~= b);
        assert(rules.all_kept(a) + rules.all_kept(b) =~= rules.all_kept(b));
    } else {
        law_kept_in_parts(rules, a.skip(1), b);
        assert((a + b).skip(1) =~= a.skip(1) + b);
        assert((a + b)[0] == a[0]);
        assert(rules.all_kept(a + b) =~= rules.all_kept(a) + rules.all_kept(b));
    }
}

/// An entry is left out where its name begins with a dot, but for the two that hold the owners
/// of the code, where its name is one of those that are skipped, where it is a file that is
/// too large or of unknown size, and where it is neither a file nor a directory. Any other is
/// visited.
pub proof fn law_kept_entry(rules: WalkRules, entry: DirEntry)
    ensures
        ({
            let name = entry.name@;
            let hidden = name.len() > 0 && name[0] == '.' && name != ".github"@ && name
                != ".codeowners"@;
            let skipped = exists|i: int|
                0 <= i < rules.skip_patterns@.len() && (#[trigger] rules.skip_patterns@[i])@
                    == name;
            rules.all_kept(seq![entry]) == if hidden || skipped {
                Seq::<Visit>::empty()
            } else {
                match entry.kind {
                    EntryKind::Directory => seq![Visit::Directory(entry.id)],
                    EntryKind::File(Some(size)) => if size <= rules.max_file_size {
                        seq![Visit::File(entry.id)]
                    } else {
                        Seq::<Visit>::empty()
                    },
                    _ => Seq::<Visit>::empty(),
                }
            }
        }),
{
    let one = seq![entry];
    let name = entry.name@;
    let names = views(rules.skip_patterns@);
    assert(one.skip(1) =~= Seq::empty());
    assert(one[0] == entry);
    assert(rules.all_kept(one.skip(1)) =~= Seq::empty());
    reveal_strlit(".");
    assert("."@.len() == 1 && "."@[0] == '.');
    if name.len() > 0 && name[0] == '.' {
        assert("."@ =~= name.take(1));
    }
    if "."@.is_prefix_of(name) {
        assert("."@[0] == name.subrange(0, 1)[0]);
    }
    if names.contains(name) {
        let i = choose|i: int| 0 <= i < names.len() && names[i] == name;
        assert(rules.skip_patterns@[i]@ == name);
    }
    if exists|i: int|
        0 <= i < rules.skip_patterns@.len() && (#[trigger] rules.skip_patterns@[i])@ == name {
        let i = choose|i: int|
            0 <= i < rules.skip_patterns@.len() && (#[trigger] rules.skip_patterns@[i])@ == name;
        assert(names[i] == name);
    }
    match rules.kept(entry) {
        Some(visit) => {
            assert(rules.all_kept(one) =~= seq![visit]);
        },
        None => {
            assert(rules.all_kept(one) =~= Seq::empty());
        },
    }
}

} // verus!
