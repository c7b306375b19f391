//! Paths as texts: components are separated by `/`, and a path that begins with one is
//! absolute, as on Unix. Elsewhere a path is written so before it is handed over.

use vstd::prelude::*;
use vstd::string::*;

use crate::text::{chars_of, text_between};

verus! {

/// The last position of a character, or -1.
pub open spec fn last_index(s: Seq<char>, c: char) -> int
    decreases s.len(),
{
    if s.len() == 0 {
        -1
    } else if s.last() == c {
        s.len() - 1
    } else {
        last_index(s.drop_last(), c)
    }
}

/// The name that a path ends in. Empty components and `.` at the end are passed
/// over; a path that ends in `..`, or has no component left, has no name.
pub open spec fn file_name_of(path: Seq<char>) -> Option<Seq<char>>
    decreases path.len(),
{
    let slash = last_index(path, '/');
    let last = path.skip(slash + 1);
    if last.len() == 0 || last == seq!['.'] {
        if 0 <= slash < path.len() {
            file_name_of(path.take(slash))
        } else {
            None
        }
    } else if last == seq!['.', '.'] {
        None
    } else {
        Some(last)
    }
}

/// The part of a file name behind its last dot, if something stands before that dot.
pub open spec fn name_extension(name: Seq<char>) -> Option<Seq<char>> {
    let dot = last_index(name, '.');
    if dot > 0 {
        Some(name.skip(dot + 1))
    } else {
        None
    }
}

/// The extension of the file that a path names.
pub open spec fn extension_of(path: Seq<char>) -> Option<Seq<char>> {
    match file_name_of(path) {
        Some(name) => name_extension(name),
        None => None,
    }
}

/// The path of `name` inside the directory `dir`.
pub open spec fn joined(dir: Seq<char>, name: Seq<char>) -> Seq<char> {
    if dir.len() == 0 || dir.last() == '/' {
        dir + name
    } else {
        dir.push('/') + name
    }
}

/// `last_index` is below the length.
pub proof fn lemma_last_index(s: Seq<char>, c: char)
    ensures
        -1 <= last_index(s, c) < s.len(),
    decreases s.len(),
{
    if s.len() > 0 && s.last() != c {
        lemma_last_index(s.drop_last(), c);
    }
}

/// The position behind the last `c` among the first `end` characters.
fn behind_last(chars: &Vec<char>, end: usize, c: char) -> (r: usize)
    requires
        end <= chars@.len(),
    ensures
        r <= end,
        r == last_index(chars@.take(end as int), c) + 1,
{
    let mut i: usize = end;
    while i > 0
        invariant
            i <= end <= chars@.len(),
            last_index(chars@.take(end as int), c) == last_index(chars@.take(i as int), c),
        decreases i,
    {
        let ghost piece = chars@.take(i as int);
        assert(piece.last() == chars@[i - 1]);
        assert(piece.drop_last() =~= chars@.take(i - 1));
        if chars[i - 1] == c {
            return i;
        }
        i -= 1;
    }
    0
}

/// The name that a path ends in.
pub fn file_name(path: &str) -> (r: Option<String>)
    ensures
        match r {
            Some(name) => file_name_of(path@) == Some(name@),
            None => file_name_of(path@) is None,
        },
{
    let c = chars_of(path);
    let mut end: usize = c.len();
    assert(c@.take(end as int) =~= c@);
    loop
        invariant
            c@ == path@,
            end <= c@.len(),
            file_name_of(path@) == file_name_of(c@.take(end as int)),
        decreases end,
    {
        let ghost piece = c@.take(end as int);
        let start = behind_last(&c, end, '/');
        let ghost last = piece.skip(start as int);
        let size: usize = end - start;
        let dot = size == 1 && c[start] == '.';
        let dots = size == 2 && c[start] == '.' && c[start + 1] == '.';
        proof {
            assert(last.len() == size);
            assert(size >= 1 ==> last[0] == c@[start as int]);
            assert(size >= 2 ==> last[1] == c@[start + 1]);
            assert(seq!['.'].len() == 1 && seq!['.'][0] == '.');
            assert(seq!['.', '.'].len() == 2 && seq!['.', '.'][0] == '.' && seq!['.', '.'][1] == '.');
            assert(dot == (last =~= seq!['.']));
            assert(dots == (last =~= seq!['.', '.']));
        }
        if size == 0 || dot {
            if start == 0 {
                return None;
            }
            assert(piece.take(start - 1) =~= c@.take(start - 1));
            end = start - 1;
        } else if dots {
            return None;
        } else {
            let name = text_between(&c, start, end);
            assert(name@ =~= last);
            return Some(name);
        }
    }
}

/// The extension of the file that a path names.
pub fn extension(path: &str) -> (r: Option<String>)
    ensures
        match r {
            Some(ext) => extension_of(path@) == Some(ext@),
            None => extension_of(path@) is None,
        },
{
    match file_name(path) {
        Some(name) => {
            let c = chars_of(name.as_str());
            let start = behind_last(&c, c.len(), '.');
            assert(c@.take(c@.len() as int) =~= c@);
            if start > 1 {
                assert(c@.subrange(start as int, c@.len() as int) =~= name@.skip(start as int));
                Some(text_between(&c, start, c.len()))
            } else {
                None
            }
        },
        None => None,
    }
}

/// The path of `name` inside the directory `dir`.
pub fn join(dir: &str, name: &str) -> (r: String)
    ensures
        r@ == joined(dir@, name@),
{
    let c = chars_of(dir);
    let mut r = dir.to_owned();
    if c.len() > 0 && c[c.len() - 1] != '/' {
        r.push('/');
    }
    r.append(name);
    r
}

// ---------------------------------------------------------------------------
// Laws
// ---------------------------------------------------------------------------

/// A text is the name of a file: not empty, without a slash, and neither of the two that stand
/// for directories.
pub open spec fn is_name(name: Seq<char>) -> bool {
    &&& name.len() > 0
    &&& !name.contains('/')
    &&& name != seq!['.']
    &&& name != seq!['.', '.']
}

/// The last position of a character is behind all others.
pub proof fn law_last_index(a: Seq<char>, c: char, b: Seq<char>)
    requires
        !b.contains(c),
    ensures
        last_index(a.push(c) + b, c) == a.len(),
        last_index(b, c) == -1,
    decreases b.len(),
{
    let all = a.push(c) + b;
    if b.len() == 0 {
        assert(all =~= a.push(c));
    } else {
        let front = b.drop_last();
        assert(b.contains(b.last()));
        assert(!front.contains(c)) by {
            if front.contains(c) {
                let i = choose|i: int| 0 <= i < front.len() && front[i] == c;
                assert(b[i] == c);
            }
        }
        law_last_index(a, c, front);
        assert(all.drop_last() =~= a.push(c) + front);
        assert(all.last() == b.last());
    }
}

/// The name of a file is what stands behind the last slash of its path, whatever stands before
/// it; slashes at the end do not count.
pub proof fn law_file_name(dir: Seq<char>, name: Seq<char>)
    requires
        is_name(name),
    ensures
        file_name_of(name) == Some(name),
        file_name_of(dir.push('/') + name) == Some(name),
        file_name_of(joined(dir, name)) == Some(name),
        file_name_of((dir.push('/') + name).push('/')) == Some(name),
{
    law_last_index(dir, '/', name);
    assert(name.skip(0) =~= name);
    let path = dir.push('/') + name;
    assert(path.skip(dir.len() as int + 1) =~= name);
    let more = path.push('/');
    law_last_index(path, '/', Seq::empty());
    assert(path.push('/') + Seq::<char>::empty() =~= more);
    assert(more.skip(path.len() as int + 1).len() == 0);
    assert(more.take(path.len() as int) =~= path);
    if dir.len() == 0 {
        assert(joined(dir, name) =~= name);
    } else if dir.last() == '/' {
        assert(dir + name =~= dir.drop_last().push('/') + name);
        law_last_index(dir.drop_last(), '/', name);
        assert((dir.drop_last().push('/') + name).skip(dir.len() as int) =~= name);
    }
}

/// The extension of a file is what stands behind the last dot of its name, where something
/// stands before that dot; a name without a dot, or with one in front only, has none.
pub proof fn law_extension(dir: Seq<char>, stem: Seq<char>, ext: Seq<char>)
    requires
        !stem.contains('/'),
        !ext.contains('/'),
        !ext.contains('.'),
        is_name(stem.push('.') + ext),
    ensures
        stem.len() > 0 ==> extension_of(dir.push('/') + (stem.push('.') + ext)) == Some(ext)
            && extension_of(stem.push('.') + ext) == Some(ext),
        stem.len() == 0 ==> extension_of(dir.push('/') + (stem.push('.') + ext)) is None,
        is_name(ext) ==> extension_of(dir.push('/') + ext) is None,
{
    let name = stem.push('.') + ext;
    law_file_name(dir, name);
    law_last_index(stem, '.', ext);
    assert(name.skip(stem.len() as int + 1) =~= ext);
    if is_name(ext) {
        law_file_name(dir, ext);
    }
}

/// Slashes, and components that stand for the directory itself, do not count at the end of a
/// path; one that ends in its parent has no name, and neither has one without components.
pub proof fn law_path_ends(path: Seq<char>)
    ensures
        file_name_of(path.push('/')) == file_name_of(path),
        file_name_of(path.push('/').push('.')) == file_name_of(path),
        file_name_of(path.push('/').push('.').push('.')) is None,
        file_name_of(Seq::empty()) is None,
        file_name_of(seq!['.', '.']) is None,
{
    let none = Seq::<char>::empty();
    let dot = seq!['.'];
    let dots = seq!['.', '.'];
    let slashed = path.push('/');
    law_last_index(path, '/', none);
    assert(slashed + none =~= slashed);
    assert(slashed.take(path.len() as int) =~= path);
    law_last_index(path, '/', dot);
    let dotted = slashed.push('.');
    assert(slashed + dot =~= dotted);
    assert(dotted.skip(path.len() as int + 1) =~= dot);
    assert(dotted.take(path.len() as int) =~= path);
    law_last_index(path, '/', dots);
    let up = dotted.push('.');
    assert(slashed + dots =~= up);
    assert(up.skip(path.len() as int + 1) =~= dots);
    assert(dots.len() != dot.len());
    assert(last_index(none, '/') == -1);
    assert(dots.skip(0) =~= dots);
}

} // verus!
