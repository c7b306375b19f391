//! The teams that a CODEOWNERS file names.

use vstd::prelude::*;

use crate::lists::{add_distinct, distinct, law_distinct, law_distinct_order};
use crate::text::{
    are_lines, is_empty, is_line, is_space, is_trim, is_word, law_lines_read_back, law_one_word,
    law_strip_front, law_trimmed, law_words_part, lines, lines_of, starts_with, strip_front,
    strip_start, trim, trimmed, views, words, words_of, written, CharClass,
};

verus! {

/// The owners among the words of a line: those that begin with an at sign, without it.
pub open spec fn owner_words(parts: Seq<Seq<char>>) -> Seq<Seq<char>>
    decreases parts.len(),
{
    if parts.len() == 0 {
        Seq::empty()
    } else {
        let earlier = owner_words(parts.drop_last());
        if "@"@.is_prefix_of(parts.last()) {
            earlier.push(strip_front(parts.last(), CharClass::Is('@')))
        } else {
            earlier
        }
    }
}

/// The words behind the first one.
pub open spec fn behind_first(parts: Seq<Seq<char>>) -> Seq<Seq<char>> {
    if parts.len() == 0 {
        parts
    } else {
        parts.skip(1)
    }
}

/// The owners that a line names behind its pattern; none if it is blank or a comment.
pub open spec fn line_owners(line: Seq<char>) -> Seq<Seq<char>> {
    let text = trimmed(line);
    if text.len() == 0 || "#"@.is_prefix_of(text) {
        Seq::empty()
    } else {
        owner_words(behind_first(words_of(text)))
    }
}

/// The owners that lines name.
pub open spec fn owners(lines: Seq<Seq<char>>) -> Seq<Seq<char>>
    decreases lines.len(),
{
    if lines.len() == 0 {
        Seq::empty()
    } else {
        owners(lines.drop_last()) + line_owners(lines.last())
    }
}

/// The teams that a CODEOWNERS file names, each once.
pub open spec fn codeowners_teams(content: Seq<char>) -> Seq<Seq<char>> {
    distinct(owners(lines_of(content)))
}

fn add_line_owners(teams: &mut Vec<String>, line: &str, Ghost(earlier): Ghost<Seq<Seq<char>>>)
    requires
        views(old(teams)@) == distinct(earlier),
    ensures
        views(final(teams)@) == distinct(earlier + line_owners(line@)),
{
    let text = trim(line);
    if is_empty(text.as_str()) || starts_with(text.as_str(), "#") {
        assert(earlier + line_owners(line@) =~= earlier);
        return;
    }
    let parts = words(text.as_str());
    let ghost all = words_of(text@);
    let ghost rest = behind_first(all);
    let mut i: usize = 1;
    if parts.len() == 0 {
        assert(earlier + line_owners(line@) =~= earlier);
        return;
    }
    assert(earlier + owner_words(rest.take(0)) =~= earlier);
    while i < parts.len()
        invariant
            1 <= i <= parts@.len(),
            views(parts@) == all,
            rest == all.skip(1),
            views(teams@) == distinct(earlier + owner_words(rest.take(i - 1))),
        decreases parts@.len() - i,
    {
        let part = parts[i].as_str();
        let ghost named = earlier + owner_words(rest.take(i - 1));
        proof {
            assert(rest.take(i as int).drop_last() =~= rest.take(i - 1));
            assert(rest.take(i as int).last() == all[i as int]);
            assert(part@ == all[i as int]);
        }
        if starts_with(part, "@") {
            let team = strip_start(part, CharClass::Is('@'));
            add_distinct(teams, team.as_str());
            proof {
                assert(named.push(team@).drop_last() =~= named);
                assert(earlier + owner_words(rest.take(i as int)) =~= named.push(team@));
            }
        }
        i += 1;
    }
    assert(rest.take(i - 1) =~= rest);
}

/// Extract team names from a CODEOWNERS file.
pub fn parse_codeowners_teams(content: &str) -> (r: Vec<String>)
    ensures
        views(r@) == codeowners_teams(content@),
{
    let all = lines(content);
    let ghost texts = lines_of(content@);
    let mut teams: Vec<String> = Vec::new();
    let mut i: usize = 0;
    assert(views(teams@) =~= distinct(owners(texts.take(0))));
    while i < all.len()
        invariant
            i <= all@.len(),
            views(all@) == texts,
            views(teams@) == distinct(owners(texts.take(i as int))),
        decreases all@.len() - i,
    {
        assert(all@[i as int]@ == texts[i as int]);
        add_line_owners(&mut teams, all[i].as_str(), Ghost(owners(texts.take(i as int))));
        proof {
            assert(texts.take(i + 1).drop_last() =~= texts.take(i as int));
        }
        i += 1;
    }
    assert(texts.take(i as int) =~= texts);
    teams
}

// ---------------------------------------------------------------------------
// Laws
// ---------------------------------------------------------------------------

/// A team is named once, and a name is that of a team just if some line names it as an
/// owner.
pub proof fn law_teams(content: Seq<char>)
    ensures
        codeowners_teams(content).no_duplicates(),
        forall|team: Seq<char>| #[trigger]
            codeowners_teams(content).contains(team) <==> owners(lines_of(content)).contains(team),
{
    law_distinct(owners(lines_of(content)));
}

/// Owners are read line by line and word by word, in order.
pub proof fn law_owners_in_parts(a: Seq<Seq<char>>, b: Seq<Seq<char>>)
    ensures
        owners(a + b) == owners(a) + owners(b),
        owner_words(a + b) == owner_words(a) + owner_words(b),
    decreases b.len(),
{
    if b.len() == 0 {
        assert(a + b =~= a);
        assert(owners(a) + owners(b) =~= owners(a));
        assert(owner_words(a) + owner_words(b) =~= owner_words(a));
    } else {
        law_owners_in_parts(a, b.drop_last());
        assert((a + b).drop_last() =~= a + b.drop_last());
        assert((a + b).last() == b.last());
        assert((owners(a) + owners(b.drop_last())) + line_owners(b.last()) =~= owners(a) + owners(
            b,
        ));
        assert(owner_words(a + b) =~= owner_words(a) + owner_words(b));
    }
}

/// A word that begins with an at sign names an owner, by what follows; any other names none.
pub proof fn law_owner_word(name: Seq<char>, word: Seq<char>)
    requires
        name.len() > 0 ==> name[0] != '@',
        word.len() > 0 ==> word[0] != '@',
    ensures
        owner_words(seq![seq!['@'] + name]) == seq![name],
        owner_words(seq![word]).len() == 0,
{
    reveal_strlit("@");
    assert("@"@.len() == 1 && "@"@[0] == '@');
    let none = Seq::<Seq<char>>::empty();
    let owner = seq!['@'] + name;
    let one = seq![owner];
    let other = seq![word];
    assert(one.drop_last() =~= none);
    assert(other.drop_last() =~= none);
    assert(one.last() == owner && other.last() == word);
    assert(owner_words(none) =~= none);
    assert("@"@ =~= owner.take(1));
    law_strip_front(seq!['@'], name, CharClass::Is('@'));
    assert(owner_words(one) =~= seq![name]);
    if "@"@.is_prefix_of(word) {
        assert("@"@[0] == word.subrange(0, 1)[0]);
    }
}

/// A line with a pattern and the names of owners, each behind an at sign.
pub open spec fn owner_line(pattern: Seq<char>, names: Seq<Seq<char>>) -> Seq<char>
    decreases names.len(),
{
    if names.len() == 0 {
        pattern
    } else {
        owner_line(pattern, names.drop_last()).push(' ') + (seq!['@'] + names.last())
    }
}

/// The names are those of owners: words that begin with no at sign.
pub open spec fn are_owner_names(names: Seq<Seq<char>>) -> bool {
    forall|i: int| 0 <= i < names.len() ==> is_word(#[trigger] names[i]) && names[i][0] != '@'
}

proof fn lemma_owner_line(pattern: Seq<char>, names: Seq<Seq<char>>)
    requires
        is_word(pattern),
        are_owner_names(names),
    ensures
        is_trim(owner_line(pattern, names)),
        owner_line(pattern, names)[0] == pattern[0],
        !owner_line(pattern, names).contains('\n'),
        words_of(owner_line(pattern, names)).len() == 1 + names.len(),
        owner_words(words_of(owner_line(pattern, names)).skip(1)) == names,
    decreases names.len(),
{
    let line = owner_line(pattern, names);
    if names.len() == 0 {
        law_one_word(pattern);
        assert(words_of(line).skip(1) =~= Seq::empty());
        assert(owner_words(Seq::empty()) =~= names);
        if line.contains('\n') {
            let i = choose|i: int| 0 <= i < line.len() && line[i] == '\n';
            assert(is_space(line[i]));
        }
    } else {
        let fewer = names.drop_last();
        let name = names.last();
        let front = owner_line(pattern, fewer);
        let word = seq!['@'] + name;
        assert(is_word(names[names.len() - 1]) && name[0] != '@');
        assert forall|i: int| 0 <= i < fewer.len() implies is_word(#[trigger] fewer[i])
            && fewer[i][0] != '@' by {
            assert(fewer[i] == names[i]);
        }
        lemma_owner_line(pattern, fewer);
        assert forall|i: int| 0 <= i < word.len() implies !is_space(#[trigger] word[i]) by {
            if i > 0 {
                assert(word[i] == name[i - 1]);
            }
        }
        law_one_word(word);
        law_words_part(front, ' ', word);
        assert(line[0] == front[0]);
        assert(line.last() == name.last());
        assert forall|i: int| 0 <= i < line.len() implies line[i] != '\n' by {
            if i < front.len() {
                assert(line[i] == front[i]);
                assert(front.contains(front[i]));
            } else if i > front.len() {
                assert(line[i] == word[i - front.len() - 1]);
                assert(!is_space(word[i - front.len() - 1]));
            }
        }
        let parts = words_of(front);
        assert(words_of(line).skip(1) =~= parts.skip(1) + seq![word]);
        law_owners_in_parts(parts.skip(1), seq![word]);
        law_owner_word(name, Seq::empty());
        assert(fewer + seq![name] =~= names);
    }
}

/// A line names each owner that stands behind its pattern, in order; a line that is blank or
/// begins with a hash mark names none.
pub proof fn law_owner_line(pattern: Seq<char>, names: Seq<Seq<char>>, line: Seq<char>)
    requires
        is_word(pattern),
        pattern[0] != '#',
        are_owner_names(names),
        trimmed(line).len() == 0 || trimmed(line)[0] == '#',
    ensures
        line_owners(owner_line(pattern, names)) == names,
        line_owners(line).len() == 0,
{
    let text = owner_line(pattern, names);
    let none = Seq::<char>::empty();
    reveal_strlit("#");
    assert("#"@.len() == 1 && "#"@[0] == '#');
    lemma_owner_line(pattern, names);
    law_trimmed(none, text, none);
    if "#"@.is_prefix_of(text) {
        assert("#"@[0] == text.subrange(0, 1)[0]);
    }
    if trimmed(line).len() > 0 {
        assert("#"@ =~= trimmed(line).take(1));
    }
}

/// Each owner that some line of a file names is one of its teams.
pub proof fn law_named_teams(
    before: Seq<Seq<char>>,
    pattern: Seq<char>,
    names: Seq<Seq<char>>,
    after: Seq<Seq<char>>,
    i: int,
)
    requires
        are_lines(before),
        are_lines(after),
        is_word(pattern),
        pattern[0] != '#',
        are_owner_names(names),
        0 <= i < names.len(),
    ensures
        codeowners_teams(
            written(before + seq![owner_line(pattern, names)] + after),
        ).contains(names[i]),
{
    let line = owner_line(pattern, names);
    let all = before + seq![line] + after;
    lemma_owner_line(pattern, names);
    assert(is_line(line));
    assert forall|k: int| 0 <= k < all.len() implies is_line(#[trigger] all[k]) by {
        if k < before.len() {
            assert(all[k] == before[k]);
        } else if k > before.len() {
            assert(all[k] == after[k - before.len() - 1]);
        } else {
            assert(all[k] == line);
        }
    }
    law_lines_read_back(all);
    law_owners_in_parts(before + seq![line], after);
    law_owners_in_parts(before, seq![line]);
    law_owner_line(pattern, names, Seq::empty());
    let one = seq![line];
    assert(one.drop_last() =~= Seq::empty());
    assert(one.last() == line);
    assert(owners(one.drop_last()) =~= Seq::empty());
    assert(owners(one) =~= names);
    law_teams(written(all));
    assert(owners(all)[owners(before).len() + i] == names[i]);
}

/// Teams come in the order in which the file first names them: what is added at the end of a
/// file changes nothing before it.
pub proof fn law_teams_in_order(before: Seq<Seq<char>>, after: Seq<Seq<char>>)
    requires
        are_lines(before),
        are_lines(after),
    ensures
        codeowners_teams(written(before)).is_prefix_of(codeowners_teams(written(before + after))),
{
    let all = before + after;
    assert forall|k: int| 0 <= k < all.len() implies is_line(#[trigger] all[k]) by {
        if k < before.len() {
            assert(all[k] == before[k]);
        } else {
            assert(all[k] == after[k - before.len()]);
        }
    }
    law_lines_read_back(before);
    law_lines_read_back(all);
    law_owners_in_parts(before, after);
    law_distinct_order(owners(before), owners(after));
}

} // verus!
