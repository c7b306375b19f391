//! Text primitives: the views, searches and splits that the parsers are written with.
//!
//! A text is seen as its sequence of characters. Every function here
//! gives back whole characters, so none of them can cut a character in two.

use vstd::prelude::*;
use vstd::string::*;
use vstd::utf8::*;

verus! {

/// `String::push` appends one character to the end of the string.
pub assume_specification[ String::push ](s: &mut String, c: char)
    ensures
        final(s)@ == old(s)@.push(c),
;

/// The texts of a list of strings.
pub open spec fn views(strings: Seq<String>) -> Seq<Seq<char>> {
    Seq::new(strings.len(), |i: int| strings[i]@)
}

/// The text of a string that may be absent.
pub open spec fn opt_view(text: Option<String>) -> Option<Seq<char>> {
    match text {
        Some(s) => Some(s@),
        None => None,
    }
}

/// The text of a string slice that may be absent.
pub open spec fn opt_str_view(text: Option<&str>) -> Option<Seq<char>> {
    match text {
        Some(s) => Some(s@),
        None => None,
    }
}

/// Every character of a text is ASCII.
pub open spec fn all_ascii(s: Seq<char>) -> bool {
    forall|i: int| 0 <= i < s.len() ==> #[trigger] s[i] <= '\u{7f}'
}

/// The order of texts: by the first character in which they differ, a text before
/// its longer continuations.
pub open spec fn text_less(a: Seq<char>, b: Seq<char>) -> bool
    decreases a.len(),
{
    if b.len() == 0 {
        false
    } else if a.len() == 0 {
        true
    } else if a[0] != b[0] {
        a[0] < b[0]
    } else {
        text_less(a.skip(1), b.skip(1))
    }
}

/// A class of characters that a scan stops at or strips.
#[derive(Clone, Copy)]
pub enum CharClass {
    /// Unicode white space (the `White_Space` property).
    Space,
    /// Everything but white space.
    NotSpace,
    /// One given character.
    Is(char),
    /// The characters that open a version constraint of a Python requirement.
    VersionMark,
}

/// The `White_Space` property of Unicode.
pub open spec fn is_space(c: char) -> bool {
    ||| '\u{9}' <= c <= '\u{d}'
    ||| c == ' '
    ||| c == '\u{85}'
    ||| c == '\u{a0}'
    ||| c == '\u{1680}'
    ||| '\u{2000}' <= c <= '\u{200a}'
    ||| c == '\u{2028}'
    ||| c == '\u{2029}'
    ||| c == '\u{202f}'
    ||| c == '\u{205f}'
    ||| c == '\u{3000}'
}

impl CharClass {
    /// Whether the class holds the character.
    pub open spec fn has(self, c: char) -> bool {
        match self {
            CharClass::Space => is_space(c),
            CharClass::NotSpace => !is_space(c),
            CharClass::Is(d) => c == d,
            CharClass::VersionMark => c == '=' || c == '>' || c == '<' || c == '~' || c == '!',
        }
    }

    /// Decides whether the class holds the character.
    pub fn holds(&self, c: char) -> (r: bool)
        ensures
            r == self.has(c),
    {
        match *self {
            CharClass::Space => space(c),
            CharClass::NotSpace => !space(c),
            CharClass::Is(d) => c == d,
            CharClass::VersionMark => c == '=' || c == '>' || c == '<' || c == '~' || c == '!',
        }
    }
}

fn space(c: char) -> (r: bool)
    ensures
        r == is_space(c),
{
    ('\u{9}' <= c && c <= '\u{d}') || c == ' ' || c == '\u{85}' || c == '\u{a0}' || c == '\u{1680}'
        || ('\u{2000}' <= c && c <= '\u{200a}') || c == '\u{2028}' || c == '\u{2029}' || c == '\u{202f}'
        || c == '\u{205f}' || c == '\u{3000}'
}

// ---------------------------------------------------------------------------
// Characters and strings
// ---------------------------------------------------------------------------

/// The characters of a text, in order.
pub fn chars_of(s: &str) -> (r: Vec<char>)
    ensures
        r@ == s@,
{
    let mut r: Vec<char> = Vec::new();
    for c in it: s.chars()
        invariant
            r@ == s@.take(it.index()),
            it.seq() == s@,
    {
        r.push(c);
    }
    r
}

/// The text made of the characters from `from` up to `to`.
pub fn text_between(chars: &Vec<char>, from: usize, to: usize) -> (r: String)
    requires
        from <= to <= chars@.len(),
    ensures
        r@ == chars@.subrange(from as int, to as int),
{
    let mut r = String::new();
    let mut i: usize = from;
    while i < to
        invariant
            from <= i <= to <= chars@.len(),
            r@ == chars@.subrange(from as int, i as int),
        decreases to - i,
    {
        r.push(chars[i]);
        i += 1;
        assert(chars@.subrange(from as int, i as int) =~= chars@.subrange(from as int, i - 1).push(
            chars@[i - 1],
        ));
    }
    r
}

/// Whether two texts are the same.
pub fn same(a: &str, b: &str) -> (r: bool)
    ensures
        r == (a@ == b@),
{
    a.to_owned() == b.to_owned()
}

/// Whether a text has no characters.
pub fn is_empty(s: &str) -> (r: bool)
    ensures
        r == (s@.len() == 0),
{
    proof {
        reveal_strlit("");
        assert(s@.len() == 0 ==> s@ =~= ""@);
    }
    same(s, "")
}

/// Whether a text that may be absent is the given one.
pub fn is_some_text(a: &Option<String>, b: &str) -> (r: bool)
    ensures
        r == (opt_view(*a) == Some(b@)),
{
    match a {
        Some(s) => same(s.as_str(), b),
        None => false,
    }
}

/// Whether `s` begins with `prefix`.
pub fn starts_with(s: &str, prefix: &str) -> (r: bool)
    ensures
        r == prefix@.is_prefix_of(s@),
{
    let c = chars_of(s);
    let p = chars_of(prefix);
    if p.len() > c.len() {
        return false;
    }
    matches_at(&c, &p, 0)
}

/// Whether `s` ends with `suffix`.
pub fn ends_with(s: &str, suffix: &str) -> (r: bool)
    ensures
        r == suffix@.is_suffix_of(s@),
{
    let c = chars_of(s);
    let p = chars_of(suffix);
    if p.len() > c.len() {
        return false;
    }
    matches_at(&c, &p, c.len() - p.len())
}

/// `part` stands in `s` at the position `at`.
pub open spec fn stands_at(s: Seq<char>, part: Seq<char>, at: int) -> bool {
    0 <= at && at + part.len() <= s.len() && s.subrange(at, at + part.len()) == part
}

/// `part` stands somewhere in `s`.
pub open spec fn has_part(s: Seq<char>, part: Seq<char>) -> bool {
    exists|at: int| #[trigger] stands_at(s, part, at)
}

fn matches_at(s: &Vec<char>, part: &Vec<char>, at: usize) -> (r: bool)
    requires
        at + part@.len() <= s@.len(),
    ensures
        r == stands_at(s@, part@, at as int),
{
    let len: usize = s.len();
    let mut i: usize = 0;
    while i < part.len()
        invariant
            i <= part@.len(),
            at + part@.len() <= s@.len(),
            s@.len() == len,
            forall|k: int| 0 <= k < i ==> s@[at + k] == part@[k],
        decreases part@.len() - i,
    {
        if s[at + i] != part[i] {
            assert(s@.subrange(at as int, at + part@.len())[i as int] != part@[i as int]);
            return false;
        }
        i += 1;
    }
    assert(s@.subrange(at as int, at + part@.len()) =~= part@);
    true
}

/// Whether `part` stands somewhere in `s`.
pub fn contains(s: &str, part: &str) -> (r: bool)
    ensures
        r == has_part(s@, part@),
{
    let c = chars_of(s);
    let p = chars_of(part);
    if p.len() > c.len() {
        return false;
    }
    let last: usize = c.len() - p.len();
    let mut i: usize = 0;
    while i <= last
        invariant
            c@ == s@,
            p@ == part@,
            last + p@.len() == c@.len(),
            i <= last + 1,
            forall|k: int| 0 <= k < i ==> !#[trigger] stands_at(s@, part@, k),
        decreases last + 1 - i,
    {
        if matches_at(&c, &p, i) {
            return true;
        }
        if i == last {
            assert forall|k: int| !#[trigger] stands_at(s@, part@, k) by {
                if 0 <= k && k + part@.len() <= s@.len() {
                    assert(k <= last);
                }
            }
            return false;
        }
        i += 1;
    }
    false
}

// ---------------------------------------------------------------------------
// Scanning
// ---------------------------------------------------------------------------

/// The number of characters before the first one of the class.
pub open spec fn span(s: Seq<char>, class: CharClass) -> nat
    decreases s.len(),
{
    if s.len() == 0 || class.has(s[0]) {
        0
    } else {
        1 + span(s.skip(1), class)
    }
}

/// `span` is the position of the first character of the class, or the length.
pub proof fn lemma_span(s: Seq<char>, class: CharClass)
    ensures
        span(s, class) <= s.len(),
        forall|i: int| 0 <= i < span(s, class) ==> !class.has(#[trigger] s[i]),
        span(s, class) < s.len() ==> class.has(s[span(s, class) as int]),
    decreases s.len(),
{
    if s.len() > 0 && !class.has(s[0]) {
        let rest = s.skip(1);
        lemma_span(rest, class);
        assert forall|i: int| 0 <= i < span(s, class) implies !class.has(#[trigger] s[i]) by {
            if i > 0 {
                assert(rest[i - 1] == s[i]);
            }
        }
        if span(s, class) < s.len() {
            assert(rest[span(rest, class) as int] == s[span(s, class) as int]);
        }
    }
}

/// A position with those properties is `span`.
pub proof fn lemma_span_is(s: Seq<char>, class: CharClass, n: nat)
    requires
        n <= s.len(),
        forall|i: int| 0 <= i < n ==> !class.has(#[trigger] s[i]),
        n < s.len() ==> class.has(s[n as int]),
    ensures
        span(s, class) == n,
{
    lemma_span(s, class);
    let m = span(s, class);
    if m < n {
        assert(!class.has(s[m as int]));
    } else if n < m {
        assert(!class.has(s[n as int]));
    }
}

/// The first position from `from` on that holds a character of the class, or the length.
pub fn find_from(chars: &Vec<char>, from: usize, class: CharClass) -> (r: usize)
    requires
        from <= chars@.len(),
    ensures
        from <= r <= chars@.len(),
        r == from + span(chars@.skip(from as int), class),
{
    let mut i: usize = from;
    while i < chars.len()
        invariant_except_break
            from <= i <= chars@.len(),
            forall|k: int| from <= k < i ==> !class.has(#[trigger] chars@[k]),
        ensures
            from <= i <= chars@.len(),
            forall|k: int| from <= k < i ==> !class.has(#[trigger] chars@[k]),
            i < chars@.len() ==> class.has(chars@[i as int]),
        decreases chars@.len() - i,
    {
        if class.holds(chars[i]) {
            break;
        }
        i += 1;
    }
    proof {
        let rest = chars@.skip(from as int);
        assert forall|k: int| 0 <= k < i - from implies !class.has(#[trigger] rest[k]) by {
            assert(rest[k] == chars@[from + k]);
        }
        lemma_span_is(rest, class, (i - from) as nat);
    }
    i
}

/// What is left of `s` once its leading characters of the class are gone.
pub open spec fn strip_front(s: Seq<char>, class: CharClass) -> Seq<char>
    decreases s.len(),
{
    if s.len() > 0 && class.has(s[0]) {
        strip_front(s.skip(1), class)
    } else {
        s
    }
}

/// What is left of `s` once its trailing characters of the class are gone.
pub open spec fn strip_back(s: Seq<char>, class: CharClass) -> Seq<char>
    decreases s.len(),
{
    if s.len() > 0 && class.has(s.last()) {
        strip_back(s.drop_last(), class)
    } else {
        s
    }
}

/// What is left of `s` once the characters of the class are gone from both ends.
pub open spec fn strip(s: Seq<char>, class: CharClass) -> Seq<char> {
    strip_back(strip_front(s, class), class)
}

/// `s` without the white space at its ends.
pub open spec fn trimmed(s: Seq<char>) -> Seq<char> {
    strip(s, CharClass::Space)
}

proof fn lemma_strip_front(s: Seq<char>, class: CharClass)
    ensures
        forall|i: int|
            0 <= i < strip_front(s, class).len() ==> s.contains(#[trigger] strip_front(s, class)[i]),
        strip_front(s, class).len() > 0 ==> !class.has(strip_front(s, class)[0]),
    decreases s.len(),
{
    if s.len() > 0 && class.has(s[0]) {
        let rest = s.skip(1);
        lemma_strip_front(rest, class);
        assert forall|i: int| 0 <= i < strip_front(s, class).len() implies s.contains(
            #[trigger] strip_front(s, class)[i],
        ) by {
            assert(rest.contains(strip_front(rest, class)[i]));
            let k = choose|k: int| 0 <= k < rest.len() && rest[k] == strip_front(rest, class)[i];
            assert(s[k + 1] == rest[k]);
        }
    }
}

/// Stripping the back of a text leaves a part in front, which does not end in the class.
pub proof fn lemma_strip_back(s: Seq<char>, class: CharClass)
    ensures
        strip_back(s, class).is_prefix_of(s),
        strip_back(s, class).len() > 0 ==> !class.has(strip_back(s, class).last()),
    decreases s.len(),
{
    if s.len() > 0 && class.has(s.last()) {
        lemma_strip_back(s.drop_last(), class);
    }
}

/// A stripped text has characters of the text only, none of the class at its ends, and
/// nothing left to strip.
pub proof fn lemma_strip(s: Seq<char>, class: CharClass)
    ensures
        forall|i: int|
            0 <= i < strip(s, class).len() ==> s.contains(#[trigger] strip(s, class)[i]),
        strip(s, class).len() > 0 ==> !class.has(strip(s, class)[0]) && !class.has(
            strip(s, class).last(),
        ),
        strip(strip(s, class), class) == strip(s, class),
{
    let front = strip_front(s, class);
    let both = strip_back(front, class);
    lemma_strip_front(s, class);
    lemma_strip_back(front, class);
    assert forall|i: int| 0 <= i < both.len() implies s.contains(#[trigger] both[i]) by {
        assert(both[i] == front[i]);
        assert(s.contains(front[i]));
    }
    if both.len() > 0 {
        assert(both[0] == front[0]);
    }
}

proof fn lemma_front_push(s: Seq<char>, class: CharClass, c: char)
    requires
        class.has(c),
    ensures
        strip_front(s.push(c), class) == (if strip_front(s, class).len() == 0 {
            Seq::empty()
        } else {
            strip_front(s, class).push(c)
        }),
    decreases s.len(),
{
    let more = s.push(c);
    if s.len() == 0 {
        assert(more.skip(1) =~= Seq::empty());
        assert(strip_front(more.skip(1), class) =~= Seq::empty());
    } else if class.has(s[0]) {
        lemma_front_push(s.skip(1), class, c);
        assert(more.skip(1) =~= s.skip(1).push(c));
    }
}

/// A character of the class at the end of a text is stripped away.
pub proof fn lemma_strip_push(s: Seq<char>, class: CharClass, c: char)
    requires
        class.has(c),
    ensures
        strip(s.push(c), class) == strip(s, class),
{
    let front = strip_front(s, class);
    lemma_front_push(s, class, c);
    if front.len() == 0 {
        assert(front =~= Seq::empty());
    } else {
        assert(front.push(c).drop_last() =~= front);
    }
}

fn front_of(chars: &Vec<char>, class: CharClass) -> (r: usize)
    ensures
        r <= chars@.len(),
        strip_front(chars@, class) == chars@.skip(r as int),
{
    let mut i: usize = 0;
    assert(chars@.skip(0) =~= chars@);
    while i < chars.len() && class.holds(chars[i])
        invariant
            i <= chars@.len(),
            strip_front(chars@, class) == strip_front(chars@.skip(i as int), class),
        decreases chars@.len() - i,
    {
        assert(chars@.skip(i as int).skip(1) =~= chars@.skip(i + 1));
        assert(chars@.skip(i as int)[0] == chars@[i as int]);
        i += 1;
    }
    proof {
        if i < chars@.len() {
            assert(chars@.skip(i as int)[0] == chars@[i as int]);
        }
    }
    i
}

fn back_of(chars: &Vec<char>, from: usize, class: CharClass) -> (r: usize)
    requires
        from <= chars@.len(),
    ensures
        from <= r <= chars@.len(),
        strip_back(chars@.skip(from as int), class) == chars@.subrange(from as int, r as int),
{
    let mut j: usize = chars.len();
    assert(chars@.skip(from as int) =~= chars@.subrange(from as int, j as int));
    while j > from && class.holds(chars[j - 1])
        invariant
            from <= j <= chars@.len(),
            strip_back(chars@.skip(from as int), class) == strip_back(
                chars@.subrange(from as int, j as int),
                class,
            ),
        decreases j,
    {
        let ghost piece = chars@.subrange(from as int, j as int);
        assert(piece.last() == chars@[j - 1]);
        assert(piece.drop_last() =~= chars@.subrange(from as int, j - 1));
        j -= 1;
    }
    proof {
        let piece = chars@.subrange(from as int, j as int);
        if j > from {
            assert(piece.last() == chars@[j - 1]);
        }
    }
    j
}

/// Removes the characters of the class from both ends.
pub fn strip_ends(s: &str, class: CharClass) -> (r: String)
    ensures
        r@ == strip(s@, class),
{
    let c = chars_of(s);
    let i = front_of(&c, class);
    let j = back_of(&c, i, class);
    text_between(&c, i, j)
}

/// Removes the characters of the class from the front.
pub fn strip_start(s: &str, class: CharClass) -> (r: String)
    ensures
        r@ == strip_front(s@, class),
{
    let c = chars_of(s);
    let i = front_of(&c, class);
    assert(c@.skip(i as int) =~= c@.subrange(i as int, c@.len() as int));
    text_between(&c, i, c.len())
}

/// Removes the white space at both ends.
pub fn trim(s: &str) -> (r: String)
    ensures
        r@ == trimmed(s@),
{
    strip_ends(s, CharClass::Space)
}

// ---------------------------------------------------------------------------
// Splitting
// ---------------------------------------------------------------------------

/// A line without the carriage return that stood before its line feed.
pub open spec fn without_cr(line: Seq<char>) -> Seq<char> {
    if line.len() > 0 && line.last() == '\r' {
        line.drop_last()
    } else {
        line
    }
}

/// The lines of a text. A line ends in a line feed, with or without a carriage
/// return before it; the last line may go without.
pub open spec fn lines_of(s: Seq<char>) -> Seq<Seq<char>>
    decreases s.len(),
{
    if s.len() == 0 {
        Seq::empty()
    } else {
        let n = span(s, CharClass::Is('\n'));
        if n >= s.len() {
            seq![s]
        } else {
            seq![without_cr(s.take(n as int))] + lines_of(s.skip(n as int + 1))
        }
    }
}

/// Splits a text into its lines.
pub fn lines(s: &str) -> (r: Vec<String>)
    ensures
        views(r@) == lines_of(s@),
{
    let c = chars_of(s);
    let mut out: Vec<String> = Vec::new();
    let mut i: usize = 0;
    proof {
        assert(c@.skip(0) =~= c@);
        assert(views(out@) =~= Seq::<Seq<char>>::empty());
        assert(views(out@) + lines_of(c@.skip(0)) =~= lines_of(s@));
    }
    while i < c.len()
        invariant
            c@ == s@,
            i <= c@.len(),
            views(out@) + lines_of(c@.skip(i as int)) == lines_of(s@),
        decreases c@.len() - i,
    {
        let ghost rest = c@.skip(i as int);
        let ghost before = views(out@);
        let j = find_from(&c, i, CharClass::Is('\n'));
        proof {
            lemma_span(rest, CharClass::Is('\n'));
        }
        if j < c.len() {
            let mut end: usize = j;
            if j > i && c[j - 1] == '\r' {
                end = j - 1;
            }
            let line = text_between(&c, i, end);
            proof {
                let whole = rest.take(j - i);
                if j > i {
                    assert(whole.last() == c@[j - 1]);
                }
                assert(line@ =~= without_cr(whole));
                assert(rest.skip(j - i + 1) =~= c@.skip(j + 1));
            }
            out.push(line);
            i = j + 1;
        } else {
            let line = text_between(&c, i, j);
            assert(line@ =~= rest);
            out.push(line);
            i = j;
            assert(c@.skip(i as int) =~= Seq::<char>::empty());
        }
        proof {
            assert(views(out@) =~= before.push(out@.last()@));
            assert(views(out@) + lines_of(c@.skip(i as int)) =~= before + lines_of(rest));
        }
    }
    proof {
        assert(c@.skip(i as int) =~= Seq::<char>::empty());
        assert(views(out@) =~= views(out@) + lines_of(c@.skip(i as int)));
    }
    out
}

/// The words of a text: its longest runs without white space.
pub open spec fn words_of(s: Seq<char>) -> Seq<Seq<char>>
    decreases s.len(),
{
    let t = s.skip(span(s, CharClass::NotSpace) as int);
    if t.len() == 0 || t.len() > s.len() {
        Seq::empty()
    } else {
        let n = span(t, CharClass::Space);
        if n == 0 || n > t.len() {
            Seq::empty()
        } else {
            seq![t.take(n as int)] + words_of(t.skip(n as int))
        }
    }
}

/// Splits a text into its words.
pub fn words(s: &str) -> (r: Vec<String>)
    ensures
        views(r@) == words_of(s@),
{
    let c = chars_of(s);
    let mut out: Vec<String> = Vec::new();
    let mut i: usize = 0;
    proof {
        assert(c@.skip(0) =~= c@);
        assert(views(out@) =~= Seq::<Seq<char>>::empty());
        assert(views(out@) + words_of(c@.skip(0)) =~= words_of(s@));
    }
    loop
        invariant
            c@ == s@,
            i <= c@.len(),
            views(out@) + words_of(c@.skip(i as int)) == words_of(s@),
        decreases c@.len() - i,
    {
        let ghost rest = c@.skip(i as int);
        let ghost before = views(out@);
        let a = find_from(&c, i, CharClass::NotSpace);
        proof {
            lemma_span(rest, CharClass::NotSpace);
            assert(rest.skip(a - i) =~= c@.skip(a as int));
        }
        if a == c.len() {
            assert(words_of(rest) =~= Seq::<Seq<char>>::empty());
            assert(views(out@) =~= before + words_of(rest));
            return out;
        }
        let b = find_from(&c, a, CharClass::Space);
        let ghost tail = c@.skip(a as int);
        proof {
            lemma_span(tail, CharClass::Space);
            assert(rest[a - i] == tail[0]);
            assert(b > a);
            assert(tail.skip(b - a) =~= c@.skip(b as int));
        }
        let word = text_between(&c, a, b);
        assert(word@ =~= tail.take(b - a));
        out.push(word);
        i = b;
        proof {
            assert(views(out@) =~= before.push(out@.last()@));
            assert(views(out@) + words_of(c@.skip(i as int)) =~= before + words_of(rest));
        }
    }
}

/// The part of `s` before the first character of the class, and the part behind
/// it, if there is such a character.
pub open spec fn cut_at(s: Seq<char>, class: CharClass) -> Option<(Seq<char>, Seq<char>)> {
    let n = span(s, class);
    if n < s.len() {
        Some((s.take(n as int), s.skip(n as int + 1)))
    } else {
        None
    }
}

/// Cuts a text at the first character of the class.
pub fn split_once(s: &str, class: CharClass) -> (r: Option<(String, String)>)
    ensures
        match r {
            Some(pair) => cut_at(s@, class) == Some((pair.0@, pair.1@)),
            None => cut_at(s@, class) is None,
        },
{
    let c = chars_of(s);
    let n = find_from(&c, 0, class);
    proof {
        assert(c@.skip(0) =~= c@);
    }
    if n < c.len() {
        let head = text_between(&c, 0, n);
        let tail = text_between(&c, n + 1, c.len());
        proof {
            assert(head@ =~= s@.take(n as int));
            assert(tail@ =~= s@.skip(n + 1));
        }
        Some((head, tail))
    } else {
        None
    }
}

/// The part of a text before the first character of the class, or all of it.
pub fn before(s: &str, class: CharClass) -> (r: String)
    ensures
        r@ == s@.take(span(s@, class) as int),
{
    let c = chars_of(s);
    let n = find_from(&c, 0, class);
    proof {
        assert(c@.skip(0) =~= c@);
        assert(s@.take(n as int) =~= c@.subrange(0, n as int));
    }
    text_between(&c, 0, n)
}

/// The first characters of a text, `n` at most.
pub open spec fn head_of(s: Seq<char>, n: nat) -> Seq<char> {
    if n <= s.len() {
        s.take(n as int)
    } else {
        s
    }
}

/// The first characters of a text, `n` at most.
pub fn head(s: &str, n: usize) -> (r: String)
    ensures
        r@ == head_of(s@, n as nat),
{
    let c = chars_of(s);
    if n <= c.len() {
        assert(c@.subrange(0, n as int) =~= c@.take(n as int));
        text_between(&c, 0, n)
    } else {
        s.to_owned()
    }
}

// ---------------------------------------------------------------------------
// Byte lengths
// ---------------------------------------------------------------------------

/// The number of bytes of a character in UTF-8.
pub open spec fn width(c: char) -> nat {
    if c <= '\u{7f}' {
        1
    } else if c <= '\u{7ff}' {
        2
    } else if c <= '\u{ffff}' {
        3
    } else {
        4
    }
}

/// The number of bytes of a text in UTF-8.
pub open spec fn byte_len(s: Seq<char>) -> nat
    decreases s.len(),
{
    if s.len() == 0 {
        0
    } else {
        width(s[0]) + byte_len(s.skip(1))
    }
}

/// What follows the first `n` bytes of a text, unless they end inside a character or
/// are more than it has.
pub open spec fn behind_bytes(s: Seq<char>, n: nat) -> Option<Seq<char>>
    decreases s.len(),
{
    if n == 0 {
        Some(s)
    } else if s.len() == 0 || width(s[0]) > n {
        None
    } else {
        behind_bytes(s.skip(1), (n - width(s[0])) as nat)
    }
}

proof fn lemma_width(c: char)
    ensures
        encode_scalar(c as u32).len() == width(c),
{
    char_is_scalar(c);
}

proof fn lemma_byte_len(s: Seq<char>)
    ensures
        byte_len(s) == encode_utf8(s).len(),
    decreases s.len(),
{
    if s.len() > 0 {
        assert(s.drop_first() =~= s.skip(1));
        lemma_byte_len(s.skip(1));
        lemma_width(s[0]);
    }
}

/// The number of bytes of a text in UTF-8.
pub fn byte_count(s: &str) -> (r: usize)
    ensures
        r == byte_len(s@),
{
    proof {
        lemma_byte_len(s@);
    }
    s.as_bytes().len()
}

fn char_width(c: char) -> (r: usize)
    ensures
        r == width(c),
        1 <= r <= 4,
{
    if c <= '\u{7f}' {
        1
    } else if c <= '\u{7ff}' {
        2
    } else if c <= '\u{ffff}' {
        3
    } else {
        4
    }
}

/// What follows the first `n` bytes of a text, unless they end inside a character or
/// are more than it has.
pub fn skip_bytes(s: &str, n: usize) -> (r: Option<String>)
    ensures
        opt_view(r) == behind_bytes(s@, n as nat),
{
    let c = chars_of(s);
    let mut left: usize = n;
    let mut i: usize = 0;
    assert(c@.skip(0) =~= c@);
    while left > 0
        invariant
            i <= c@.len(),
            behind_bytes(c@, n as nat) == behind_bytes(c@.skip(i as int), left as nat),
            c@ == s@,
        decreases left,
    {
        if i >= c.len() {
            return None;
        }
        let w: usize = char_width(c[i]);
        if w > left {
            return None;
        }
        assert(c@.skip(i as int).skip(1) =~= c@.skip(i + 1));
        left -= w;
        i += 1;
    }
    assert(c@.skip(i as int) =~= c@.subrange(i as int, c@.len() as int));
    Some(text_between(&c, i, c.len()))
}

// ---------------------------------------------------------------------------
// Laws
// ---------------------------------------------------------------------------

/// A text that is one line: it has no line feed, and does not end in a carriage return.
pub open spec fn is_line(s: Seq<char>) -> bool {
    !s.contains('\n') && (s.len() > 0 ==> s.last() != '\r')
}

/// Each of the texts is one line.
pub open spec fn are_lines(lines: Seq<Seq<char>>) -> bool {
    forall|i: int| 0 <= i < lines.len() ==> is_line(#[trigger] lines[i])
}

/// The text that is written by ending each of the lines with a line feed.
pub open spec fn written(lines: Seq<Seq<char>>) -> Seq<char>
    decreases lines.len(),
{
    if lines.len() == 0 {
        Seq::empty()
    } else {
        lines[0] + seq!['\n'] + written(lines.skip(1))
    }
}

/// Lines that were written are read back.
pub proof fn law_lines_read_back(lines: Seq<Seq<char>>)
    requires
        are_lines(lines),
    ensures
        lines_of(written(lines)) == lines,
    decreases lines.len(),
{
    if lines.len() > 0 {
        let line = lines[0];
        let rest = lines.skip(1);
        assert forall|i: int| 0 <= i < rest.len() implies is_line(#[trigger] rest[i]) by {
            assert(is_line(lines[i + 1]));
        }
        law_lines_read_back(rest);
        let all = written(lines);
        let n = line.len() as int;
        assert(is_line(line));
        assert forall|i: int| 0 <= i < n implies !CharClass::Is('\n').has(#[trigger] all[i]) by {
            assert(all[i] == line[i]);
            assert(line.contains(line[i]));
        }
        lemma_span_is(all, CharClass::Is('\n'), n as nat);
        assert(all.take(n) =~= line);
        assert(all.skip(n + 1) =~= written(rest));
        assert(seq![line] + rest =~= lines);
    }
}

/// Each character of a text is white space.
pub open spec fn is_blank(s: Seq<char>) -> bool {
    forall|i: int| 0 <= i < s.len() ==> is_space(#[trigger] s[i])
}

/// A text is a word: it is not empty, and has no white space.
pub open spec fn is_word(s: Seq<char>) -> bool {
    s.len() > 0 && forall|i: int| 0 <= i < s.len() ==> !is_space(#[trigger] s[i])
}

/// A text is not empty, and neither begins nor ends with white space.
pub open spec fn is_trim(s: Seq<char>) -> bool {
    s.len() > 0 && !is_space(s[0]) && !is_space(s.last())
}

/// A word is the one word of itself, and a text of white space has none.
pub proof fn law_one_word(s: Seq<char>)
    ensures
        is_word(s) ==> words_of(s) == seq![s],
        is_blank(s) ==> words_of(s) == Seq::<Seq<char>>::empty(),
{
    if is_word(s) {
        lemma_span_is(s, CharClass::NotSpace, 0);
        assert(s.skip(0) =~= s);
        lemma_span_is(s, CharClass::Space, s.len());
        assert(s.take(s.len() as int) =~= s);
        let none = s.skip(s.len() as int);
        assert(none =~= Seq::empty());
        assert(words_of(none) =~= Seq::empty());
        assert(seq![s] + words_of(none) =~= seq![s]);
    }
    if is_blank(s) {
        lemma_span_is(s, CharClass::NotSpace, s.len());
        assert(s.skip(s.len() as int).len() == 0);
        assert(words_of(s) =~= Seq::empty());
    }
}

/// White space parts words: the words of a text are those before a character of white space,
/// and then those behind it.
pub proof fn law_words_part(a: Seq<char>, c: char, b: Seq<char>)
    requires
        is_space(c),
    ensures
        words_of(a.push(c) + b) == words_of(a) + words_of(b),
    decreases a.len(),
{
    let all = a.push(c) + b;
    let n = span(a, CharClass::NotSpace) as int;
    lemma_span(a, CharClass::NotSpace);
    if n == a.len() {
        assert(words_of(a) =~= Seq::empty()) by {
            assert(a.skip(n).len() == 0);
        }
        let m = span(b, CharClass::NotSpace);
        lemma_span(b, CharClass::NotSpace);
        let k = n + 1 + m;
        assert forall|i: int| 0 <= i < k implies !CharClass::NotSpace.has(#[trigger] all[i]) by {
            if i < n {
                assert(all[i] == a[i]);
            } else if i > n {
                assert(all[i] == b[i - n - 1]);
            }
        }
        if k < all.len() {
            assert(all[k] == b[m as int]);
        }
        lemma_span_is(all, CharClass::NotSpace, k as nat);
        assert(all.skip(k) =~= b.skip(m as int));
        assert(words_of(a) + words_of(b) =~= words_of(b));
        assert(words_of(all) =~= words_of(b));
    } else {
        let t = a.skip(n);
        let m = span(t, CharClass::Space) as int;
        lemma_span(t, CharClass::Space);
        assert(t[0] == a[n]);
        assert forall|i: int| 0 <= i < n implies !CharClass::NotSpace.has(#[trigger] all[i]) by {
            assert(all[i] == a[i]);
        }
        assert(all[n] == a[n]);
        lemma_span_is(all, CharClass::NotSpace, n as nat);
        let u = all.skip(n);
        assert(u =~= t.push(c) + b);
        assert forall|i: int| 0 <= i < m implies !CharClass::Space.has(#[trigger] u[i]) by {
            assert(u[i] == t[i]);
        }
        assert(m < t.len() ==> u[m] == t[m]);
        assert(m == t.len() ==> u[m] == c);
        lemma_span_is(u, CharClass::Space, m as nat);
        assert(u.take(m) =~= t.take(m));
        let rest = t.skip(m);
        law_words_part(rest, c, b);
        assert(u.skip(m) =~= rest.push(c) + b);
        assert(seq![t.take(m)] + (words_of(rest) + words_of(b)) =~= (seq![t.take(m)] + words_of(
            rest,
        )) + words_of(b));
    }
}

/// Stripping the front of a text takes the characters of the class there, and no other.
pub proof fn law_strip_front(front: Seq<char>, s: Seq<char>, class: CharClass)
    requires
        forall|i: int| 0 <= i < front.len() ==> class.has(#[trigger] front[i]),
        s.len() > 0 ==> !class.has(s[0]),
    ensures
        strip_front(front + s, class) == s,
    decreases front.len(),
{
    let all = front + s;
    if front.len() > 0 {
        assert(all[0] == front[0]);
        assert(all.skip(1) =~= front.skip(1) + s);
        assert forall|i: int| 0 <= i < front.skip(1).len() implies class.has(
            #[trigger] front.skip(1)[i],
        ) by {
            assert(front.skip(1)[i] == front[i + 1]);
        }
        law_strip_front(front.skip(1), s, class);
    } else {
        assert(all =~= s);
    }
}

proof fn lemma_back_gone(s: Seq<char>, back: Seq<char>, class: CharClass)
    requires
        forall|i: int| 0 <= i < back.len() ==> class.has(#[trigger] back[i]),
        s.len() > 0 ==> !class.has(s.last()),
    ensures
        strip_back(s + back, class) == s,
    decreases back.len(),
{
    let all = s + back;
    if back.len() > 0 {
        assert(all.last() == back.last());
        assert(all.drop_last() =~= s + back.drop_last());
        lemma_back_gone(s, back.drop_last(), class);
    } else {
        assert(all =~= s);
    }
}

/// Stripping takes the characters of the class from both ends of a text, and no other.
pub proof fn law_strip(front: Seq<char>, s: Seq<char>, back: Seq<char>, class: CharClass)
    requires
        forall|i: int| 0 <= i < front.len() ==> class.has(#[trigger] front[i]),
        forall|i: int| 0 <= i < back.len() ==> class.has(#[trigger] back[i]),
        s.len() > 0 ==> !class.has(s[0]) && !class.has(s.last()),
    ensures
        strip(front + s + back, class) == s,
        strip_front(front + s, class) == s,
{
    law_strip_front(front, s, class);
    if s.len() == 0 {
        let all = front + back;
        assert(front + s + back =~= all + s);
        assert forall|i: int| 0 <= i < all.len() implies class.has(#[trigger] all[i]) by {
            if i < front.len() {
                assert(all[i] == front[i]);
            } else {
                assert(all[i] == back[i - front.len()]);
            }
        }
        law_strip_front(all, s, class);
        assert(strip_back(s, class) =~= s);
    } else {
        assert(front + s + back =~= front + (s + back));
        assert((s + back)[0] == s[0]);
        law_strip_front(front, s + back, class);
        lemma_back_gone(s, back, class);
    }
}

/// Trimming takes the white space from both ends of a text, and nothing else.
pub proof fn law_trimmed(front: Seq<char>, s: Seq<char>, back: Seq<char>)
    requires
        is_blank(front),
        is_blank(back),
        s.len() > 0 ==> is_trim(s),
    ensures
        trimmed(front + s + back) == s,
        trimmed(s) == s,
{
    law_strip(front, s, back, CharClass::Space);
    law_strip(Seq::empty(), s, Seq::empty(), CharClass::Space);
    assert(Seq::<char>::empty() + s + Seq::<char>::empty() =~= s);
}

/// A text is cut at the first character of a class: before it stands what has none, and
/// behind it all the rest.
pub proof fn law_cut(a: Seq<char>, c: char, b: Seq<char>, class: CharClass)
    requires
        class.has(c),
        forall|i: int| 0 <= i < a.len() ==> !class.has(#[trigger] a[i]),
    ensures
        cut_at(a.push(c) + b, class) == Some((a, b)),
        cut_at(a, class) is None,
        span(a.push(c) + b, class) == a.len(),
        span(a, class) == a.len(),
{
    let all = a.push(c) + b;
    assert forall|i: int| 0 <= i < a.len() implies !class.has(#[trigger] all[i]) by {
        assert(all[i] == a[i]);
    }
    lemma_span_is(all, class, a.len());
    lemma_span_is(a, class, a.len());
    assert(all.take(a.len() as int) =~= a);
    assert(all.skip(a.len() as int + 1) =~= b);
}

/// The head of a text is the part in front: as long as asked for, or all of a text that is
/// shorter.
pub proof fn law_head(s: Seq<char>, n: nat)
    ensures
        head_of(s, n).is_prefix_of(s),
        head_of(s, n).len() == if s.len() < n {
            s.len()
        } else {
            n
        },
{
}

/// The bytes of a text are those of its parts, and what follows the bytes of the first part
/// is the second.
pub proof fn law_bytes(a: Seq<char>, b: Seq<char>)
    ensures
        byte_len(a + b) == byte_len(a) + byte_len(b),
        behind_bytes(a + b, byte_len(a)) == Some(b),
        a.len() <= byte_len(a) <= 4 * a.len(),
    decreases a.len(),
{
    if a.len() > 0 {
        law_bytes(a.skip(1), b);
        assert((a + b).skip(1) =~= a.skip(1) + b);
        assert((a + b)[0] == a[0]);
    } else {
        assert(a + b =~= b);
    }
}

/// A list of strings is seen as it is: each of its texts, in order; and so is a text that may
/// be absent.
pub proof fn law_texts_seen(strings: Seq<String>, text: Option<String>, slice: Option<&str>)
    ensures
        views(strings).len() == strings.len(),
        forall|i: int| 0 <= i < strings.len() ==> #[trigger] views(strings)[i] == strings[i]@,
        match text {
            Some(inner) => opt_view(text) == Some(inner@),
            None => opt_view(text) is None,
        },
        match slice {
            Some(inner) => opt_str_view(slice) == Some(inner@),
            None => opt_str_view(slice) is None,
        },
{
}

/// The white space of ASCII is the blank and the characters from the tabulator to the carriage
/// return, and no other.
pub proof fn law_ascii_space(c: char)
    requires
        c <= '\u{7f}',
    ensures
        is_space(c) <==> c == ' ' || c == '\t' || c == '\n' || c == '\u{b}' || c == '\u{c}' || c
            == '\r',
{
}

/// Texts are ordered by the first character in which they differ, and a text stands before what
/// continues it.
pub proof fn law_text_order(front: Seq<char>, a: Seq<char>, b: Seq<char>)
    ensures
        text_less(front + a, front + b) <==> text_less(a, b),
        a.len() > 0 && b.len() > 0 && a[0] != b[0] ==> (text_less(a, b) <==> a[0] < b[0]),
        b.len() > 0 ==> text_less(front, front + b),
        !text_less(front + b, front),
    decreases front.len(),
{
    if front.len() > 0 {
        let rest = front.skip(1);
        law_text_order(rest, a, b);
        assert((front + a).skip(1) =~= rest + a);
        assert((front + b).skip(1) =~= rest + b);
    } else {
        assert(front + a =~= a);
        assert(front + b =~= b);
    }
}

/// A line may end in a carriage return and a line feed, which are no part of it; the last one
/// may go without; and a line feed at the end of a text begins no further line.
pub proof fn law_line_ends(line: Seq<char>, rest: Seq<char>)
    requires
        is_line(line),
    ensures
        lines_of(line + seq!['\n'] + rest) == seq![line] + lines_of(rest),
        lines_of(line + seq!['\r', '\n'] + rest) == seq![line] + lines_of(rest),
        line.len() > 0 ==> lines_of(line) == seq![line],
        lines_of(Seq::empty()).len() == 0,
{
    let feed = CharClass::Is('\n');
    let n = line.len() as int;
    assert forall|i: int| 0 <= i < n implies !feed.has(#[trigger] line[i]) by {
        assert(line.contains(line[i]));
    }
    lemma_span_is(line, feed, line.len());
    let plain = line + seq!['\n'] + rest;
    assert forall|i: int| 0 <= i < n implies !feed.has(#[trigger] plain[i]) by {
        assert(plain[i] == line[i]);
    }
    lemma_span_is(plain, feed, line.len());
    assert(plain.take(n) =~= line);
    assert(plain.skip(n + 1) =~= rest);
    let returned = line + seq!['\r', '\n'] + rest;
    assert forall|i: int| 0 <= i < n + 1 implies !feed.has(#[trigger] returned[i]) by {
        if i < n {
            assert(returned[i] == line[i]);
        }
    }
    lemma_span_is(returned, feed, (n + 1) as nat);
    assert(returned.take(n + 1).drop_last() =~= line);
    assert(returned.skip(n + 2) =~= rest);
}

} // verus!
