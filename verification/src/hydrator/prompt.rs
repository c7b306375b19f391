//! The context bundle as a supplement to the system prompt.

use vstd::prelude::*;
use vstd::string::*;

use crate::hydrator::{
    doc_views, item_views, owner_views, test_views, CodeContextItem, CodeItemView, ContextHydrator,
    DocContextItem, DocItemView, HydratedContext, OwnerView, OwnershipItem, TestContextItem,
    TestView,
};
use crate::text::{opt_view, stands_at};

verus! {

/// The channel of an owner, in brackets, if there is one.
pub open spec fn channel_text(channel: Option<Seq<char>>) -> Seq<char> {
    match channel {
        Some(channel) => " ("@ + channel + ")"@,
        None => ""@,
    }
}

fn show_channel(channel: &Option<String>) -> (r: String)
    ensures
        r@ == channel_text(opt_view(*channel)),
{
    match channel {
        Some(channel) => {
            let mut text = " (".to_owned();
            text.append(channel.as_str());
            text.append(")");
            text
        },
        None => "".to_owned(),
    }
}

/// The line for a code file.
pub open spec fn code_line(item: CodeItemView) -> Seq<char> {
    "- `"@ + item.file_path + "` ("@ + item.language + ", relevance: "@ + item.relevance.shown()
        + "): "@ + item.snippet + "\n"@
}

/// The lines of a list of such items.
pub open spec fn code_lines(items: Seq<CodeItemView>) -> Seq<char>
    decreases items.len(),
{
    if items.len() == 0 {
        Seq::empty()
    } else {
        code_lines(items.drop_last()) + code_line(items.last())
    }
}

/// The section of such items: nothing if there are none.
pub open spec fn code_section(items: Seq<CodeItemView>) -> Seq<char> {
    if items.len() == 0 {
        Seq::empty()
    } else {
        "## Relevant Code Files\n"@ + code_lines(items)
    }
}

fn show_code(item: &CodeContextItem) -> (r: String)
    ensures
        r@ == code_line(item@),
{
    let mut text = "- `".to_owned();
    text.append(item.file_path.as_str());
    text.append("` (");
    text.append(item.language.as_str());
    text.append(", relevance: ");
    text.append(item.relevance.two_decimals().as_str());
    text.append("): ");
    text.append(item.snippet.as_str());
    text.append("\n");
    text
}

fn write_code_section(prompt: &mut String, items: &Vec<CodeContextItem>)
    ensures
        final(prompt)@ == old(prompt)@ + code_section(item_views(items@)),
{
    let ghost start = prompt@;
    let ghost all = item_views(items@);
    if items.len() == 0 {
        assert(start + code_section(all) =~= start);
        return;
    }
    prompt.append("## Relevant Code Files\n");
    let ghost head = "## Relevant Code Files\n"@;
    let mut i: usize = 0;
    assert(start + head + code_lines(all.take(0)) =~= start + head);
    while i < items.len()
        invariant
            i <= items@.len(),
            all == item_views(items@),
            prompt@ == start + head + code_lines(all.take(i as int)),
        decreases items@.len() - i,
    {
        let line = show_code(&items[i]);
        prompt.append(line.as_str());
        proof {
            let next = all.take(i + 1);
            assert(next.drop_last() =~= all.take(i as int));
            assert(next.last() == items@[i as int]@);
            assert(start + head + code_lines(all.take(i as int)) + line@ =~= start + head
                + code_lines(next));
        }
        i += 1;
    }
    assert(all.take(i as int) =~= all);
    assert(start + head + code_lines(all) =~= start + (head + code_lines(all)));
}

/// The line for a piece of documentation.
pub open spec fn doc_line(item: DocItemView) -> Seq<char> {
    "- **"@ + item.title + "** (from "@ + item.source + ", relevance: "@ + item.relevance.shown()
        + "): "@ + item.snippet + "\n"@
}

/// The lines of a list of such items.
pub open spec fn doc_lines(items: Seq<DocItemView>) -> Seq<char>
    decreases items.len(),
{
    if items.len() == 0 {
        Seq::empty()
    } else {
        doc_lines(items.drop_last()) + doc_line(items.last())
    }
}

/// The section of such items: nothing if there are none.
pub open spec fn doc_section(items: Seq<DocItemView>) -> Seq<char> {
    if items.len() == 0 {
        Seq::empty()
    } else {
        "\n## Relevant Documentation\n"@ + doc_lines(items)
    }
}

fn show_doc(item: &DocContextItem) -> (r: String)
    ensures
        r@ == doc_line(item@),
{
    let mut text = "- **".to_owned();
    text.append(item.title.as_str());
    text.append("** (from ");
    text.append(item.source.as_str());
    text.append(", relevance: ");
    text.append(item.relevance.two_decimals().as_str());
    text.append("): ");
    text.append(item.snippet.as_str());
    text.append("\n");
    text
}

fn write_doc_section(prompt: &mut String, items: &Vec<DocContextItem>)
    ensures
        final(prompt)@ == old(prompt)@ + doc_section(doc_views(items@)),
{
    let ghost start = prompt@;
    let ghost all = doc_views(items@);
    if items.len() == 0 {
        assert(start + doc_section(all) =~= start);
        return;
    }
    prompt.append("\n## Relevant Documentation\n");
    let ghost head = "\n## Relevant Documentation\n"@;
    let mut i: usize = 0;
    assert(start + head + doc_lines(all.take(0)) =~= start + head);
    while i < items.len()
        invariant
            i <= items@.len(),
            all == doc_views(items@),
            prompt@ == start + head + doc_lines(all.take(i as int)),
        decreases items@.len() - i,
    {
        let line = show_doc(&items[i]);
        prompt.append(line.as_str());
        proof {
            let next = all.take(i + 1);
            assert(next.drop_last() =~= all.take(i as int));
            assert(next.last() == items@[i as int]@);
            assert(start + head + doc_lines(all.take(i as int)) + line@ =~= start + head
                + doc_lines(next));
        }
        i += 1;
    }
    assert(all.take(i as int) =~= all);
    assert(start + head + doc_lines(all) =~= start + (head + doc_lines(all)));
}

/// The line for an owner.
pub open spec fn owner_line(item: OwnerView) -> Seq<char> {
    "- `"@ + item.entity + "` owned by **"@ + item.team + "**"@ + channel_text(item.slack_channel)
        + "\n"@
}

/// The lines of a list of such items.
pub open spec fn owner_lines(items: Seq<OwnerView>) -> Seq<char>
    decreases items.len(),
{
    if items.len() == 0 {
        Seq::empty()
    } else {
        owner_lines(items.drop_last()) + owner_line(items.last())
    }
}

/// The section of such items: nothing if there are none.
pub open spec fn owner_section(items: Seq<OwnerView>) -> Seq<char> {
    if items.len() == 0 {
        Seq::empty()
    } else {
        "\n## Code Ownership\n"@ + owner_lines(items)
    }
}

fn show_owner(item: &OwnershipItem) -> (r: String)
    ensures
        r@ == owner_line(item@),
{
    let mut text = "- `".to_owned();
    text.append(item.entity.as_str());
    text.append("` owned by **");
    text.append(item.team.as_str());
    text.append("**");
    text.append(show_channel(&item.slack_channel).as_str());
    text.append("\n");
    text
}

fn write_owner_section(prompt: &mut String, items: &Vec<OwnershipItem>)
    ensures
        final(prompt)@ == old(prompt)@ + owner_section(owner_views(items@)),
{
    let ghost start = prompt@;
    let ghost all = owner_views(items@);
    if items.len() == 0 {
        assert(start + owner_section(all) =~= start);
        return;
    }
    prompt.append("\n## Code Ownership\n");
    let ghost head = "\n## Code Ownership\n"@;
    let mut i: usize = 0;
    assert(start + head + owner_lines(all.take(0)) =~= start + head);
    while i < items.len()
        invariant
            i <= items@.len(),
            all == owner_views(items@),
            prompt@ == start + head + owner_lines(all.take(i as int)),
        decreases items@.len() - i,
    {
        let line = show_owner(&items[i]);
        prompt.append(line.as_str());
        proof {
            let next = all.take(i + 1);
            assert(next.drop_last() =~= all.take(i as int));
            assert(next.last() == items@[i as int]@);
            assert(start + head + owner_lines(all.take(i as int)) + line@ =~= start + head
                + owner_lines(next));
        }
        i += 1;
    }
    assert(all.take(i as int) =~= all);
    assert(start + head + owner_lines(all) =~= start + (head + owner_lines(all)));
}

/// The line for a test.
pub open spec fn test_line(item: TestView) -> Seq<char> {
    "- `"@ + item.test_file + "` covers `"@ + item.covers + "`\n"@
}

/// The lines of a list of such items.
pub open spec fn test_lines(items: Seq<TestView>) -> Seq<char>
    decreases items.len(),
{
    if items.len() == 0 {
        Seq::empty()
    } else {
        test_lines(items.drop_last()) + test_line(items.last())
    }
}

/// The section of such items: nothing if there are none.
pub open spec fn test_section(items: Seq<TestView>) -> Seq<char> {
    if items.len() == 0 {
        Seq::empty()
    } else {
        "\n## Related Tests\n"@ + test_lines(items)
    }
}

fn show_test(item: &TestContextItem) -> (r: String)
    ensures
        r@ == test_line(item@),
{
    let mut text = "- `".to_owned();
    text.append(item.test_file.as_str());
    text.append("` covers `");
    text.append(item.covers.as_str());
    text.append("`\n");
    text
}

fn write_test_section(prompt: &mut String, items: &Vec<TestContextItem>)
    ensures
        final(prompt)@ == old(prompt)@ + test_section(test_views(items@)),
{
    let ghost start = prompt@;
    let ghost all = test_views(items@);
    if items.len() == 0 {
        assert(start + test_section(all) =~= start);
        return;
    }
    prompt.append("\n## Related Tests\n");
    let ghost head = "\n## Related Tests\n"@;
    let mut i: usize = 0;
    assert(start + head + test_lines(all.take(0)) =~= start + head);
    while i < items.len()
        invariant
            i <= items@.len(),
            all == test_views(items@),
            prompt@ == start + head + test_lines(all.take(i as int)),
        decreases items@.len() - i,
    {
        let line = show_test(&items[i]);
        prompt.append(line.as_str());
        proof {
            let next = all.take(i + 1);
            assert(next.drop_last() =~= all.take(i as int));
            assert(next.last() == items@[i as int]@);
            assert(start + head + test_lines(all.take(i as int)) + line@ =~= start + head
                + test_lines(next));
        }
        i += 1;
    }
    assert(all.take(i as int) =~= all);
    assert(start + head + test_lines(all) =~= start + (head + test_lines(all)));
}

/// The prompt for a context: a section for each part that is not empty.
pub open spec fn prompt_text(context: HydratedContext) -> Seq<char> {
    code_section(item_views(context.code_context@)) + doc_section(doc_views(context.doc_context@))
        + owner_section(owner_views(context.ownership@)) + test_section(
        test_views(context.test_context@),
    )
}

impl ContextHydrator {
    /// Format the hydrated context as a system prompt supplement.
    pub fn format_as_prompt(context: &HydratedContext) -> (r: String)
        ensures
            r@ == prompt_text(*context),
    {
        let mut prompt = String::new();
        write_code_section(&mut prompt, &context.code_context);
        write_doc_section(&mut prompt, &context.doc_context);
        write_owner_section(&mut prompt, &context.ownership);
        write_test_section(&mut prompt, &context.test_context);
        assert(prompt@ =~= prompt_text(*context));
        prompt
    }
}

// ---------------------------------------------------------------------------
// Laws
// ---------------------------------------------------------------------------

/// How a code file is shown.
pub open spec fn code_shown(item: CodeContextItem) -> Seq<char> {
    "- `"@ + item.file_path@ + "` ("@ + item.language@ + ", relevance: "@ + item.relevance.shown()
        + "): "@ + item.snippet@ + "\n"@
}

proof fn lemma_code_parts(a: Seq<CodeItemView>, b: Seq<CodeItemView>)
    ensures
        code_lines(a + b) == code_lines(a) + code_lines(b),
    decreases b.len(),
{
    if b.len() == 0 {
        assert(a + b =~= a);
        assert(code_lines(a) + code_lines(b) =~= code_lines(a));
    } else {
        lemma_code_parts(a, b.drop_last());
        assert((a + b).drop_last() =~= a + b.drop_last());
        assert((a + b).last() == b.last());
        assert((code_lines(a) + code_lines(b.drop_last())) + code_line(b.last()) =~= code_lines(a)
            + code_lines(b));
    }
}

/// Where a code file stands in its section: behind the heading and the ones before it.
pub open spec fn code_place(items: Seq<CodeContextItem>, i: int) -> int
    decreases i,
{
    if i <= 0 {
        "## Relevant Code Files\n"@.len() as int
    } else {
        code_place(items, i - 1) + code_shown(items[i - 1]).len()
    }
}

proof fn lemma_code_section(items: Seq<CodeContextItem>, i: int)
    requires
        0 <= i <= items.len(),
        items.len() > 0,
    ensures
        code_section(item_views(items)) == "## Relevant Code Files\n"@
            + code_lines(item_views(items.take(i)))
            + code_lines(item_views(items.skip(i))),
        code_place(items, i) == "## Relevant Code Files\n"@.len()
            + code_lines(item_views(items.take(i))).len(),
        i < items.len() ==> code_lines(item_views(items.skip(i))) == code_shown(items[i])
            + code_lines(item_views(items.skip(i + 1))),
    decreases i,
{
    let seen = item_views(items);
    let first = item_views(items.take(i));
    let last = item_views(items.skip(i));
    lemma_code_parts(first, last);
    assert(first + last =~= seen);
    let head = "## Relevant Code Files\n"@;
    assert(head + code_lines(first) + code_lines(last) =~= head + (code_lines(first)
        + code_lines(last)));
    if i < items.len() {
        lemma_code_one(items[i]);
        lemma_code_parts(seq![items[i]@], item_views(items.skip(i + 1)));
        assert(seq![items[i]@] + item_views(items.skip(i + 1)) =~= last);
    }
    if i > 0 {
        lemma_code_section(items, i - 1);
        lemma_code_one(items[i - 1]);
        lemma_code_parts(item_views(items.take(i - 1)), seq![items[i - 1]@]);
        assert(item_views(items.take(i - 1)) + seq![items[i - 1]@] =~= first);
    } else {
        assert(first =~= Seq::empty());
        assert(code_lines(first) =~= Seq::empty());
    }
}

proof fn lemma_code_one(item: CodeContextItem)
    ensures
        code_lines(seq![item@]) == code_shown(item),
{
    let one = seq![item@];
    assert(one.drop_last() =~= Seq::empty());
    assert(one.last() == item@);
    assert(code_lines(one.drop_last()) =~= Seq::empty());
    assert(code_lines(one) =~= code_line(item@));
    assert(code_line(item@) =~= code_shown(item));
}

/// How a piece of documentation is shown.
pub open spec fn doc_shown(item: DocContextItem) -> Seq<char> {
    "- **"@ + item.title@ + "** (from "@ + item.source@ + ", relevance: "@ + item.relevance.shown()
        + "): "@ + item.snippet@ + "\n"@
}

proof fn lemma_doc_parts(a: Seq<DocItemView>, b: Seq<DocItemView>)
    ensures
        doc_lines(a + b) == doc_lines(a) + doc_lines(b),
    decreases b.len(),
{
    if b.len() == 0 {
        assert(a + b =~= a);
        assert(doc_lines(a) + doc_lines(b) =~= doc_lines(a));
    } else {
        lemma_doc_parts(a, b.drop_last());
        assert((a + b).drop_last() =~= a + b.drop_last());
        assert((a + b).last() == b.last());
        assert((doc_lines(a) + doc_lines(b.drop_last())) + doc_line(b.last()) =~= doc_lines(a)
            + doc_lines(b));
    }
}

/// Where a piece of documentation stands in its section: behind the heading and the ones before it.
pub open spec fn doc_place(items: Seq<DocContextItem>, i: int) -> int
    decreases i,
{
    if i <= 0 {
        "\n## Relevant Documentation\n"@.len() as int
    } else {
        doc_place(items, i - 1) + doc_shown(items[i - 1]).len()
    }
}

proof fn lemma_doc_section(items: Seq<DocContextItem>, i: int)
    requires
        0 <= i <= items.len(),
        items.len() > 0,
    ensures
        doc_section(doc_views(items)) == "\n## Relevant Documentation\n"@
            + doc_lines(doc_views(items.take(i)))
            + doc_lines(doc_views(items.skip(i))),
        doc_place(items, i) == "\n## Relevant Documentation\n"@.len()
            + doc_lines(doc_views(items.take(i))).len(),
        i < items.len() ==> doc_lines(doc_views(items.skip(i))) == doc_shown(items[i])
            + doc_lines(doc_views(items.skip(i + 1))),
    decreases i,
{
    let seen = doc_views(items);
    let first = doc_views(items.take(i));
    let last = doc_views(items.skip(i));
    lemma_doc_parts(first, last);
    assert(first + last =~= seen);
    let head = "\n## Relevant Documentation\n"@;
    assert(head + doc_lines(first) + doc_lines(last) =~= head + (doc_lines(first)
        + doc_lines(last)));
    if i < items.len() {
        lemma_doc_one(items[i]);
        lemma_doc_parts(seq![items[i]@], doc_views(items.skip(i + 1)));
        assert(seq![items[i]@] + doc_views(items.skip(i + 1)) =~= last);
    }
    if i > 0 {
        lemma_doc_section(items, i - 1);
        lemma_doc_one(items[i - 1]);
        lemma_doc_parts(doc_views(items.take(i - 1)), seq![items[i - 1]@]);
        assert(doc_views(items.take(i - 1)) + seq![items[i - 1]@] =~= first);
    } else {
        assert(first =~= Seq::empty());
        assert(doc_lines(first) =~= Seq::empty());
    }
}

proof fn lemma_doc_one(item: DocContextItem)
    ensures
        doc_lines(seq![item@]) == doc_shown(item),
{
    let one = seq![item@];
    assert(one.drop_last() =~= Seq::empty());
    assert(one.last() == item@);
    assert(doc_lines(one.drop_last()) =~= Seq::empty());
    assert(doc_lines(one) =~= doc_line(item@));
    assert(doc_line(item@) =~= doc_shown(item));
}

/// How an owner is shown.
pub open spec fn owner_shown(item: OwnershipItem) -> Seq<char> {
    let channel = match item.slack_channel {
        Some(channel) => " ("@ + channel@ + ")"@,
        None => Seq::empty(),
    };
    "- `"@ + item.entity@ + "` owned by **"@ + item.team@ + "**"@ + channel + "\n"@
}

proof fn lemma_owner_parts(a: Seq<OwnerView>, b: Seq<OwnerView>)
    ensures
        owner_lines(a + b) == owner_lines(a) + owner_lines(b),
    decreases b.len(),
{
    if b.len() == 0 {
        assert(a + b =~= a);
        assert(owner_lines(a) + owner_lines(b) =~= owner_lines(a));
    } else {
        lemma_owner_parts(a, b.drop_last());
        assert((a + b).drop_last() =~= a + b.drop_last());
        assert((a + b).last() == b.last());
        assert((owner_lines(a) + owner_lines(b.drop_last())) + owner_line(b.last()) =~= owner_lines(a)
            + owner_lines(b));
    }
}

/// Where an owner stands in its section: behind the heading and the ones before it.
pub open spec fn owner_place(items: Seq<OwnershipItem>, i: int) -> int
    decreases i,
{
    if i <= 0 {
        "\n## Code Ownership\n"@.len() as int
    } else {
        owner_place(items, i - 1) + owner_shown(items[i - 1]).len()
    }
}

proof fn lemma_owner_section(items: Seq<OwnershipItem>, i: int)
    requires
        0 <= i <= items.len(),
        items.len() > 0,
    ensures
        owner_section(owner_views(items)) == "\n## Code Ownership\n"@
            + owner_lines(owner_views(items.take(i)))
            + owner_lines(owner_views(items.skip(i))),
        owner_place(items, i) == "\n## Code Ownership\n"@.len()
            + owner_lines(owner_views(items.take(i))).len(),
        i < items.len() ==> owner_lines(owner_views(items.skip(i))) == owner_shown(items[i])
            + owner_lines(owner_views(items.skip(i + 1))),
    decreases i,
{
    let seen = owner_views(items);
    let first = owner_views(items.take(i));
    let last = owner_views(items.skip(i));
    lemma_owner_parts(first, last);
    assert(first + last =~= seen);
    let head = "\n## Code Ownership\n"@;
    assert(head + owner_lines(first) + owner_lines(last) =~= head + (owner_lines(first)
        + owner_lines(last)));
    if i < items.len() {
        lemma_owner_one(items[i]);
        lemma_owner_parts(seq![items[i]@], owner_views(items.skip(i + 1)));
        assert(seq![items[i]@] + owner_views(items.skip(i + 1)) =~= last);
    }
    if i > 0 {
        lemma_owner_section(items, i - 1);
        lemma_owner_one(items[i - 1]);
        lemma_owner_parts(owner_views(items.take(i - 1)), seq![items[i - 1]@]);
        assert(owner_views(items.take(i - 1)) + seq![items[i - 1]@] =~= first);
    } else {
        assert(first =~= Seq::empty());
        assert(owner_lines(first) =~= Seq::empty());
    }
}

proof fn lemma_owner_one(item: OwnershipItem)
    ensures
        owner_lines(seq![item@]) == owner_shown(item),
{
    let one = seq![item@];
    assert(one.drop_last() =~= Seq::empty());
    assert(one.last() == item@);
    assert(owner_lines(one.drop_last()) =~= Seq::empty());
    assert(owner_lines(one) =~= owner_line(item@));
    reveal_strlit("");
    assert(""@ =~= Seq::empty());
    assert(owner_line(item@) =~= owner_shown(item));
}

/// How a test is shown.
pub open spec fn test_shown(item: TestContextItem) -> Seq<char> {
    "- `"@ + item.test_file@ + "` covers `"@ + item.covers@ + "`\n"@
}

proof fn lemma_test_parts(a: Seq<TestView>, b: Seq<TestView>)
    ensures
        test_lines(a + b) == test_lines(a) + test_lines(b),
    decreases b.len(),
{
    if b.len() == 0 {
        assert(a + b =~= a);
        assert(test_lines(a) + test_lines(b) =~= test_lines(a));
    } else {
        lemma_test_parts(a, b.drop_last());
        assert((a + b).drop_last() =~= a + b.drop_last());
        assert((a + b).last() == b.last());
        assert((test_lines(a) + test_lines(b.drop_last())) + test_line(b.last()) =~= test_lines(a)
            + test_lines(b));
    }
}

/// Where a test stands in its section: behind the heading and the ones before it.
pub open spec fn test_place(items: Seq<TestContextItem>, i: int) -> int
    decreases i,
{
    if i <= 0 {
        "\n## Related Tests\n"@.len() as int
    } else {
        test_place(items, i - 1) + test_shown(items[i - 1]).len()
    }
}

proof fn lemma_test_section(items: Seq<TestContextItem>, i: int)
    requires
        0 <= i <= items.len(),
        items.len() > 0,
    ensures
        test_section(test_views(items)) == "\n## Related Tests\n"@
            + test_lines(test_views(items.take(i)))
            + test_lines(test_views(items.skip(i))),
        test_place(items, i) == "\n## Related Tests\n"@.len()
            + test_lines(test_views(items.take(i))).len(),
        i < items.len() ==> test_lines(test_views(items.skip(i))) == test_shown(items[i])
            + test_lines(test_views(items.skip(i + 1))),
    decreases i,
{
    let seen = test_views(items);
    let first = test_views(items.take(i));
    let last = test_views(items.skip(i));
    lemma_test_parts(first, last);
    assert(first + last =~= seen);
    let head = "\n## Related Tests\n"@;
    assert(head + test_lines(first) + test_lines(last) =~= head + (test_lines(first)
        + test_lines(last)));
    if i < items.len() {
        lemma_test_one(items[i]);
        lemma_test_parts(seq![items[i]@], test_views(items.skip(i + 1)));
        assert(seq![items[i]@] + test_views(items.skip(i + 1)) =~= last);
    }
    if i > 0 {
        lemma_test_section(items, i - 1);
        lemma_test_one(items[i - 1]);
        lemma_test_parts(test_views(items.take(i - 1)), seq![items[i - 1]@]);
        assert(test_views(items.take(i - 1)) + seq![items[i - 1]@] =~= first);
    } else {
        assert(first =~= Seq::empty());
        assert(test_lines(first) =~= Seq::empty());
    }
}

proof fn lemma_test_one(item: TestContextItem)
    ensures
        test_lines(seq![item@]) == test_shown(item),
{
    let one = seq![item@];
    assert(one.drop_last() =~= Seq::empty());
    assert(one.last() == item@);
    assert(test_lines(one.drop_last()) =~= Seq::empty());
    assert(test_lines(one) =~= test_line(item@));
    assert(test_line(item@) =~= test_shown(item));
}

/// How long the sections before one are: a section is its heading and one line for each item,
/// and one without items is left out.
pub open spec fn sections_before(context: HydratedContext, n: int) -> int {
    let code = if context.code_context@.len() > 0 {
        code_place(context.code_context@, context.code_context@.len() as int)
    } else {
        0
    };
    let doc = if context.doc_context@.len() > 0 {
        doc_place(context.doc_context@, context.doc_context@.len() as int)
    } else {
        0
    };
    let owner = if context.ownership@.len() > 0 {
        owner_place(context.ownership@, context.ownership@.len() as int)
    } else {
        0
    };
    let test = if context.test_context@.len() > 0 {
        test_place(context.test_context@, context.test_context@.len() as int)
    } else {
        0
    };
    if n == 0 {
        0
    } else if n == 1 {
        code
    } else if n == 2 {
        code + doc
    } else if n == 3 {
        code + doc + owner
    } else {
        code + doc + owner + test
    }
}

proof fn lemma_code_stands(items: Seq<CodeContextItem>, i: int)
    requires
        0 <= i < items.len(),
    ensures
        stands_at(code_section(item_views(items)), "## Relevant Code Files\n"@, 0),
        stands_at(code_section(item_views(items)), code_shown(items[i]), code_place(items, i)),
        code_section(item_views(items)).len() == code_place(items, items.len() as int),
{
    let text = code_section(item_views(items));
    let at = code_place(items, i);
    let line = code_shown(items[i]);
    let n = items.len() as int;
    lemma_code_section(items, i);
    lemma_code_section(items, n);
    assert(items.skip(n) =~= Seq::empty());
    assert(item_views(items.skip(n)) =~= Seq::empty());
    assert(code_lines(item_views(items.skip(n))) =~= Seq::empty());
    let head = "## Relevant Code Files\n"@;
    assert(text.subrange(0, head.len() as int) =~= head);
    assert(text.subrange(at, at + line.len()) =~= line);
}

proof fn lemma_doc_stands(items: Seq<DocContextItem>, i: int)
    requires
        0 <= i < items.len(),
    ensures
        stands_at(doc_section(doc_views(items)), "\n## Relevant Documentation\n"@, 0),
        stands_at(doc_section(doc_views(items)), doc_shown(items[i]), doc_place(items, i)),
        doc_section(doc_views(items)).len() == doc_place(items, items.len() as int),
{
    let text = doc_section(doc_views(items));
    let at = doc_place(items, i);
    let line = doc_shown(items[i]);
    let n = items.len() as int;
    lemma_doc_section(items, i);
    lemma_doc_section(items, n);
    assert(items.skip(n) =~= Seq::empty());
    assert(doc_views(items.skip(n)) =~= Seq::empty());
    assert(doc_lines(doc_views(items.skip(n))) =~= Seq::empty());
    let head = "\n## Relevant Documentation\n"@;
    assert(text.subrange(0, head.len() as int) =~= head);
    assert(text.subrange(at, at + line.len()) =~= line);
}

proof fn lemma_owner_stands(items: Seq<OwnershipItem>, i: int)
    requires
        0 <= i < items.len(),
    ensures
        stands_at(owner_section(owner_views(items)), "\n## Code Ownership\n"@, 0),
        stands_at(owner_section(owner_views(items)), owner_shown(items[i]), owner_place(items, i)),
        owner_section(owner_views(items)).len() == owner_place(items, items.len() as int),
{
    let text = owner_section(owner_views(items));
    let at = owner_place(items, i);
    let line = owner_shown(items[i]);
    let n = items.len() as int;
    lemma_owner_section(items, i);
    lemma_owner_section(items, n);
    assert(items.skip(n) =~= Seq::empty());
    assert(owner_views(items.skip(n)) =~= Seq::empty());
    assert(owner_lines(owner_views(items.skip(n))) =~= Seq::empty());
    assert(text.subrange(0, "\n## Code Ownership\n"@.len() as int) =~= "\n## Code Ownership\n"@);
    assert(text.subrange(at, at + line.len()) =~= line);
}

proof fn lemma_test_stands(items: Seq<TestContextItem>, i: int)
    requires
        0 <= i < items.len(),
    ensures
        stands_at(test_section(test_views(items)), "\n## Related Tests\n"@, 0),
        stands_at(test_section(test_views(items)), test_shown(items[i]), test_place(items, i)),
        test_section(test_views(items)).len() == test_place(items, items.len() as int),
{
    let text = test_section(test_views(items));
    let at = test_place(items, i);
    let line = test_shown(items[i]);
    let n = items.len() as int;
    lemma_test_section(items, i);
    lemma_test_section(items, n);
    assert(items.skip(n) =~= Seq::empty());
    assert(test_views(items.skip(n)) =~= Seq::empty());
    assert(test_lines(test_views(items.skip(n))) =~= Seq::empty());
    assert(text.subrange(0, "\n## Related Tests\n"@.len() as int) =~= "\n## Related Tests\n"@);
    assert(text.subrange(at, at + line.len()) =~= line);
}

proof fn lemma_part_stands(
    before: Seq<char>,
    text: Seq<char>,
    after: Seq<char>,
    part: Seq<char>,
    at: int,
)
    requires
        stands_at(text, part, at),
    ensures
        stands_at(before + text + after, part, before.len() + at),
{
    let all = before + text + after;
    assert(all.subrange(before.len() + at, before.len() + at + part.len()) =~= text.subrange(
        at,
        at + part.len(),
    ));
}

proof fn lemma_section_lengths(context: HydratedContext)
    ensures
        code_section(item_views(context.code_context@)).len() == sections_before(context, 1),
        doc_section(doc_views(context.doc_context@)).len() == sections_before(context, 2)
            - sections_before(context, 1),
        owner_section(owner_views(context.ownership@)).len() == sections_before(context, 3)
            - sections_before(context, 2),
        test_section(test_views(context.test_context@)).len() == sections_before(context, 4)
            - sections_before(context, 3),
{
    if context.code_context@.len() > 0 {
        lemma_code_stands(context.code_context@, 0);
    }
    if context.doc_context@.len() > 0 {
        lemma_doc_stands(context.doc_context@, 0);
    }
    if context.ownership@.len() > 0 {
        lemma_owner_stands(context.ownership@, 0);
    }
    if context.test_context@.len() > 0 {
        lemma_test_stands(context.test_context@, 0);
    }
}

/// The prompt shows each of the code files of a context, in order, one right behind the other,
/// under the heading of their section.
pub proof fn law_prompt_shows_code(context: HydratedContext, i: int)
    requires
        0 <= i < context.code_context@.len(),
    ensures
        stands_at(prompt_text(context), "## Relevant Code Files\n"@, sections_before(context, 0)),
        stands_at(
            prompt_text(context),
            "- `"@ + context.code_context@[i].file_path@ + "` ("@
                + context.code_context@[i].language@ + ", relevance: "@
                + context.code_context@[i].relevance.shown() + "): "@
                + context.code_context@[i].snippet@ + "\n"@,
            sections_before(context, 0) + code_place(context.code_context@, i),
        ),
{
    let before = Seq::<char>::empty();
    let text = code_section(item_views(context.code_context@));
    let after = doc_section(doc_views(context.doc_context@))
        + owner_section(owner_views(context.ownership@))
        + test_section(test_views(context.test_context@));
    let items = context.code_context@;
    lemma_section_lengths(context);
    lemma_code_stands(items, i);
    lemma_part_stands(before, text, after, "## Relevant Code Files\n"@, 0);
    lemma_part_stands(before, text, after, code_shown(items[i]), code_place(items, i));
    assert(before + text + after =~= prompt_text(context));
}

/// The prompt shows each of the documentation of a context, in order, one right behind the other,
/// under the heading of their section.
pub proof fn law_prompt_shows_docs(context: HydratedContext, i: int)
    requires
        0 <= i < context.doc_context@.len(),
    ensures
        stands_at(
            prompt_text(context),
            "\n## Relevant Documentation\n"@,
            sections_before(context, 1),
        ),
        stands_at(
            prompt_text(context),
            "- **"@ + context.doc_context@[i].title@ + "** (from "@
                + context.doc_context@[i].source@ + ", relevance: "@
                + context.doc_context@[i].relevance.shown() + "): "@
                + context.doc_context@[i].snippet@ + "\n"@,
            sections_before(context, 1) + doc_place(context.doc_context@, i),
        ),
{
    let before = code_section(item_views(context.code_context@));
    let text = doc_section(doc_views(context.doc_context@));
    let after = owner_section(owner_views(context.ownership@))
        + test_section(test_views(context.test_context@));
    let items = context.doc_context@;
    lemma_section_lengths(context);
    lemma_doc_stands(items, i);
    lemma_part_stands(before, text, after, "\n## Relevant Documentation\n"@, 0);
    lemma_part_stands(before, text, after, doc_shown(items[i]), doc_place(items, i));
    assert(before + text + after =~= prompt_text(context));
}

/// The prompt shows each of the owners of a context, in order, one right behind the other,
/// under the heading of their section.
pub proof fn law_prompt_shows_owners(context: HydratedContext, i: int)
    requires
        0 <= i < context.ownership@.len(),
    ensures
        stands_at(prompt_text(context), "\n## Code Ownership\n"@, sections_before(context, 2)),
        stands_at(
            prompt_text(context),
            "- `"@ + context.ownership@[i].entity@ + "` owned by **"@ + context.ownership@[i].team@
                + "**"@ + (match context.ownership@[i].slack_channel {
                Some(channel) => " ("@ + channel@ + ")"@,
                None => Seq::empty(),
            }) + "\n"@,
            sections_before(context, 2) + owner_place(context.ownership@, i),
        ),
{
    let before = code_section(item_views(context.code_context@))
        + doc_section(doc_views(context.doc_context@));
    let text = owner_section(owner_views(context.ownership@));
    let after = test_section(test_views(context.test_context@));
    let items = context.ownership@;
    lemma_section_lengths(context);
    lemma_owner_stands(items, i);
    lemma_part_stands(before, text, after, "\n## Code Ownership\n"@, 0);
    lemma_part_stands(before, text, after, owner_shown(items[i]), owner_place(items, i));
    assert(before + text + after =~= prompt_text(context));
}

/// The prompt shows each of the tests of a context, in order, one right behind the other,
/// under the heading of their section.
pub proof fn law_prompt_shows_tests(context: HydratedContext, i: int)
    requires
        0 <= i < context.test_context@.len(),
    ensures
        stands_at(prompt_text(context), "\n## Related Tests\n"@, sections_before(context, 3)),
        stands_at(
            prompt_text(context),
            "- `"@ + context.test_context@[i].test_file@ + "` covers `"@
                + context.test_context@[i].covers@ + "`\n"@,
            sections_before(context, 3) + test_place(context.test_context@, i),
        ),
{
    let before = code_section(item_views(context.code_context@))
        + doc_section(doc_views(context.doc_context@))
        + owner_section(owner_views(context.ownership@));
    let text = test_section(test_views(context.test_context@));
    let after = Seq::<char>::empty();
    let items = context.test_context@;
    lemma_section_lengths(context);
    lemma_test_stands(items, i);
    lemma_part_stands(before, text, after, "\n## Related Tests\n"@, 0);
    lemma_part_stands(before, text, after, test_shown(items[i]), test_place(items, i));
    assert(before + text + after =~= prompt_text(context));
}

/// The prompt holds nothing but its headings and the lines of its items.
pub proof fn law_prompt_length(context: HydratedContext)
    ensures
        prompt_text(context).len() == sections_before(context, 4),
{
    lemma_section_lengths(context);
}

/// A context without items gives an empty prompt.
pub proof fn law_empty_prompt(context: HydratedContext)
    requires
        context.code_context@.len() == 0,
        context.doc_context@.len() == 0,
        context.ownership@.len() == 0,
        context.test_context@.len() == 0,
    ensures
        prompt_text(context) == Seq::<char>::empty(),
{
}

} // verus!
