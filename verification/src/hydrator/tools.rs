//! The tools that are recommended for a task.

use vstd::prelude::*;

use crate::hydrator::{CodeContextItem, ContextHydrator, HydrationIntent};
use crate::ordering::{ascending, law_ascending_unique, lemma_less_at, same_texts, sort_distinct};
use crate::text::{same, text_less, views};

verus! {

/// The tools that are recommended, in ascending order: the tools of the developer and of
/// the context store, with SQL queries where the message refers to tickets.
pub open spec fn curated_tools(has_tickets: bool) -> Seq<Seq<char>> {
    if has_tickets {
        seq![
            "context__audit_log"@,
            "context__graph_query"@,
            "context__sql_query"@,
            "context__vector_search"@,
            "developer__shell"@,
            "developer__text_editor"@,
        ]
    } else {
        seq![
            "context__audit_log"@,
            "context__graph_query"@,
            "context__vector_search"@,
            "developer__shell"@,
            "developer__text_editor"@,
        ]
    }
}

proof fn lemma_literals()
    ensures
        text_less("context__audit_log"@, "context__graph_query"@),
        text_less("context__graph_query"@, "context__sql_query"@),
        text_less("context__sql_query"@, "context__vector_search"@),
        text_less("context__audit_log"@, "context__sql_query"@),
        text_less("context__audit_log"@, "context__vector_search"@),
        text_less("context__graph_query"@, "context__vector_search"@),
        text_less("context__audit_log"@, "developer__shell"@),
        text_less("context__graph_query"@, "developer__shell"@),
        text_less("context__sql_query"@, "developer__shell"@),
        text_less("context__vector_search"@, "developer__shell"@),
        text_less("context__audit_log"@, "developer__text_editor"@),
        text_less("context__graph_query"@, "developer__text_editor"@),
        text_less("context__sql_query"@, "developer__text_editor"@),
        text_less("context__vector_search"@, "developer__text_editor"@),
        text_less("developer__shell"@, "developer__text_editor"@),
{
    reveal_strlit("context__audit_log");
    reveal_strlit("context__graph_query");
    reveal_strlit("context__sql_query");
    reveal_strlit("context__vector_search");
    reveal_strlit("developer__shell");
    reveal_strlit("developer__text_editor");
    lemma_less_at("context__audit_log"@, "context__graph_query"@, 9);
    lemma_less_at("context__graph_query"@, "context__sql_query"@, 9);
    lemma_less_at("context__sql_query"@, "context__vector_search"@, 9);
    lemma_less_at("context__audit_log"@, "context__sql_query"@, 9);
    lemma_less_at("context__audit_log"@, "context__vector_search"@, 9);
    lemma_less_at("context__graph_query"@, "context__vector_search"@, 9);
    lemma_less_at("context__audit_log"@, "developer__shell"@, 0);
    lemma_less_at("context__graph_query"@, "developer__shell"@, 0);
    lemma_less_at("context__sql_query"@, "developer__shell"@, 0);
    lemma_less_at("context__vector_search"@, "developer__shell"@, 0);
    lemma_less_at("context__audit_log"@, "developer__text_editor"@, 0);
    lemma_less_at("context__graph_query"@, "developer__text_editor"@, 0);
    lemma_less_at("context__sql_query"@, "developer__text_editor"@, 0);
    lemma_less_at("context__vector_search"@, "developer__text_editor"@, 0);
    lemma_less_at("developer__shell"@, "developer__text_editor"@, 11);
}

/// The recommended tools ascend, each once.
pub proof fn law_tools_ascend(has_tickets: bool)
    ensures
        ascending(curated_tools(has_tickets)),
{
    lemma_literals();
}

/// A language that runs on the Java virtual machine.
pub open spec fn is_jvm(language: Seq<char>) -> bool {
    language == "java"@ || language == "kotlin"@
}

fn uses_jvm(code_context: &Vec<CodeContextItem>) -> (r: bool)
    ensures
        r == exists|i: int|
            0 <= i < code_context@.len() && is_jvm((#[trigger] code_context@[i]).language@),
{
    let mut i: usize = 0;
    while i < code_context.len()
        invariant
            i <= code_context@.len(),
            forall|k: int| 0 <= k < i ==> !is_jvm((#[trigger] code_context@[k]).language@),
        decreases code_context@.len() - i,
    {
        let language = code_context[i].language.as_str();
        if same(language, "java") || same(language, "kotlin") {
            return true;
        }
        i += 1;
    }
    false
}

impl ContextHydrator {
    /// Curate a subset of recommended MCP tools based on the task context.
    ///
    /// An agent gets a few curated tools instead of all, to prevent wasting tokens on
    /// irrelevant options.
    pub fn curate_tools(
        &self,
        intent: &HydrationIntent,
        code_context: &Vec<CodeContextItem>,
    ) -> (r: Vec<String>)
        ensures
            views(r@) == curated_tools(intent.ticket_refs@.len() > 0),
    {
        let mut tools: Vec<String> = vec![
            // Always include core developer tools
            "developer__shell".to_owned(),
            "developer__text_editor".to_owned(),
            // Always include context tools
            "context__vector_search".to_owned(),
            "context__graph_query".to_owned(),
            "context__audit_log".to_owned(),
        ];
        let ghost base = seq![
            "developer__shell"@,
            "developer__text_editor"@,
            "context__vector_search"@,
            "context__graph_query"@,
            "context__audit_log"@,
        ];
        proof {
            assert(views(tools@) =~= base);
            assert(same_texts(views(tools@), base));
        }
        if uses_jvm(code_context) {
            let ghost done = views(tools@);
            tools.push("developer__shell".to_owned());  // for mvn/gradle
            proof {
                assert(views(tools@) =~= done.push("developer__shell"@));
                lemma_push_known(done, base, "developer__shell"@, 0);
            }
        }
        if intent.repo.is_some() {
            let ghost done = views(tools@);
            tools.push("developer__shell".to_owned());  // for git operations
            proof {
                assert(views(tools@) =~= done.push("developer__shell"@));
                lemma_push_known(done, base, "developer__shell"@, 0);
            }
        }
        let ghost before = views(tools@);
        if intent.ticket_refs.len() > 0 {
            tools.push("context__sql_query".to_owned());
        }
        let out = sort_distinct(&tools);
        proof {
            let wanted = curated_tools(intent.ticket_refs@.len() > 0);
            if intent.ticket_refs@.len() > 0 {
                assert(views(tools@) =~= before.push("context__sql_query"@));
            }
            assert forall|x: Seq<char>| #[trigger] views(out@).contains(x) <==> wanted.contains(
                x,
            ) by {
                lemma_pushed(before, "context__sql_query"@, x);
                assert(views(out@).contains(x) <==> views(tools@).contains(x));
                assert(before.contains(x) <==> base.contains(x));
                lemma_members(x);
            }
            law_tools_ascend(intent.ticket_refs@.len() > 0);
            law_ascending_unique(views(out@), wanted);
        }
        out
    }
}

proof fn lemma_pushed(s: Seq<Seq<char>>, y: Seq<char>, x: Seq<char>)
    ensures
        s.push(y).contains(x) <==> s.contains(x) || x == y,
{
    let t = s.push(y);
    if t.contains(x) {
        let i = choose|i: int| 0 <= i < t.len() && t[i] == x;
        if i < s.len() {
            assert(s[i] == x);
        }
    }
    if s.contains(x) {
        let i = choose|i: int| 0 <= i < s.len() && s[i] == x;
        assert(t[i] == x);
    }
    assert(t[s.len() as int] == y);
}

proof fn lemma_push_known(s: Seq<Seq<char>>, base: Seq<Seq<char>>, y: Seq<char>, k: int)
    requires
        same_texts(s, base),
        0 <= k < base.len(),
        base[k] == y,
    ensures
        same_texts(s.push(y), base),
{
    assert(base.contains(y));
    assert forall|x: Seq<char>| #[trigger] s.push(y).contains(x) <==> base.contains(x) by {
        lemma_pushed(s, y, x);
        assert(s.contains(x) <==> base.contains(x));
    }
}

proof fn lemma_members(x: Seq<char>)
    ensures
        ({
            let base = seq![
                "developer__shell"@,
                "developer__text_editor"@,
                "context__vector_search"@,
                "context__graph_query"@,
                "context__audit_log"@,
            ];
            &&& curated_tools(false).contains(x) <==> base.contains(x)
            &&& curated_tools(true).contains(x) <==> base.contains(x) || x == "context__sql_query"@
        }),
{
    let base = seq![
        "developer__shell"@,
        "developer__text_editor"@,
        "context__vector_search"@,
        "context__graph_query"@,
        "context__audit_log"@,
    ];
    let few = curated_tools(false);
    let more = curated_tools(true);
    assert(base[0] == few[3] && base[1] == few[4] && base[2] == few[2] && base[3] == few[1]
        && base[4] == few[0]);
    assert(base[0] == more[4] && base[1] == more[5] && base[2] == more[3] && base[3] == more[1]
        && base[4] == more[0] && more[2] == "context__sql_query"@);
}

/// The tools of the developer and of the context store are always recommended, SQL queries just
/// if the message refers to tickets, and nothing else is.
pub proof fn law_recommended(has_tickets: bool, tool: Seq<char>)
    ensures
        curated_tools(has_tickets).contains(tool) <==> {
            ||| tool == "developer__shell"@
            ||| tool == "developer__text_editor"@
            ||| tool == "context__vector_search"@
            ||| tool == "context__graph_query"@
            ||| tool == "context__audit_log"@
            ||| has_tickets && tool == "context__sql_query"@
        },
{
    lemma_members(tool);
    let base = seq![
        "developer__shell"@,
        "developer__text_editor"@,
        "context__vector_search"@,
        "context__graph_query"@,
        "context__audit_log"@,
    ];
    assert(base[0] == "developer__shell"@ && base[1] == "developer__text_editor"@ && base[2]
        == "context__vector_search"@ && base[3] == "context__graph_query"@ && base[4]
        == "context__audit_log"@);
}

} // verus!
