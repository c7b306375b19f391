//! Context hydration: what is fetched before an agent runs, and how it is bundled.

pub mod fetch;
pub mod prompt;
pub mod ranking;
pub mod tools;

use vstd::prelude::*;

use crate::db::pool::ContextStore;
use crate::json::Json;
use crate::score::Score;
use crate::text::{opt_view, views};

verus! {

/// Hydrated context bundle assembled before an agent run starts.
///
/// Before the agent even begins, relevant context from all three tiers (graph, vector,
/// SQL) is fetched and packaged into a bundle that goes into the agent's system prompt.
#[derive(Debug, Clone)]
pub struct HydratedContext {
    /// Summary of relevant code files and their relationships
    pub code_context: Vec<CodeContextItem>,
    /// Relevant documentation snippets from semantic search
    pub doc_context: Vec<DocContextItem>,
    /// Team ownership information for affected files
    pub ownership: Vec<OwnershipItem>,
    /// Relevant test files for affected code
    pub test_context: Vec<TestContextItem>,
    /// Structured metadata (e.g., Jira ticket details)
    pub metadata: Json,
    /// Recommended MCP tools (curated subset)
    pub recommended_tools: Vec<String>,
}

/// A code file that is relevant.
#[derive(Debug, Clone)]
pub struct CodeContextItem {
    pub file_path: String,
    pub language: String,
    pub relevance: Score,
    pub snippet: String,
}

/// A piece of documentation that is relevant.
#[derive(Debug, Clone)]
pub struct DocContextItem {
    pub title: String,
    pub source: String,
    pub relevance: Score,
    pub snippet: String,
}

/// Who owns an entity.
#[derive(Debug, Clone)]
pub struct OwnershipItem {
    pub entity: String,
    pub team: String,
    pub slack_channel: Option<String>,
}

/// A test and what it covers.
#[derive(Debug, Clone)]
pub struct TestContextItem {
    pub test_file: String,
    pub covers: String,
}

/// The intent extracted from a trigger message.
#[derive(Debug, Clone)]
pub struct HydrationIntent {
    /// The raw user message / trigger text
    pub message: String,
    /// Repository being worked on (if known)
    pub repo: Option<String>,
    /// Specific file paths mentioned
    pub file_paths: Vec<String>,
    /// Jira ticket references (e.g., "CORE-1234")
    pub ticket_refs: Vec<String>,
    /// URLs found in the message
    pub urls: Vec<String>,
    /// Service names mentioned
    pub service_names: Vec<String>,
}

/// What a `CodeContextItem` says.
#[verifier::ext_equal]
pub struct CodeItemView {
    pub file_path: Seq<char>,
    pub language: Seq<char>,
    pub relevance: Score,
    pub snippet: Seq<char>,
}

impl View for CodeContextItem {
    type V = CodeItemView;

    open spec fn view(&self) -> CodeItemView {
        CodeItemView {
            file_path: self.file_path@,
            language: self.language@,
            relevance: self.relevance,
            snippet: self.snippet@,
        }
    }
}

/// What a list of code items says.
pub open spec fn item_views(items: Seq<CodeContextItem>) -> Seq<CodeItemView> {
    Seq::new(items.len(), |i: int| items[i]@)
}

impl CodeContextItem {
    /// The same item.
    pub fn copy(&self) -> (r: CodeContextItem)
        ensures
            r@ == self@,
    {
        CodeContextItem {
            file_path: self.file_path.clone(),
            language: self.language.clone(),
            relevance: self.relevance,
            snippet: self.snippet.clone(),
        }
    }
}

/// What a `DocContextItem` says.
#[verifier::ext_equal]
pub struct DocItemView {
    pub title: Seq<char>,
    pub source: Seq<char>,
    pub relevance: Score,
    pub snippet: Seq<char>,
}

impl View for DocContextItem {
    type V = DocItemView;

    open spec fn view(&self) -> DocItemView {
        DocItemView {
            title: self.title@,
            source: self.source@,
            relevance: self.relevance,
            snippet: self.snippet@,
        }
    }
}

/// What a list of documentation items says.
pub open spec fn doc_views(items: Seq<DocContextItem>) -> Seq<DocItemView> {
    Seq::new(items.len(), |i: int| items[i]@)
}

/// What an `OwnershipItem` says.
#[verifier::ext_equal]
pub struct OwnerView {
    pub entity: Seq<char>,
    pub team: Seq<char>,
    pub slack_channel: Option<Seq<char>>,
}

impl View for OwnershipItem {
    type V = OwnerView;

    open spec fn view(&self) -> OwnerView {
        OwnerView {
            entity: self.entity@,
            team: self.team@,
            slack_channel: opt_view(self.slack_channel),
        }
    }
}

/// What a list of ownership items says.
pub open spec fn owner_views(items: Seq<OwnershipItem>) -> Seq<OwnerView> {
    Seq::new(items.len(), |i: int| items[i]@)
}

/// What a `TestContextItem` says.
#[verifier::ext_equal]
pub struct TestView {
    pub test_file: Seq<char>,
    pub covers: Seq<char>,
}

impl View for TestContextItem {
    type V = TestView;

    open spec fn view(&self) -> TestView {
        TestView { test_file: self.test_file@, covers: self.covers@ }
    }
}

/// What a list of test items says.
pub open spec fn test_views(items: Seq<TestContextItem>) -> Seq<TestView> {
    Seq::new(items.len(), |i: int| items[i]@)
}

/// Context hydrator: fetches relevant context before agent runs.
///
/// Takes the references of the trigger message, writes the queries to all three tiers,
/// and assembles the answers into a comprehensive context bundle.
#[derive(Debug)]
pub struct ContextHydrator {
    store: ContextStore,
    max_code_results: usize,
    max_doc_results: usize,
}

impl ContextHydrator {
    /// The name of the graph that is asked.
    pub closed spec fn graph_name(self) -> Seq<char> {
        self.store.graph_name()
    }

    /// The most chunks of code that a search gives.
    pub closed spec fn code_limit(self) -> int {
        self.max_code_results as int
    }

    /// The most chunks of documentation that a search gives.
    pub closed spec fn doc_limit(self) -> int {
        self.max_doc_results as int
    }

    /// The limits can be sent to the database.
    #[verifier::type_invariant]
    spec fn has_small_limits(self) -> bool {
        self.max_code_results <= i64::MAX && self.max_doc_results <= i64::MAX
    }

    /// A hydrator for ten chunks of code and five of documentation.
    pub fn new(store: ContextStore) -> (r: ContextHydrator)
        ensures
            r.graph_name() == store.graph_name(),
            r.code_limit() == 10,
            r.doc_limit() == 5,
    {
        ContextHydrator { store, max_code_results: 10, max_doc_results: 5 }
    }

    fn store(&self) -> (r: &ContextStore)
        ensures
            r.graph_name() == self.graph_name(),
    {
        &self.store
    }

    fn code_results(&self) -> (r: i64)
        ensures
            r == self.code_limit(),
    {
        proof {
            use_type_invariant(self);
        }
        self.max_code_results as i64
    }

    fn doc_results(&self) -> (r: i64)
        ensures
            r == self.doc_limit(),
    {
        proof {
            use_type_invariant(self);
        }
        self.max_doc_results as i64
    }
}

/// The items, or none where they could not be had.
pub open spec fn given<A>(items: Option<Vec<A>>) -> Seq<A> {
    match items {
        Some(items) => items@,
        None => Seq::empty(),
    }
}

fn or_none<A>(items: Option<Vec<A>>) -> (r: Vec<A>)
    ensures
        r@ == given(items),
{
    match items {
        Some(items) => items,
        None => Vec::new(),
    }
}

impl ContextHydrator {
    /// Hydrate context for a given intent.
    ///
    /// This runs before the agent starts and provides:
    /// 1. Code files related to mentioned paths/services (graph queries)
    /// 2. Relevant documentation (vector search)
    /// 3. Team ownership for affected code (graph queries)
    /// 4. Related test files (graph queries)
    /// 5. Curated tool recommendations
    ///
    /// A part that could not be had is empty.
    pub fn hydrate(
        &self,
        intent: &HydrationIntent,
        code_context: Option<Vec<CodeContextItem>>,
        doc_context: Option<Vec<DocContextItem>>,
        ownership: Option<Vec<OwnershipItem>>,
        test_context: Option<Vec<TestContextItem>>,
    ) -> (r: HydratedContext)
        ensures
            r.code_context@ == given(code_context),
            r.doc_context@ == given(doc_context),
            r.ownership@ == given(ownership),
            r.test_context@ == given(test_context),
            r.metadata@ == seq!['{', '}'],
            views(r.recommended_tools@) == tools::curated_tools(intent.ticket_refs@.len() > 0),
    {
        let code_context = or_none(code_context);
        let recommended_tools = self.curate_tools(intent, &code_context);
        HydratedContext {
            code_context,
            doc_context: or_none(doc_context),
            ownership: or_none(ownership),
            test_context: or_none(test_context),
            metadata: Json::empty_object(),
            recommended_tools,
        }
    }
}

// ---------------------------------------------------------------------------
// Laws
// ---------------------------------------------------------------------------

/// Code items are seen as they are, in order.
pub proof fn law_code_items_seen(items: Seq<CodeContextItem>)
    ensures
        item_views(items).len() == items.len(),
        forall|i: int|
            0 <= i < items.len() ==> {
                let seen = #[trigger] item_views(items)[i];
                &&& seen.file_path == items[i].file_path@
                &&& seen.language == items[i].language@
                &&& seen.relevance == items[i].relevance
                &&& seen.snippet == items[i].snippet@
            },
{
}

/// Documentation items are seen as they are, in order.
pub proof fn law_doc_items_seen(items: Seq<DocContextItem>)
    ensures
        doc_views(items).len() == items.len(),
        forall|i: int|
            0 <= i < items.len() ==> {
                let seen = #[trigger] doc_views(items)[i];
                &&& seen.title == items[i].title@
                &&& seen.source == items[i].source@
                &&& seen.relevance == items[i].relevance
                &&& seen.snippet == items[i].snippet@
            },
{
}

/// Ownership items are seen as they are, in order.
pub proof fn law_owners_seen(items: Seq<OwnershipItem>)
    ensures
        owner_views(items).len() == items.len(),
        forall|i: int|
            0 <= i < items.len() ==> {
                let seen = #[trigger] owner_views(items)[i];
                &&& seen.entity == items[i].entity@
                &&& seen.team == items[i].team@
                &&& seen.slack_channel == (match items[i].slack_channel {
                    Some(text) => Some(text@),
                    None => None,
                })
            },
{
}

/// Test items are seen as they are, in order.
pub proof fn law_tests_seen(items: Seq<TestContextItem>)
    ensures
        test_views(items).len() == items.len(),
        forall|i: int|
            0 <= i < items.len() ==> {
                let seen = #[trigger] test_views(items)[i];
                &&& seen.test_file == items[i].test_file@
                &&& seen.covers == items[i].covers@
            },
{
}

/// A part of a bundle is what was had of it, all of it; one that could not be had is empty.
pub proof fn law_given<A>(items: Vec<A>)
    ensures
        given(Some(items)) == items@,
        given(None::<Vec<A>>).len() == 0,
{
}

} // verus!
