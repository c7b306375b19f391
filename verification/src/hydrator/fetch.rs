//! What is asked of the graph and the vector store, and what becomes of the answers.

use vstd::prelude::*;
use vstd::string::*;

use crate::db::graph::{
    find_nodes_cypher, get_owners_cypher, get_test_coverage_cypher, graph_rows, graph_value,
    is_made_of, law_looked_up, law_searched, row_views, GraphQuery, GraphQueryResult,
};
use crate::db::vector::{EmbeddingRecord, VectorSearchParams, HALF_BITS};
use crate::hydrator::ranking::{
    all_numbers, has_path, is_ranking_of, law_ranking_keeps_best, law_ranking_order, rank,
};
use crate::hydrator::{
    doc_views, item_views, owner_views, test_views, CodeContextItem, CodeItemView, ContextHydrator,
    DocContextItem, DocItemView, HydrationIntent, OwnerView, OwnershipItem, TestContextItem,
    TestView,
};
use crate::json::{json_parse, json_views, quoted, text_member, Json};
use crate::number::decimal;
use crate::scanner::git_scanner::{tells_source, CodeChunk};
use crate::score::Score;
use crate::text::{head, head_of, opt_view, views};

verus! {

/// The number one, as the bits of a 64-bit floating point number.
pub const ONE_BITS: u64 = 0x3FF0_0000_0000_0000;

/// Six tenths, as the bits of a 64-bit floating point number.
pub const CODE_THRESHOLD_BITS: u64 = 0x3FE3_3333_3333_3333;

/// The number of characters of a snippet of code.
pub const CODE_SNIPPET: usize = 200;

/// The number of characters of a snippet of documentation.
pub const DOC_SNIPPET: usize = 300;

// ---------------------------------------------------------------------------
// Answers of the graph
// ---------------------------------------------------------------------------

/// The first value of each row that has one.
pub open spec fn first_values(rows: Seq<Seq<Seq<char>>>) -> Seq<Seq<char>>
    decreases rows.len(),
{
    if rows.len() == 0 {
        Seq::empty()
    } else {
        let earlier = first_values(rows.drop_last());
        if rows.last().len() > 0 {
            earlier.push(rows.last()[0])
        } else {
            earlier
        }
    }
}

/// The values that a query was answered with; none if it failed.
pub open spec fn answered(lookup: Option<GraphQueryResult>) -> Seq<Seq<char>> {
    match lookup {
        Some(result) => first_values(row_views(result.rows@)),
        None => Seq::empty(),
    }
}

/// The values that each of a list of queries was answered with.
pub open spec fn all_answered(lookups: Seq<Option<GraphQueryResult>>) -> Seq<Seq<Seq<char>>> {
    Seq::new(lookups.len(), |i: int| answered(lookups[i]))
}

fn values_of(lookup: &Option<GraphQueryResult>) -> (r: Vec<Json>)
    ensures
        json_views(r@) == answered(*lookup),
{
    let mut out: Vec<Json> = Vec::new();
    match lookup {
        Some(result) => {
            let ghost all = row_views(result.rows@);
            let mut i: usize = 0;
            assert(json_views(out@) =~= first_values(all.take(0)));
            while i < result.rows.len()
                invariant
                    i <= result.rows@.len(),
                    all == row_views(result.rows@),
                    json_views(out@) == first_values(all.take(i as int)),
                decreases result.rows@.len() - i,
            {
                let ghost done = json_views(out@);
                let row = &result.rows[i];
                proof {
                    assert(all.take(i + 1).drop_last() =~= all.take(i as int));
                    assert(all[i as int] == json_views(row@));
                }
                if row.len() > 0 {
                    let value = row[0].copy();
                    out.push(value);
                    assert(json_views(out@) =~= done.push(value@));
                }
                i += 1;
            }
            assert(all.take(i as int) =~= all);
        },
        None => {
            assert(json_views(out@) =~= Seq::empty());
        },
    }
    out
}

/// The text of a member of a value, or the word for what is not known.
pub open spec fn member_or_unknown(value: Seq<char>, name: &str) -> Seq<char> {
    match text_member(value, name@) {
        Some(text) => text,
        None => "unknown"@,
    }
}

/// A match of a property with a value.
pub open spec fn property_match(property: &str, value: Seq<char>) -> Seq<char> {
    property@ + value + "'"@
}

fn match_text(property: &str, value: &str) -> (r: String)
    ensures
        r@ == property_match(property, value@),
{
    let mut text = property.to_owned();
    text.append(value);
    text.append("'");
    text
}

// ---------------------------------------------------------------------------
// Code
// ---------------------------------------------------------------------------

/// The query for the node of a file.
pub open spec fn file_cypher(path: Seq<char>) -> Seq<char> {
    find_nodes_cypher("File"@, Some(property_match("n.path = '", path)), 1)
}

/// The item for a file that the message names, and that the graph knows.
pub open spec fn named_item(path: Seq<char>, value: Seq<char>) -> CodeItemView {
    CodeItemView {
        file_path: path,
        language: member_or_unknown(value, "language"),
        relevance: Score { bits: ONE_BITS },
        snippet: "Directly referenced: "@ + path,
    }
}

/// The items for the files that the message names, given what the graph knows of each.
pub open spec fn named_items(paths: Seq<Seq<char>>, answers: Seq<Seq<Seq<char>>>) -> Seq<
    CodeItemView,
>
    decreases paths.len(),
{
    if paths.len() == 0 {
        Seq::empty()
    } else {
        let values = answers[paths.len() - 1];
        named_items(paths.drop_last(), answers) + Seq::new(
            values.len(),
            |k: int| named_item(paths.last(), values[k]),
        )
    }
}

/// The relevance of a record: its similarity, or zero where there is none.
pub open spec fn relevance_of(similarity: Option<Score>) -> Score {
    match similarity {
        Some(score) => score,
        None => Score { bits: 0 },
    }
}

/// The item for a chunk of code that the search found.
pub open spec fn found_item(record: EmbeddingRecord) -> CodeItemView {
    CodeItemView {
        file_path: record.source_id@,
        language: member_or_unknown(record.metadata@, "language"),
        relevance: relevance_of(record.similarity),
        snippet: head_of(record.content@, CODE_SNIPPET as nat),
    }
}

/// The items for the chunks of code that the search found.
pub open spec fn found_items(records: Seq<EmbeddingRecord>) -> Seq<CodeItemView> {
    Seq::new(records.len(), |i: int| found_item(records[i]))
}

/// All items of code, before they are ranked.
pub open spec fn code_candidates(
    paths: Seq<Seq<char>>,
    answers: Seq<Seq<Seq<char>>>,
    records: Seq<EmbeddingRecord>,
) -> Seq<CodeItemView> {
    named_items(paths, answers) + found_items(records)
}

fn score_of(similarity: Option<Score>) -> (r: Score)
    ensures
        r == relevance_of(similarity),
{
    match similarity {
        Some(score) => score,
        None => Score { bits: 0 },
    }
}

fn push_named(items: &mut Vec<CodeContextItem>, path: &str, lookup: &Option<GraphQueryResult>)
    ensures
        item_views(final(items)@) == item_views(old(items)@) + Seq::new(
            answered(*lookup).len(),
            |k: int| named_item(path@, answered(*lookup)[k]),
        ),
{
    let values = values_of(lookup);
    let ghost start = item_views(items@);
    let ghost known = answered(*lookup);
    let ghost all = Seq::new(known.len(), |k: int| named_item(path@, known[k]));
    let mut i: usize = 0;
    assert(start + all.take(0) =~= start);
    while i < values.len()
        invariant
            i <= values@.len(),
            json_views(values@) == known,
            all == Seq::new(known.len(), |k: int| named_item(path@, known[k])),
            item_views(items@) == start + all.take(i as int),
        decreases values@.len() - i,
    {
        let mut snippet = "Directly referenced: ".to_owned();
        snippet.append(path);
        let item = CodeContextItem {
            file_path: path.to_owned(),
            language: values[i].text_or("language", "unknown"),
            relevance: Score { bits: ONE_BITS },
            snippet,
        };
        let ghost done = item_views(items@);
        items.push(item);
        proof {
            assert(known[i as int] == values@[i as int]@);
            assert(item@ == all[i as int]);
            assert(item_views(items@) =~= done.push(item@));
            assert(start + all.take(i + 1) =~= (start + all.take(i as int)).push(all[i as int]));
        }
        i += 1;
    }
    assert(all.take(i as int) =~= all);
}

fn found(record: &EmbeddingRecord) -> (r: CodeContextItem)
    ensures
        r@ == found_item(*record),
{
    CodeContextItem {
        file_path: record.source_id.clone(),
        language: record.metadata.text_or("language", "unknown"),
        relevance: score_of(record.similarity),
        snippet: head(record.content.as_str(), CODE_SNIPPET),
    }
}

impl ContextHydrator {
    /// The queries for the files that the message names, one for each.
    pub fn code_queries(&self, intent: &HydrationIntent) -> (r: Vec<GraphQuery>)
        ensures
            r@.len() == intent.file_paths@.len(),
            forall|i: int|
                0 <= i < r@.len() ==> (#[trigger] r@[i]).runs(
                    self.graph_name(),
                    file_cypher(intent.file_paths@[i]@),
                ),
    {
        let mut out: Vec<GraphQuery> = Vec::new();
        let mut i: usize = 0;
        while i < intent.file_paths.len()
            invariant
                i <= intent.file_paths@.len(),
                out@.len() == i,
                forall|k: int|
                    0 <= k < i ==> (#[trigger] out@[k]).runs(
                        self.graph_name(),
                        file_cypher(intent.file_paths@[k]@),
                    ),
            decreases intent.file_paths@.len() - i,
        {
            let filter = match_text("n.path = '", intent.file_paths[i].as_str());
            out.push(self.store().graph().find_nodes("File", Some(filter.as_str()), 1));
            i += 1;
        }
        out
    }

    /// The search for code, by the embedding of the message.
    pub fn code_search(&self, query_embedding: Vec<u32>) -> (r: VectorSearchParams)
        ensures
            r.query_embedding@ == query_embedding@,
            opt_view(r.source_type) == Some("code"@),
            r.limit == self.code_limit(),
            r.similarity_threshold == (Score { bits: CODE_THRESHOLD_BITS }),
    {
        VectorSearchParams {
            query_embedding,
            source_type: Some("code".to_owned()),
            limit: self.code_results(),
            similarity_threshold: Score { bits: CODE_THRESHOLD_BITS },
        }
    }

    /// The relevant code: the files that the message names and the graph knows, and what
    /// the search found, the most relevant first, each path once.
    pub fn hydrate_code_context(
        &self,
        intent: &HydrationIntent,
        lookups: &Vec<Option<GraphQueryResult>>,
        records: &Vec<EmbeddingRecord>,
    ) -> (r: Vec<CodeContextItem>)
        requires
            lookups@.len() == intent.file_paths@.len(),
        ensures
            is_ranking_of(
                item_views(r@),
                code_candidates(views(intent.file_paths@), all_answered(lookups@), records@),
            ),
            forall|i: int, j: int|
                0 <= i < j < r@.len() ==> (#[trigger] r@[i]).file_path@ != (
                #[trigger] r@[j]).file_path@,
            forall|i: int|
                0 <= i < r@.len() ==> is_named((#[trigger] r@[i])@, views(intent.file_paths@))
                    || is_hit(r@[i]@, records@),
    {
        let mut items: Vec<CodeContextItem> = Vec::new();
        let ghost paths = views(intent.file_paths@);
        let ghost answers = all_answered(lookups@);
        let mut i: usize = 0;
        assert(item_views(items@) =~= named_items(paths.take(0), answers));
        while i < intent.file_paths.len()
            invariant
                i <= intent.file_paths@.len(),
                lookups@.len() == intent.file_paths@.len(),
                paths == views(intent.file_paths@),
                answers == all_answered(lookups@),
                item_views(items@) == named_items(paths.take(i as int), answers),
            decreases intent.file_paths@.len() - i,
        {
            push_named(&mut items, intent.file_paths[i].as_str(), &lookups[i]);
            proof {
                let next = paths.take(i + 1);
                assert(next.drop_last() =~= paths.take(i as int));
                assert(next.last() == intent.file_paths@[i as int]@);
                assert(answers[i as int] == answered(lookups@[i as int]));
            }
            i += 1;
        }
        assert(paths.take(i as int) =~= paths);
        let ghost named = named_items(paths, answers);
        let ghost more = found_items(records@);
        let mut j: usize = 0;
        assert(named + more.take(0) =~= named);
        while j < records.len()
            invariant
                j <= records@.len(),
                more == found_items(records@),
                item_views(items@) == named + more.take(j as int),
            decreases records@.len() - j,
        {
            let item = found(&records[j]);
            let ghost done = item_views(items@);
            items.push(item);
            proof {
                assert(item_views(items@) =~= done.push(item@));
                assert(named + more.take(j + 1) =~= (named + more.take(j as int)).push(
                    more[j as int],
                ));
            }
            j += 1;
        }
        assert(more.take(j as int) =~= more);
        let out = rank(&items);
        proof {
            let seen = item_views(out@);
            law_code_context(seen, paths, answers, records@);
            assert forall|i: int| 0 <= i < out@.len() implies is_named((#[trigger] out@[i])@, paths)
                || is_hit(out@[i]@, records@) by {
                assert(seen[i] == out@[i]@);
            }
        }
        out
    }
}

/// A chunk of code that was stored by a scan, and that a search finds again, becomes an item
/// with the language of the file that it was cut from.
pub proof fn law_language_of_chunk(
    chunk: CodeChunk,
    repo: Seq<char>,
    path: Seq<char>,
    language: Seq<char>,
    record: EmbeddingRecord,
)
    requires
        tells_source(chunk, repo, path, language),
        record.metadata@ == chunk.metadata@,
        record.source_id@ == chunk.source_id@,
    ensures
        found_item(record).language == language,
        found_item(record).file_path == chunk.source_id@,
{
}

// ---------------------------------------------------------------------------
// Documentation
// ---------------------------------------------------------------------------

/// The item for a chunk of documentation that the search found.
pub open spec fn doc_item(record: EmbeddingRecord) -> DocItemView {
    DocItemView {
        title: match text_member(record.metadata@, "title"@) {
            Some(title) => title,
            None => record.source_id@,
        },
        source: record.source_type@,
        relevance: relevance_of(record.similarity),
        snippet: head_of(record.content@, DOC_SNIPPET as nat),
    }
}

/// The items for the chunks of documentation that the search found.
pub open spec fn doc_items(records: Seq<EmbeddingRecord>) -> Seq<DocItemView> {
    Seq::new(records.len(), |i: int| doc_item(records[i]))
}

impl ContextHydrator {
    /// The search for documentation, by the embedding of the message.
    pub fn doc_search(&self, query_embedding: Vec<u32>) -> (r: VectorSearchParams)
        ensures
            r.query_embedding@ == query_embedding@,
            opt_view(r.source_type) == Some("doc"@),
            r.limit == self.doc_limit(),
            r.similarity_threshold == (Score { bits: HALF_BITS }),
    {
        VectorSearchParams {
            query_embedding,
            source_type: Some("doc".to_owned()),
            limit: self.doc_results(),
            similarity_threshold: Score { bits: HALF_BITS },
        }
    }

    /// The relevant documentation, in the order in which the search found it.
    pub fn hydrate_doc_context(&self, records: &Vec<EmbeddingRecord>) -> (r: Vec<DocContextItem>)
        ensures
            doc_views(r@) == doc_items(records@),
            r@.len() == records@.len(),
            forall|i: int|
                0 <= i < r@.len() ==> (#[trigger] r@[i]).relevance == (
                match records@[i].similarity {
                    Some(similarity) => similarity,
                    None => Score { bits: 0 },
                }),
    {
        let mut out: Vec<DocContextItem> = Vec::new();
        let ghost all = doc_items(records@);
        let mut i: usize = 0;
        assert(doc_views(out@) =~= all.take(0));
        while i < records.len()
            invariant
                i <= records@.len(),
                all == doc_items(records@),
                doc_views(out@) == all.take(i as int),
            decreases records@.len() - i,
        {
            let record = &records[i];
            let item = DocContextItem {
                title: record.metadata.text_or("title", record.source_id.as_str()),
                source: record.source_type.clone(),
                relevance: score_of(record.similarity),
                snippet: head(record.content.as_str(), DOC_SNIPPET),
            };
            let ghost done = doc_views(out@);
            out.push(item);
            proof {
                assert(doc_views(out@) =~= done.push(item@));
                assert(all.take(i + 1) =~= all.take(i as int).push(all[i as int]));
            }
            i += 1;
        }
        proof {
            assert(all.take(i as int) =~= all);
            let seen = doc_views(out@);
            assert(seen.len() == out@.len());
            assert forall|i: int| 0 <= i < out@.len() implies (#[trigger] out@[i]).relevance == (
            match records@[i].similarity {
                Some(similarity) => similarity,
                None => Score { bits: 0 },
            }) by {
                assert(seen[i] == out@[i]@);
                law_records_become_items(records@, i);
            }
        }
        out
    }
}

// ---------------------------------------------------------------------------
// Ownership
// ---------------------------------------------------------------------------

/// The query for the owners of a file.
pub open spec fn file_owners_cypher(path: Seq<char>) -> Seq<char> {
    get_owners_cypher("File"@, property_match("path: '", path))
}

/// The query for the owners of a service.
pub open spec fn service_owners_cypher(service: Seq<char>) -> Seq<char> {
    get_owners_cypher("Service"@, property_match("name: '", service))
}

/// The item for a team that owns an entity.
pub open spec fn owner_item(entity: Seq<char>, value: Seq<char>) -> OwnerView {
    OwnerView {
        entity,
        team: member_or_unknown(value, "name"),
        slack_channel: text_member(value, "slack_channel"@),
    }
}

/// The items for the teams that own entities, given what the graph knows of each.
pub open spec fn owner_items(entities: Seq<Seq<char>>, answers: Seq<Seq<Seq<char>>>) -> Seq<
    OwnerView,
>
    decreases entities.len(),
{
    if entities.len() == 0 {
        Seq::empty()
    } else {
        let values = answers[entities.len() - 1];
        owner_items(entities.drop_last(), answers) + Seq::new(
            values.len(),
            |k: int| owner_item(entities.last(), values[k]),
        )
    }
}

fn push_owners(items: &mut Vec<OwnershipItem>, entity: &str, lookup: &Option<GraphQueryResult>)
    ensures
        owner_views(final(items)@) == owner_views(old(items)@) + Seq::new(
            answered(*lookup).len(),
            |k: int| owner_item(entity@, answered(*lookup)[k]),
        ),
{
    let values = values_of(lookup);
    let ghost start = owner_views(items@);
    let ghost known = answered(*lookup);
    let ghost all = Seq::new(known.len(), |k: int| owner_item(entity@, known[k]));
    let mut i: usize = 0;
    assert(start + all.take(0) =~= start);
    while i < values.len()
        invariant
            i <= values@.len(),
            json_views(values@) == known,
            all == Seq::new(known.len(), |k: int| owner_item(entity@, known[k])),
            owner_views(items@) == start + all.take(i as int),
        decreases values@.len() - i,
    {
        let item = OwnershipItem {
            entity: entity.to_owned(),
            team: values[i].text_or("name", "unknown"),
            slack_channel: values[i].get_text("slack_channel"),
        };
        let ghost done = owner_views(items@);
        items.push(item);
        proof {
            assert(known[i as int] == values@[i as int]@);
            assert(item@ == all[i as int]);
            assert(owner_views(items@) =~= done.push(item@));
            assert(start + all.take(i + 1) =~= (start + all.take(i as int)).push(all[i as int]));
        }
        i += 1;
    }
    assert(all.take(i as int) =~= all);
}

fn push_all_owners(
    items: &mut Vec<OwnershipItem>,
    entities: &Vec<String>,
    lookups: &Vec<Option<GraphQueryResult>>,
)
    requires
        lookups@.len() == entities@.len(),
    ensures
        owner_views(final(items)@) == owner_views(old(items)@) + owner_items(
            views(entities@),
            all_answered(lookups@),
        ),
{
    let ghost start = owner_views(items@);
    let ghost names = views(entities@);
    let ghost answers = all_answered(lookups@);
    let mut i: usize = 0;
    assert(start + owner_items(names.take(0), answers) =~= start);
    while i < entities.len()
        invariant
            i <= entities@.len(),
            lookups@.len() == entities@.len(),
            names == views(entities@),
            answers == all_answered(lookups@),
            owner_views(items@) == start + owner_items(names.take(i as int), answers),
        decreases entities@.len() - i,
    {
        let ghost done = owner_items(names.take(i as int), answers);
        push_owners(items, entities[i].as_str(), &lookups[i]);
        proof {
            let next = names.take(i + 1);
            let known = answered(lookups@[i as int]);
            let more = Seq::new(known.len(), |k: int| owner_item(next.last(), known[k]));
            assert(next.drop_last() =~= names.take(i as int));
            assert(next.last() == entities@[i as int]@);
            assert(answers[i as int] == known);
            assert((start + done) + more =~= start + (done + more));
        }
        i += 1;
    }
    assert(names.take(i as int) =~= names);
}

impl ContextHydrator {
    /// The queries for the owners of the files that the message names, one for each.
    pub fn file_owner_queries(&self, intent: &HydrationIntent) -> (r: Vec<GraphQuery>)
        ensures
            r@.len() == intent.file_paths@.len(),
            forall|i: int|
                0 <= i < r@.len() ==> (#[trigger] r@[i]).runs(
                    self.graph_name(),
                    file_owners_cypher(intent.file_paths@[i]@),
                ),
    {
        let mut out: Vec<GraphQuery> = Vec::new();
        let mut i: usize = 0;
        while i < intent.file_paths.len()
            invariant
                i <= intent.file_paths@.len(),
                out@.len() == i,
                forall|k: int|
                    0 <= k < i ==> (#[trigger] out@[k]).runs(
                        self.graph_name(),
                        file_owners_cypher(intent.file_paths@[k]@),
                    ),
            decreases intent.file_paths@.len() - i,
        {
            let clause = match_text("path: '", intent.file_paths[i].as_str());
            out.push(self.store().graph().get_owners("File", clause.as_str()));
            i += 1;
        }
        out
    }

    /// The queries for the owners of the services that the message names, one for each.
    pub fn service_owner_queries(&self, intent: &HydrationIntent) -> (r: Vec<GraphQuery>)
        ensures
            r@.len() == intent.service_names@.len(),
            forall|i: int|
                0 <= i < r@.len() ==> (#[trigger] r@[i]).runs(
                    self.graph_name(),
                    service_owners_cypher(intent.service_names@[i]@),
                ),
    {
        let mut out: Vec<GraphQuery> = Vec::new();
        let mut i: usize = 0;
        while i < intent.service_names.len()
            invariant
                i <= intent.service_names@.len(),
                out@.len() == i,
                forall|k: int|
                    0 <= k < i ==> (#[trigger] out@[k]).runs(
                        self.graph_name(),
                        service_owners_cypher(intent.service_names@[k]@),
                    ),
            decreases intent.service_names@.len() - i,
        {
            let clause = match_text("name: '", intent.service_names[i].as_str());
            out.push(self.store().graph().get_owners("Service", clause.as_str()));
            i += 1;
        }
        out
    }

    /// The owners of the files and of the services that the message names.
    pub fn hydrate_ownership(
        &self,
        intent: &HydrationIntent,
        file_lookups: &Vec<Option<GraphQueryResult>>,
        service_lookups: &Vec<Option<GraphQueryResult>>,
    ) -> (r: Vec<OwnershipItem>)
        requires
            file_lookups@.len() == intent.file_paths@.len(),
            service_lookups@.len() == intent.service_names@.len(),
        ensures
            owner_views(r@) == owner_items(views(intent.file_paths@), all_answered(file_lookups@))
                + owner_items(views(intent.service_names@), all_answered(service_lookups@)),
    {
        let mut items: Vec<OwnershipItem> = Vec::new();
        let ghost none = owner_views(items@);
        push_all_owners(&mut items, &intent.file_paths, file_lookups);
        proof {
            let first = owner_items(views(intent.file_paths@), all_answered(file_lookups@));
            assert(none + first =~= first);
        }
        push_all_owners(&mut items, &intent.service_names, service_lookups);
        items
    }
}

// ---------------------------------------------------------------------------
// Tests
// ---------------------------------------------------------------------------

/// The query for the tests of a file.
pub open spec fn file_tests_cypher(path: Seq<char>) -> Seq<char> {
    get_test_coverage_cypher("File"@, property_match("path: '", path))
}

/// The item for a test that covers a file.
pub open spec fn test_item(path: Seq<char>, value: Seq<char>) -> TestView {
    TestView { test_file: member_or_unknown(value, "file_path"), covers: path }
}

/// The items for the tests that cover files, given what the graph knows of each.
pub open spec fn test_items(paths: Seq<Seq<char>>, answers: Seq<Seq<Seq<char>>>) -> Seq<TestView>
    decreases paths.len(),
{
    if paths.len() == 0 {
        Seq::empty()
    } else {
        let values = answers[paths.len() - 1];
        test_items(paths.drop_last(), answers) + Seq::new(
            values.len(),
            |k: int| test_item(paths.last(), values[k]),
        )
    }
}

fn push_tests(items: &mut Vec<TestContextItem>, path: &str, lookup: &Option<GraphQueryResult>)
    ensures
        test_views(final(items)@) == test_views(old(items)@) + Seq::new(
            answered(*lookup).len(),
            |k: int| test_item(path@, answered(*lookup)[k]),
        ),
{
    let values = values_of(lookup);
    let ghost start = test_views(items@);
    let ghost known = answered(*lookup);
    let ghost all = Seq::new(known.len(), |k: int| test_item(path@, known[k]));
    let mut i: usize = 0;
    assert(start + all.take(0) =~= start);
    while i < values.len()
        invariant
            i <= values@.len(),
            json_views(values@) == known,
            all == Seq::new(known.len(), |k: int| test_item(path@, known[k])),
            test_views(items@) == start + all.take(i as int),
        decreases values@.len() - i,
    {
        let item = TestContextItem {
            test_file: values[i].text_or("file_path", "unknown"),
            covers: path.to_owned(),
        };
        let ghost done = test_views(items@);
        items.push(item);
        proof {
            assert(known[i as int] == values@[i as int]@);
            assert(item@ == all[i as int]);
            assert(test_views(items@) =~= done.push(item@));
            assert(start + all.take(i + 1) =~= (start + all.take(i as int)).push(all[i as int]));
        }
        i += 1;
    }
    assert(all.take(i as int) =~= all);
}

impl ContextHydrator {
    /// The queries for the tests of the files that the message names, one for each.
    pub fn test_queries(&self, intent: &HydrationIntent) -> (r: Vec<GraphQuery>)
        ensures
            r@.len() == intent.file_paths@.len(),
            forall|i: int|
                0 <= i < r@.len() ==> (#[trigger] r@[i]).runs(
                    self.graph_name(),
                    file_tests_cypher(intent.file_paths@[i]@),
                ),
    {
        let mut out: Vec<GraphQuery> = Vec::new();
        let mut i: usize = 0;
        while i < intent.file_paths.len()
            invariant
                i <= intent.file_paths@.len(),
                out@.len() == i,
                forall|k: int|
                    0 <= k < i ==> (#[trigger] out@[k]).runs(
                        self.graph_name(),
                        file_tests_cypher(intent.file_paths@[k]@),
                    ),
            decreases intent.file_paths@.len() - i,
        {
            let clause = match_text("path: '", intent.file_paths[i].as_str());
            out.push(self.store().graph().get_test_coverage("File", clause.as_str()));
            i += 1;
        }
        out
    }

    /// The tests of the files that the message names.
    pub fn hydrate_test_context(
        &self,
        intent: &HydrationIntent,
        lookups: &Vec<Option<GraphQueryResult>>,
    ) -> (r: Vec<TestContextItem>)
        requires
            lookups@.len() == intent.file_paths@.len(),
        ensures
            test_views(r@) == test_items(views(intent.file_paths@), all_answered(lookups@)),
    {
        let mut items: Vec<TestContextItem> = Vec::new();
        let ghost paths = views(intent.file_paths@);
        let ghost answers = all_answered(lookups@);
        let mut i: usize = 0;
        assert(test_views(items@) =~= test_items(paths.take(0), answers));
        while i < intent.file_paths.len()
            invariant
                i <= intent.file_paths@.len(),
                lookups@.len() == intent.file_paths@.len(),
                paths == views(intent.file_paths@),
                answers == all_answered(lookups@),
                test_views(items@) == test_items(paths.take(i as int), answers),
            decreases intent.file_paths@.len() - i,
        {
            push_tests(&mut items, intent.file_paths[i].as_str(), &lookups[i]);
            proof {
                let next = paths.take(i + 1);
                assert(next.drop_last() =~= paths.take(i as int));
                assert(next.last() == intent.file_paths@[i as int]@);
                assert(answers[i as int] == answered(lookups@[i as int]));
            }
            i += 1;
        }
        assert(paths.take(i as int) =~= paths);
        items
    }
}

// ---------------------------------------------------------------------------
// Laws
// ---------------------------------------------------------------------------

/// The first value of each row is taken: rows are read one by one, and one with a value gives
/// its first.
pub proof fn law_first_values(a: Seq<Seq<Seq<char>>>, b: Seq<Seq<Seq<char>>>, row: Seq<Seq<char>>)
    ensures
        first_values(a + b) == first_values(a) + first_values(b),
        row.len() > 0 ==> first_values(seq![row]) == seq![row[0]],
        row.len() == 0 ==> first_values(seq![row]).len() == 0,
    decreases b.len(),
{
    let one = seq![row];
    assert(one.drop_last() =~= Seq::empty());
    assert(one.last() == row);
    assert(first_values(one.drop_last()) =~= Seq::empty());
    if row.len() > 0 {
        assert(first_values(one) =~= seq![row[0]]);
    }
    if b.len() == 0 {
        assert(a + b =~= a);
        assert(first_values(a) + first_values(b) =~= first_values(a));
    } else {
        law_first_values(a, b.drop_last(), row);
        assert((a + b).drop_last() =~= a + b.drop_last());
        assert((a + b).last() == b.last());
        assert(first_values(a + b) =~= first_values(a) + first_values(b));
    }
}

/// Each answer of the graph is seen, in order: as the JSON that it is, or else as a string. A
/// query that failed has none.
pub proof fn law_answers_are_seen(result: GraphQueryResult, answers: Seq<Seq<char>>)
    requires
        row_views(result.rows@) == graph_rows(answers),
    ensures
        answered(Some(result)).len() == answers.len(),
        forall|i: int|
            0 <= i < answers.len() ==> #[trigger] answered(Some(result))[i] == (match json_parse(
                answers[i],
            ) {
                Some(value) => value,
                None => quoted(answers[i]),
            }),
        answered(None).len() == 0,
{
    lemma_single_values(answers);
}

proof fn lemma_single_values(answers: Seq<Seq<char>>)
    ensures
        first_values(graph_rows(answers)) == Seq::new(
            answers.len(),
            |i: int| graph_value(answers[i]),
        ),
    decreases answers.len(),
{
    let rows = graph_rows(answers);
    let values = Seq::new(answers.len(), |i: int| graph_value(answers[i]));
    if answers.len() > 0 {
        let front = answers.drop_last();
        lemma_single_values(front);
        assert(rows.drop_last() =~= graph_rows(front));
        assert(rows.last() == seq![graph_value(answers.last())]);
        assert(first_values(rows) =~= values);
    } else {
        assert(first_values(rows) =~= values);
    }
}

/// The items of files, owners and tests are made name by name: those of two lists of names are
/// those of the first, and then those of the second.
pub proof fn law_items_in_parts(
    a: Seq<Seq<char>>,
    x: Seq<Seq<Seq<char>>>,
    b: Seq<Seq<char>>,
    y: Seq<Seq<Seq<char>>>,
)
    requires
        a.len() == x.len(),
        b.len() == y.len(),
    ensures
        named_items(a + b, x + y) == named_items(a, x) + named_items(b, y),
        owner_items(a + b, x + y) == owner_items(a, x) + owner_items(b, y),
        test_items(a + b, x + y) == test_items(a, x) + test_items(b, y),
    decreases b.len(),
{
    if b.len() == 0 {
        assert(a + b =~= a);
        assert(x + y =~= x);
        assert(named_items(a, x) + named_items(b, y) =~= named_items(a, x));
        assert(owner_items(a, x) + owner_items(b, y) =~= owner_items(a, x));
        assert(test_items(a, x) + test_items(b, y) =~= test_items(a, x));
    } else {
        let front = b.drop_last();
        let known = y.drop_last();
        law_items_in_parts(a, x, front, known);
        lemma_spare_answers(a + front, x + known, x + y);
        lemma_spare_answers(front, known, y);
        assert((a + b).drop_last() =~= a + front);
        assert((a + b).last() == b.last());
        assert((x + y)[(a + b).len() - 1] == y[b.len() - 1]);
        let values = y[b.len() - 1];
        let named = Seq::new(values.len(), |k: int| named_item(b.last(), values[k]));
        let owners = Seq::new(values.len(), |k: int| owner_item(b.last(), values[k]));
        let tests = Seq::new(values.len(), |k: int| test_item(b.last(), values[k]));
        assert((named_items(a, x) + named_items(front, known)) + named =~= named_items(a, x)
            + named_items(b, y));
        assert((owner_items(a, x) + owner_items(front, known)) + owners =~= owner_items(a, x)
            + owner_items(b, y));
        assert((test_items(a, x) + test_items(front, known)) + tests =~= test_items(a, x)
            + test_items(b, y));
    }
}

proof fn lemma_spare_answers(
    names: Seq<Seq<char>>,
    answers: Seq<Seq<Seq<char>>>,
    more: Seq<Seq<Seq<char>>>,
)
    requires
        names.len() <= answers.len(),
        names.len() <= more.len(),
        forall|i: int| 0 <= i < names.len() ==> answers[i] == more[i],
    ensures
        named_items(names, answers) == named_items(names, more),
        owner_items(names, answers) == owner_items(names, more),
        test_items(names, answers) == test_items(names, more),
    decreases names.len(),
{
    if names.len() > 0 {
        lemma_spare_answers(names.drop_last(), answers, more);
        assert(answers[names.len() - 1] == more[names.len() - 1]);
    }
}

/// Each value that the graph knows of one name gives one item, in order: of a file that the
/// message names, with the relevance one; of a team that owns an entity; of a test that covers
/// a file.
pub proof fn law_items_of_one(name: Seq<char>, values: Seq<Seq<char>>)
    ensures
        ({
            let items = named_items(seq![name], seq![values]);
            &&& items.len() == values.len()
            &&& forall|k: int|
                0 <= k < values.len() ==> {
                    &&& (#[trigger] items[k]).file_path == name
                    &&& items[k].relevance == (Score { bits: 0x3FF0_0000_0000_0000 })
                    &&& items[k].language == (match text_member(values[k], "language"@) {
                        Some(known) => known,
                        None => "unknown"@,
                    })
                    &&& items[k].snippet == "Directly referenced: "@ + name
                }
        }),
        ({
            let items = owner_items(seq![name], seq![values]);
            &&& items.len() == values.len()
            &&& forall|k: int|
                0 <= k < values.len() ==> {
                    &&& (#[trigger] items[k]).entity == name
                    &&& items[k].team == (match text_member(values[k], "name"@) {
                        Some(known) => known,
                        None => "unknown"@,
                    })
                    &&& items[k].slack_channel == text_member(values[k], "slack_channel"@)
                }
        }),
        ({
            let items = test_items(seq![name], seq![values]);
            &&& items.len() == values.len()
            &&& forall|k: int|
                0 <= k < values.len() ==> {
                    &&& (#[trigger] items[k]).covers == name
                    &&& items[k].test_file == (match text_member(values[k], "file_path"@) {
                        Some(known) => known,
                        None => "unknown"@,
                    })
                }
        }),
{
    let one = seq![name];
    let known = seq![values];
    assert(one.drop_last() =~= Seq::empty());
    assert(one.last() == name);
    assert(known[one.len() - 1] == values);
    assert(named_items(one.drop_last(), known) =~= Seq::empty());
    assert(owner_items(one.drop_last(), known) =~= Seq::empty());
    assert(test_items(one.drop_last(), known) =~= Seq::empty());
    assert(named_items(one, known) =~= Seq::new(
        values.len(),
        |k: int| named_item(name, values[k]),
    ));
    assert(owner_items(one, known) =~= Seq::new(
        values.len(),
        |k: int| owner_item(name, values[k]),
    ));
    assert(test_items(one, known) =~= Seq::new(values.len(), |k: int| test_item(name, values[k])));
}

/// Each record of a search gives one item, in order, with its source, its similarity as the
/// relevance, and the beginning of its content: two hundred characters of code, three hundred
/// of documentation.
pub proof fn law_records_become_items(records: Seq<EmbeddingRecord>, i: int)
    requires
        0 <= i < records.len(),
    ensures
        found_items(records).len() == records.len(),
        found_items(records)[i].file_path == records[i].source_id@,
        found_items(records)[i].relevance == (match records[i].similarity {
            Some(similarity) => similarity,
            None => Score { bits: 0 },
        }),
        found_items(records)[i].language == (match text_member(records[i].metadata@, "language"@) {
            Some(known) => known,
            None => "unknown"@,
        }),
        found_items(records)[i].snippet == if records[i].content@.len() <= 200 {
            records[i].content@
        } else {
            records[i].content@.take(200)
        },
        doc_items(records).len() == records.len(),
        doc_items(records)[i].source == records[i].source_type@,
        doc_items(records)[i].relevance == (match records[i].similarity {
            Some(similarity) => similarity,
            None => Score { bits: 0 },
        }),
        doc_items(records)[i].title == (match text_member(records[i].metadata@, "title"@) {
            Some(title) => title,
            None => records[i].source_id@,
        }),
        doc_items(records)[i].snippet == if records[i].content@.len() <= 300 {
            records[i].content@
        } else {
            records[i].content@.take(300)
        },
{
    let content = records[i].content@;
    if content.len() == 200 {
        assert(content.take(200) =~= content);
    }
    if content.len() == 300 {
        assert(content.take(300) =~= content);
    }
}

/// An item is of a file that the message names, with the relevance one.
pub open spec fn is_named(item: CodeItemView, paths: Seq<Seq<char>>) -> bool {
    paths.contains(item.file_path) && item.relevance == (Score { bits: 0x3FF0_0000_0000_0000 })
}

/// An item is of a record, with its similarity as the relevance.
pub open spec fn is_hit(item: CodeItemView, records: Seq<EmbeddingRecord>) -> bool {
    exists|k: int|
        0 <= k < records.len() && item.file_path == (#[trigger] records[k]).source_id@
            && item.relevance == (match records[k].similarity {
                Some(similarity) => similarity,
                None => Score { bits: 0 },
            })
}

proof fn lemma_named(paths: Seq<Seq<char>>, answers: Seq<Seq<Seq<char>>>, i: int)
    requires
        paths.len() <= answers.len(),
        0 <= i < named_items(paths, answers).len(),
    ensures
        is_named(named_items(paths, answers)[i], paths),
    decreases paths.len(),
{
    let front = paths.drop_last();
    let earlier = named_items(front, answers);
    let item = named_items(paths, answers)[i];
    if i < earlier.len() {
        lemma_named(front, answers, i);
        assert(item == earlier[i]);
        let k = choose|k: int| 0 <= k < front.len() && front[k] == item.file_path;
        assert(paths[k] == item.file_path);
    } else {
        assert(paths[paths.len() - 1] == item.file_path);
    }
}

/// The relevant code goes by similarity: each item is one of a file that the message names, or
/// of a record of the search with its similarity as the relevance. No record is lost but to an
/// item of the same path, and neither is a file that the message names and the graph knows.
/// Where each relevance is a number, a hit that is more similar stands before one that is less
/// so, and for each path the most similar hit is kept, or one that is as relevant.
pub proof fn law_code_context(
    items: Seq<CodeItemView>,
    paths: Seq<Seq<char>>,
    answers: Seq<Seq<Seq<char>>>,
    records: Seq<EmbeddingRecord>,
)
    requires
        paths.len() == answers.len(),
        is_ranking_of(items, code_candidates(paths, answers, records)),
    ensures
        forall|i: int|
            0 <= i < items.len() ==> is_named(#[trigger] items[i], paths) || is_hit(
                items[i],
                records,
            ),
        forall|k: int|
            0 <= k < records.len() ==> has_path(items, (#[trigger] records[k]).source_id@),
        forall|k: int|
            0 <= k < paths.len() && answers[k].len() > 0 ==> has_path(items, #[trigger] paths[k]),
        all_numbers(code_candidates(paths, answers, records)) ==> {
            &&& forall|i: int, j: int|
                0 <= i < items.len() && 0 <= j < items.len() && (#[trigger] items[j]).relevance.below(
                    (#[trigger] items[i]).relevance,
                ) ==> i < j
            &&& forall|i: int, k: int|
                0 <= i < items.len() && 0 <= k < records.len() && (#[trigger] items[i]).file_path
                    == (#[trigger] records[k]).source_id@ ==> (match records[k].similarity {
                    Some(similarity) => !items[i].relevance.below(similarity),
                    None => true,
                })
        },
{
    let all = code_candidates(paths, answers, records);
    let named = named_items(paths, answers);
    law_ranking_keeps_best(items, all);
    assert forall|i: int| 0 <= i < items.len() implies is_named(#[trigger] items[i], paths)
        || is_hit(items[i], records) by {
        assert(all.contains(items[i]));
        let at = choose|at: int| 0 <= at < all.len() && all[at] == items[i];
        if at < named.len() {
            lemma_named(paths, answers, at);
            assert(all[at] == named[at]);
        } else {
            let k = at - named.len();
            law_records_become_items(records, k);
            assert(all[at] == found_items(records)[k]);
            assert(items[i].file_path == records[k].source_id@);
        }
    }
    assert forall|k: int| 0 <= k < records.len() implies has_path(
        items,
        (#[trigger] records[k]).source_id@,
    ) by {
        assert(all[named.len() + k] == found_items(records)[k]);
        law_records_become_items(records, k);
        assert(has_path(items, all[named.len() + k].file_path));
    }
    assert forall|k: int| 0 <= k < paths.len() && answers[k].len() > 0 implies has_path(
        items,
        #[trigger] paths[k],
    ) by {
        let before = paths.take(k);
        let first = answers.take(k);
        law_items_in_parts(before, first, seq![paths[k]], seq![answers[k]]);
        law_items_in_parts(
            before + seq![paths[k]],
            first + seq![answers[k]],
            paths.skip(k + 1),
            answers.skip(k + 1),
        );
        law_items_of_one(paths[k], answers[k]);
        assert(before + seq![paths[k]] + paths.skip(k + 1) =~= paths);
        assert(first + seq![answers[k]] + answers.skip(k + 1) =~= answers);
        let at = named_items(before, first).len() as int;
        assert(named[at] == named_items(seq![paths[k]], seq![answers[k]])[0]);
        assert(all[at] == named[at]);
        assert(has_path(items, all[at].file_path));
    }
    if all_numbers(all) {
        law_ranking_order(items, all);
        assert forall|i: int, j: int|
            0 <= i < items.len() && 0 <= j < items.len() && (#[trigger] items[j]).relevance.below(
                (#[trigger] items[i]).relevance,
            ) implies i < j by {
            if j < i {
                assert(!items[j].relevance.below(items[i].relevance));
            }
        }
        assert forall|i: int, k: int|
            0 <= i < items.len() && 0 <= k < records.len() && (#[trigger] items[i]).file_path == (
            #[trigger] records[k]).source_id@ implies (match records[k].similarity {
            Some(similarity) => !items[i].relevance.below(similarity),
            None => true,
        }) by {
            assert(all[named.len() + k] == found_items(records)[k]);
            law_records_become_items(records, k);
            assert(!items[i].relevance.below(all[named.len() + k].relevance));
        }
    }
}

/// The answers to each of a list of queries are seen, in order, and those to one query as they
/// stand in its rows.
pub proof fn law_lookups_seen(lookups: Seq<Option<GraphQueryResult>>)
    ensures
        all_answered(lookups).len() == lookups.len(),
        forall|i: int|
            0 <= i < lookups.len() ==> #[trigger] all_answered(lookups)[i] == (match lookups[i] {
                Some(result) => first_values(row_views(result.rows@)),
                None => Seq::empty(),
            }),
{
}

proof fn lemma_parts(text: Seq<char>, front: Seq<char>, back: Seq<char>)
    requires
        is_made_of(text, front, back),
    ensures
        text == front + back,
{
    assert(text =~= front + back);
}

/// A file is asked for by its path, and so are its owners and its tests; a service is asked for
/// by its name.
pub proof fn law_queries(name: Seq<char>)
    ensures
        file_cypher(name) == "MATCH (n:File) WHERE n.path = '"@ + name + "'  RETURN n LIMIT 1"@,
        file_owners_cypher(name) == "MATCH (t:Team)-[:OWNS]->(e:File {path: '"@ + name
            + "'}) RETURN t"@,
        service_owners_cypher(name) == "MATCH (t:Team)-[:OWNS]->(e:Service {name: '"@ + name
            + "'}) RETURN t"@,
        file_tests_cypher(name) == "MATCH (e:File {path: '"@ + name
            + "'})<-[:TESTED_BY]-(test) RETURN test"@,
{
    reveal_strlit("MATCH (n:");
    reveal_strlit("File");
    reveal_strlit(")");
    reveal_strlit(" WHERE ");
    reveal_strlit("n.path = '");
    reveal_strlit("'");
    reveal_strlit("  RETURN n LIMIT ");
    reveal_strlit("MATCH (t:Team)-[:OWNS]->(e:");
    reveal_strlit("Service");
    reveal_strlit(" {");
    reveal_strlit("path: '");
    reveal_strlit("name: '");
    reveal_strlit("}) RETURN t");
    reveal_strlit("MATCH (e:");
    reveal_strlit("})<-[:TESTED_BY]-(test) RETURN test");
    reveal_strlit("MATCH (n:File) WHERE n.path = '");
    reveal_strlit("'  RETURN n LIMIT 1");
    reveal_strlit("MATCH (t:Team)-[:OWNS]->(e:File {path: '");
    reveal_strlit("MATCH (t:Team)-[:OWNS]->(e:Service {name: '");
    reveal_strlit("'}) RETURN t");
    reveal_strlit("MATCH (e:File {path: '");
    reveal_strlit("'})<-[:TESTED_BY]-(test) RETURN test");
    let none = Seq::<char>::empty();
    law_searched("File"@, none, none, none, Some("n.path = '"@ + name + "'"@), 1);
    law_looked_up("File"@, "path: '"@ + name + "'"@, none);
    law_looked_up("Service"@, "name: '"@ + name + "'"@, none);
    assert(decimal(1) =~= seq!['1']);
    let file = "MATCH (n:File) WHERE n.path = '"@;
    assert(file =~= "MATCH (n:"@ + "File"@ + ")"@ + " WHERE "@ + "n.path = '"@);
    lemma_parts(
        file_cypher(name),
        "MATCH (n:"@ + "File"@ + ")"@ + (" WHERE "@ + ("n.path = '"@ + name + "'"@)),
        "  RETURN n LIMIT "@ + decimal(1),
    );
    assert(file_cypher(name) =~= file + name + "'  RETURN n LIMIT 1"@);
    let owned = "MATCH (t:Team)-[:OWNS]->(e:"@;
    lemma_parts(
        file_owners_cypher(name),
        owned + "File"@,
        " {"@ + ("path: '"@ + name + "'"@) + "}) RETURN t"@,
    );
    assert(file_owners_cypher(name) =~= "MATCH (t:Team)-[:OWNS]->(e:File {path: '"@ + name
        + "'}) RETURN t"@);
    lemma_parts(
        service_owners_cypher(name),
        owned + "Service"@,
        " {"@ + ("name: '"@ + name + "'"@) + "}) RETURN t"@,
    );
    assert(service_owners_cypher(name) =~= "MATCH (t:Team)-[:OWNS]->(e:Service {name: '"@ + name
        + "'}) RETURN t"@);
    lemma_parts(
        file_tests_cypher(name),
        "MATCH (e:"@ + "File"@,
        " {"@ + ("path: '"@ + name + "'"@) + "})<-[:TESTED_BY]-(test) RETURN test"@,
    );
    assert(file_tests_cypher(name) =~= "MATCH (e:File {path: '"@ + name
        + "'})<-[:TESTED_BY]-(test) RETURN test"@);
}

} // verus!
