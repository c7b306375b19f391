//! Embeddings and their similarity search, on pgvector.

use vstd::prelude::*;
use vstd::string::*;

use crate::db::statement::{
    schema_view, sql_views, statement, text_param, text_value, ColumnKind,
    Row, SqlValue, SqlView, Statement, StatementView,
};
use crate::json::Json;
use crate::score::Score;
use crate::text::{has_part, opt_str_view, opt_view, stands_at};

verus! {

/// Inserts an embedding, or updates the one of the same chunk.
pub const UPSERT_SQL: &'static str =
    "INSERT INTO embeddings (source_type, source_id, chunk_index, content, metadata, embedding)
                 VALUES ($1, $2, $3, $4, $5, $6)
                 ON CONFLICT (source_type, source_id, chunk_index)
                 DO UPDATE SET content = $4, metadata = $5, embedding = $6, updated_at = now()
                 RETURNING id";

/// The embeddings of one source type that are nearest to a vector.
pub const SEARCH_TYPE_SQL: &'static str =
    "SELECT id, source_type, source_id, chunk_index, content, metadata,
                            1 - (embedding <=> $1) as similarity
                     FROM embeddings
                     WHERE source_type = $2
                       AND 1 - (embedding <=> $1) >= $3
                     ORDER BY embedding <=> $1
                     LIMIT $4";

/// The embeddings that are nearest to a vector.
pub const SEARCH_SQL: &'static str =
    "SELECT id, source_type, source_id, chunk_index, content, metadata,
                            1 - (embedding <=> $1) as similarity
                     FROM embeddings
                     WHERE 1 - (embedding <=> $1) >= $2
                     ORDER BY embedding <=> $1
                     LIMIT $3";

/// Deletes the embeddings of a source.
pub const DELETE_SOURCE_SQL: &'static str =
    "DELETE FROM embeddings WHERE source_type = $1 AND source_id = $2";

/// Deletes the embeddings of a source type.
pub const DELETE_SOURCE_TYPE_SQL: &'static str =
    "DELETE FROM embeddings WHERE source_type = $1";

/// Counts the embeddings of a source type.
pub const COUNT_TYPE_SQL: &'static str =
    "SELECT COUNT(*) as count FROM embeddings WHERE source_type = $1";

/// Counts the embeddings.
pub const COUNT_SQL: &'static str = "SELECT COUNT(*) as count FROM embeddings";

/// One half, as the bits of a 64-bit floating point number.
pub const HALF_BITS: u64 = 0x3FE0_0000_0000_0000;

/// Vector store backed by pgvector on PostgreSQL.
///
/// Writes the statements of embedding storage and similarity search.
#[derive(Debug, Clone, Copy)]
pub struct VectorStore {}

/// An embedding record stored in the vector database.
#[derive(Debug, Clone)]
pub struct EmbeddingRecord {
    pub id: u128,
    pub source_type: String,
    pub source_id: String,
    pub chunk_index: i32,
    pub content: String,
    pub metadata: Json,
    pub similarity: Option<Score>,
}

/// Input for upserting an embedding.
#[derive(Debug, Clone)]
pub struct EmbeddingInput {
    pub source_type: String,
    pub source_id: String,
    pub chunk_index: i32,
    pub content: String,
    pub metadata: Json,
    /// The components of the vector, each as the bits of its 32-bit floating point number.
    pub embedding: Vec<u32>,
}

/// What an `EmbeddingInput` says.
#[verifier::ext_equal]
pub struct EmbeddingView {
    pub source_type: Seq<char>,
    pub source_id: Seq<char>,
    pub chunk_index: i32,
    pub content: Seq<char>,
    pub metadata: Seq<char>,
    pub embedding: Seq<u32>,
}

impl View for EmbeddingInput {
    type V = EmbeddingView;

    open spec fn view(&self) -> EmbeddingView {
        EmbeddingView {
            source_type: self.source_type@,
            source_id: self.source_id@,
            chunk_index: self.chunk_index,
            content: self.content@,
            metadata: self.metadata@,
            embedding: self.embedding@,
        }
    }
}

/// What a list of inputs says.
pub open spec fn embedding_views(inputs: Seq<EmbeddingInput>) -> Seq<EmbeddingView> {
    Seq::new(inputs.len(), |i: int| inputs[i]@)
}

/// Search parameters for vector similarity search.
#[derive(Debug, Clone)]
pub struct VectorSearchParams {
    /// The components of the vector, each as the bits of its 32-bit floating point number.
    pub query_embedding: Vec<u32>,
    pub source_type: Option<String>,
    pub limit: i64,
    pub similarity_threshold: Score,
}

impl Default for VectorSearchParams {
    fn default() -> (r: VectorSearchParams)
        ensures
            r.query_embedding@ == Seq::<u32>::empty(),
            r.source_type is None,
            r.limit == 10,
            r.similarity_threshold == (Score { bits: HALF_BITS }),
    {
        VectorSearchParams {
            query_embedding: Vec::new(),
            source_type: None,
            limit: 10,
            similarity_threshold: Score { bits: HALF_BITS },
        }
    }
}

/// The statement that stores an embedding.
pub open spec fn upsert_statement(input: EmbeddingView) -> StatementView {
    statement(
        UPSERT_SQL,
        seq![
            text_param(input.source_type),
            text_param(input.source_id),
            SqlView::Int(Some(input.chunk_index)),
            text_param(input.content),
            SqlView::Document(Some(input.metadata)),
            SqlView::Embedding(input.embedding),
        ],
    )
}

/// The statement of a search.
pub open spec fn search_statement(
    embedding: Seq<u32>,
    source_type: Option<Seq<char>>,
    limit: i64,
    threshold: Score,
) -> StatementView {
    match source_type {
        Some(source_type) => statement(
            SEARCH_TYPE_SQL,
            seq![
                SqlView::Embedding(embedding),
                text_param(source_type),
                SqlView::Double(Some(threshold)),
                SqlView::BigInt(Some(limit)),
            ],
        ),
        None => statement(
            SEARCH_SQL,
            seq![
                SqlView::Embedding(embedding),
                SqlView::Double(Some(threshold)),
                SqlView::BigInt(Some(limit)),
            ],
        ),
    }
}

/// The columns of a record of a search.
pub open spec fn record_schema() -> Seq<(Seq<char>, ColumnKind)> {
    seq![
        ("id"@, ColumnKind::Uuid),
        ("source_type"@, ColumnKind::Text),
        ("source_id"@, ColumnKind::Text),
        ("chunk_index"@, ColumnKind::Int),
        ("content"@, ColumnKind::Text),
        ("metadata"@, ColumnKind::Document),
        ("similarity"@, ColumnKind::OptDouble),
    ]
}

/// The columns of a record of a search.
pub fn record_columns() -> (r: Vec<(&'static str, ColumnKind)>)
    ensures
        schema_view(r@) == record_schema(),
{
    let columns: Vec<(&'static str, ColumnKind)> = vec![
        ("id", ColumnKind::Uuid),
        ("source_type", ColumnKind::Text),
        ("source_id", ColumnKind::Text),
        ("chunk_index", ColumnKind::Int),
        ("content", ColumnKind::Text),
        ("metadata", ColumnKind::Document),
        ("similarity", ColumnKind::OptDouble),
    ];
    assert(schema_view(columns@) =~= record_schema());
    columns
}

/// A record holds what the row does.
pub open spec fn record_of(record: EmbeddingRecord, row: Row) -> bool {
    &&& row.cell("id"@) == Some(SqlView::Uuid(Some(record.id)))
    &&& row.cell("source_type"@) == Some(text_param(record.source_type@))
    &&& row.cell("source_id"@) == Some(text_param(record.source_id@))
    &&& row.cell("chunk_index"@) == Some(SqlView::Int(Some(record.chunk_index)))
    &&& row.cell("content"@) == Some(text_param(record.content@))
    &&& row.cell("metadata"@) == Some(SqlView::Document(Some(record.metadata@)))
    &&& row.cell("similarity"@) == Some(SqlView::Double(record.similarity))
}

/// The records are those of the rows, one for each, in order.
pub open spec fn are_records(records: Seq<EmbeddingRecord>, rows: Seq<Row>) -> bool {
    &&& records.len() == rows.len()
    &&& forall|i: int| 0 <= i < rows.len() ==> record_of(#[trigger] records[i], rows[i])
}

fn record_from_row(row: &Row) -> (r: EmbeddingRecord)
    requires
        row.conforms(record_schema()),
    ensures
        record_of(r, *row),
{
    let ghost schema = record_schema();
    assert(row.has(schema[0]) && row.has(schema[1]) && row.has(schema[2]) && row.has(schema[3])
        && row.has(schema[4]) && row.has(schema[5]) && row.has(schema[6]));
    EmbeddingRecord {
        id: row.uuid("id"),
        source_type: row.text("source_type"),
        source_id: row.text("source_id"),
        chunk_index: row.integer("chunk_index"),
        content: row.text("content"),
        metadata: row.document("metadata"),
        similarity: row.opt_double("similarity"),
    }
}

impl EmbeddingInput {
    /// What is said where one embedding of a batch cannot be stored.
    pub fn batch_failure(&self) -> (r: String)
        ensures
            r@ == "Failed to upsert embedding for "@ + self.source_type@ + ":"@ + self.source_id@,
    {
        let mut text = "Failed to upsert embedding for ".to_owned();
        text.append(self.source_type.as_str());
        text.append(":");
        text.append(self.source_id.as_str());
        text
    }
}

/// A copy of the components of a vector.
fn copy_components(components: &Vec<u32>) -> (r: Vec<u32>)
    ensures
        r@ == components@,
{
    let mut out: Vec<u32> = Vec::new();
    let mut i: usize = 0;
    while i < components.len()
        invariant
            i <= components@.len(),
            out@ == components@.take(i as int),
        decreases components@.len() - i,
    {
        out.push(components[i]);
        assert(components@.take(i + 1) =~= components@.take(i as int).push(components@[i as int]));
        i += 1;
    }
    assert(components@.take(i as int) =~= components@);
    out
}

impl VectorStore {
    pub fn new() -> (r: VectorStore)
        ensures
            r == (VectorStore {  }),
    {
        VectorStore {}
    }

    /// Upsert a single embedding (insert or update on conflict).
    pub fn upsert(&self, input: &EmbeddingInput) -> (r: Statement)
        ensures
            r@ == upsert_statement(input@),
    {
        let params: Vec<SqlValue> = vec![
            text_value(input.source_type.as_str()),
            text_value(input.source_id.as_str()),
            SqlValue::Int(Some(input.chunk_index)),
            text_value(input.content.as_str()),
            SqlValue::Document(Some(input.metadata.copy())),
            SqlValue::Embedding(copy_components(&input.embedding)),
        ];
        assert(sql_views(params@) =~~= upsert_statement(input@).params);
        Statement::new(UPSERT_SQL, params)
    }

    /// Batch upsert multiple embeddings: one statement for each, in order.
    pub fn upsert_batch(&self, inputs: &Vec<EmbeddingInput>) -> (r: Vec<Statement>)
        ensures
            r@.len() == inputs@.len(),
            forall|i: int|
                0 <= i < inputs@.len() ==> (#[trigger] r@[i])@ == upsert_statement(inputs@[i]@),
    {
        let mut out: Vec<Statement> = Vec::new();
        let mut i: usize = 0;
        while i < inputs.len()
            invariant
                i <= inputs@.len(),
                out@.len() == i,
                forall|k: int|
                    0 <= k < i ==> (#[trigger] out@[k])@ == upsert_statement(inputs@[k]@),
            decreases inputs@.len() - i,
        {
            out.push(self.upsert(&inputs[i]));
            i += 1;
        }
        out
    }

    /// Search for similar embeddings using cosine distance.
    pub fn search(&self, params: &VectorSearchParams) -> (r: Statement)
        ensures
            r@ == search_statement(
                params.query_embedding@,
                opt_view(params.source_type),
                params.limit,
                params.similarity_threshold,
            ),
            r@.params[0] == SqlView::Embedding(params.query_embedding@),
            r@.params.last() == SqlView::BigInt(Some(params.limit)),
            r@.params[r@.params.len() - 2] == SqlView::Double(Some(params.similarity_threshold)),
    {
        let ghost wanted = search_statement(
            params.query_embedding@,
            opt_view(params.source_type),
            params.limit,
            params.similarity_threshold,
        );
        let embedding = SqlValue::Embedding(copy_components(&params.query_embedding));
        match &params.source_type {
            Some(source_type) => {
                let values: Vec<SqlValue> = vec![
                    embedding,
                    text_value(source_type.as_str()),
                    SqlValue::Double(Some(params.similarity_threshold)),
                    SqlValue::BigInt(Some(params.limit)),
                ];
                assert(sql_views(values@) =~~= wanted.params);
                Statement::new(SEARCH_TYPE_SQL, values)
            },
            None => {
                let values: Vec<SqlValue> = vec![
                    embedding,
                    SqlValue::Double(Some(params.similarity_threshold)),
                    SqlValue::BigInt(Some(params.limit)),
                ];
                assert(sql_views(values@) =~~= wanted.params);
                Statement::new(SEARCH_SQL, values)
            },
        }
    }

    /// The records that a search found, in the order of the rows.
    pub fn search_records(&self, rows: &Vec<Row>) -> (r: Vec<EmbeddingRecord>)
        requires
            forall|i: int| 0 <= i < rows@.len() ==> (#[trigger] rows@[i]).conforms(record_schema()),
        ensures
            are_records(r@, rows@),
    {
        let mut out: Vec<EmbeddingRecord> = Vec::new();
        let mut i: usize = 0;
        while i < rows.len()
            invariant
                i <= rows@.len(),
                out@.len() == i,
                forall|i: int|
                    0 <= i < rows@.len() ==> (#[trigger] rows@[i]).conforms(record_schema()),
                forall|k: int| 0 <= k < i ==> record_of(#[trigger] out@[k], rows@[k]),
            decreases rows@.len() - i,
        {
            out.push(record_from_row(&rows[i]));
            i += 1;
        }
        out
    }

    /// Delete all embeddings for a given source.
    pub fn delete_source(&self, source_type: &str, source_id: &str) -> (r: Statement)
        ensures
            r@ == statement(
                DELETE_SOURCE_SQL,
                seq![text_param(source_type@), text_param(source_id@)],
            ),
    {
        let params: Vec<SqlValue> = vec![text_value(source_type), text_value(source_id)];
        assert(sql_views(params@) =~= seq![text_param(source_type@), text_param(source_id@)]);
        Statement::new(DELETE_SOURCE_SQL, params)
    }

    /// Delete all embeddings for a given source type.
    pub fn delete_source_type(&self, source_type: &str) -> (r: Statement)
        ensures
            r@ == statement(DELETE_SOURCE_TYPE_SQL, seq![text_param(source_type@)]),
    {
        let params: Vec<SqlValue> = vec![text_value(source_type)];
        assert(sql_views(params@) =~= seq![text_param(source_type@)]);
        Statement::new(DELETE_SOURCE_TYPE_SQL, params)
    }

    /// Count embeddings, optionally filtered by source type.
    pub fn count(&self, source_type: Option<&str>) -> (r: Statement)
        ensures
            r@ == (match opt_str_view(source_type) {
                Some(source_type) => statement(COUNT_TYPE_SQL, seq![text_param(source_type)]),
                None => statement(COUNT_SQL, Seq::empty()),
            }),
    {
        match source_type {
            Some(source_type) => {
                let params: Vec<SqlValue> = vec![text_value(source_type)];
                assert(sql_views(params@) =~= seq![text_param(source_type@)]);
                Statement::new(COUNT_TYPE_SQL, params)
            },
            None => {
                let params: Vec<SqlValue> = Vec::new();
                assert(sql_views(params@) =~= Seq::empty());
                Statement::new(COUNT_SQL, params)
            },
        }
    }
}

// ---------------------------------------------------------------------------
// Laws
// ---------------------------------------------------------------------------

/// The columns that the first parameters of `UPSERT_SQL` go to. The last one, the vector,
/// is not read back.
pub open spec fn upsert_columns() -> Seq<Seq<char>> {
    seq!["source_type"@, "source_id"@, "chunk_index"@, "content"@, "metadata"@]
}

/// A record that is read from the row that an upsert filled holds what was stored.
pub proof fn law_embedding_reads_back(input: EmbeddingView, record: EmbeddingRecord, row: Row)
    requires
        row.holds(upsert_columns(), upsert_statement(input).params),
        record_of(record, row),
    ensures
        record.source_type@ == input.source_type,
        record.source_id@ == input.source_id,
        record.chunk_index == input.chunk_index,
        record.content@ == input.content,
        record.metadata@ == input.metadata,
{
    let columns = upsert_columns();
    let params = upsert_statement(input).params;
    assert(row.cell(columns[0]) == Some(params[0]));
    assert(row.cell(columns[1]) == Some(params[1]));
    assert(row.cell(columns[2]) == Some(params[2]));
    assert(row.cell(columns[3]) == Some(params[3]));
    assert(row.cell(columns[4]) == Some(params[4]));
}

/// Equal inputs are stored by equal statements, and inputs of one chunk of one source, and no
/// others, by statements that agree in the parameters that tell the chunk.
pub proof fn law_upsert_key(a: EmbeddingView, b: EmbeddingView)
    ensures
        a == b ==> upsert_statement(a) == upsert_statement(b),
        upsert_statement(a).sql == upsert_statement(b).sql,
        (a.source_type == b.source_type && a.source_id == b.source_id && a.chunk_index
            == b.chunk_index) <==> upsert_statement(a).params.take(3) == upsert_statement(
            b,
        ).params.take(3),
{
    let x = upsert_statement(a).params;
    let y = upsert_statement(b).params;
    if a.source_type == b.source_type && a.source_id == b.source_id && a.chunk_index
        == b.chunk_index {
        assert(x.take(3) =~= y.take(3));
    }
    if x.take(3) == y.take(3) {
        assert(x.take(3)[0] == y.take(3)[0]);
        assert(x.take(3)[1] == y.take(3)[1]);
        assert(x.take(3)[2] == y.take(3)[2]);
    }
}

/// Those are the parameters by which the statement tells whether a chunk is stored already.
pub proof fn law_upsert_conflict()
    ensures
        has_part(UPSERT_SQL@, "ON CONFLICT (source_type, source_id, chunk_index)"@),
{
    reveal_strlit("INSERT INTO embeddings (source_type, source_id, chunk_index, content, metadata, embedding)
                 VALUES ($1, $2, $3, $4, $5, $6)
                 ON CONFLICT (source_type, source_id, chunk_index)
                 DO UPDATE SET content = $4, metadata = $5, embedding = $6, updated_at = now()
                 RETURNING id");
    reveal_strlit("ON CONFLICT (source_type, source_id, chunk_index)");
    assert(UPSERT_SQL@.subrange(157, 206) =~= "ON CONFLICT (source_type, source_id, chunk_index)"@);
    assert(stands_at(UPSERT_SQL@, "ON CONFLICT (source_type, source_id, chunk_index)"@, 157));
}

/// The similarity that a row of a search tells, if it tells one.
pub open spec fn similarity_in(row: Row) -> Option<Score> {
    match row.cell("similarity"@) {
        Some(SqlView::Double(score)) => score,
        _ => None,
    }
}

/// A row is one that a search looks for: of the source type, where one is asked for, and not
/// below the threshold.
pub open spec fn is_match(row: Row, source_type: Option<Seq<char>>, threshold: Score) -> bool {
    &&& match source_type {
        Some(source_type) => row.cell("source_type"@) == Some(text_param(source_type)),
        None => true,
    }
    &&& match similarity_in(row) {
        Some(score) => !score.below(threshold),
        None => false,
    }
}

/// The first of two similarities is not below the second.
pub open spec fn not_below(a: Option<Score>, b: Option<Score>) -> bool {
    match (a, b) {
        (Some(a), Some(b)) => !a.below(b),
        _ => true,
    }
}

/// The rows answer a search: each is a match of the table, the closest stand first, there are
/// no more than the limit, and a match is left out only where the limit is reached with rows
/// that are as close.
pub open spec fn answers_search(
    rows: Seq<Row>,
    table: Seq<Row>,
    source_type: Option<Seq<char>>,
    threshold: Score,
    limit: i64,
) -> bool {
    &&& rows.len() <= limit
    &&& forall|i: int|
        0 <= i < rows.len() ==> is_match(#[trigger] rows[i], source_type, threshold)
            && table.contains(rows[i])
    &&& forall|i: int, j: int|
        0 <= i < j < rows.len() ==> not_below(
            similarity_in(#[trigger] rows[i]),
            similarity_in(#[trigger] rows[j]),
        )
    &&& forall|row: Row| #[trigger]
        table.contains(row) && is_match(row, source_type, threshold) ==> rows.contains(row) || (
        rows.len() >= limit && forall|i: int|
            0 <= i < rows.len() ==> not_below(
                similarity_in(#[trigger] rows[i]),
                similarity_in(row),
            ))
}

/// The records that a search gives are no more than the limit, have the source type that was
/// asked for, are not below the threshold, and stand with the closest first; a match is left
/// out only where the limit is reached with records that are as close.
pub proof fn law_search(
    records: Seq<EmbeddingRecord>,
    rows: Seq<Row>,
    table: Seq<Row>,
    source_type: Option<Seq<char>>,
    threshold: Score,
    limit: i64,
)
    requires
        answers_search(rows, table, source_type, threshold, limit),
        are_records(records, rows),
    ensures
        records.len() <= limit,
        forall|i: int|
            0 <= i < records.len() && source_type is Some ==> Some(
                (#[trigger] records[i]).source_type@,
            ) == source_type,
        forall|i: int|
            0 <= i < records.len() ==> match (#[trigger] records[i]).similarity {
                Some(score) => !score.below(threshold),
                None => false,
            },
        forall|i: int, j: int|
            0 <= i < j < records.len() ==> not_below(
                (#[trigger] records[i]).similarity,
                (#[trigger] records[j]).similarity,
            ),
        forall|row: Row| #[trigger]
            table.contains(row) && is_match(row, source_type, threshold) ==> (exists|i: int|
                0 <= i < records.len() && record_of(#[trigger] records[i], row)) || (records.len()
                >= limit && forall|i: int|
                0 <= i < records.len() ==> not_below(
                    (#[trigger] records[i]).similarity,
                    similarity_in(row),
                )),
{
    assert forall|i: int| 0 <= i < records.len() implies is_match(rows[i], source_type, threshold)
        && record_of(#[trigger] records[i], rows[i]) && similarity_in(rows[i])
        == records[i].similarity by {
        assert(table.contains(rows[i]));
    }
    assert forall|i: int, j: int| 0 <= i < j < records.len() implies not_below(
        (#[trigger] records[i]).similarity,
        (#[trigger] records[j]).similarity,
    ) by {
        assert(not_below(similarity_in(rows[i]), similarity_in(rows[j])));
    }
    assert forall|row: Row| #[trigger]
        table.contains(row) && is_match(row, source_type, threshold) implies (exists|i: int|
        0 <= i < records.len() && record_of(#[trigger] records[i], row)) || (records.len() >= limit
        && forall|i: int|
        0 <= i < records.len() ==> not_below(
            (#[trigger] records[i]).similarity,
            similarity_in(row),
        )) by {
        if rows.contains(row) {
            let i = choose|i: int| 0 <= i < rows.len() && rows[i] == row;
            assert(record_of(records[i], row));
        } else {
            assert forall|i: int| 0 <= i < records.len() implies not_below(
                (#[trigger] records[i]).similarity,
                similarity_in(row),
            ) by {
                assert(not_below(similarity_in(rows[i]), similarity_in(row)));
            }
        }
    }
}

/// An embedding that was stored is found again: a search that it matches gives a record with
/// its identifier and its source, unless the limit is reached with records as close.
pub proof fn law_stored_embedding_is_found(
    input: EmbeddingView,
    id: u128,
    row: Row,
    records: Seq<EmbeddingRecord>,
    rows: Seq<Row>,
    table: Seq<Row>,
    threshold: Score,
    limit: i64,
)
    requires
        row.holds(upsert_columns(), upsert_statement(input).params),
        row.cell("id"@) == Some(SqlView::Uuid(Some(id))),
        table.contains(row),
        is_match(row, Some(input.source_type), threshold),
        answers_search(rows, table, Some(input.source_type), threshold, limit),
        are_records(records, rows),
        records.len() < limit || exists|i: int|
            0 <= i < records.len() && !not_below(
                (#[trigger] records[i]).similarity,
                similarity_in(row),
            ),
    ensures
        exists|i: int|
            0 <= i < records.len() && (#[trigger] records[i]).id == id && records[i].source_id@
                == input.source_id && records[i].content@ == input.content,
{
    law_search(records, rows, table, Some(input.source_type), threshold, limit);
    let i = choose|i: int| 0 <= i < records.len() && record_of(#[trigger] records[i], row);
    law_embedding_reads_back(input, records[i], row);
    assert(records[i].id == id);
}

/// An embedding is stored as it was given: each part of it goes to its own parameter, the
/// vector with all its components, and where a chunk is stored already its content, metadata
/// and vector are replaced.
pub proof fn law_upsert_stores(input: EmbeddingView)
    ensures
        upsert_statement(input).sql == UPSERT_SQL@,
        upsert_statement(input).params.len() == 6,
        upsert_statement(input).params[0] == SqlView::Text(Some(input.source_type)),
        upsert_statement(input).params[1] == SqlView::Text(Some(input.source_id)),
        upsert_statement(input).params[2] == SqlView::Int(Some(input.chunk_index)),
        upsert_statement(input).params[3] == SqlView::Text(Some(input.content)),
        upsert_statement(input).params[4] == SqlView::Document(Some(input.metadata)),
        upsert_statement(input).params[5] == SqlView::Embedding(input.embedding),
        has_part(
            UPSERT_SQL@,
            "(source_type, source_id, chunk_index, content, metadata, embedding)"@,
        ),
        has_part(UPSERT_SQL@, "VALUES ($1, $2, $3, $4, $5, $6)"@),
        has_part(
            UPSERT_SQL@,
            "DO UPDATE SET content = $4, metadata = $5, embedding = $6, updated_at = now()"@,
        ),
{
    reveal_strlit("INSERT INTO embeddings (source_type, source_id, chunk_index, content, metadata, embedding)
                 VALUES ($1, $2, $3, $4, $5, $6)
                 ON CONFLICT (source_type, source_id, chunk_index)
                 DO UPDATE SET content = $4, metadata = $5, embedding = $6, updated_at = now()
                 RETURNING id");
    reveal_strlit("(source_type, source_id, chunk_index, content, metadata, embedding)");
    assert(UPSERT_SQL@.subrange(23, 90)
        =~= "(source_type, source_id, chunk_index, content, metadata, embedding)"@);
    assert(stands_at(
        UPSERT_SQL@,
        "(source_type, source_id, chunk_index, content, metadata, embedding)"@,
        23,
    ));
    reveal_strlit("VALUES ($1, $2, $3, $4, $5, $6)");
    assert(UPSERT_SQL@.subrange(108, 139) =~= "VALUES ($1, $2, $3, $4, $5, $6)"@);
    assert(stands_at(UPSERT_SQL@, "VALUES ($1, $2, $3, $4, $5, $6)"@, 108));
    reveal_strlit("DO UPDATE SET content = $4, metadata = $5, embedding = $6, updated_at = now()");
    assert(UPSERT_SQL@.subrange(224, 301)
        =~= "DO UPDATE SET content = $4, metadata = $5, embedding = $6, updated_at = now()"@);
    assert(stands_at(
        UPSERT_SQL@,
        "DO UPDATE SET content = $4, metadata = $5, embedding = $6, updated_at = now()"@,
        224,
    ));
}

/// A search is for what was asked: the vector, the source type, the threshold and the limit go
/// to the parameters that the statement compares with, orders by and stops at.
pub proof fn law_search_parameters(
    embedding: Seq<u32>,
    source_type: Option<Seq<char>>,
    limit: i64,
    threshold: Score,
)
    ensures
        ({
            let sent = search_statement(embedding, source_type, limit, threshold);
            &&& sent.params[0] == SqlView::Embedding(embedding)
            &&& has_part(sent.sql, "ORDER BY embedding <=> $1"@)
            &&& match source_type {
                Some(source_type) => {
                    &&& sent.params.len() == 4
                    &&& sent.params[1] == SqlView::Text(Some(source_type))
                    &&& sent.params[2] == SqlView::Double(Some(threshold))
                    &&& sent.params[3] == SqlView::BigInt(Some(limit))
                    &&& has_part(sent.sql, "WHERE source_type = $2"@)
                    &&& has_part(sent.sql, "AND 1 - (embedding <=> $1) >= $3"@)
                    &&& has_part(sent.sql, "LIMIT $4"@)
                },
                None => {
                    &&& sent.params.len() == 3
                    &&& sent.params[1] == SqlView::Double(Some(threshold))
                    &&& sent.params[2] == SqlView::BigInt(Some(limit))
                    &&& has_part(sent.sql, "WHERE 1 - (embedding <=> $1) >= $2"@)
                    &&& has_part(sent.sql, "LIMIT $3"@)
                },
            }
        }),
{
    reveal_strlit("SELECT id, source_type, source_id, chunk_index, content, metadata,
                            1 - (embedding <=> $1) as similarity
                     FROM embeddings
                     WHERE source_type = $2
                       AND 1 - (embedding <=> $1) >= $3
                     ORDER BY embedding <=> $1
                     LIMIT $4");
    reveal_strlit("ORDER BY embedding <=> $1");
    assert(SEARCH_TYPE_SQL@.subrange(290, 315) =~= "ORDER BY embedding <=> $1"@);
    assert(stands_at(SEARCH_TYPE_SQL@, "ORDER BY embedding <=> $1"@, 290));
    reveal_strlit("WHERE source_type = $2");
    assert(SEARCH_TYPE_SQL@.subrange(190, 212) =~= "WHERE source_type = $2"@);
    assert(stands_at(SEARCH_TYPE_SQL@, "WHERE source_type = $2"@, 190));
    reveal_strlit("AND 1 - (embedding <=> $1) >= $3");
    assert(SEARCH_TYPE_SQL@.subrange(236, 268) =~= "AND 1 - (embedding <=> $1) >= $3"@);
    assert(stands_at(SEARCH_TYPE_SQL@, "AND 1 - (embedding <=> $1) >= $3"@, 236));
    reveal_strlit("LIMIT $4");
    assert(SEARCH_TYPE_SQL@.subrange(337, 345) =~= "LIMIT $4"@);
    assert(stands_at(SEARCH_TYPE_SQL@, "LIMIT $4"@, 337));
    reveal_strlit("SELECT id, source_type, source_id, chunk_index, content, metadata,
                            1 - (embedding <=> $1) as similarity
                     FROM embeddings
                     WHERE 1 - (embedding <=> $1) >= $2
                     ORDER BY embedding <=> $1
                     LIMIT $3");
    assert(SEARCH_SQL@.subrange(246, 271) =~= "ORDER BY embedding <=> $1"@);
    assert(stands_at(SEARCH_SQL@, "ORDER BY embedding <=> $1"@, 246));
    reveal_strlit("WHERE 1 - (embedding <=> $1) >= $2");
    assert(SEARCH_SQL@.subrange(190, 224) =~= "WHERE 1 - (embedding <=> $1) >= $2"@);
    assert(stands_at(SEARCH_SQL@, "WHERE 1 - (embedding <=> $1) >= $2"@, 190));
    reveal_strlit("LIMIT $3");
    assert(SEARCH_SQL@.subrange(293, 301) =~= "LIMIT $3"@);
    assert(stands_at(SEARCH_SQL@, "LIMIT $3"@, 293));
}

/// Two searches send one statement only where they ask for the same.
pub proof fn law_searches_differ(
    a: Seq<u32>,
    b: Seq<u32>,
    source_a: Option<Seq<char>>,
    source_b: Option<Seq<char>>,
    limit_a: i64,
    limit_b: i64,
    threshold_a: Score,
    threshold_b: Score,
)
    requires
        search_statement(a, source_a, limit_a, threshold_a) == search_statement(
            b,
            source_b,
            limit_b,
            threshold_b,
        ),
    ensures
        a == b,
        source_a == source_b,
        limit_a == limit_b,
        threshold_a == threshold_b,
{
    law_search_parameters(a, source_a, limit_a, threshold_a);
    law_search_parameters(b, source_b, limit_b, threshold_b);
}

/// The source type that a statement of a search asks for, if it asks for one.
pub open spec fn asked_type(sent: StatementView) -> Option<Seq<char>> {
    if sent.params.len() == 4 {
        match sent.params[1] {
            SqlView::Text(text) => text,
            _ => None,
        }
    } else {
        None
    }
}

/// The rows answer a statement of a search: by its own parameters, the last but one the
/// threshold and the last the limit.
pub open spec fn answers_statement(rows: Seq<Row>, table: Seq<Row>, sent: StatementView) -> bool {
    let n = sent.params.len() as int;
    &&& n >= 2
    &&& match (sent.params[n - 2], sent.params[n - 1]) {
        (SqlView::Double(Some(threshold)), SqlView::BigInt(Some(limit))) => answers_search(
            rows,
            table,
            asked_type(sent),
            threshold,
            limit,
        ),
        _ => false,
    }
}

/// What a search was asked for is what its records meet: rows that answer the statement that
/// was sent give no more records than the limit of the search, all of its source type, none
/// below its threshold, the closest first.
pub proof fn law_search_answers(
    embedding: Seq<u32>,
    source_type: Option<Seq<char>>,
    limit: i64,
    threshold: Score,
    rows: Seq<Row>,
    table: Seq<Row>,
    records: Seq<EmbeddingRecord>,
)
    requires
        answers_statement(
            rows,
            table,
            search_statement(embedding, source_type, limit, threshold),
        ),
        are_records(records, rows),
    ensures
        records.len() <= limit,
        forall|i: int|
            0 <= i < records.len() ==> (#[trigger] records[i]).similarity is Some
                && !records[i].similarity->0.below(threshold),
        forall|i: int|
            0 <= i < records.len() && source_type is Some ==> Some(
                (#[trigger] records[i]).source_type@,
            ) == source_type,
        forall|i: int, j: int|
            0 <= i < j < records.len() ==> !(#[trigger] records[i]).similarity->0.below(
                (#[trigger] records[j]).similarity->0,
            ),
{
    law_search_parameters(embedding, source_type, limit, threshold);
    law_search(records, rows, table, source_type, threshold, limit);
    assert forall|i: int, j: int| 0 <= i < j < records.len() implies !(
    #[trigger] records[i]).similarity->0.below((#[trigger] records[j]).similarity->0) by {
        assert(not_below(records[i].similarity, records[j].similarity));
    }
}

/// A record tells all that its row holds: its identifier, source, place, content, metadata and
/// similarity are those of the row, and each row has its record.
pub proof fn law_records_tell_rows(records: Seq<EmbeddingRecord>, rows: Seq<Row>, i: int)
    requires
        are_records(records, rows),
        0 <= i < rows.len(),
    ensures
        records.len() == rows.len(),
        rows[i].cell("id"@) == Some(SqlView::Uuid(Some(records[i].id))),
        rows[i].cell("source_type"@) == Some(SqlView::Text(Some(records[i].source_type@))),
        rows[i].cell("source_id"@) == Some(SqlView::Text(Some(records[i].source_id@))),
        rows[i].cell("chunk_index"@) == Some(SqlView::Int(Some(records[i].chunk_index))),
        rows[i].cell("content"@) == Some(SqlView::Text(Some(records[i].content@))),
        rows[i].cell("metadata"@) == Some(SqlView::Document(Some(records[i].metadata@))),
        rows[i].cell("similarity"@) == Some(SqlView::Double(records[i].similarity)),
{
    assert(record_of(records[i], rows[i]));
}

/// The statements that delete and count go by the parameters that they are given.
pub proof fn law_deletes_and_counts()
    ensures
        has_part(
            DELETE_SOURCE_SQL@,
            "DELETE FROM embeddings WHERE source_type = $1 AND source_id = $2"@,
        ),
        has_part(DELETE_SOURCE_TYPE_SQL@, "DELETE FROM embeddings WHERE source_type = $1"@),
        has_part(
            COUNT_TYPE_SQL@,
            "SELECT COUNT(*) as count FROM embeddings WHERE source_type = $1"@,
        ),
        has_part(COUNT_SQL@, "SELECT COUNT(*) as count FROM embeddings"@),
{
    reveal_strlit("DELETE FROM embeddings WHERE source_type = $1 AND source_id = $2");
    assert(DELETE_SOURCE_SQL@.subrange(0, 64)
        =~= "DELETE FROM embeddings WHERE source_type = $1 AND source_id = $2"@);
    assert(stands_at(
        DELETE_SOURCE_SQL@,
        "DELETE FROM embeddings WHERE source_type = $1 AND source_id = $2"@,
        0,
    ));
    reveal_strlit("DELETE FROM embeddings WHERE source_type = $1");
    assert(DELETE_SOURCE_TYPE_SQL@.subrange(0, 45)
        =~= "DELETE FROM embeddings WHERE source_type = $1"@);
    assert(stands_at(DELETE_SOURCE_TYPE_SQL@, "DELETE FROM embeddings WHERE source_type = $1"@, 0));
    reveal_strlit("SELECT COUNT(*) as count FROM embeddings WHERE source_type = $1");
    assert(COUNT_TYPE_SQL@.subrange(0, 63)
        =~= "SELECT COUNT(*) as count FROM embeddings WHERE source_type = $1"@);
    assert(stands_at(
        COUNT_TYPE_SQL@,
        "SELECT COUNT(*) as count FROM embeddings WHERE source_type = $1"@,
        0,
    ));
    reveal_strlit("SELECT COUNT(*) as count FROM embeddings");
    assert(COUNT_SQL@.subrange(0, 40) =~= "SELECT COUNT(*) as count FROM embeddings"@);
    assert(stands_at(COUNT_SQL@, "SELECT COUNT(*) as count FROM embeddings"@, 0));
}

/// Inputs are seen as they are, in order, the vectors with all their components.
pub proof fn law_inputs_seen(inputs: Seq<EmbeddingInput>)
    ensures
        embedding_views(inputs).len() == inputs.len(),
        forall|i: int|
            0 <= i < inputs.len() ==> {
                let seen = #[trigger] embedding_views(inputs)[i];
                &&& seen.source_type == inputs[i].source_type@
                &&& seen.source_id == inputs[i].source_id@
                &&& seen.chunk_index == inputs[i].chunk_index
                &&& seen.content == inputs[i].content@
                &&& seen.metadata == inputs[i].metadata@
                &&& seen.embedding == inputs[i].embedding@
            },
{
}

} // verus!
