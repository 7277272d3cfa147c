//! The memory store: memories with their embeddings, the change history and
//! the archive of deleted and superseded memories, in SQLite.
//!
//! Embeddings are held as the bit patterns of their `f32` components
//! (`f32::to_bits`), which is how they are stored: four little-endian bytes each.

use vstd::prelude::*;

use crate::db::{
    added, answer, changed, changed_of, execute, execute_batch, executes_texts, extends, lemma_added_concat,
    lemma_added_one, lemma_added_push, ok_rows, query, queries, ran, row_fits, rows_of, run_statements,
    size_param, sql_error, ColumnKind, Db, DbCall, SqlValue, Statement, StoreError,
};
use crate::text::{chars_of, join, split_words, string_from_chars, utf8_len, utf8_len_exceeds, views, words, join_seq};

verus! {

// ── Embedding blobs ───────────────────────────────────────────────────

/// Byte `j` (0..4) of `x` in little-endian order.
pub open spec fn le_byte(x: u32, j: int) -> u8 {
    if j == 0 {
        (x & 0xff) as u8
    } else if j == 1 {
        ((x >> 8u32) & 0xff) as u8
    } else if j == 2 {
        ((x >> 16u32) & 0xff) as u8
    } else {
        ((x >> 24u32) & 0xff) as u8
    }
}

/// The word whose little-endian bytes are `b0 b1 b2 b3`.
pub open spec fn le_word(b0: u8, b1: u8, b2: u8, b3: u8) -> u32 {
    (b0 as u32) | ((b1 as u32) << 8u32) | ((b2 as u32) << 16u32) | ((b3 as u32) << 24u32)
}

/// An embedding as stored: the little-endian bytes of each component, in order.
pub open spec fn blob_of(e: Seq<u32>) -> Seq<u8> {
    Seq::new(e.len() * 4, |k: int| le_byte(e[k / 4], k % 4))
}

/// An embedding read back from its bytes: one component per whole group of
/// four bytes; bytes left over at the end are ignored (`chunks_exact(4)`).
pub open spec fn embedding_of(b: Seq<u8>) -> Seq<u32> {
    Seq::new(b.len() / 4, |i: int| le_word(b[4 * i], b[4 * i + 1], b[4 * i + 2], b[4 * i + 3]))
}

proof fn lemma_word_of_bytes(x: u32)
    ensures
        le_word(le_byte(x, 0), le_byte(x, 1), le_byte(x, 2), le_byte(x, 3)) == x,
{
    assert(((x & 0xff) as u8) as u32 | (((((x >> 8u32) & 0xff) as u8) as u32) << 8u32) | (((((x
        >> 16u32) & 0xff) as u8) as u32) << 16u32) | (((((x >> 24u32) & 0xff) as u8) as u32)
        << 24u32) == x) by (bit_vector);
}

proof fn lemma_bytes_of_word(b0: u8, b1: u8, b2: u8, b3: u8)
    ensures
        le_byte(le_word(b0, b1, b2, b3), 0) == b0,
        le_byte(le_word(b0, b1, b2, b3), 1) == b1,
        le_byte(le_word(b0, b1, b2, b3), 2) == b2,
        le_byte(le_word(b0, b1, b2, b3), 3) == b3,
{
    let w = le_word(b0, b1, b2, b3);
    assert(w == (b0 as u32) | ((b1 as u32) << 8u32) | ((b2 as u32) << 16u32) | ((b3 as u32) << 24u32));
    assert(((((b0 as u32) | ((b1 as u32) << 8u32) | ((b2 as u32) << 16u32) | ((b3 as u32) << 24u32)) & 0xff) as u8) == b0) by (bit_vector);
    assert((((((b0 as u32) | ((b1 as u32) << 8u32) | ((b2 as u32) << 16u32) | ((b3 as u32) << 24u32)) >> 8u32) & 0xff) as u8) == b1) by (bit_vector);
    assert((((((b0 as u32) | ((b1 as u32) << 8u32) | ((b2 as u32) << 16u32) | ((b3 as u32) << 24u32)) >> 16u32) & 0xff) as u8) == b2) by (bit_vector);
    assert((((((b0 as u32) | ((b1 as u32) << 8u32) | ((b2 as u32) << 16u32) | ((b3 as u32) << 24u32)) >> 24u32) & 0xff) as u8) == b3) by (bit_vector);
}

/// Reading back what was stored gives the embedding that was stored.
pub proof fn lemma_blob_roundtrip(e: Seq<u32>)
    ensures
        blob_of(e).len() == 4 * e.len(),
        embedding_of(blob_of(e)) == e,
{
    let b = blob_of(e);
    assert(b.len() / 4 == e.len());
    assert forall|i: int| 0 <= i < e.len() implies #[trigger] embedding_of(b)[i] == e[i] by {
        assert((4 * i) / 4 == i && (4 * i) % 4 == 0);
        assert((4 * i + 1) / 4 == i && (4 * i + 1) % 4 == 1);
        assert((4 * i + 2) / 4 == i && (4 * i + 2) % 4 == 2);
        assert((4 * i + 3) / 4 == i && (4 * i + 3) % 4 == 3);
        lemma_word_of_bytes(e[i]);
    }
    assert(embedding_of(b) =~= e);
}

/// Storing what was read back from a blob of whole words gives that blob.
pub proof fn lemma_embedding_roundtrip(b: Seq<u8>)
    requires
        b.len() % 4 == 0,
    ensures
        blob_of(embedding_of(b)) == b,
{
    let e = embedding_of(b);
    assert(e.len() * 4 == b.len());
    assert forall|k: int| 0 <= k < b.len() implies #[trigger] blob_of(e)[k] == b[k] by {
        let i = k / 4;
        let j = k % 4;
        assert(k == 4 * i + j);
        lemma_bytes_of_word(b[4 * i], b[4 * i + 1], b[4 * i + 2], b[4 * i + 3]);
    }
    assert(blob_of(e) =~= b);
}

/// The bytes stored for an embedding.
pub fn embedding_to_blob(embedding: &Vec<u32>) -> (r: Vec<u8>)
    requires
        embedding@.len() * 4 <= usize::MAX,
    ensures
        r@ == blob_of(embedding@),
{
    let mut out: Vec<u8> = Vec::new();
    for i in 0..embedding.len()
        invariant
            embedding@.len() * 4 <= usize::MAX,
            out@.len() == 4 * i,
            forall|k: int| 0 <= k < 4 * i ==> #[trigger] out@[k] == le_byte(embedding@[k / 4], k % 4),
    {
        let x = embedding[i];
        out.push((x & 0xff) as u8);
        out.push(((x >> 8u32) & 0xff) as u8);
        out.push(((x >> 16u32) & 0xff) as u8);
        out.push(((x >> 24u32) & 0xff) as u8);
        assert forall|k: int| 0 <= k < 4 * (i + 1) implies #[trigger] out@[k] == le_byte(embedding@[k / 4], k % 4) by {
            if k >= 4 * i {
                assert(k / 4 == i);
            }
        }
    }
    assert(out@ =~= blob_of(embedding@));
    out
}

/// The embedding read back from stored bytes.
pub fn blob_to_embedding(blob: &Vec<u8>) -> (r: Vec<u32>)
    ensures
        r@ == embedding_of(blob@),
{
    let n = blob.len() / 4;
    assert(blob@.len() == blob.len());
    assert(4 * n <= blob@.len()) by (nonlinear_arith)
        requires
            n == blob@.len() / 4,
    ;
    let mut out: Vec<u32> = Vec::new();
    for i in 0..n
        invariant
            n == blob@.len() / 4,
            4 * n <= blob@.len(),
            blob@.len() <= usize::MAX,
            out@.len() == i,
            forall|j: int| 0 <= j < i ==> #[trigger] out@[j] == embedding_of(blob@)[j],
    {
        assert(4 * i + 3 < blob@.len()) by (nonlinear_arith)
            requires
                i < n,
                4 * n <= blob@.len(),
        ;
        let b0 = blob[4 * i] as u32;
        let b1 = blob[4 * i + 1] as u32;
        let b2 = blob[4 * i + 2] as u32;
        let b3 = blob[4 * i + 3] as u32;
        let w = b0 | (b1 << 8u32) | (b2 << 16u32) | (b3 << 24u32);
        out.push(w);
    }
    assert(out@ =~= embedding_of(blob@));
    out
}


// ── Schema and statements ─────────────────────────────────────────────

pub const PRAGMAS_SQL: &'static str = "PRAGMA journal_mode=WAL; PRAGMA synchronous=NORMAL;";

pub const SCHEMA_SQL: &'static str = "CREATE TABLE IF NOT EXISTS memories (
                 id TEXT PRIMARY KEY,
                 user_id TEXT NOT NULL,
                 text TEXT NOT NULL,
                 embedding BLOB,
                 created_at TEXT DEFAULT (datetime('now')),
                 updated_at TEXT DEFAULT (datetime('now'))
             );
             CREATE INDEX IF NOT EXISTS idx_memories_user ON memories(user_id);

             -- FTS5 full-text index for pre-filtering before vector search
             CREATE VIRTUAL TABLE IF NOT EXISTS memories_fts USING fts5(
                 text, content='memories', content_rowid='rowid'
             );

             CREATE TABLE IF NOT EXISTS history (
                 id INTEGER PRIMARY KEY AUTOINCREMENT,
                 memory_id TEXT NOT NULL,
                 action TEXT NOT NULL,
                 old_text TEXT,
                 new_text TEXT,
                 created_at TEXT DEFAULT (datetime('now'))
             );

             CREATE TABLE IF NOT EXISTS archive (
                 id TEXT PRIMARY KEY,
                 user_id TEXT NOT NULL,
                 text TEXT NOT NULL,
                 embedding BLOB,
                 reason TEXT NOT NULL,
                 superseded_by TEXT,
                 archived_at TEXT DEFAULT (datetime('now')),
                 original_created_at TEXT
             );
             CREATE INDEX IF NOT EXISTS idx_archive_user ON archive(user_id);";

pub const INSERT_MEMORY_SQL: &'static str = "INSERT INTO memories (id, user_id, text, embedding) VALUES (?1, ?2, ?3, ?4)";

pub const HISTORY_ADD_SQL: &'static str = "INSERT INTO history (memory_id, action, new_text) VALUES (?1, 'ADD', ?2)";

pub const FTS_INSERT_SQL: &'static str = "INSERT INTO memories_fts(rowid, text) SELECT rowid, text FROM memories WHERE id = ?1";

pub const ARCHIVE_SUPERSEDED_SQL: &'static str = "INSERT OR IGNORE INTO archive (id, user_id, text, embedding, reason, superseded_by, original_created_at)
             SELECT id || ':' || CAST(RANDOM() AS TEXT), user_id, text, embedding, 'SUPERSEDED', ?1, created_at
             FROM memories WHERE id = ?2";

pub const SELECT_TEXT_SQL: &'static str = "SELECT text FROM memories WHERE id = ?1";

pub const UPDATE_MEMORY_SQL: &'static str = "UPDATE memories SET text = ?1, embedding = ?2, updated_at = datetime('now') WHERE id = ?3";

pub const HISTORY_UPDATE_SQL: &'static str = "INSERT INTO history (memory_id, action, old_text, new_text) VALUES (?1, 'UPDATE', ?2, ?3)";

pub const FTS_DELETE_SQL: &'static str = "INSERT INTO memories_fts(memories_fts, rowid, text) VALUES('delete', (SELECT rowid FROM memories WHERE id = ?1), ?2)";

pub const ARCHIVE_DELETED_SQL: &'static str = "INSERT OR IGNORE INTO archive (id, user_id, text, embedding, reason, original_created_at)
             SELECT id, user_id, text, embedding, 'DELETED', created_at
             FROM memories WHERE id = ?1";

pub const DELETE_MEMORY_SQL: &'static str = "DELETE FROM memories WHERE id = ?1";

pub const HISTORY_DELETE_SQL: &'static str = "INSERT INTO history (memory_id, action, old_text) VALUES (?1, 'DELETE', ?2)";

pub const SELECT_ALL_SQL: &'static str = "SELECT id, user_id, text, created_at, updated_at FROM memories WHERE user_id = ?1 ORDER BY updated_at DESC";

pub const SELECT_ONE_SQL: &'static str = "SELECT id, user_id, text, created_at, updated_at FROM memories WHERE id = ?1";

pub const SELECT_EMBEDDINGS_SQL: &'static str = "SELECT id, user_id, text, embedding FROM memories WHERE user_id = ?1";

pub const FTS_SEARCH_SQL: &'static str = "SELECT m.id FROM memories m
                    JOIN memories_fts f ON m.rowid = f.rowid
                    WHERE m.user_id = ?1 AND memories_fts MATCH ?2
                    LIMIT ?3";

pub const SELECT_EXISTING_SQL: &'static str = "SELECT id, text FROM memories WHERE user_id = ?1";

pub const SELECT_HISTORY_SQL: &'static str = "SELECT action, old_text, new_text, created_at FROM history WHERE memory_id = ?1 ORDER BY id ASC";

pub const RESET_MEMORIES_SQL: &'static str = "DELETE FROM memories WHERE user_id = ?1";

pub const RESET_ARCHIVE_SQL: &'static str = "DELETE FROM archive WHERE user_id = ?1";

pub const SELECT_ARCHIVE_EMBEDDINGS_SQL: &'static str = "SELECT id, user_id, text, embedding FROM archive WHERE user_id = ?1 AND embedding IS NOT NULL";

pub const ARCHIVE_COUNT_SQL: &'static str = "SELECT COUNT(*) FROM archive WHERE user_id = ?1";

pub const SELECT_ARCHIVE_SQL: &'static str = "SELECT id, user_id, text, reason, superseded_by, archived_at, original_created_at
             FROM archive WHERE user_id = ?1 ORDER BY archived_at DESC";

pub const COMPACT_ARCHIVE_SQL: &'static str = "DELETE FROM archive WHERE user_id = ?1 AND id NOT IN (
                SELECT id FROM archive WHERE user_id = ?1 ORDER BY archived_at DESC LIMIT ?2
            )";

/// A text parameter.
pub fn text_param(s: &str) -> (v: SqlValue)
    ensures
        v.text() == Some(s@),
{
    SqlValue::Text(s.to_owned())
}

/// A text parameter, or `NULL`.
pub fn opt_text_param(s: &Option<String>) -> (v: SqlValue)
    ensures
        s matches Some(t) ==> v.text() == Some(t@),
        s is None ==> v is Null,
{
    match s {
        Some(t) => SqlValue::Text(t.clone()),
        None => SqlValue::Null,
    }
}

/// A statement whose failure stops the operation.
pub fn required(sql: &str, params: Vec<SqlValue>, context: Option<String>) -> (st: Statement)
    ensures
        st.sql@ == sql@,
        st.params == params,
        st.context == context,
        st.must_succeed,
{
    Statement { sql: sql.to_owned(), params, context, must_succeed: true }
}

/// A statement whose failure is ignored.
pub fn optional(sql: &str, params: Vec<SqlValue>) -> (st: Statement)
    ensures
        st.sql@ == sql@,
        st.params == params,
        st.context is None,
        !st.must_succeed,
{
    Statement { sql: sql.to_owned(), params, context: None, must_succeed: false }
}

/// The statements that add a memory (see `add_statements`).
pub open spec fn add_statements_are(sts: Seq<Statement>, id: Seq<char>, user_id: Seq<char>, text: Seq<char>, blob: Seq<u8>) -> bool {
    &&& (sts.len() == 3)
    &&& (sts[0].sql@ == INSERT_MEMORY_SQL@ && sts[0].must_succeed)
    &&& (sts[0].params@.len() == 4 && sts[0].params@[0].text() == Some(id) && sts[0].params@[1].text() == Some(user_id) && sts[0].params@[2].text() == Some(text) && sts[0].params@[3].bytes() == Some(blob))
    &&& (sts[0].context matches Some(c) && c@ == "Failed to insert memory"@)
    &&& (sts[1].sql@ == HISTORY_ADD_SQL@ && sts[1].must_succeed && sts[1].context is None)
    &&& (sts[1].params@.len() == 2 && sts[1].params@[0].text() == Some(id) && sts[1].params@[1].text() == Some(text))
    &&& (sts[2].sql@ == FTS_INSERT_SQL@ && !sts[2].must_succeed)
    &&& (sts[2].params@.len() == 1 && sts[2].params@[0].text() == Some(id))
}

/// The statements that add a memory: insert it (a failure is reported as
/// "Failed to insert memory"), record `ADD` in its history, then index its
/// text for full-text search (a failure there is ignored).
pub fn add_statements(id: &str, user_id: &str, text: &str, blob: Vec<u8>) -> (r: Vec<Statement>)
    ensures
        add_statements_are(r@, id@, user_id@, text@, blob@),
{
    let mut out: Vec<Statement> = Vec::new();
    out.push(required(
        INSERT_MEMORY_SQL,
        vec![text_param(id), text_param(user_id), text_param(text), SqlValue::Blob(blob)],
        Some("Failed to insert memory".to_owned()),
    ));
    out.push(required(HISTORY_ADD_SQL, vec![text_param(id), text_param(text)], None));
    out.push(optional(FTS_INSERT_SQL, vec![text_param(id)]));
    out
}

/// The statements that archive a memory before it is updated: a copy of it,
/// under a fresh id, with reason `SUPERSEDED` and the id that supersedes it.
pub fn archive_superseded_statement(id: &str) -> (st: Statement)
    ensures
        st.sql@ == ARCHIVE_SUPERSEDED_SQL@ && st.must_succeed && st.context is None,
        st.params@.len() == 2 && st.params@[0].text() == Some(id@) && st.params@[1].text() == Some(id@),
{
    required(ARCHIVE_SUPERSEDED_SQL, vec![text_param(id), text_param(id)], None)
}

/// The statements that update a memory once its old version is archived and
/// its old text read: set text and embedding (a failure is reported as "Failed
/// to update memory"), record `UPDATE` with the old and new text, then
/// re-index its text (failures there are ignored).
pub fn update_statements(id: &str, text: &str, blob: Vec<u8>, old_text: &Option<String>) -> (r: Vec<Statement>)
    ensures
        r@.len() == 4,
        r@[0].sql@ == UPDATE_MEMORY_SQL@ && r@[0].must_succeed,
        r@[0].context matches Some(c) && c@ == "Failed to update memory"@,
        r@[0].params@.len() == 3 && r@[0].params@[0].text() == Some(text@)
            && r@[0].params@[1].bytes() == Some(blob@) && r@[0].params@[2].text() == Some(id@),
        r@[1].sql@ == HISTORY_UPDATE_SQL@ && r@[1].must_succeed && r@[1].context is None,
        r@[1].params@.len() == 3 && r@[1].params@[0].text() == Some(id@)
            && r@[1].params@[2].text() == Some(text@),
        old_text matches Some(t) ==> r@[1].params@[1].text() == Some(t@) && r@[2].params@[1].text() == Some(t@),
        old_text is None ==> r@[1].params@[1] is Null && r@[2].params@[1] is Null,
        r@[2].sql@ == FTS_DELETE_SQL@ && !r@[2].must_succeed,
        r@[2].params@.len() == 2 && r@[2].params@[0].text() == Some(id@),
        r@[3].sql@ == FTS_INSERT_SQL@ && !r@[3].must_succeed,
        r@[3].params@.len() == 1 && r@[3].params@[0].text() == Some(id@),
{
    let mut out: Vec<Statement> = Vec::new();
    out.push(required(
        UPDATE_MEMORY_SQL,
        vec![text_param(text), SqlValue::Blob(blob), text_param(id)],
        Some("Failed to update memory".to_owned()),
    ));
    out.push(required(HISTORY_UPDATE_SQL, vec![text_param(id), opt_text_param(old_text), text_param(text)], None));
    out.push(optional(FTS_DELETE_SQL, vec![text_param(id), opt_text_param(old_text)]));
    out.push(optional(FTS_INSERT_SQL, vec![text_param(id)]));
    out
}

/// The statement that archives a memory before it is deleted, with reason `DELETED`.
pub fn archive_deleted_statement(id: &str) -> (st: Statement)
    ensures
        st.sql@ == ARCHIVE_DELETED_SQL@ && st.must_succeed && st.context is None,
        st.params@.len() == 1 && st.params@[0].text() == Some(id@),
{
    required(ARCHIVE_DELETED_SQL, vec![text_param(id)], None)
}

/// The statements that delete a memory once it is archived and its old text
/// read: delete it, then record `DELETE` with the old text.
pub fn delete_statements(id: &str, old_text: &Option<String>) -> (r: Vec<Statement>)
    ensures
        r@.len() == 2,
        r@[0].sql@ == DELETE_MEMORY_SQL@ && r@[0].must_succeed && r@[0].context is None,
        r@[0].params@.len() == 1 && r@[0].params@[0].text() == Some(id@),
        r@[1].sql@ == HISTORY_DELETE_SQL@ && r@[1].must_succeed && r@[1].context is None,
        r@[1].params@.len() == 2 && r@[1].params@[0].text() == Some(id@),
        old_text matches Some(t) ==> r@[1].params@[1].text() == Some(t@),
        old_text is None ==> r@[1].params@[1] is Null,
{
    let mut out: Vec<Statement> = Vec::new();
    out.push(required(DELETE_MEMORY_SQL, vec![text_param(id)], None));
    out.push(required(HISTORY_DELETE_SQL, vec![text_param(id), opt_text_param(old_text)], None));
    out
}

/// The statements that update a memory (see `update_plan`).
pub open spec fn update_plan_is(sts: Seq<Statement>, id: Seq<char>, text: Seq<char>, blob: Seq<u8>, old_text: Option<Seq<char>>) -> bool {
    &&& (sts.len() == 5)
    &&& (sts[0].sql@ == ARCHIVE_SUPERSEDED_SQL@ && sts[0].must_succeed && sts[0].context is None)
    &&& (sts[0].params@.len() == 2 && sts[0].params@[0].text() == Some(id) && sts[0].params@[1].text() == Some(id))
    &&& (sts[1].sql@ == UPDATE_MEMORY_SQL@ && sts[1].must_succeed)
    &&& (sts[1].context matches Some(c) && c@ == "Failed to update memory"@)
    &&& (sts[1].params@.len() == 3 && sts[1].params@[0].text() == Some(text) && sts[1].params@[1].bytes() == Some(blob) && sts[1].params@[2].text() == Some(id))
    &&& (sts[2].sql@ == HISTORY_UPDATE_SQL@ && sts[2].must_succeed && sts[2].context is None)
    &&& (sts[2].params@.len() == 3 && sts[2].params@[0].text() == Some(id) && sts[2].params@[2].text() == Some(text))
    &&& (old_text matches Some(t) ==> sts[2].params@[1].text() == Some(t) && sts[3].params@[1].text() == Some(t))
    &&& (old_text is None ==> sts[2].params@[1] is Null && sts[3].params@[1] is Null)
    &&& (sts[3].sql@ == FTS_DELETE_SQL@ && !sts[3].must_succeed)
    &&& (sts[3].params@.len() == 2 && sts[3].params@[0].text() == Some(id))
    &&& (sts[4].sql@ == FTS_INSERT_SQL@ && !sts[4].must_succeed)
    &&& (sts[4].params@.len() == 1 && sts[4].params@[0].text() == Some(id))
}

/// The statements that update a memory, its old text read: archive the old
/// version (`archive_superseded_statement`), then the `update_statements`.
pub fn update_plan(id: &str, text: &str, blob: Vec<u8>, old_text: &Option<String>) -> (r: Vec<Statement>)
    ensures
        update_plan_is(r@, id@, text@, blob@, crate::text::opt_view(*old_text)),
{
    let mut out: Vec<Statement> = vec![archive_superseded_statement(id)];
    let mut rest = update_statements(id, text, blob, old_text);
    out.append(&mut rest);
    out
}

/// The statements that delete a memory (see `delete_plan`).
pub open spec fn delete_plan_is(sts: Seq<Statement>, id: Seq<char>, old_text: Option<Seq<char>>) -> bool {
    &&& (sts.len() == 3)
    &&& (sts[0].sql@ == ARCHIVE_DELETED_SQL@ && sts[0].must_succeed && sts[0].context is None)
    &&& (sts[0].params@.len() == 1 && sts[0].params@[0].text() == Some(id))
    &&& (sts[1].sql@ == DELETE_MEMORY_SQL@ && sts[1].must_succeed && sts[1].context is None)
    &&& (sts[1].params@.len() == 1 && sts[1].params@[0].text() == Some(id))
    &&& (sts[2].sql@ == HISTORY_DELETE_SQL@ && sts[2].must_succeed && sts[2].context is None)
    &&& (sts[2].params@.len() == 2 && sts[2].params@[0].text() == Some(id))
    &&& (old_text matches Some(t) ==> sts[2].params@[1].text() == Some(t))
    &&& (old_text is None ==> sts[2].params@[1] is Null)
}

/// The statements that delete a memory, its old text read: archive it
/// (`archive_deleted_statement`), then the `delete_statements`.
pub fn delete_plan(id: &str, old_text: &Option<String>) -> (r: Vec<Statement>)
    ensures
        delete_plan_is(r@, id@, crate::text::opt_view(*old_text)),
{
    let mut out: Vec<Statement> = vec![archive_deleted_statement(id)];
    let mut rest = delete_statements(id, old_text);
    out.append(&mut rest);
    out
}

// ── Queries ───────────────────────────────────────────────────────────

/// A statement and its parameters.
pub open spec fn is_query(q: (String, Vec<SqlValue>), sql: Seq<char>, params: Seq<Option<Seq<char>>>) -> bool {
    &&& q.0@ == sql
    &&& q.1@.len() == params.len()
    &&& forall|i: int| 0 <= i < params.len() ==> (#[trigger] q.1@[i]).text() == params[i]
}

/// A statement with one text parameter.
fn keyed(sql: &str, key: &str) -> (r: (String, Vec<SqlValue>))
    ensures
        is_query(r, sql@, seq![Some(key@)]),
{
    let params: Vec<SqlValue> = vec![text_param(key)];
    (sql.to_owned(), params)
}

/// The query for a memory's text.
pub fn select_text_query(id: &str) -> (r: (String, Vec<SqlValue>))
    ensures
        is_query(r, SELECT_TEXT_SQL@, seq![Some(id@)]),
{
    keyed(SELECT_TEXT_SQL, id)
}

/// The query for a user's memories.
pub fn select_all_query(user_id: &str) -> (r: (String, Vec<SqlValue>))
    ensures
        is_query(r, SELECT_ALL_SQL@, seq![Some(user_id@)]),
{
    keyed(SELECT_ALL_SQL, user_id)
}

/// The query for one memory.
pub fn select_one_query(id: &str) -> (r: (String, Vec<SqlValue>))
    ensures
        is_query(r, SELECT_ONE_SQL@, seq![Some(id@)]),
{
    keyed(SELECT_ONE_SQL, id)
}

/// The query for a user's memories with their embeddings.
pub fn select_embeddings_query(user_id: &str) -> (r: (String, Vec<SqlValue>))
    ensures
        is_query(r, SELECT_EMBEDDINGS_SQL@, seq![Some(user_id@)]),
{
    keyed(SELECT_EMBEDDINGS_SQL, user_id)
}

/// The query for a user's memories as (id, text) pairs.
pub fn select_existing_query(user_id: &str) -> (r: (String, Vec<SqlValue>))
    ensures
        is_query(r, SELECT_EXISTING_SQL@, seq![Some(user_id@)]),
{
    keyed(SELECT_EXISTING_SQL, user_id)
}

/// The query for a memory's history.
pub fn select_history_query(id: &str) -> (r: (String, Vec<SqlValue>))
    ensures
        is_query(r, SELECT_HISTORY_SQL@, seq![Some(id@)]),
{
    keyed(SELECT_HISTORY_SQL, id)
}

/// The statement deleting a user's memories.
pub fn reset_memories_query(user_id: &str) -> (r: (String, Vec<SqlValue>))
    ensures
        is_query(r, RESET_MEMORIES_SQL@, seq![Some(user_id@)]),
{
    keyed(RESET_MEMORIES_SQL, user_id)
}

/// The statement deleting a user's archive.
pub fn reset_archive_query(user_id: &str) -> (r: (String, Vec<SqlValue>))
    ensures
        is_query(r, RESET_ARCHIVE_SQL@, seq![Some(user_id@)]),
{
    keyed(RESET_ARCHIVE_SQL, user_id)
}

/// The query for a user's archived memories that kept their embedding.
pub fn archive_embeddings_query(user_id: &str) -> (r: (String, Vec<SqlValue>))
    ensures
        is_query(r, SELECT_ARCHIVE_EMBEDDINGS_SQL@, seq![Some(user_id@)]),
{
    keyed(SELECT_ARCHIVE_EMBEDDINGS_SQL, user_id)
}

/// The query counting a user's archived memories.
pub fn archive_count_query(user_id: &str) -> (r: (String, Vec<SqlValue>))
    ensures
        is_query(r, ARCHIVE_COUNT_SQL@, seq![Some(user_id@)]),
{
    keyed(ARCHIVE_COUNT_SQL, user_id)
}

/// The query for a user's archived memories.
pub fn select_archive_query(user_id: &str) -> (r: (String, Vec<SqlValue>))
    ensures
        is_query(r, SELECT_ARCHIVE_SQL@, seq![Some(user_id@)]),
{
    keyed(SELECT_ARCHIVE_SQL, user_id)
}

/// The statement keeping only a user's `keep` most recently archived
/// memories; an error when `keep` does not fit in an SQL integer.
pub fn compact_archive_query(user_id: &str, keep: usize) -> (r: Result<(String, Vec<SqlValue>), StoreError>)
    ensures
        keep <= i64::MAX ==> (r matches Ok(q) && q.0@ == COMPACT_ARCHIVE_SQL@ && q.1@.len() == 2
            && q.1@[0].text() == Some(user_id@) && q.1@[1] == SqlValue::Int(keep as i64)),
        keep > i64::MAX ==> (r matches Err(e) && e.context is None && e.message@ == crate::db::out_of_range_message()),
{
    let k = match size_param(keep) {
        Ok(v) => v,
        Err(e) => return Err(e),
    };
    let params: Vec<SqlValue> = vec![text_param(user_id), k];
    Ok((COMPACT_ARCHIVE_SQL.to_owned(), params))
}

/// The full-text search for a query: none when the query has no term; an
/// error when `limit` does not fit in an SQL integer; else the search with
/// the user, the terms joined by ` OR ` and the limit.
pub fn fts_search_query(user_id: &str, query_text: &str, limit: usize) -> (r: Result<Option<(String, Vec<SqlValue>)>, StoreError>)
    ensures
        fts_query_text(query_text@) is None ==> (r matches Ok(o) && o is None),
        fts_query_text(query_text@) is Some && limit > i64::MAX ==> (r matches Err(e) && e.context is None
            && e.message@ == crate::db::out_of_range_message()),
        fts_query_text(query_text@) is Some && limit <= i64::MAX ==> (r matches Ok(o) && o matches Some(q)
            && q.0@ == FTS_SEARCH_SQL@ && q.1@.len() == 3 && q.1@[0].text() == Some(user_id@)
            && q.1@[1].text() == fts_query_text(query_text@) && q.1@[2] == SqlValue::Int(limit as i64)),
{
    let fts = match fts_query(query_text) {
        Some(q) => q,
        None => return Ok(None),
    };
    let lim = match size_param(limit) {
        Ok(v) => v,
        Err(e) => return Err(e),
    };
    let params: Vec<SqlValue> = vec![text_param(user_id), SqlValue::Text(fts), lim];
    Ok(Some((FTS_SEARCH_SQL.to_owned(), params)))
}

// ── Full-text query ───────────────────────────────────────────────────

/// The terms of a full-text query: the words of the query longer than two bytes.
pub open spec fn fts_terms(words: Seq<Seq<char>>) -> Seq<Seq<char>>
    decreases words.len(),
{
    if words.len() == 0 {
        seq![]
    } else {
        let prev = fts_terms(words.drop_last());
        if utf8_len(words.last()) > 2 { prev.push(words.last()) } else { prev }
    }
}

/// Every full-text term is longer than two bytes, and every word of the
/// query longer than two bytes is a term, in order.
proof fn lemma_fts_terms_long(ws: Seq<Seq<char>>)
    ensures
        forall|k: int| 0 <= k < fts_terms(ws).len() ==> utf8_len(#[trigger] fts_terms(ws)[k]) > 2,
        fts_terms(ws).len() <= ws.len(),
        fts_terms(ws).len() == 0 <==> forall|k: int| 0 <= k < ws.len() ==> utf8_len(#[trigger] ws[k]) <= 2,
    decreases ws.len(),
{
    if ws.len() > 0 {
        lemma_fts_terms_long(ws.drop_last());
        let prev = fts_terms(ws.drop_last());
        if utf8_len(ws.last()) > 2 {
            assert forall|k: int| 0 <= k < prev.push(ws.last()).len() implies utf8_len(#[trigger] prev.push(ws.last())[k]) > 2 by {
                if k < prev.len() {
                    assert(prev.push(ws.last())[k] == prev[k]);
                }
            }
        }
        assert forall|k: int| 0 <= k < ws.drop_last().len() implies #[trigger] ws.drop_last()[k] == ws[k] by {}
        if fts_terms(ws).len() == 0 {
            assert forall|k: int| 0 <= k < ws.len() implies utf8_len(#[trigger] ws[k]) <= 2 by {
                if k < ws.len() - 1 {
                    assert(ws.drop_last()[k] == ws[k]);
                }
            }
        }
    }
}

/// The full-text terms of a query are its words longer than two bytes, and
/// the full-text query is none exactly when there is no such word.
pub proof fn lemma_fts_terms(query: Seq<char>)
    ensures
        forall|k: int| 0 <= k < fts_terms(words(query)).len() ==> utf8_len(#[trigger] fts_terms(words(query))[k]) > 2,
        fts_query_text(query) is None <==> forall|k: int| 0 <= k < words(query).len() ==> utf8_len(#[trigger] words(query)[k]) <= 2,
{
    lemma_fts_terms_long(words(query));
}

/// The FTS5 query for a search text: its terms joined by ` OR `; `None` when
/// it has no term.
pub open spec fn fts_query_text(query: Seq<char>) -> Option<Seq<char>> {
    let terms = fts_terms(words(query));
    if terms.len() == 0 { None } else { Some(join_seq(terms, " OR "@)) }
}

/// The FTS5 query for a search text.
pub fn fts_query(query: &str) -> (r: Option<String>)
    ensures
        r matches Some(q) ==> fts_query_text(query@) == Some(q@),
        r is None ==> fts_query_text(query@) is None,
{
    let ws = split_words(&chars_of(query));
    let ghost all = words(query@);
    let mut terms: Vec<Vec<char>> = Vec::new();
    for i in 0..ws.len()
        invariant
            all == words(query@),
            ws@.len() == all.len(),
            forall|k: int| 0 <= k < ws@.len() ==> #[trigger] ws@[k]@ == all[k],
            terms@.map_values(|t: Vec<char>| t@) == fts_terms(all.take(i as int)),
    {
        assert(all.take(i + 1).drop_last() == all.take(i as int));
        assert(all.take(i + 1).last() == ws@[i as int]@);
        if utf8_len_exceeds(&ws[i], 2) {
            terms.push(copy_chars(&ws[i]));
            assert(terms@.map_values(|t: Vec<char>| t@) == terms@.drop_last().map_values(|t: Vec<char>| t@).push(terms@.last()@));
        }
    }
    assert(all.take(ws.len() as int) == all);
    if terms.len() == 0 {
        return None;
    }
    let joined = join(&terms, &chars_of(" OR "));
    Some(string_from_chars(&joined))
}

/// A copy of a character vector.
pub fn copy_chars(v: &Vec<char>) -> (r: Vec<char>)
    ensures
        r@ == v@,
{
    let mut out: Vec<char> = Vec::new();
    crate::text::push_all(&mut out, v);
    out
}


// ── Records ───────────────────────────────────────────────────────────

/// A memory: its id, its user, its text, and when it was created and last updated.
#[derive(Debug, Clone)]
pub struct MemoryRecord {
    pub id: String,
    pub user_id: String,
    pub text: String,
    pub created_at: String,
    pub updated_at: String,
}

impl View for MemoryRecord {
    type V = (Seq<char>, Seq<char>, Seq<char>, Seq<char>, Seq<char>);

    open spec fn view(&self) -> Self::V {
        (self.id@, self.user_id@, self.text@, self.created_at@, self.updated_at@)
    }
}

/// A memory that was deleted or superseded: why (`DELETED` or `SUPERSEDED`),
/// by which memory when superseded, and when.
#[derive(Debug, Clone)]
pub struct ArchivedRecord {
    pub id: String,
    pub user_id: String,
    pub text: String,
    pub reason: String,
    pub superseded_by: Option<String>,
    pub archived_at: String,
    pub original_created_at: String,
}

impl View for ArchivedRecord {
    type V = (Seq<char>, Seq<char>, Seq<char>, Seq<char>, Option<Seq<char>>, Seq<char>, Seq<char>);

    open spec fn view(&self) -> Self::V {
        (
            self.id@,
            self.user_id@,
            self.text@,
            self.reason@,
            crate::text::opt_view(self.superseded_by),
            self.archived_at@,
            self.original_created_at@,
        )
    }
}

/// One change of a memory: `ADD`, `UPDATE` or `DELETE`, the text before and after, and when.
#[derive(Debug, Clone)]
pub struct HistoryEntry {
    pub action: String,
    pub old_text: Option<String>,
    pub new_text: Option<String>,
    pub timestamp: String,
}

impl View for HistoryEntry {
    type V = (Seq<char>, Option<Seq<char>>, Option<Seq<char>>, Seq<char>);

    open spec fn view(&self) -> Self::V {
        (self.action@, crate::text::opt_view(self.old_text), crate::text::opt_view(self.new_text), self.timestamp@)
    }
}

/// A memory with its embedding, as a similarity search reads it.
#[derive(Debug, Clone)]
pub struct MemoryCandidate {
    pub id: String,
    pub user_id: String,
    pub text: String,
    pub embedding: Vec<u32>,
}

impl View for MemoryCandidate {
    type V = (Seq<char>, Seq<char>, Seq<char>, Seq<u32>);

    open spec fn view(&self) -> Self::V {
        (self.id@, self.user_id@, self.text@, self.embedding@)
    }
}

/// The id `id` is one of `ids`.
pub open spec fn id_listed(ids: Seq<String>, id: Seq<char>) -> bool {
    exists|j: int| 0 <= j < ids.len() && #[trigger] ids[j]@ == id
}

/// The candidates whose id is one of `ids`, in order.
pub open spec fn listed_only(cands: Seq<(Seq<char>, Seq<char>, Seq<char>, Seq<u32>)>, ids: Seq<String>) -> Seq<(Seq<char>, Seq<char>, Seq<char>, Seq<u32>)>
    decreases cands.len(),
{
    if cands.len() == 0 {
        seq![]
    } else {
        let prev = listed_only(cands.drop_last(), ids);
        if id_listed(ids, cands.last().0) { prev.push(cands.last()) } else { prev }
    }
}

/// The candidates a two-stage search ranks: those whose id the full-text
/// search returned; all of them when it returned none.
pub open spec fn prefiltered(cands: Seq<(Seq<char>, Seq<char>, Seq<char>, Seq<u32>)>, ids: Seq<String>) -> Seq<(Seq<char>, Seq<char>, Seq<char>, Seq<u32>)> {
    if ids.len() == 0 { cands } else { listed_only(cands, ids) }
}

/// The views of candidates.
pub open spec fn candidate_views(cands: Seq<MemoryCandidate>) -> Seq<(Seq<char>, Seq<char>, Seq<char>, Seq<u32>)> {
    cands.map_values(|c: MemoryCandidate| c@)
}

/// Whether `id` is one of `ids`.
pub fn is_listed(ids: &Vec<String>, id: &str) -> (b: bool)
    ensures
        b == id_listed(ids@, id@),
{
    let target = chars_of(id);
    for j in 0..ids.len()
        invariant
            target@ == id@,
            forall|k: int| 0 <= k < j ==> ids@[k]@ != id@,
    {
        if crate::text::chars_eq(&chars_of(ids[j].as_str()), &target) {
            return true;
        }
    }
    false
}

/// The first stage of a two-stage search: keeps the candidates whose id the
/// full-text search returned, in order; keeps them all when it returned none.
pub fn prefilter(candidates: Vec<MemoryCandidate>, ids: &Vec<String>) -> (r: Vec<MemoryCandidate>)
    ensures
        candidate_views(r@) == prefiltered(candidate_views(candidates@), ids@),
{
    if ids.len() == 0 {
        return candidates;
    }
    let ghost orig = candidates@;
    let mut kept: Vec<MemoryCandidate> = Vec::new();
    for c in it: candidates
        invariant
            it.seq() == orig,
            candidate_views(kept@) == listed_only(candidate_views(orig.take(it.index() as int)), ids@),
    {
        let ghost i = it.index();
        assert(orig.take(i + 1).drop_last() == orig.take(i as int));
        assert(candidate_views(orig.take(i + 1)) == candidate_views(orig.take(i as int)).push(c@));
        assert(candidate_views(orig.take(i + 1)).drop_last() == candidate_views(orig.take(i as int)));
        assert(candidate_views(orig.take(i + 1)).last() == c@);
        if is_listed(ids, c.id.as_str()) {
            kept.push(c);
            assert(candidate_views(kept@) == candidate_views(kept@.drop_last()).push(kept@.last()@));
        }
    }
    assert(orig.take(orig.len() as int) == orig);
    kept
}

/// Every row that was read has the shape of `kinds`.
pub open spec fn rows_fit(rows: Seq<Result<Vec<SqlValue>, rusqlite::Error>>, kinds: Seq<ColumnKind>) -> bool {
    forall|i: int| 0 <= i < rows.len() ==> (#[trigger] rows[i] matches Ok(v) ==> row_fits(v@, kinds))
}

/// The text of a `Text` value.
pub fn text_of(v: &SqlValue) -> (r: String)
    requires
        v is Text,
    ensures
        v.text() == Some(r@),
{
    match v {
        SqlValue::Text(s) => s.clone(),
        _ => String::new(),
    }
}

/// The text of a `Text` value, `None` for `NULL`.
pub fn opt_text_of(v: &SqlValue) -> (r: Option<String>)
    ensures
        crate::text::opt_view(r) == v.text(),
{
    match v {
        SqlValue::Text(s) => Some(s.clone()),
        _ => None,
    }
}

/// The texts of `n` text columns.
pub open spec fn text_kinds(n: nat) -> Seq<ColumnKind> {
    Seq::new(n, |i: int| ColumnKind::Text)
}

/// `n` text columns.
pub fn text_columns(n: usize) -> (r: Vec<ColumnKind>)
    ensures
        r@ == text_kinds(n as nat),
{
    let mut out: Vec<ColumnKind> = Vec::new();
    for i in 0..n
        invariant
            out@ == text_kinds(i as nat),
    {
        out.push(ColumnKind::Text);
        assert(out@ =~= text_kinds((i + 1) as nat));
    }
    out
}

/// The memory a row `id, user_id, text, created_at, updated_at` describes.
pub open spec fn record_of(row: Seq<SqlValue>) -> (Seq<char>, Seq<char>, Seq<char>, Seq<char>, Seq<char>) {
    (row[0].text()->0, row[1].text()->0, row[2].text()->0, row[3].text()->0, row[4].text()->0)
}

/// A memory read from a row of `SELECT_ALL_SQL` or `SELECT_ONE_SQL`
/// (columns id, user_id, text, created_at, updated_at) takes each field from
/// its column, in that order.
pub proof fn lemma_record_columns(row: Seq<SqlValue>)
    ensures
        SELECT_ALL_SQL@ == "SELECT id, user_id, text, created_at, updated_at FROM memories WHERE user_id = ?1 ORDER BY updated_at DESC"@,
        SELECT_ONE_SQL@ == "SELECT id, user_id, text, created_at, updated_at FROM memories WHERE id = ?1"@,
        record_of(row).0 == row[0].text()->0,
        record_of(row).1 == row[1].text()->0,
        record_of(row).2 == row[2].text()->0,
        record_of(row).3 == row[3].text()->0,
        record_of(row).4 == row[4].text()->0,
{
}

/// The memory a row describes.
pub fn memory_record_from_row(row: &Vec<SqlValue>) -> (r: MemoryRecord)
    requires
        row_fits(row@, text_kinds(5)),
    ensures
        r@ == record_of(row@),
{
    assert(crate::db::fits(row@[0], text_kinds(5)[0]));
    assert(crate::db::fits(row@[1], text_kinds(5)[1]));
    assert(crate::db::fits(row@[2], text_kinds(5)[2]));
    assert(crate::db::fits(row@[3], text_kinds(5)[3]));
    assert(crate::db::fits(row@[4], text_kinds(5)[4]));
    MemoryRecord {
        id: text_of(&row[0]),
        user_id: text_of(&row[1]),
        text: text_of(&row[2]),
        created_at: text_of(&row[3]),
        updated_at: text_of(&row[4]),
    }
}

/// What `f` makes of each row that was read, in order; `f` makes a value
/// whose view is `conv` of the row, of every row that has the shape `kinds`.
pub fn map_ok_rows<T: View>(
    rows: &Vec<Result<Vec<SqlValue>, rusqlite::Error>>,
    Ghost(kinds): Ghost<Seq<ColumnKind>>,
    Ghost(conv): Ghost<spec_fn(Seq<SqlValue>) -> T::V>,
    f: impl Fn(&Vec<SqlValue>) -> T,
) -> (r: Vec<T>)
    requires
        rows_fit(rows@, kinds),
        forall|v: &Vec<SqlValue>| row_fits(v@, kinds) ==> #[trigger] f.requires((v,)),
        forall|v: &Vec<SqlValue>, t: T| row_fits(v@, kinds) && #[trigger] f.ensures((v,), t) ==> t@ == conv(v@),
    ensures
        r@.map_values(|m: T| m@) == ok_rows(rows@).map_values(conv),
{
    let mut out: Vec<T> = Vec::new();
    for i in 0..rows.len()
        invariant
            rows_fit(rows@, kinds),
            forall|v: &Vec<SqlValue>| row_fits(v@, kinds) ==> #[trigger] f.requires((v,)),
            forall|v: &Vec<SqlValue>, t: T| row_fits(v@, kinds) && #[trigger] f.ensures((v,), t) ==> t@ == conv(v@),
            out@.map_values(|m: T| m@) == ok_rows(rows@.take(i as int)).map_values(conv),
    {
        assert(rows@.take(i + 1).drop_last() == rows@.take(i as int));
        assert(rows@.take(i + 1).last() == rows@[i as int]);
        match &rows[i] {
            Ok(v) => {
                let ghost prev = ok_rows(rows@.take(i as int));
                assert(ok_rows(rows@.take(i + 1)) == prev.push(v@));
                assert(row_fits(v@, kinds));
                let t = f(v);
                out.push(t);
                assert(out@.map_values(|m: T| m@) == out@.drop_last().map_values(|m: T| m@).push(out@.last()@));
                assert(prev.push(v@).map_values(conv) == prev.map_values(conv).push(conv(v@)));
            },
            Err(_) => {
                assert(ok_rows(rows@.take(i + 1)) == ok_rows(rows@.take(i as int)));
            },
        }
    }
    assert(rows@.take(rows.len() as int) == rows@);
    out
}

/// The memories the rows that were read describe, in order.
pub fn memory_records_from_rows(rows: &Vec<Result<Vec<SqlValue>, rusqlite::Error>>) -> (r: Vec<MemoryRecord>)
    requires
        rows_fit(rows@, text_kinds(5)),
    ensures
        r@.map_values(|m: MemoryRecord| m@) == ok_rows(rows@).map_values(|v: Seq<SqlValue>| record_of(v)),
{
    map_ok_rows(rows, Ghost(text_kinds(5)), Ghost(|x: Seq<SqlValue>| record_of(x)), memory_record_from_row)
}


/// The columns of an archive row.
pub open spec fn archive_kinds() -> Seq<ColumnKind> {
    seq![ColumnKind::Text, ColumnKind::Text, ColumnKind::Text, ColumnKind::Text, ColumnKind::OptText, ColumnKind::Text, ColumnKind::Text]
}

/// The columns of an archive row.
pub fn archive_columns() -> (r: Vec<ColumnKind>)
    ensures
        r@ == archive_kinds(),
{
    let r = vec![ColumnKind::Text, ColumnKind::Text, ColumnKind::Text, ColumnKind::Text, ColumnKind::OptText, ColumnKind::Text, ColumnKind::Text];
    assert(r@ =~= archive_kinds());
    r
}

/// The archived memory a row `id, user_id, text, reason, superseded_by,
/// archived_at, original_created_at` describes.
pub open spec fn archived_of(row: Seq<SqlValue>) -> (Seq<char>, Seq<char>, Seq<char>, Seq<char>, Option<Seq<char>>, Seq<char>, Seq<char>) {
    (row[0].text()->0, row[1].text()->0, row[2].text()->0, row[3].text()->0, row[4].text(), row[5].text()->0, row[6].text()->0)
}

/// An archived memory read from a row of `SELECT_ARCHIVE_SQL` (columns id,
/// user_id, text, reason, superseded_by, archived_at, original_created_at)
/// takes each field from its column, in that order.
pub proof fn lemma_archived_columns(row: Seq<SqlValue>)
    ensures
        SELECT_ARCHIVE_SQL@ == "SELECT id, user_id, text, reason, superseded_by, archived_at, original_created_at
             FROM archive WHERE user_id = ?1 ORDER BY archived_at DESC"@,
        archived_of(row).0 == row[0].text()->0,
        archived_of(row).1 == row[1].text()->0,
        archived_of(row).2 == row[2].text()->0,
        archived_of(row).3 == row[3].text()->0,
        archived_of(row).4 == row[4].text(),
        archived_of(row).5 == row[5].text()->0,
        archived_of(row).6 == row[6].text()->0,
{
}

/// The archived memory a row describes.
pub fn archived_record_from_row(row: &Vec<SqlValue>) -> (r: ArchivedRecord)
    requires
        row_fits(row@, archive_kinds()),
    ensures
        r@ == archived_of(row@),
{
    assert(crate::db::fits(row@[0], archive_kinds()[0]));
    assert(crate::db::fits(row@[1], archive_kinds()[1]));
    assert(crate::db::fits(row@[2], archive_kinds()[2]));
    assert(crate::db::fits(row@[3], archive_kinds()[3]));
    assert(crate::db::fits(row@[5], archive_kinds()[5]));
    assert(crate::db::fits(row@[6], archive_kinds()[6]));
    ArchivedRecord {
        id: text_of(&row[0]),
        user_id: text_of(&row[1]),
        text: text_of(&row[2]),
        reason: text_of(&row[3]),
        superseded_by: opt_text_of(&row[4]),
        archived_at: text_of(&row[5]),
        original_created_at: text_of(&row[6]),
    }
}

/// The columns of a history row.
pub open spec fn history_kinds() -> Seq<ColumnKind> {
    seq![ColumnKind::Text, ColumnKind::OptText, ColumnKind::OptText, ColumnKind::Text]
}

/// The columns of a history row.
pub fn history_columns() -> (r: Vec<ColumnKind>)
    ensures
        r@ == history_kinds(),
{
    let r = vec![ColumnKind::Text, ColumnKind::OptText, ColumnKind::OptText, ColumnKind::Text];
    assert(r@ =~= history_kinds());
    r
}

/// The change a row `action, old_text, new_text, created_at` describes.
pub open spec fn history_of(row: Seq<SqlValue>) -> (Seq<char>, Option<Seq<char>>, Option<Seq<char>>, Seq<char>) {
    (row[0].text()->0, row[1].text(), row[2].text(), row[3].text()->0)
}

/// A change read from a row of `SELECT_HISTORY_SQL` (columns action,
/// old_text, new_text, created_at) takes each field from its column, in that order.
pub proof fn lemma_history_columns(row: Seq<SqlValue>)
    ensures
        SELECT_HISTORY_SQL@ == "SELECT action, old_text, new_text, created_at FROM history WHERE memory_id = ?1 ORDER BY id ASC"@,
        history_of(row).0 == row[0].text()->0,
        history_of(row).1 == row[1].text(),
        history_of(row).2 == row[2].text(),
        history_of(row).3 == row[3].text()->0,
{
}

/// The change a row describes.
pub fn history_entry_from_row(row: &Vec<SqlValue>) -> (r: HistoryEntry)
    requires
        row_fits(row@, history_kinds()),
    ensures
        r@ == history_of(row@),
{
    assert(crate::db::fits(row@[0], history_kinds()[0]));
    assert(crate::db::fits(row@[3], history_kinds()[3]));
    HistoryEntry {
        action: text_of(&row[0]),
        old_text: opt_text_of(&row[1]),
        new_text: opt_text_of(&row[2]),
        timestamp: text_of(&row[3]),
    }
}

/// The columns of a row with an embedding.
pub open spec fn candidate_kinds() -> Seq<ColumnKind> {
    seq![ColumnKind::Text, ColumnKind::Text, ColumnKind::Text, ColumnKind::Blob]
}

/// The columns of a row with an embedding.
pub fn candidate_columns() -> (r: Vec<ColumnKind>)
    ensures
        r@ == candidate_kinds(),
{
    let r = vec![ColumnKind::Text, ColumnKind::Text, ColumnKind::Text, ColumnKind::Blob];
    assert(r@ =~= candidate_kinds());
    r
}

/// The memory a row `id, user_id, text, embedding` describes, its embedding read back.
pub open spec fn candidate_of(row: Seq<SqlValue>) -> (Seq<char>, Seq<char>, Seq<char>, Seq<u32>) {
    (row[0].text()->0, row[1].text()->0, row[2].text()->0, embedding_of(row[3].bytes()->0))
}

/// A candidate read from a row of `SELECT_EMBEDDINGS_SQL` or
/// `SELECT_ARCHIVE_EMBEDDINGS_SQL` (columns id, user_id, text, embedding)
/// takes its id from the first column, its user from the second, its text
/// from the third and its embedding from the blob of the fourth.
pub proof fn lemma_candidate_columns(row: Seq<SqlValue>)
    ensures
        SELECT_EMBEDDINGS_SQL@ == "SELECT id, user_id, text, embedding FROM memories WHERE user_id = ?1"@,
        SELECT_ARCHIVE_EMBEDDINGS_SQL@ == "SELECT id, user_id, text, embedding FROM archive WHERE user_id = ?1 AND embedding IS NOT NULL"@,
        candidate_of(row).0 == row[0].text()->0,
        candidate_of(row).1 == row[1].text()->0,
        candidate_of(row).2 == row[2].text()->0,
        candidate_of(row).3 == embedding_of(row[3].bytes()->0),
{
}

/// The memory a row with an embedding describes.
pub fn candidate_from_row(row: &Vec<SqlValue>) -> (r: MemoryCandidate)
    requires
        row_fits(row@, candidate_kinds()),
    ensures
        r@ == candidate_of(row@),
{
    assert(crate::db::fits(row@[0], candidate_kinds()[0]));
    assert(crate::db::fits(row@[1], candidate_kinds()[1]));
    assert(crate::db::fits(row@[2], candidate_kinds()[2]));
    assert(crate::db::fits(row@[3], candidate_kinds()[3]));
    let embedding = match &row[3] {
        SqlValue::Blob(b) => blob_to_embedding(b),
        _ => Vec::new(),
    };
    MemoryCandidate { id: text_of(&row[0]), user_id: text_of(&row[1]), text: text_of(&row[2]), embedding }
}

/// The pair (first column, second column) of a row of two texts.
pub open spec fn pair_of(row: Seq<SqlValue>) -> (Seq<char>, Seq<char>) {
    (row[0].text()->0, row[1].text()->0)
}

/// A pair read from a row of `SELECT_EXISTING_SQL` (columns id, text) is
/// (id, text); the text read by `SELECT_TEXT_SQL` is its only column.
pub proof fn lemma_pair_columns(row: Seq<SqlValue>)
    ensures
        SELECT_EXISTING_SQL@ == "SELECT id, text FROM memories WHERE user_id = ?1"@,
        SELECT_TEXT_SQL@ == "SELECT text FROM memories WHERE id = ?1"@,
        pair_of(row).0 == row[0].text()->0,
        pair_of(row).1 == row[1].text()->0,
        single_of(row) == row[0].text()->0,
{
}

/// The pair of texts of a row.
pub fn pair_from_row(row: &Vec<SqlValue>) -> (r: (String, String))
    requires
        row_fits(row@, text_kinds(2)),
    ensures
        (r.0@, r.1@) == pair_of(row@),
{
    assert(crate::db::fits(row@[0], text_kinds(2)[0]));
    assert(crate::db::fits(row@[1], text_kinds(2)[1]));
    (text_of(&row[0]), text_of(&row[1]))
}

/// The text of a row of one text.
pub open spec fn single_of(row: Seq<SqlValue>) -> Seq<char> {
    row[0].text()->0
}

/// The text of a row of one text.
pub fn single_from_row(row: &Vec<SqlValue>) -> (r: String)
    requires
        row_fits(row@, text_kinds(1)),
    ensures
        r@ == single_of(row@),
{
    assert(crate::db::fits(row@[0], text_kinds(1)[0]));
    text_of(&row[0])
}

/// The archived memories the rows that were read describe, in order.
pub fn archived_records_from_rows(rows: &Vec<Result<Vec<SqlValue>, rusqlite::Error>>) -> (r: Vec<ArchivedRecord>)
    requires
        rows_fit(rows@, archive_kinds()),
    ensures
        r@.map_values(|m: ArchivedRecord| m@) == ok_rows(rows@).map_values(|v: Seq<SqlValue>| archived_of(v)),
{
    map_ok_rows(rows, Ghost(archive_kinds()), Ghost(|x: Seq<SqlValue>| archived_of(x)), archived_record_from_row)
}

/// The changes the rows that were read describe, in order.
pub fn history_entries_from_rows(rows: &Vec<Result<Vec<SqlValue>, rusqlite::Error>>) -> (r: Vec<HistoryEntry>)
    requires
        rows_fit(rows@, history_kinds()),
    ensures
        r@.map_values(|m: HistoryEntry| m@) == ok_rows(rows@).map_values(|v: Seq<SqlValue>| history_of(v)),
{
    map_ok_rows(rows, Ghost(history_kinds()), Ghost(|x: Seq<SqlValue>| history_of(x)), history_entry_from_row)
}

/// The memories with embeddings the rows that were read describe, in order.
pub fn candidates_from_rows(rows: &Vec<Result<Vec<SqlValue>, rusqlite::Error>>) -> (r: Vec<MemoryCandidate>)
    requires
        rows_fit(rows@, candidate_kinds()),
    ensures
        r@.map_values(|m: MemoryCandidate| m@) == ok_rows(rows@).map_values(|v: Seq<SqlValue>| candidate_of(v)),
{
    map_ok_rows(rows, Ghost(candidate_kinds()), Ghost(|x: Seq<SqlValue>| candidate_of(x)), candidate_from_row)
}

/// The text pairs the rows that were read describe, in order.
pub fn pairs_from_rows(rows: &Vec<Result<Vec<SqlValue>, rusqlite::Error>>) -> (r: Vec<(String, String)>)
    requires
        rows_fit(rows@, text_kinds(2)),
    ensures
        r@.map_values(|m: (String, String)| m@) == ok_rows(rows@).map_values(|v: Seq<SqlValue>| pair_of(v)),
{
    map_ok_rows(rows, Ghost(text_kinds(2)), Ghost(|x: Seq<SqlValue>| pair_of(x)), pair_from_row)
}

/// The texts the rows that were read describe, in order.
pub fn singles_from_rows(rows: &Vec<Result<Vec<SqlValue>, rusqlite::Error>>) -> (r: Vec<String>)
    requires
        rows_fit(rows@, text_kinds(1)),
    ensures
        r@.map_values(|m: String| m@) == ok_rows(rows@).map_values(|v: Seq<SqlValue>| single_of(v)),
{
    map_ok_rows(rows, Ghost(text_kinds(1)), Ghost(|x: Seq<SqlValue>| single_of(x)), single_from_row)
}


// ── The store ─────────────────────────────────────────────────────────

/// The first text of the rows read, when the first row was read.
pub open spec fn first_text(rows: Seq<Result<Vec<SqlValue>, rusqlite::Error>>) -> Option<Seq<char>> {
    if rows.len() > 0 && rows[0] is Ok {
        (rows[0]->Ok_0)@[0].text()
    } else {
        None
    }
}

/// The first text of the rows read, when the first row was read.
pub fn first_text_of(rows: &Vec<Result<Vec<SqlValue>, rusqlite::Error>>) -> (r: Option<String>)
    requires
        rows_fit(rows@, text_kinds(1)),
    ensures
        crate::text::opt_view(r) == first_text(rows@),
{
    if rows.len() == 0 {
        return None;
    }
    match &rows[0] {
        Ok(v) => {
            assert(crate::db::fits(v@[0], text_kinds(1)[0]));
            Some(text_of(&v[0]))
        },
        Err(_) => None,
    }
}

/// The memory described by the first row read, when the first row was read.
pub open spec fn first_record(rows: Seq<Result<Vec<SqlValue>, rusqlite::Error>>) -> Option<(Seq<char>, Seq<char>, Seq<char>, Seq<char>, Seq<char>)> {
    if rows.len() > 0 && rows[0] is Ok {
        Some(record_of((rows[0]->Ok_0)@))
    } else {
        None
    }
}

/// The memory described by the first row read: none when there is no row or
/// the first one could not be read.
pub fn first_record_of(rows: &Vec<Result<Vec<SqlValue>, rusqlite::Error>>) -> (r: Option<MemoryRecord>)
    requires
        rows_fit(rows@, text_kinds(5)),
    ensures
        r is Some <==> first_record(rows@) is Some,
        r matches Some(m) ==> first_record(rows@) == Some(m@),
{
    if rows.len() == 0 {
        return None;
    }
    match &rows[0] {
        Ok(v) => Some(memory_record_from_row(v)),
        Err(_) => None,
    }
}

/// The message for a count query that gave no row.
pub open spec fn no_rows_message() -> Seq<char> {
    "Query returned no rows"@
}

/// What a count query's rows give: the integer of the first row (as a
/// size); an error without context when there is no row (`no_rows_message`)
/// or the first row could not be read.
pub open spec fn counted(rows: Seq<Result<Vec<SqlValue>, rusqlite::Error>>, r: Result<usize, StoreError>) -> bool {
    &&& (rows.len() == 0 ==> (r matches Err(e) && e.context is None && e.message@ == no_rows_message()))
    &&& (rows.len() > 0 && rows[0] is Err ==> (r matches Err(e) && e.context is None))
    &&& (rows.len() > 0 && rows[0] is Ok ==> (r matches Ok(n) && (rows[0]->Ok_0)@[0] matches SqlValue::Int(c)
            && (0 <= c <= usize::MAX ==> n == c)))
}

/// The count a count query's rows give (see `counted`).
pub fn count_of_rows(rows: &Vec<Result<Vec<SqlValue>, rusqlite::Error>>) -> (r: Result<usize, StoreError>)
    requires
        rows_fit(rows@, seq![ColumnKind::Int]),
    ensures
        counted(rows@, r),
{
    if rows.len() == 0 {
        return Err(StoreError { context: None, message: "Query returned no rows".to_owned() });
    }
    match &rows[0] {
        Ok(v) => {
            assert(crate::db::fits(v@[0], seq![ColumnKind::Int][0]));
            match &v[0] {
                SqlValue::Int(n) => Ok(count_to_size(*n)),
                _ => Ok(0),
            }
        },
        Err(e) => Err(sql_error(e, &None)),
    }
}

/// One call was made on the database between the two states.
pub open spec fn one_call(before: Seq<DbCall>, after: Seq<DbCall>) -> bool {
    extends(before, after) && added(before, after).len() == 1
}

/// The first call made on the database between the two states.
pub open spec fn first_call(before: Seq<DbCall>, after: Seq<DbCall>) -> DbCall {
    added(before, after)[0]
}

/// One query was made: `sql`, with `key` as its only parameter.
pub open spec fn read_by(before: Seq<DbCall>, after: Seq<DbCall>, sql: Seq<char>, key: Seq<char>) -> bool {
    one_call(before, after) && queries(first_call(before, after), sql, seq![Some(key)])
}

/// The rows the first query gave (meaningful when it succeeded).
pub open spec fn rows_read(before: Seq<DbCall>, after: Seq<DbCall>) -> Seq<Result<Vec<SqlValue>, rusqlite::Error>> {
    answer(first_call(before, after))->0
}

/// The first query succeeded.
pub open spec fn read_ok(before: Seq<DbCall>, after: Seq<DbCall>) -> bool {
    answer(first_call(before, after)) is Some
}

/// The text a read of a memory's text gives: that of the first row, when the
/// query succeeded and its first row was read.
pub open spec fn text_read(c: DbCall) -> Option<Seq<char>> {
    match answer(c) {
        Some(rows) => first_text(rows),
        None => None,
    }
}

/// Runs a query on the database, as one call.
pub fn read_rows(db: &mut Db, q: &(String, Vec<SqlValue>), kinds: &Vec<ColumnKind>) -> (r: Result<Vec<Result<Vec<SqlValue>, rusqlite::Error>>, rusqlite::Error>)
    ensures
        one_call(old(db).calls(), final(db).calls()),
        first_call(old(db).calls(), final(db).calls()) == (DbCall::Query { sql: q.0@, params: q.1@, rows: rows_of(r) }),
        r matches Ok(rows) ==> rows_fit(rows@, kinds@),
{
    let ghost before = db.calls();
    let r = query(db, q.0.as_str(), &q.1, kinds);
    proof {
        lemma_added_one(before, DbCall::Query { sql: q.0@, params: q.1@, rows: rows_of(r) });
    }
    r
}

/// The memory store: memories, their history and their archive, in one
/// SQLite database.
pub struct MemoryStore {
    db: Db,
}

impl MemoryStore {
    /// The calls made on the store's database, oldest first.
    pub closed spec fn calls(&self) -> Seq<DbCall> {
        self.db.calls()
    }

    /// Opens the store at `path` (`":memory:"` for a fresh in-memory one),
    /// switches the database to write-ahead logging and creates the tables:
    /// an opened store has run the two batches, both successfully.
    pub fn open(path: &str) -> (r: Result<MemoryStore, StoreError>)
        ensures
            r matches Ok(s) ==> s.calls() == seq![
                DbCall::Batch { sql: PRAGMAS_SQL@, ok: true },
                DbCall::Batch { sql: SCHEMA_SQL@, ok: true },
            ],
            r matches Err(e) ==> (e.context is None || (e.context matches Some(c) && c@ == "Failed to open memory DB"@)),
    {
        let mut db = match Db::open(path) {
            Ok(db) => db,
            Err(e) => return Err(sql_error(&e, &Some("Failed to open memory DB".to_owned()))),
        };
        if let Err(e) = execute_batch(&mut db, PRAGMAS_SQL) {
            return Err(sql_error(&e, &None));
        }
        if let Err(e) = execute_batch(&mut db, SCHEMA_SQL) {
            return Err(sql_error(&e, &None));
        }
        Ok(MemoryStore { db })
    }

    /// Inserts a new memory with its embedding, records `ADD` in its history
    /// and indexes its text: runs `add_statements` of the arguments and the
    /// embedding's blob.
    pub fn add(&mut self, id: &str, user_id: &str, text: &str, embedding: &Vec<u32>) -> (r: Result<(), StoreError>)
        requires
            embedding@.len() * 4 <= usize::MAX,
        ensures
            extends(old(self).calls(), final(self).calls()),
            exists|sts: Seq<Statement>| add_statements_are(sts, id@, user_id@, text@, blob_of(embedding@))
                && #[trigger] ran(sts, added(old(self).calls(), final(self).calls()), r),
    {
        let blob = embedding_to_blob(embedding);
        let statements = add_statements(id, user_id, text, blob);
        let r = run_statements(&mut self.db, &statements);
        assert(ran(statements@, added(old(self).calls(), self.calls()), r));
        r
    }

    /// The current text of a memory (`select_text_query`), if it can be read.
    fn current_text(&mut self, id: &str) -> (r: Option<String>)
        ensures
            read_by(old(self).calls(), final(self).calls(), SELECT_TEXT_SQL@, id@),
            crate::text::opt_view(r) == text_read(first_call(old(self).calls(), final(self).calls())),
    {
        let q = select_text_query(id);
        let kinds = text_columns(1);
        match read_rows(&mut self.db, &q, &kinds) {
            Ok(rows) => first_text_of(&rows),
            Err(_) => None,
        }
    }

    /// Updates a memory's text and embedding: reads its old text, then runs
    /// `update_plan` with it (the old version archived with reason
    /// `SUPERSEDED`, the change recorded in the history with the old and the
    /// new text).
    pub fn update(&mut self, id: &str, text: &str, embedding: &Vec<u32>) -> (r: Result<(), StoreError>)
        requires
            embedding@.len() * 4 <= usize::MAX,
        ensures
            extends(old(self).calls(), final(self).calls()),
            added(old(self).calls(), final(self).calls()).len() >= 1,
            queries(first_call(old(self).calls(), final(self).calls()), SELECT_TEXT_SQL@, seq![Some(id@)]),
            exists|sts: Seq<Statement>| update_plan_is(sts, id@, text@, blob_of(embedding@),
                text_read(first_call(old(self).calls(), final(self).calls())))
                && #[trigger] ran(sts, added(old(self).calls(), final(self).calls()).drop_first(), r),
    {
        let ghost start = self.calls();
        let blob = embedding_to_blob(embedding);
        let old_text = self.current_text(id);
        let ghost mid = self.calls();
        let statements = update_plan(id, text, blob, &old_text);
        let r = run_statements(&mut self.db, &statements);
        proof {
            lemma_added_concat(start, mid, self.calls());
            assert(added(start, self.calls()).drop_first() == added(mid, self.calls()));
        }
        assert(ran(statements@, added(start, self.calls()).drop_first(), r));
        r
    }

    /// Deletes a memory: reads its old text, then runs `delete_plan` with it
    /// (the memory archived with reason `DELETED`, the deletion recorded in
    /// the history with the old text).
    pub fn delete(&mut self, id: &str) -> (r: Result<(), StoreError>)
        ensures
            extends(old(self).calls(), final(self).calls()),
            added(old(self).calls(), final(self).calls()).len() >= 1,
            queries(first_call(old(self).calls(), final(self).calls()), SELECT_TEXT_SQL@, seq![Some(id@)]),
            exists|sts: Seq<Statement>| delete_plan_is(sts, id@, text_read(first_call(old(self).calls(), final(self).calls())))
                && #[trigger] ran(sts, added(old(self).calls(), final(self).calls()).drop_first(), r),
    {
        let ghost start = self.calls();
        let old_text = self.current_text(id);
        let ghost mid = self.calls();
        let statements = delete_plan(id, &old_text);
        let r = run_statements(&mut self.db, &statements);
        proof {
            lemma_added_concat(start, mid, self.calls());
            assert(added(start, self.calls()).drop_first() == added(mid, self.calls()));
        }
        assert(ran(statements@, added(start, self.calls()).drop_first(), r));
        r
    }

    /// The memories of a user (`select_all_query`), most recently updated
    /// first: those of the rows read.
    pub fn get_all(&mut self, user_id: &str) -> (r: Result<Vec<MemoryRecord>, StoreError>)
        ensures
            read_by(old(self).calls(), final(self).calls(), SELECT_ALL_SQL@, user_id@),
            r is Ok <==> read_ok(old(self).calls(), final(self).calls()),
            r matches Ok(v) ==> v@.map_values(|m: MemoryRecord| m@)
                == ok_rows(rows_read(old(self).calls(), final(self).calls())).map_values(|x: Seq<SqlValue>| record_of(x)),
            r matches Err(e) ==> e.context is None,
    {
        let q = select_all_query(user_id);
        let kinds = text_columns(5);
        match read_rows(&mut self.db, &q, &kinds) {
            Ok(rows) => Ok(memory_records_from_rows(&rows)),
            Err(e) => Err(sql_error(&e, &None)),
        }
    }

    /// The memory with id `id` (`select_one_query`): that of the first row
    /// read; none when there is none, it could not be read, or the query failed.
    pub fn get(&mut self, id: &str) -> (r: Result<Option<MemoryRecord>, StoreError>)
        ensures
            read_by(old(self).calls(), final(self).calls(), SELECT_ONE_SQL@, id@),
            r matches Ok(o) && (o is Some <==> read_ok(old(self).calls(), final(self).calls())
                && first_record(rows_read(old(self).calls(), final(self).calls())) is Some),
            r matches Ok(o) && (o matches Some(m) ==> first_record(rows_read(old(self).calls(), final(self).calls())) == Some(m@)),
    {
        let q = select_one_query(id);
        let kinds = text_columns(5);
        match read_rows(&mut self.db, &q, &kinds) {
            Ok(rows) => Ok(first_record_of(&rows)),
            Err(_) => Ok(None),
        }
    }

    /// The memories of a user with their embeddings (`select_embeddings_query`),
    /// for a similarity search: those of the rows read.
    pub fn search_candidates(&mut self, user_id: &str) -> (r: Result<Vec<MemoryCandidate>, StoreError>)
        ensures
            read_by(old(self).calls(), final(self).calls(), SELECT_EMBEDDINGS_SQL@, user_id@),
            r is Ok <==> read_ok(old(self).calls(), final(self).calls()),
            r matches Ok(v) ==> v@.map_values(|m: MemoryCandidate| m@)
                == ok_rows(rows_read(old(self).calls(), final(self).calls())).map_values(|x: Seq<SqlValue>| candidate_of(x)),
            r matches Err(e) ==> e.context is None,
    {
        let q = select_embeddings_query(user_id);
        let kinds = candidate_columns();
        match read_rows(&mut self.db, &q, &kinds) {
            Ok(rows) => Ok(candidates_from_rows(&rows)),
            Err(e) => Err(sql_error(&e, &None)),
        }
    }

    /// The ids of at most `limit` memories of a user whose text matches the
    /// full-text query made of the search text's words longer than two bytes,
    /// any of them (`fts_search_query`); none, without asking the database,
    /// when there is no such word.
    pub fn fts_search(&mut self, user_id: &str, query_text: &str, limit: usize) -> (r: Result<Vec<String>, StoreError>)
        ensures
            fts_query_text(query_text@) is None ==> (r matches Ok(v) && v@.len() == 0 && final(self).calls() == old(self).calls()),
            fts_query_text(query_text@) is Some && limit > i64::MAX ==> (r matches Err(e)
                && e.message@ == crate::db::out_of_range_message() && final(self).calls() == old(self).calls()),
            fts_query_text(query_text@) is Some && limit <= i64::MAX ==> {
                &&& one_call(old(self).calls(), final(self).calls())
                &&& first_call(old(self).calls(), final(self).calls()) matches DbCall::Query { sql, params, .. }
                &&& sql == FTS_SEARCH_SQL@ && params.len() == 3 && params[0].text() == Some(user_id@)
                &&& params[1].text() == fts_query_text(query_text@) && params[2] == SqlValue::Int(limit as i64)
                &&& (r is Ok <==> read_ok(old(self).calls(), final(self).calls()))
                &&& (r matches Ok(v) ==> v@.map_values(|m: String| m@)
                    == ok_rows(rows_read(old(self).calls(), final(self).calls())).map_values(|x: Seq<SqlValue>| single_of(x)))
                &&& (r matches Err(e) ==> e.context is None)
            },
    {
        let q = match fts_search_query(user_id, query_text, limit) {
            Ok(Some(q)) => q,
            Ok(None) => return Ok(Vec::new()),
            Err(e) => return Err(e),
        };
        let kinds = text_columns(1);
        match read_rows(&mut self.db, &q, &kinds) {
            Ok(rows) => Ok(singles_from_rows(&rows)),
            Err(e) => Err(sql_error(&e, &None)),
        }
    }

    /// The memories of a user as (id, text) pairs (`select_existing_query`),
    /// for deduplication: those of the rows read.
    pub fn get_existing_for_dedup(&mut self, user_id: &str) -> (r: Result<Vec<(String, String)>, StoreError>)
        ensures
            read_by(old(self).calls(), final(self).calls(), SELECT_EXISTING_SQL@, user_id@),
            r is Ok <==> read_ok(old(self).calls(), final(self).calls()),
            r matches Ok(v) ==> v@.map_values(|m: (String, String)| m@)
                == ok_rows(rows_read(old(self).calls(), final(self).calls())).map_values(|x: Seq<SqlValue>| pair_of(x)),
            r matches Err(e) ==> e.context is None,
    {
        let q = select_existing_query(user_id);
        let kinds = text_columns(2);
        match read_rows(&mut self.db, &q, &kinds) {
            Ok(rows) => Ok(pairs_from_rows(&rows)),
            Err(e) => Err(sql_error(&e, &None)),
        }
    }

    /// The changes of a memory (`select_history_query`), oldest first: those
    /// of the rows read.
    pub fn history(&mut self, id: &str) -> (r: Result<Vec<HistoryEntry>, StoreError>)
        ensures
            read_by(old(self).calls(), final(self).calls(), SELECT_HISTORY_SQL@, id@),
            r is Ok <==> read_ok(old(self).calls(), final(self).calls()),
            r matches Ok(v) ==> v@.map_values(|m: HistoryEntry| m@)
                == ok_rows(rows_read(old(self).calls(), final(self).calls())).map_values(|x: Seq<SqlValue>| history_of(x)),
            r matches Err(e) ==> e.context is None,
    {
        let q = select_history_query(id);
        let kinds = history_columns();
        match read_rows(&mut self.db, &q, &kinds) {
            Ok(rows) => Ok(history_entries_from_rows(&rows)),
            Err(e) => Err(sql_error(&e, &None)),
        }
    }

    /// Deletes the memories (`reset_memories_query`) and then the archive
    /// (`reset_archive_query`) of a user; gives the number of memories
    /// deleted. A failure of the first stops the reset.
    pub fn reset(&mut self, user_id: &str) -> (r: Result<u64, StoreError>)
        ensures
            extends(old(self).calls(), final(self).calls()),
            executes_texts(first_call(old(self).calls(), final(self).calls()), RESET_MEMORIES_SQL@, seq![Some(user_id@)]),
            changed(first_call(old(self).calls(), final(self).calls())) is None
                ==> (added(old(self).calls(), final(self).calls()).len() == 1 && r is Err),
            changed(first_call(old(self).calls(), final(self).calls())) matches Some(n) ==> {
                let second = added(old(self).calls(), final(self).calls())[1];
                &&& added(old(self).calls(), final(self).calls()).len() == 2
                &&& executes_texts(second, RESET_ARCHIVE_SQL@, seq![Some(user_id@)])
                &&& (r is Ok <==> changed(second) is Some)
                &&& (r matches Ok(count) ==> count == n)
            },
            r matches Err(e) ==> e.context is None,
    {
        let ghost start = self.calls();
        let memories = reset_memories_query(user_id);
        let outcome = execute(&mut self.db, memories.0.as_str(), &memories.1);
        let ghost c0 = DbCall::Execute { sql: memories.0@, params: memories.1@, changed: changed_of(outcome) };
        proof {
            lemma_added_one(start, c0);
        }
        let count = match outcome {
            Ok(n) => n,
            Err(e) => return Err(sql_error(&e, &None)),
        };
        let ghost mid = self.calls();
        let archive = reset_archive_query(user_id);
        let second = execute(&mut self.db, archive.0.as_str(), &archive.1);
        proof {
            lemma_added_push(start, mid, DbCall::Execute { sql: archive.0@, params: archive.1@, changed: changed_of(second) });
        }
        if let Err(e) = second {
            return Err(sql_error(&e, &None));
        }
        Ok(count as u64)
    }

    /// The archived memories of a user that kept their embedding
    /// (`archive_embeddings_query`), for a similarity search of the archive:
    /// those of the rows read.
    pub fn search_archive_candidates(&mut self, user_id: &str) -> (r: Result<Vec<MemoryCandidate>, StoreError>)
        ensures
            read_by(old(self).calls(), final(self).calls(), SELECT_ARCHIVE_EMBEDDINGS_SQL@, user_id@),
            r is Ok <==> read_ok(old(self).calls(), final(self).calls()),
            r matches Ok(v) ==> v@.map_values(|m: MemoryCandidate| m@)
                == ok_rows(rows_read(old(self).calls(), final(self).calls())).map_values(|x: Seq<SqlValue>| candidate_of(x)),
            r matches Err(e) ==> e.context is None,
    {
        let q = archive_embeddings_query(user_id);
        let kinds = candidate_columns();
        match read_rows(&mut self.db, &q, &kinds) {
            Ok(rows) => Ok(candidates_from_rows(&rows)),
            Err(e) => Err(sql_error(&e, &None)),
        }
    }

    /// The number of archived memories of a user (`archive_count_query`):
    /// what `counted` gives of the rows read.
    pub fn archive_count(&mut self, user_id: &str) -> (r: Result<usize, StoreError>)
        ensures
            read_by(old(self).calls(), final(self).calls(), ARCHIVE_COUNT_SQL@, user_id@),
            !read_ok(old(self).calls(), final(self).calls()) ==> (r matches Err(e) && e.context is None),
            read_ok(old(self).calls(), final(self).calls()) ==> counted(rows_read(old(self).calls(), final(self).calls()), r),
    {
        let q = archive_count_query(user_id);
        let kinds = vec![ColumnKind::Int];
        match read_rows(&mut self.db, &q, &kinds) {
            Ok(rows) => count_of_rows(&rows),
            Err(e) => Err(sql_error(&e, &None)),
        }
    }

    /// The archived memories of a user (`select_archive_query`), most recently
    /// archived first: those of the rows read.
    pub fn get_archive(&mut self, user_id: &str) -> (r: Result<Vec<ArchivedRecord>, StoreError>)
        ensures
            read_by(old(self).calls(), final(self).calls(), SELECT_ARCHIVE_SQL@, user_id@),
            r is Ok <==> read_ok(old(self).calls(), final(self).calls()),
            r matches Ok(v) ==> v@.map_values(|m: ArchivedRecord| m@)
                == ok_rows(rows_read(old(self).calls(), final(self).calls())).map_values(|x: Seq<SqlValue>| archived_of(x)),
            r matches Err(e) ==> e.context is None,
    {
        let q = select_archive_query(user_id);
        let kinds = archive_columns();
        match read_rows(&mut self.db, &q, &kinds) {
            Ok(rows) => Ok(archived_records_from_rows(&rows)),
            Err(e) => Err(sql_error(&e, &None)),
        }
    }

    /// Deletes the archived memories of a user but the `keep` most recently
    /// archived (`compact_archive_query`); gives the number deleted.
    pub fn compact_archive(&mut self, user_id: &str, keep: usize) -> (r: Result<usize, StoreError>)
        ensures
            keep > i64::MAX ==> (r matches Err(e) && e.message@ == crate::db::out_of_range_message()
                && final(self).calls() == old(self).calls()),
            keep <= i64::MAX ==> {
                &&& one_call(old(self).calls(), final(self).calls())
                &&& first_call(old(self).calls(), final(self).calls()) matches DbCall::Execute { sql, params, changed }
                &&& sql == COMPACT_ARCHIVE_SQL@ && params.len() == 2 && params[0].text() == Some(user_id@)
                &&& params[1] == SqlValue::Int(keep as i64)
                &&& (r is Ok <==> changed is Some)
                &&& (r matches Ok(n) ==> changed == Some(n))
                &&& (r matches Err(e) ==> e.context is None)
            },
    {
        let q = match compact_archive_query(user_id, keep) {
            Ok(q) => q,
            Err(e) => return Err(e),
        };
        let ghost start = self.calls();
        let outcome = execute(&mut self.db, q.0.as_str(), &q.1);
        proof {
            lemma_added_one(start, DbCall::Execute { sql: q.0@, params: q.1@, changed: changed_of(outcome) });
        }
        match outcome {
            Ok(n) => Ok(n),
            Err(e) => Err(sql_error(&e, &None)),
        }
    }
}

/// A row count as a size (`count as usize`).
pub fn count_to_size(n: i64) -> (r: usize)
    ensures
        0 <= n <= usize::MAX ==> r == n,
{
    #[verifier::truncate]
    (n as usize)
}

} // verus!
