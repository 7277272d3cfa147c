use rustmem::db::{read_row, run_statements, Db, SqlValue, Statement};
use rustmem::store::{
    blob_to_embedding, compact_archive_query, count_of_rows, delete_plan, embedding_to_blob, first_record_of,
    fts_search_query, prefilter, select_embeddings_query, update_plan, MemoryCandidate, MemoryStore,
    ARCHIVE_DELETED_SQL, ARCHIVE_SUPERSEDED_SQL, FTS_SEARCH_SQL, SELECT_EMBEDDINGS_SQL, UPDATE_MEMORY_SQL,
};

fn bits(v: &[f32]) -> Vec<u32> {
    v.iter().map(|f| f.to_bits()).collect()
}

fn fake_embedding(seed: f32) -> Vec<u32> {
    bits(&[seed, seed * 0.5, seed * 0.3])
}

#[test]
fn embedding_blob_roundtrip() {
    let emb = vec![1.0_f32, -2.5, 3.14, 0.0];
    let blob = embedding_to_blob(&bits(&emb));
    let back: Vec<f32> = blob_to_embedding(&blob).iter().map(|b| f32::from_bits(*b)).collect();
    assert_eq!(emb, back);
}

#[test]
fn embedding_blob_is_little_endian_f32() {
    let emb = vec![1.0_f32, -2.5];
    let blob = embedding_to_blob(&bits(&emb));
    let expected: Vec<u8> = emb.iter().flat_map(|f| f.to_le_bytes()).collect();
    assert_eq!(blob, expected);
    assert_eq!(blob_to_embedding(&[0u8, 0, 128, 63, 7].to_vec()), vec![1.0_f32.to_bits()]);
}

#[test]
fn store_add_and_get() {
    let mut store = MemoryStore::open(":memory:").unwrap();
    let emb = fake_embedding(1.0);
    store.add("id1", "alice", "likes sushi", &emb).unwrap();

    let record = store.get("id1").unwrap().unwrap();
    assert_eq!(record.text, "likes sushi");
    assert_eq!(record.user_id, "alice");
}

#[test]
fn store_update_records_history() {
    let mut store = MemoryStore::open(":memory:").unwrap();
    let emb = fake_embedding(1.0);
    store.add("id1", "alice", "likes sushi", &emb).unwrap();
    store.update("id1", "loves sushi", &emb).unwrap();

    let record = store.get("id1").unwrap().unwrap();
    assert_eq!(record.text, "loves sushi");

    let hist = store.history("id1").unwrap();
    assert_eq!(hist.len(), 2);
    assert_eq!(hist[0].action, "ADD");
    assert_eq!(hist[1].action, "UPDATE");
}

#[test]
fn store_delete_removes_record() {
    let mut store = MemoryStore::open(":memory:").unwrap();
    let emb = fake_embedding(1.0);
    store.add("id1", "alice", "likes sushi", &emb).unwrap();
    store.delete("id1").unwrap();

    assert!(store.get("id1").unwrap().is_none());

    let hist = store.history("id1").unwrap();
    assert_eq!(hist.last().unwrap().action, "DELETE");
}

#[test]
fn store_reset_clears_all() {
    let mut store = MemoryStore::open(":memory:").unwrap();
    let emb = fake_embedding(1.0);
    store.add("id1", "alice", "fact 1", &emb).unwrap();
    store.add("id2", "alice", "fact 2", &emb).unwrap();

    let count = store.reset("alice").unwrap();
    assert_eq!(count, 2);
    assert!(store.get_all("alice").unwrap().is_empty());
}

#[test]
fn delete_archives_memory() {
    let mut store = MemoryStore::open(":memory:").unwrap();
    let emb = fake_embedding(1.0);
    store.add("id1", "alice", "likes sushi", &emb).unwrap();
    store.delete("id1").unwrap();

    // Active memory gone
    assert!(store.get("id1").unwrap().is_none());

    // But archived
    let archive = store.get_archive("alice").unwrap();
    assert_eq!(archive.len(), 1);
    assert_eq!(archive[0].text, "likes sushi");
    assert_eq!(archive[0].reason, "DELETED");
}

#[test]
fn update_archives_old_version() {
    let mut store = MemoryStore::open(":memory:").unwrap();
    let emb = fake_embedding(1.0);
    store.add("id1", "alice", "likes sushi", &emb).unwrap();
    store.update("id1", "loves sushi", &emb).unwrap();

    // Active has new version
    let record = store.get("id1").unwrap().unwrap();
    assert_eq!(record.text, "loves sushi");

    // Archive has old version
    let archive = store.get_archive("alice").unwrap();
    assert_eq!(archive.len(), 1);
    assert_eq!(archive[0].text, "likes sushi");
    assert_eq!(archive[0].reason, "SUPERSEDED");
}

#[test]
fn reset_clears_archive() {
    let mut store = MemoryStore::open(":memory:").unwrap();
    let emb = fake_embedding(1.0);
    store.add("id1", "alice", "fact 1", &emb).unwrap();
    store.delete("id1").unwrap();
    assert_eq!(store.archive_count("alice").unwrap(), 1);

    store.reset("alice").unwrap();
    assert_eq!(store.archive_count("alice").unwrap(), 0);
}

#[test]
fn store_user_isolation() {
    let mut store = MemoryStore::open(":memory:").unwrap();
    let emb = fake_embedding(1.0);
    store.add("id1", "alice", "alice fact", &emb).unwrap();
    store.add("id2", "bob", "bob fact", &emb).unwrap();

    let alice = store.get_all("alice").unwrap();
    assert_eq!(alice.len(), 1);
    assert_eq!(alice[0].text, "alice fact");
}

#[test]
fn update_history_keeps_old_and_new_text() {
    let mut store = MemoryStore::open(":memory:").unwrap();
    let emb = fake_embedding(1.0);
    store.add("id1", "alice", "likes sushi", &emb).unwrap();
    store.update("id1", "loves sushi", &emb).unwrap();
    let hist = store.history("id1").unwrap();
    assert_eq!(hist[0].old_text, None);
    assert_eq!(hist[0].new_text.as_deref(), Some("likes sushi"));
    assert_eq!(hist[1].old_text.as_deref(), Some("likes sushi"));
    assert_eq!(hist[1].new_text.as_deref(), Some("loves sushi"));
    let archive = store.get_archive("alice").unwrap();
    assert_eq!(archive[0].superseded_by.as_deref(), Some("id1"));
}

#[test]
fn duplicate_id_is_refused_with_context() {
    let mut store = MemoryStore::open(":memory:").unwrap();
    let emb = fake_embedding(1.0);
    store.add("id1", "alice", "a", &emb).unwrap();
    let err = store.add("id1", "alice", "b", &emb).unwrap_err();
    assert_eq!(err.context.as_deref(), Some("Failed to insert memory"));
}

#[test]
fn candidates_carry_embeddings() {
    let mut store = MemoryStore::open(":memory:").unwrap();
    let emb = fake_embedding(2.0);
    store.add("id1", "alice", "likes sushi", &emb).unwrap();
    let c = store.search_candidates("alice").unwrap();
    assert_eq!(c.len(), 1);
    assert_eq!(c[0].embedding, emb);
    store.delete("id1").unwrap();
    let a = store.search_archive_candidates("alice").unwrap();
    assert_eq!(a.len(), 1);
    assert_eq!(a[0].text, "likes sushi");
    assert_eq!(a[0].embedding, emb);
}

#[test]
fn fts_search_matches_long_words() {
    let mut store = MemoryStore::open(":memory:").unwrap();
    let emb = fake_embedding(1.0);
    store.add("id1", "alice", "likes sushi", &emb).unwrap();
    store.add("id2", "alice", "works at google", &emb).unwrap();
    assert_eq!(store.fts_search("alice", "sushi at", 10).unwrap(), vec!["id1".to_string()]);
    assert!(store.fts_search("alice", "at a", 10).unwrap().is_empty());
}

#[test]
fn existing_pairs_and_compaction() {
    let mut store = MemoryStore::open(":memory:").unwrap();
    let emb = fake_embedding(1.0);
    store.add("id1", "alice", "one", &emb).unwrap();
    store.add("id2", "alice", "two", &emb).unwrap();
    let mut pairs = store.get_existing_for_dedup("alice").unwrap();
    pairs.sort();
    assert_eq!(pairs, vec![("id1".to_string(), "one".to_string()), ("id2".to_string(), "two".to_string())]);
    store.delete("id1").unwrap();
    store.delete("id2").unwrap();
    assert_eq!(store.archive_count("alice").unwrap(), 2);
    assert_eq!(store.compact_archive("alice", 1).unwrap(), 1);
    assert_eq!(store.archive_count("alice").unwrap(), 1);
}

type Rows = Vec<Result<Vec<SqlValue>, rusqlite::Error>>;

fn text(s: &str) -> SqlValue {
    SqlValue::Text(s.to_string())
}

#[test]
fn count_of_rows_reads_first_integer() {
    let rows: Rows = vec![Ok(vec![SqlValue::Int(3)])];
    assert_eq!(count_of_rows(&rows).unwrap(), 3);
    let none: Rows = vec![];
    let e = count_of_rows(&none).unwrap_err();
    assert!(e.context.is_none());
    assert_eq!(e.message, "Query returned no rows");
}

#[test]
fn first_record_of_takes_first_row() {
    let rows: Rows = vec![
        Ok(vec![text("id1"), text("alice"), text("likes sushi"), text("t0"), text("t1")]),
        Ok(vec![text("id2"), text("bob"), text("other"), text("t2"), text("t3")]),
    ];
    let r = first_record_of(&rows).unwrap();
    assert_eq!(r.id, "id1");
    assert_eq!(r.text, "likes sushi");
    assert_eq!(r.updated_at, "t1");
    let none: Rows = vec![];
    assert!(first_record_of(&none).is_none());
}

#[test]
fn optional_statements_never_fail_a_run() {
    let mut conn = Db::open(":memory:").unwrap();
    let statements = vec![Statement {
        sql: "INSERT INTO missing_table VALUES (1)".to_string(),
        params: vec![],
        context: None,
        must_succeed: false,
    }];
    assert!(run_statements(&mut conn, &statements).is_ok());
    let required = vec![Statement {
        sql: "INSERT INTO missing_table VALUES (1)".to_string(),
        params: vec![],
        context: Some("ctx".to_string()),
        must_succeed: true,
    }];
    assert_eq!(run_statements(&mut conn, &required).unwrap_err().context, Some("ctx".to_string()));
}

#[test]
fn read_row_with_no_columns_is_empty() {
    let conn = rusqlite::Connection::open(":memory:").unwrap();
    let v: Vec<SqlValue> = conn.query_row("SELECT 1", [], |row| read_row(row, &vec![])).unwrap();
    assert!(v.is_empty());
}

fn param_text(v: &SqlValue) -> Option<&str> {
    match v {
        SqlValue::Text(s) => Some(s.as_str()),
        _ => None,
    }
}

#[test]
fn queries_are_keyed_by_their_user() {
    let (sql, params) = select_embeddings_query("alice");
    assert_eq!(sql, SELECT_EMBEDDINGS_SQL);
    assert_eq!(params.len(), 1);
    assert_eq!(param_text(&params[0]), Some("alice"));
}

#[test]
fn fts_search_query_binds_user_terms_and_limit() {
    let (sql, params) = fts_search_query("alice", "where is tokyo", 5).unwrap().unwrap();
    assert_eq!(sql, FTS_SEARCH_SQL);
    assert_eq!(param_text(&params[0]), Some("alice"));
    assert_eq!(param_text(&params[1]), Some("where OR tokyo"));
    assert!(matches!(params[2], SqlValue::Int(5)));
    assert!(fts_search_query("alice", "a an", 5).unwrap().is_none());
    assert!(fts_search_query("alice", "tokyo", usize::MAX).is_err());
}

#[test]
fn compact_archive_query_binds_keep() {
    let (_, params) = compact_archive_query("bob", 3).unwrap();
    assert_eq!(param_text(&params[0]), Some("bob"));
    assert!(matches!(params[1], SqlValue::Int(3)));
    assert!(compact_archive_query("bob", usize::MAX).is_err());
}

#[test]
fn update_plan_archives_first() {
    let plan = update_plan("id1", "loves sushi", vec![1, 2], &Some("likes sushi".to_string()));
    assert_eq!(plan.len(), 5);
    assert_eq!(plan[0].sql, ARCHIVE_SUPERSEDED_SQL);
    assert_eq!(plan[1].sql, UPDATE_MEMORY_SQL);
    assert_eq!(param_text(&plan[2].params[1]), Some("likes sushi"));
    let del = delete_plan("id1", &None);
    assert_eq!(del.len(), 3);
    assert_eq!(del[0].sql, ARCHIVE_DELETED_SQL);
    assert!(matches!(del[2].params[1], SqlValue::Null));
}

fn candidate(id: &str) -> MemoryCandidate {
    MemoryCandidate { id: id.to_string(), user_id: "alice".to_string(), text: id.to_string(), embedding: vec![1] }
}

#[test]
fn prefilter_keeps_listed_or_all() {
    let cands = vec![candidate("a"), candidate("b"), candidate("c")];
    let kept = prefilter(cands, &vec!["c".to_string(), "a".to_string()]);
    let ids: Vec<&str> = kept.iter().map(|c| c.id.as_str()).collect();
    assert_eq!(ids, vec!["a", "c"]);
    let all = prefilter(vec![candidate("a"), candidate("b")], &vec![]);
    assert_eq!(all.len(), 2);
    let none = prefilter(vec![candidate("a")], &vec!["z".to_string()]);
    assert!(none.is_empty());
}
