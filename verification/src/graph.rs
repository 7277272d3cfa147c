//! The knowledge graph: relations between entities, per user, in SQLite, with
//! mention counts and soft deletion of relations that a newer one contradicts.

use vstd::prelude::*;

use crate::db::{
    added, execute_batch, extends, ok_rows, queries, ran, row_fits, run_statements, sql_error, ColumnKind,
    Db, DbCall, SqlValue, Statement, StoreError,
};
use crate::store::{first_call, one_call, read_by, read_ok, read_rows, rows_read, optional, required, rows_fit, text_param, text_of};
use crate::text::{
    chars_of, contains, contains_seq, decimal, decimal_string, join, join_seq, push_all, remove_chars,
    spec_to_lowercase, split_words, string_from_chars, to_lowercase, utf8_len, utf8_len_exceeds,
    without_chars, words,
};

verus! {

/// A relation of the graph: `source --relation--> destination`, how often it
/// was mentioned, and whether it still holds.
#[derive(Debug, Clone)]
pub struct Relation {
    pub source: String,
    pub relation: String,
    pub destination: String,
    pub mentions: i64,
    pub valid: bool,
}

impl View for Relation {
    type V = (Seq<char>, Seq<char>, Seq<char>, i64, bool);

    open spec fn view(&self) -> Self::V {
        (self.source@, self.relation@, self.destination@, self.mentions, self.valid)
    }
}

// ── Single-valued and multi-valued relations ──────────────────────────

/// The words that make a relation multi-valued: a subject may like many
/// things, but lives in one place.
pub open spec fn multi_value_words() -> Seq<Seq<char>> {
    seq![
        "likes"@, "loves"@, "enjoys"@, "prefers"@, "uses"@, "knows"@, "speaks"@, "has"@, "owns"@,
        "plays"@, "watches"@, "reads"@, "friends_with"@, "colleague_of"@,
    ]
}

/// A (lower-cased) relation name is multi-valued when it contains one of the words.
pub open spec fn names_multi_value(lower: Seq<char>) -> bool {
    exists|k: int| 0 <= k < multi_value_words().len() && contains_seq(lower, #[trigger] multi_value_words()[k])
}

/// Whether a relation is multi-valued: its lower-cased name contains one of the words.
pub open spec fn is_multi_value(relation: Seq<char>) -> bool {
    names_multi_value(spec_to_lowercase(relation))
}

/// A relation whose lower-cased name contains likes, loves, enjoys, prefers,
/// uses, knows, speaks, has, owns, plays, watches, reads, friends_with or
/// colleague_of is multi-valued: adding it counts the two entities and
/// inserts (or counts again) the relation, and invalidates no other relation.
pub proof fn lemma_multi_value_words(sts: Seq<Statement>, user_id: Seq<char>, source: Seq<char>, relation: Seq<char>, destination: Seq<char>)
    requires
        ({
            let l = spec_to_lowercase(relation);
            ||| contains_seq(l, "likes"@)
            ||| contains_seq(l, "loves"@)
            ||| contains_seq(l, "enjoys"@)
            ||| contains_seq(l, "prefers"@)
            ||| contains_seq(l, "uses"@)
            ||| contains_seq(l, "knows"@)
            ||| contains_seq(l, "speaks"@)
            ||| contains_seq(l, "has"@)
            ||| contains_seq(l, "owns"@)
            ||| contains_seq(l, "plays"@)
            ||| contains_seq(l, "watches"@)
            ||| contains_seq(l, "reads"@)
            ||| contains_seq(l, "friends_with"@)
            ||| contains_seq(l, "colleague_of"@)
        }),
        add_relation_statements_are(sts, user_id, source, relation, destination),
    ensures
        is_multi_value(relation),
        sts.len() == 3,
        sts[0].sql@ == UPSERT_ENTITY_SQL@,
        sts[1].sql@ == UPSERT_ENTITY_SQL@,
        sts[2].sql@ == UPSERT_RELATION_SQL@,
{
    let l = spec_to_lowercase(relation);
    let w = multi_value_words();
    assert(w[0] == "likes"@ && w[1] == "loves"@ && w[2] == "enjoys"@ && w[3] == "prefers"@ && w[4] == "uses"@);
    assert(w[5] == "knows"@ && w[6] == "speaks"@ && w[7] == "has"@ && w[8] == "owns"@ && w[9] == "plays"@);
    assert(w[10] == "watches"@ && w[11] == "reads"@ && w[12] == "friends_with"@ && w[13] == "colleague_of"@);
    if contains_seq(l, "likes"@) { assert(contains_seq(l, w[0])); }
    else if contains_seq(l, "loves"@) { assert(contains_seq(l, w[1])); }
    else if contains_seq(l, "enjoys"@) { assert(contains_seq(l, w[2])); }
    else if contains_seq(l, "prefers"@) { assert(contains_seq(l, w[3])); }
    else if contains_seq(l, "uses"@) { assert(contains_seq(l, w[4])); }
    else if contains_seq(l, "knows"@) { assert(contains_seq(l, w[5])); }
    else if contains_seq(l, "speaks"@) { assert(contains_seq(l, w[6])); }
    else if contains_seq(l, "has"@) { assert(contains_seq(l, w[7])); }
    else if contains_seq(l, "owns"@) { assert(contains_seq(l, w[8])); }
    else if contains_seq(l, "plays"@) { assert(contains_seq(l, w[9])); }
    else if contains_seq(l, "watches"@) { assert(contains_seq(l, w[10])); }
    else if contains_seq(l, "reads"@) { assert(contains_seq(l, w[11])); }
    else if contains_seq(l, "friends_with"@) { assert(contains_seq(l, w[12])); }
    else { assert(contains_seq(l, w[13])); }
}

/// The words that make a relation multi-valued.
pub fn multi_value_keywords() -> (r: Vec<Vec<char>>)
    ensures
        r@.map_values(|w: Vec<char>| w@) == multi_value_words(),
{
    let r = vec![
        chars_of("likes"), chars_of("loves"), chars_of("enjoys"), chars_of("prefers"), chars_of("uses"),
        chars_of("knows"), chars_of("speaks"), chars_of("has"), chars_of("owns"), chars_of("plays"),
        chars_of("watches"), chars_of("reads"), chars_of("friends_with"), chars_of("colleague_of"),
    ];
    assert(r@.map_values(|w: Vec<char>| w@) =~= multi_value_words());
    r
}

/// Whether a lower-cased relation name contains one of the multi-value words.
pub fn has_multi_value_keyword(lower: &str) -> (b: bool)
    ensures
        b == names_multi_value(lower@),
{
    let l = chars_of(lower);
    let keywords = multi_value_keywords();
    for k in 0..keywords.len()
        invariant
            keywords@.map_values(|w: Vec<char>| w@) == multi_value_words(),
            forall|j: int| 0 <= j < k ==> !contains_seq(lower@, #[trigger] multi_value_words()[j]),
            l@ == lower@,
    {
        assert(keywords@[k as int]@ == multi_value_words()[k as int]);
        if contains(&l, &keywords[k]) {
            return true;
        }
    }
    false
}

/// Whether a relation is multi-valued ("likes", "knows", ...) rather than
/// single-valued ("lives_in", "works_at", ...).
pub fn is_multi_value_relation(relation: &str) -> (b: bool)
    ensures
        b == is_multi_value(relation@),
{
    let lower = to_lowercase(relation);
    has_multi_value_keyword(lower.as_str())
}

// ── Statements ────────────────────────────────────────────────────────

pub const GRAPH_SCHEMA_SQL: &'static str = "CREATE TABLE IF NOT EXISTS entities (
                 id INTEGER PRIMARY KEY AUTOINCREMENT,
                 user_id TEXT NOT NULL,
                 name TEXT NOT NULL,
                 entity_type TEXT DEFAULT '',
                 mentions INTEGER DEFAULT 1,
                 created_at TEXT DEFAULT (datetime('now')),
                 UNIQUE(user_id, name)
             );

             CREATE TABLE IF NOT EXISTS relations (
                 id INTEGER PRIMARY KEY AUTOINCREMENT,
                 user_id TEXT NOT NULL,
                 source TEXT NOT NULL,
                 relation TEXT NOT NULL,
                 destination TEXT NOT NULL,
                 mentions INTEGER DEFAULT 1,
                 valid INTEGER DEFAULT 1,
                 created_at TEXT DEFAULT (datetime('now')),
                 updated_at TEXT DEFAULT (datetime('now')),
                 invalidated_at TEXT,
                 UNIQUE(user_id, source, relation, destination)
             );

             CREATE INDEX IF NOT EXISTS idx_entities_user ON entities(user_id);
             CREATE INDEX IF NOT EXISTS idx_relations_user ON relations(user_id);
             CREATE INDEX IF NOT EXISTS idx_relations_source ON relations(user_id, source);
             CREATE INDEX IF NOT EXISTS idx_relations_dest ON relations(user_id, destination);";

pub const UPSERT_ENTITY_SQL: &'static str = "INSERT INTO entities (user_id, name) VALUES (?1, ?2)
             ON CONFLICT(user_id, name) DO UPDATE SET mentions = mentions + 1";

pub const SOFT_DELETE_SQL: &'static str = "UPDATE relations SET valid = 0, invalidated_at = datetime('now')
                 WHERE user_id = ?1 AND source = ?2 AND relation = ?3
                 AND destination != ?4 AND valid = 1";

pub const UPSERT_RELATION_SQL: &'static str = "INSERT INTO relations (user_id, source, relation, destination)
             VALUES (?1, ?2, ?3, ?4)
             ON CONFLICT(user_id, source, relation, destination)
             DO UPDATE SET mentions = mentions + 1, valid = 1,
                          updated_at = datetime('now'), invalidated_at = NULL";

pub const SELECT_RELATIONS_SQL: &'static str = "SELECT source, relation, destination, mentions, valid
             FROM relations WHERE user_id = ?1 AND valid = 1
             ORDER BY updated_at DESC";

pub const RESET_RELATIONS_SQL: &'static str = "DELETE FROM relations WHERE user_id = ?1";

pub const RESET_ENTITIES_SQL: &'static str = "DELETE FROM entities WHERE user_id = ?1";

/// Four parameters: user, source, relation, destination.
pub open spec fn quad_params(p: Seq<SqlValue>, user_id: Seq<char>, source: Seq<char>, relation: Seq<char>, destination: Seq<char>) -> bool {
    p.len() == 4 && p[0].text() == Some(user_id) && p[1].text() == Some(source) && p[2].text() == Some(relation)
        && p[3].text() == Some(destination)
}

/// The statements that add a relation (see `add_relation_statements`).
pub open spec fn add_relation_statements_are(sts: Seq<Statement>, user_id: Seq<char>, source: Seq<char>, relation: Seq<char>, destination: Seq<char>) -> bool {
    &&& (sts.len() == if is_multi_value(relation) { 3int } else { 4int })
    &&& (forall|i: int| 0 <= i < sts.len() ==> #[trigger] sts[i].must_succeed && sts[i].context is None)
    &&& (sts[0].sql@ == UPSERT_ENTITY_SQL@ && sts[0].params@.len() == 2 && sts[0].params@[0].text() == Some(user_id) && sts[0].params@[1].text() == Some(source))
    &&& (sts[1].sql@ == UPSERT_ENTITY_SQL@ && sts[1].params@.len() == 2 && sts[1].params@[0].text() == Some(user_id) && sts[1].params@[1].text() == Some(destination))
    &&& (!is_multi_value(relation) ==> sts[2].sql@ == SOFT_DELETE_SQL@ && quad_params(sts[2].params@, user_id, source, relation, destination))
    &&& (sts.last().sql@ == UPSERT_RELATION_SQL@ && quad_params(sts.last().params@, user_id, source, relation, destination))
}

/// The statements that add a relation: count a mention of the source and of
/// the destination entities; for a single-valued relation, invalidate the
/// user's valid relations with the same source and name but another
/// destination; then insert the relation, or count one more mention of it and
/// make it valid again.
pub fn add_relation_statements(user_id: &str, source: &str, relation: &str, destination: &str) -> (r: Vec<Statement>)
    ensures
        add_relation_statements_are(r@, user_id@, source@, relation@, destination@),
{
    let mut out: Vec<Statement> = Vec::new();
    out.push(required(UPSERT_ENTITY_SQL, vec![text_param(user_id), text_param(source)], None));
    out.push(required(UPSERT_ENTITY_SQL, vec![text_param(user_id), text_param(destination)], None));
    if !is_multi_value_relation(relation) {
        out.push(required(
            SOFT_DELETE_SQL,
            vec![text_param(user_id), text_param(source), text_param(relation), text_param(destination)],
            None,
        ));
    }
    out.push(required(
        UPSERT_RELATION_SQL,
        vec![text_param(user_id), text_param(source), text_param(relation), text_param(destination)],
        None,
    ));
    out
}

// ── Keyword search ────────────────────────────────────────────────────

/// The punctuation removed from search words.
pub open spec fn punctuation() -> Seq<char> {
    seq!['，', '。', '？', '！', ',', '.', '?', '!']
}

/// A search word: lower-cased, without punctuation.
pub open spec fn search_word(w: Seq<char>) -> Seq<char> {
    without_chars(spec_to_lowercase(w), punctuation())
}

/// The search words of word list `ws`: each made a search word, kept when
/// longer than one byte.
pub open spec fn search_words_of(ws: Seq<Seq<char>>) -> Seq<Seq<char>>
    decreases ws.len(),
{
    if ws.len() == 0 {
        seq![]
    } else {
        let prev = search_words_of(ws.drop_last());
        let w = search_word(ws.last());
        if utf8_len(w) > 1 { prev.push(w) } else { prev }
    }
}

/// The search words of a query.
pub open spec fn query_words(query: Seq<char>) -> Seq<Seq<char>> {
    search_words_of(words(query))
}

/// `without_chars` keeps none of the characters it removes.
proof fn lemma_without_chars_excludes(s: Seq<char>, set: Seq<char>)
    ensures
        forall|j: int| 0 <= j < without_chars(s, set).len() ==> !set.contains(#[trigger] without_chars(s, set)[j]),
    decreases s.len(),
{
    if s.len() > 0 {
        lemma_without_chars_excludes(s.drop_last(), set);
        let prev = without_chars(s.drop_last(), set);
        if !set.contains(s.last()) {
            assert forall|j: int| 0 <= j < prev.push(s.last()).len() implies !set.contains(#[trigger] prev.push(s.last())[j]) by {
                if j < prev.len() {
                    assert(prev.push(s.last())[j] == prev[j]);
                }
            }
        }
    }
}

/// No search word of a word list holds punctuation.
proof fn lemma_search_words_of_unpunctuated(ws: Seq<Seq<char>>)
    ensures
        forall|k: int, j: int| 0 <= k < search_words_of(ws).len() && 0 <= j < search_words_of(ws)[k].len()
            ==> !punctuation().contains(#[trigger] search_words_of(ws)[k][j]),
        forall|k: int| 0 <= k < search_words_of(ws).len() ==> utf8_len(#[trigger] search_words_of(ws)[k]) > 1,
    decreases ws.len(),
{
    if ws.len() > 0 {
        lemma_search_words_of_unpunctuated(ws.drop_last());
        let w = search_word(ws.last());
        lemma_without_chars_excludes(spec_to_lowercase(ws.last()), punctuation());
        let prev = search_words_of(ws.drop_last());
        if utf8_len(w) > 1 {
            assert forall|k: int, j: int| 0 <= k < prev.push(w).len() && 0 <= j < prev.push(w)[k].len()
                implies !punctuation().contains(#[trigger] prev.push(w)[k][j]) by {
                if k < prev.len() {
                    assert(prev.push(w)[k] == prev[k]);
                } else {
                    assert(prev.push(w)[k] == w);
                }
            }
            assert forall|k: int| 0 <= k < prev.push(w).len() implies utf8_len(#[trigger] prev.push(w)[k]) > 1 by {
                if k < prev.len() {
                    assert(prev.push(w)[k] == prev[k]);
                }
            }
        }
    }
}

/// No search word of a query holds any of the characters ，。？！,.?! : they
/// are stripped from every word before it is searched for; and every search
/// word is longer than one byte.
pub proof fn lemma_search_words_unpunctuated(query: Seq<char>)
    ensures
        forall|k: int| 0 <= k < query_words(query).len() ==> utf8_len(#[trigger] query_words(query)[k]) > 1,
        forall|k: int, j: int| 0 <= k < query_words(query).len() && 0 <= j < query_words(query)[k].len() ==> {
            let c = #[trigger] query_words(query)[k][j];
            &&& c != '，' && c != '。' && c != '？' && c != '！'
            &&& c != ',' && c != '.' && c != '?' && c != '!'
        },
{
    lemma_search_words_of_unpunctuated(words(query));
    let p = punctuation();
    assert(p[0] == '，' && p[1] == '。' && p[2] == '？' && p[3] == '！');
    assert(p[4] == ',' && p[5] == '.' && p[6] == '?' && p[7] == '!');
    assert(p.contains('，') && p.contains('。') && p.contains('？') && p.contains('！'));
    assert(p.contains(',') && p.contains('.') && p.contains('?') && p.contains('!'));
}

/// The search words of a query.
pub fn search_words(query_text: &str) -> (r: Vec<Vec<char>>)
    ensures
        r@.map_values(|w: Vec<char>| w@) == query_words(query_text@),
{
    let ws = split_words(&chars_of(query_text));
    let ghost all = words(query_text@);
    let punct: Vec<char> = vec!['，', '。', '？', '！', ',', '.', '?', '!'];
    assert(punct@ =~= punctuation());
    let mut out: Vec<Vec<char>> = Vec::new();
    for i in 0..ws.len()
        invariant
            all == words(query_text@),
            punct@ == punctuation(),
            ws@.len() == all.len(),
            forall|k: int| 0 <= k < ws@.len() ==> #[trigger] ws@[k]@ == all[k],
            out@.map_values(|w: Vec<char>| w@) == search_words_of(all.take(i as int)),
    {
        assert(all.take(i + 1).drop_last() == all.take(i as int));
        assert(all.take(i + 1).last() == ws@[i as int]@);
        let word = string_from_chars(&ws[i]);
        let lower = to_lowercase(word.as_str());
        let cleaned = remove_chars(&chars_of(lower.as_str()), &punct);
        if utf8_len_exceeds(&cleaned, 1) {
            out.push(cleaned);
            assert(out@.map_values(|w: Vec<char>| w@) == out@.drop_last().map_values(|w: Vec<char>| w@).push(out@.last()@));
        }
    }
    assert(all.take(ws.len() as int) == all);
    out
}

/// The start of the search statement, up to the conditions.
pub const SEARCH_HEAD_SQL: &'static str = "SELECT source, relation, destination, mentions, valid\n             FROM relations\n             WHERE user_id = ?1 AND valid = 1 AND (";

/// The end of the search statement after the conditions, up to the limit.
pub const SEARCH_TAIL_SQL: &'static str = ")\n             ORDER BY mentions DESC\n             LIMIT ";

/// The condition for the word bound to parameter `n`: source or destination contains it.
pub open spec fn like_condition(n: nat) -> Seq<char> {
    "(LOWER(source) LIKE ?"@ + decimal(n) + " OR LOWER(destination) LIKE ?"@ + decimal(n) + ")"@
}

/// The search statement for `count` words: any word in the source or the
/// destination of a valid relation of the user, most mentioned first, at most `limit`.
pub open spec fn search_sql(count: nat, limit: nat) -> Seq<char> {
    SEARCH_HEAD_SQL@ + join_seq(Seq::new(count, |k: int| like_condition((k + 2) as nat)), " OR "@) + SEARCH_TAIL_SQL@
        + decimal(limit)
}

/// The parameter for a search word: the word between `%` wildcards.
pub open spec fn like_pattern(w: Seq<char>) -> Seq<char> {
    seq!['%'] + w + seq!['%']
}

/// The search statement and its parameters: the user, then a pattern per word.
pub fn search_query(user_id: &str, words_list: &Vec<Vec<char>>, limit: usize) -> (r: (String, Vec<SqlValue>))
    ensures
        r.0@ == search_sql(words_list@.len(), limit as nat),
        r.1@.len() == words_list@.len() + 1,
        r.1@[0].text() == Some(user_id@),
        forall|k: int| 0 <= k < words_list@.len() ==> #[trigger] r.1@[k + 1].text() == Some(like_pattern(words_list@[k]@)),
{
    let ghost conds = Seq::new(words_list@.len(), |k: int| like_condition((k + 2) as nat));
    let mut conditions: Vec<Vec<char>> = Vec::new();
    let mut params: Vec<SqlValue> = vec![text_param(user_id)];
    for k in 0..words_list.len()
        invariant
            conds == Seq::new(words_list@.len(), |k: int| like_condition((k + 2) as nat)),
            conditions@.map_values(|c: Vec<char>| c@) == conds.take(k as int),
            params@.len() == k + 1,
            params@[0].text() == Some(user_id@),
            forall|j: int| 0 <= j < k ==> #[trigger] params@[j + 1].text() == Some(like_pattern(words_list@[j]@)),
    {
        let n = decimal_string(k as u128 + 2);
        let nc = chars_of(n.as_str());
        let mut cond = chars_of("(LOWER(source) LIKE ?");
        push_all(&mut cond, &nc);
        push_all(&mut cond, &chars_of(" OR LOWER(destination) LIKE ?"));
        push_all(&mut cond, &nc);
        push_all(&mut cond, &chars_of(")"));
        assert(cond@ == like_condition((k + 2) as nat));
        conditions.push(cond);
        assert(conds.take(k + 1) == conds.take(k as int).push(conds[k as int]));
        assert(conditions@.map_values(|c: Vec<char>| c@) == conditions@.drop_last().map_values(|c: Vec<char>| c@).push(conditions@.last()@));
        let mut pattern: Vec<char> = vec!['%'];
        push_all(&mut pattern, &words_list[k]);
        pattern.push('%');
        assert(pattern@ == like_pattern(words_list@[k as int]@));
        params.push(SqlValue::Text(string_from_chars(&pattern)));
    }
    assert(conds.take(words_list.len() as int) == conds);
    let mut sql = chars_of(SEARCH_HEAD_SQL);
    push_all(&mut sql, &join(&conditions, &chars_of(" OR ")));
    push_all(&mut sql, &chars_of(SEARCH_TAIL_SQL));
    let lim = decimal_string(limit as u128);
    push_all(&mut sql, &chars_of(lim.as_str()));
    (string_from_chars(&sql), params)
}


// ── The graph store ───────────────────────────────────────────────────

/// The columns of a relation row.
pub open spec fn relation_kinds() -> Seq<ColumnKind> {
    seq![ColumnKind::Text, ColumnKind::Text, ColumnKind::Text, ColumnKind::Int, ColumnKind::Int32]
}

/// The columns of a relation row.
pub fn relation_columns() -> (r: Vec<ColumnKind>)
    ensures
        r@ == relation_kinds(),
{
    let r = vec![ColumnKind::Text, ColumnKind::Text, ColumnKind::Text, ColumnKind::Int, ColumnKind::Int32];
    assert(r@ =~= relation_kinds());
    r
}

/// The relation a row `source, relation, destination, mentions, valid`
/// describes; it is valid when the flag is 1.
pub open spec fn relation_of_row(row: Seq<SqlValue>) -> (Seq<char>, Seq<char>, Seq<char>, i64, bool) {
    (row[0].text()->0, row[1].text()->0, row[2].text()->0, row[3].integer()->0, row[4].integer()->0 == 1)
}

/// A relation read from a row of `SELECT_RELATIONS_SQL` (columns source,
/// relation, destination, mentions, valid) takes each field from its column,
/// in that order; it is valid when the last column is 1.
pub proof fn lemma_relation_columns(row: Seq<SqlValue>)
    ensures
        SELECT_RELATIONS_SQL@ == "SELECT source, relation, destination, mentions, valid
             FROM relations WHERE user_id = ?1 AND valid = 1
             ORDER BY updated_at DESC"@,
        relation_of_row(row).0 == row[0].text()->0,
        relation_of_row(row).1 == row[1].text()->0,
        relation_of_row(row).2 == row[2].text()->0,
        relation_of_row(row).3 == row[3].integer()->0,
        relation_of_row(row).4 == (row[4].integer()->0 == 1),
{
}

/// The relation a row describes.
pub fn relation_from_row(row: &Vec<SqlValue>) -> (r: Relation)
    requires
        row_fits(row@, relation_kinds()),
    ensures
        r@ == relation_of_row(row@),
{
    assert(crate::db::fits(row@[0], relation_kinds()[0]));
    assert(crate::db::fits(row@[1], relation_kinds()[1]));
    assert(crate::db::fits(row@[2], relation_kinds()[2]));
    assert(crate::db::fits(row@[3], relation_kinds()[3]));
    assert(crate::db::fits(row@[4], relation_kinds()[4]));
    let mentions = match &row[3] {
        SqlValue::Int(n) => *n,
        _ => 0,
    };
    let valid = match &row[4] {
        SqlValue::Int(n) => *n == 1,
        _ => false,
    };
    Relation {
        source: text_of(&row[0]),
        relation: text_of(&row[1]),
        destination: text_of(&row[2]),
        mentions,
        valid,
    }
}

/// The relations the rows that were read describe, in order.
pub fn relations_from_rows(rows: &Vec<Result<Vec<SqlValue>, rusqlite::Error>>) -> (r: Vec<Relation>)
    requires
        rows_fit(rows@, relation_kinds()),
    ensures
        r@.map_values(|m: Relation| m@) == ok_rows(rows@).map_values(|v: Seq<SqlValue>| relation_of_row(v)),
{
    crate::store::map_ok_rows(rows, Ghost(relation_kinds()), Ghost(|x: Seq<SqlValue>| relation_of_row(x)), relation_from_row)
}

/// The search statement for a query and a limit, or none when the query has
/// no search word: `search_query` of the user, the query's search words and
/// the limit.
pub fn search_plan(user_id: &str, query_text: &str, limit: usize) -> (r: Option<(String, Vec<SqlValue>)>)
    ensures
        r is None <==> query_words(query_text@).len() == 0,
        r matches Some(q) ==> {
            let ws = query_words(query_text@);
            &&& q.0@ == search_sql(ws.len(), limit as nat)
            &&& q.1@.len() == ws.len() + 1
            &&& q.1@[0].text() == Some(user_id@)
            &&& forall|k: int| 0 <= k < ws.len() ==> #[trigger] q.1@[k + 1].text() == Some(like_pattern(ws[k]))
        },
{
    let ws = search_words(query_text);
    if ws.len() == 0 {
        return None;
    }
    let q = search_query(user_id, &ws, limit);
    proof {
        let qw = query_words(query_text@);
        assert forall|k: int| 0 <= k < qw.len() implies #[trigger] q.1@[k + 1].text() == Some(like_pattern(qw[k])) by {
            assert(ws@.map_values(|w: Vec<char>| w@)[k] == ws@[k]@);
            assert(q.1@[k + 1].text() == Some(like_pattern(ws@[k]@)));
        }
    }
    Some(q)
}

/// The query for a user's valid relations.
pub fn select_relations_query(user_id: &str) -> (r: (String, Vec<SqlValue>))
    ensures
        crate::store::is_query(r, SELECT_RELATIONS_SQL@, seq![Some(user_id@)]),
{
    let params: Vec<SqlValue> = vec![text_param(user_id)];
    (SELECT_RELATIONS_SQL.to_owned(), params)
}

/// The statements that delete a user's graph (see `reset_statements`).
pub open spec fn reset_statements_are(sts: Seq<Statement>, user_id: Seq<char>) -> bool {
    &&& (sts.len() == 2)
    &&& (sts[0].sql@ == RESET_RELATIONS_SQL@ && sts[0].must_succeed && sts[0].context is None)
    &&& (sts[0].params@.len() == 1 && sts[0].params@[0].text() == Some(user_id))
    &&& (sts[1].sql@ == RESET_ENTITIES_SQL@ && sts[1].must_succeed && sts[1].context is None)
    &&& (sts[1].params@.len() == 1 && sts[1].params@[0].text() == Some(user_id))
}

/// The statements that delete a user's graph: its relations, then its
/// entities; a failure of either stops the reset.
pub fn reset_statements(user_id: &str) -> (r: Vec<Statement>)
    ensures
        reset_statements_are(r@, user_id@),
{
    let mut out: Vec<Statement> = Vec::new();
    out.push(required(RESET_RELATIONS_SQL, vec![text_param(user_id)], None));
    out.push(required(RESET_ENTITIES_SQL, vec![text_param(user_id)], None));
    out
}

/// The search a query makes: `search_sql` of the query's search words and
/// the limit, with the user and then a `%word%` pattern per word.
pub open spec fn searches(c: DbCall, user_id: Seq<char>, query_text: Seq<char>, limit: usize) -> bool {
    let ws = query_words(query_text);
    &&& c matches DbCall::Query { sql, params, .. }
    &&& sql == search_sql(ws.len(), limit as nat)
    &&& params.len() == ws.len() + 1
    &&& params[0].text() == Some(user_id)
    &&& forall|k: int| 0 <= k < ws.len() ==> #[trigger] params[k + 1].text() == Some(like_pattern(ws[k]))
}

/// The graph store (a lightweight alternative to a graph database): entities
/// and relations per user, with soft deletion.
pub struct GraphStore {
    db: Db,
}

impl GraphStore {
    /// The calls made on the graph's database, oldest first.
    pub closed spec fn calls(&self) -> Seq<DbCall> {
        self.db.calls()
    }

    /// Opens the graph at `path` (the tables live beside the memory store's)
    /// and creates its tables: an opened graph has run the schema batch
    /// successfully.
    pub fn open(path: &str) -> (r: Result<GraphStore, StoreError>)
        ensures
            r matches Ok(g) ==> g.calls() == seq![DbCall::Batch { sql: GRAPH_SCHEMA_SQL@, ok: true }],
            r matches Err(e) ==> (e.context is None || (e.context matches Some(c) && c@ == "Failed to open graph DB"@)),
    {
        let mut db = match Db::open(path) {
            Ok(db) => db,
            Err(e) => return Err(sql_error(&e, &Some("Failed to open graph DB".to_owned()))),
        };
        if let Err(e) = execute_batch(&mut db, GRAPH_SCHEMA_SQL) {
            return Err(sql_error(&e, &None));
        }
        Ok(GraphStore { db })
    }

    /// Adds a relation, or counts one more mention of it; a single-valued
    /// relation invalidates the ones it contradicts: runs
    /// `add_relation_statements` of the arguments.
    pub fn add_relation(&mut self, user_id: &str, source: &str, relation: &str, destination: &str) -> (r: Result<(), StoreError>)
        ensures
            extends(old(self).calls(), final(self).calls()),
            exists|sts: Seq<Statement>| add_relation_statements_are(sts, user_id@, source@, relation@, destination@)
                && #[trigger] ran(sts, added(old(self).calls(), final(self).calls()), r),
            r matches Err(e) ==> e.context is None,
    {
        let statements = add_relation_statements(user_id, source, relation, destination);
        let r = run_statements(&mut self.db, &statements);
        assert(ran(statements@, added(old(self).calls(), self.calls()), r));
        r
    }

    /// The valid relations whose source or destination contains a word of the
    /// query, most mentioned first, at most 20 (`search_with_limit`).
    pub fn search(&mut self, user_id: &str, query_text: &str) -> (r: Result<Vec<Relation>, StoreError>)
        ensures
            searched(old(self).calls(), final(self).calls(), user_id@, query_text@, 20, r),
    {
        self.search_with_limit(user_id, query_text, 20)
    }

    /// The valid relations whose source or destination contains a word of the
    /// query (lower-cased, without punctuation, longer than one byte), most
    /// mentioned first, at most `limit`: the query of `search_plan`, and the
    /// relations of the rows read; none, without asking the database, when
    /// the query has no such word.
    pub fn search_with_limit(&mut self, user_id: &str, query_text: &str, limit: usize) -> (r: Result<Vec<Relation>, StoreError>)
        ensures
            searched(old(self).calls(), final(self).calls(), user_id@, query_text@, limit, r),
    {
        let q = match search_plan(user_id, query_text, limit) {
            Some(q) => q,
            None => return Ok(Vec::new()),
        };
        let kinds = relation_columns();
        match read_rows(&mut self.db, &q, &kinds) {
            Ok(rows) => Ok(relations_from_rows(&rows)),
            Err(e) => Err(sql_error(&e, &None)),
        }
    }

    /// The valid relations of a user (`select_relations_query`), most recently
    /// updated first: those of the rows read.
    pub fn get_all(&mut self, user_id: &str) -> (r: Result<Vec<Relation>, StoreError>)
        ensures
            read_by(old(self).calls(), final(self).calls(), SELECT_RELATIONS_SQL@, user_id@),
            r is Ok <==> read_ok(old(self).calls(), final(self).calls()),
            r matches Ok(v) ==> v@.map_values(|m: Relation| m@)
                == ok_rows(rows_read(old(self).calls(), final(self).calls())).map_values(|x: Seq<SqlValue>| relation_of_row(x)),
            r matches Err(e) ==> e.context is None,
    {
        let q = select_relations_query(user_id);
        let kinds = relation_columns();
        match read_rows(&mut self.db, &q, &kinds) {
            Ok(rows) => Ok(relations_from_rows(&rows)),
            Err(e) => Err(sql_error(&e, &None)),
        }
    }

    /// Deletes the relations and entities of a user: runs `reset_statements`.
    pub fn reset(&mut self, user_id: &str) -> (r: Result<(), StoreError>)
        ensures
            extends(old(self).calls(), final(self).calls()),
            exists|sts: Seq<Statement>| reset_statements_are(sts, user_id@)
                && #[trigger] ran(sts, added(old(self).calls(), final(self).calls()), r),
            r matches Err(e) ==> e.context is None,
    {
        let statements = reset_statements(user_id);
        let r = run_statements(&mut self.db, &statements);
        assert(ran(statements@, added(old(self).calls(), self.calls()), r));
        r
    }
}

/// What a keyword search of the graph did and gave: with no search word, no
/// call and no relation; else one query (`searches`), an error without
/// context when it failed, and the relations of the rows read when it succeeded.
pub open spec fn searched(before: Seq<DbCall>, after: Seq<DbCall>, user_id: Seq<char>, query_text: Seq<char>, limit: usize, r: Result<Vec<Relation>, StoreError>) -> bool {
    if query_words(query_text).len() == 0 {
        &&& after == before
        &&& r matches Ok(v) && v@.len() == 0
    } else {
        &&& one_call(before, after)
        &&& searches(first_call(before, after), user_id, query_text, limit)
        &&& (r is Ok <==> read_ok(before, after))
        &&& (r matches Ok(v) ==> v@.map_values(|m: Relation| m@)
            == ok_rows(rows_read(before, after)).map_values(|x: Seq<SqlValue>| relation_of_row(x)))
        &&& (r matches Err(e) ==> e.context is None)
    }
}

} // verus!
