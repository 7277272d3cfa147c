use rustmem::graph::{is_multi_value_relation, reset_statements, search_plan, search_query, search_words, GraphStore};

fn test_graph() -> GraphStore {
    GraphStore::open(":memory:").unwrap()
}

#[test]
fn add_and_get_relation() {
    let mut g = test_graph();
    g.add_relation("alice", "Alice", "works_at", "Google").unwrap();

    let rels = g.get_all("alice").unwrap();
    assert_eq!(rels.len(), 1);
    assert_eq!(rels[0].source, "Alice");
    assert_eq!(rels[0].relation, "works_at");
    assert_eq!(rels[0].destination, "Google");
}

#[test]
fn duplicate_increments_mentions() {
    let mut g = test_graph();
    g.add_relation("alice", "Alice", "likes", "sushi").unwrap();
    g.add_relation("alice", "Alice", "likes", "sushi").unwrap();

    let rels = g.get_all("alice").unwrap();
    assert_eq!(rels.len(), 1);
    assert_eq!(rels[0].mentions, 2);
}

#[test]
fn single_value_soft_deletes_old() {
    let mut g = test_graph();
    g.add_relation("alice", "Alice", "lives_in", "Tokyo").unwrap();
    g.add_relation("alice", "Alice", "lives_in", "London").unwrap();

    let rels = g.get_all("alice").unwrap(); // only valid=1
    assert_eq!(rels.len(), 1);
    assert_eq!(rels[0].destination, "London");
}

#[test]
fn multi_value_keeps_both() {
    let mut g = test_graph();
    g.add_relation("alice", "Alice", "likes", "sushi").unwrap();
    g.add_relation("alice", "Alice", "likes", "pizza").unwrap();

    let rels = g.get_all("alice").unwrap();
    assert_eq!(rels.len(), 2);
}

#[test]
fn search_finds_by_keyword() {
    let mut g = test_graph();
    g.add_relation("alice", "Alice", "works_at", "Google").unwrap();
    g.add_relation("alice", "Alice", "likes", "sushi").unwrap();

    let results = g.search("alice", "Google").unwrap();
    assert_eq!(results.len(), 1);
    assert_eq!(results[0].destination, "Google");
}

#[test]
fn reset_clears_all() {
    let mut g = test_graph();
    g.add_relation("alice", "Alice", "likes", "sushi").unwrap();
    g.reset("alice").unwrap();
    assert!(g.get_all("alice").unwrap().is_empty());
}

#[test]
fn multi_value_detection() {
    assert!(is_multi_value_relation("likes"));
    assert!(is_multi_value_relation("LOVES"));
    assert!(!is_multi_value_relation("lives_in"));
    assert!(!is_multi_value_relation("works_at"));
    assert!(!is_multi_value_relation("born_in"));
}

#[test]
fn user_isolation() {
    let mut g = test_graph();
    g.add_relation("alice", "Alice", "likes", "sushi").unwrap();
    g.add_relation("bob", "Bob", "likes", "pizza").unwrap();

    let alice_rels = g.get_all("alice").unwrap();
    assert_eq!(alice_rels.len(), 1);
    assert_eq!(alice_rels[0].source, "Alice");
}

#[test]
fn multi_value_detection_inside_longer_names() {
    assert!(is_multi_value_relation("is_friends_with"));
    assert!(is_multi_value_relation("Colleague_Of"));
    assert!(is_multi_value_relation("has_pet"));
    assert!(!is_multi_value_relation("married_to"));
    assert!(!is_multi_value_relation(""));
}

#[test]
fn single_value_conflict_is_per_source() {
    let mut g = test_graph();
    g.add_relation("alice", "Alice", "lives_in", "Tokyo").unwrap();
    g.add_relation("alice", "Bob", "lives_in", "London").unwrap();
    assert_eq!(g.get_all("alice").unwrap().len(), 2);
}

#[test]
fn readding_old_destination_revalidates_it() {
    let mut g = test_graph();
    g.add_relation("alice", "Alice", "lives_in", "Tokyo").unwrap();
    g.add_relation("alice", "Alice", "lives_in", "London").unwrap();
    g.add_relation("alice", "Alice", "lives_in", "Tokyo").unwrap();
    let rels = g.get_all("alice").unwrap();
    assert_eq!(rels.len(), 1);
    assert_eq!(rels[0].destination, "Tokyo");
    assert_eq!(rels[0].mentions, 2);
    assert!(rels[0].valid);
}

#[test]
fn search_words_lowercase_and_strip_punctuation() {
    let words: Vec<String> = search_words("Where does Alice work? 我 a, Google!")
        .iter()
        .map(|w| w.iter().collect())
        .collect();
    assert_eq!(words, vec!["where", "does", "alice", "work", "我", "google"]);
}

#[test]
fn search_with_no_word_returns_nothing() {
    let mut g = test_graph();
    g.add_relation("alice", "Alice", "likes", "sushi").unwrap();
    assert!(g.search("alice", "a ? !").unwrap().is_empty());
}

#[test]
fn search_statement_has_one_condition_per_word() {
    let words: Vec<Vec<char>> = vec!["tokyo".chars().collect(), "alice".chars().collect()];
    let (sql, params) = search_query("u1", &words, 7);
    assert!(sql.contains("(LOWER(source) LIKE ?2 OR LOWER(destination) LIKE ?2) OR (LOWER(source) LIKE ?3 OR LOWER(destination) LIKE ?3)"));
    assert!(sql.ends_with("LIMIT 7"));
    assert_eq!(params.len(), 3);
    assert_eq!(format!("{:?}", params[1]), "Text(\"%tokyo%\")");
}

#[test]
fn search_respects_limit_and_mentions_order() {
    let mut g = test_graph();
    g.add_relation("alice", "Alice", "likes", "sushi").unwrap();
    g.add_relation("alice", "Alice", "knows", "Bob").unwrap();
    g.add_relation("alice", "Alice", "knows", "Bob").unwrap();
    let rels = g.search_with_limit("alice", "alice", 1).unwrap();
    assert_eq!(rels.len(), 1);
    assert_eq!(rels[0].destination, "Bob");
}

#[test]
fn search_plan_is_search_query_of_the_words() {
    assert!(search_plan("alice", "a ? !", 20).is_none());
    let (sql, params) = search_plan("alice", "Where, Tokyo?", 7).unwrap();
    let ws = search_words("Where, Tokyo?");
    let (expected_sql, _) = search_query("alice", &ws, 7);
    assert_eq!(sql, expected_sql);
    assert!(sql.ends_with("LIMIT 7"));
    assert_eq!(params.len(), 3);
    assert_eq!(format!("{:?}", params[0]), "Text(\"alice\")");
    assert_eq!(format!("{:?}", params[2]), "Text(\"%tokyo%\")");
}

#[test]
fn reset_statements_clear_relations_then_entities() {
    let st = reset_statements("bob");
    assert_eq!(st.len(), 2);
    assert!(st[0].sql.contains("relations"));
    assert!(st[1].sql.contains("entities"));
    assert!(st.iter().all(|s| s.must_succeed && s.context.is_none()));
}
