use rustmem::api::{default_limit, reset_message, reset_tool_message};
use rustmem::config::{apply_openai_key, default_bind, default_port, resolve_path, AppConfig, ServerConfig};
use rustmem::extract::{DeduplicatedFact, FactAction};
use rustmem::graph::Relation;
use rustmem::memory::{dedup_positions, gather_similar, graph_hit_id, graph_hit_text, number_for_llm, plan_actions, resolve_id, add_result};

fn pair(a: &str, b: &str) -> (String, String) {
    (a.to_string(), b.to_string())
}

#[test]
fn defaults_and_listen_addr() {
    let cfg = AppConfig::default();
    assert_eq!(cfg.server.port, 8019);
    assert_eq!(cfg.server.bind, "127.0.0.1");
    assert_eq!(cfg.server.listen_addr(), "127.0.0.1:8019");
    assert_eq!(cfg.llm.provider, "openai");
    assert_eq!(cfg.embedding.model, "nomic-embed-text");
    assert_eq!(cfg.embedding.dimensions, 768);
    assert_eq!(cfg.store.db_path, "rustmem.db");
    assert_eq!(default_port(), 8019);
    assert_eq!(default_bind(), "127.0.0.1");
    let s = ServerConfig { port: 80, bind: "0.0.0.0".to_string() };
    assert_eq!(s.listen_addr(), "0.0.0.0:80");
}

#[test]
fn config_path_and_key() {
    assert_eq!(resolve_path(Some("a.toml"), Some("b.toml".to_string())), "a.toml");
    assert_eq!(resolve_path(None, Some("b.toml".to_string())), "b.toml");
    assert_eq!(resolve_path(None, None), "rustmem.toml");
    let mut cfg = AppConfig::default();
    apply_openai_key(&mut cfg, Some("sk-1".to_string()));
    assert_eq!(cfg.llm.api_key, "sk-1");
    assert_eq!(cfg.embedding.api_key, "sk-1");
    apply_openai_key(&mut cfg, None);
    assert_eq!(cfg.llm.api_key, "sk-1");
}

#[test]
fn api_messages() {
    assert_eq!(default_limit(), 100);
    assert_eq!(reset_message(3), "deleted 3 memories");
    assert_eq!(reset_tool_message(0), "Deleted 0 memories and all graph data.");
}

#[test]
fn gathering_keeps_first_occurrence() {
    let found = vec![
        vec![pair("u1", "likes sushi"), pair("u2", "works at google")],
        vec![pair("u2", "works at google"), pair("u3", "lives in tokyo")],
        vec![],
    ];
    assert_eq!(gather_similar(&found), vec![pair("u1", "likes sushi"), pair("u2", "works at google"), pair("u3", "lives in tokyo")]);
}

#[test]
fn short_ids_map_back() {
    let existing: Vec<(String, String)> = (0..12).map(|i| pair(&format!("uuid-{i}"), &format!("fact {i}"))).collect();
    let (shown, map) = number_for_llm(&existing);
    assert_eq!(shown[11], pair("11", "fact 11"));
    for (i, (short, _)) in shown.iter().enumerate() {
        assert_eq!(resolve_id(&map, short), existing[i].0);
    }
    assert_eq!(resolve_id(&map, "99"), "99");
}

#[test]
fn planning_actions() {
    let map = vec![pair("0", "uuid-a"), pair("1", "uuid-b")];
    let decisions = vec![
        DeduplicatedFact { fact: "new".into(), action: FactAction::Add, existing_id: Some("7".into()) },
        DeduplicatedFact { fact: "richer".into(), action: FactAction::Update, existing_id: Some("1".into()) },
        DeduplicatedFact { fact: "".into(), action: FactAction::Delete, existing_id: Some("0".into()) },
        DeduplicatedFact { fact: "same".into(), action: FactAction::NoChange, existing_id: Some("0".into()) },
        DeduplicatedFact { fact: "lost".into(), action: FactAction::Update, existing_id: None },
        DeduplicatedFact { fact: "odd".into(), action: FactAction::Delete, existing_id: Some("x9".into()) },
    ];
    let plan = plan_actions(&decisions, &map);
    assert_eq!(plan.len(), 4);
    assert_eq!((plan[0].action, plan[0].id.clone()), (FactAction::Add, None));
    assert_eq!((plan[1].action, plan[1].id.as_deref()), (FactAction::Update, Some("uuid-b")));
    assert_eq!((plan[2].action, plan[2].id.as_deref()), (FactAction::Delete, Some("uuid-a")));
    assert_eq!(plan[3].id.as_deref(), Some("x9"));
    let r = add_result(&plan[1], "uuid-b".to_string());
    assert_eq!((r.id.as_str(), r.text.as_str(), r.event.as_str()), ("uuid-b", "richer", "UPDATE"));
    assert_eq!(add_result(&plan[0], "n".into()).event, "ADD");
    assert_eq!(add_result(&plan[2], "uuid-a".into()).event, "DELETE");
}

#[test]
fn graph_hits_and_dedup() {
    let rel = Relation { source: "alice".into(), relation: "works_at".into(), destination: "google".into(), mentions: 1, valid: true };
    assert_eq!(graph_hit_id(&rel), "graph:alice");
    assert_eq!(graph_hit_text(&rel), "alice works_at google");
    let texts: Vec<String> = ["a", "a", "b", "a", "c", "c", "d"].iter().map(|s| s.to_string()).collect();
    assert_eq!(dedup_positions(&texts, 10), vec![0, 2, 3, 4, 6]);
    assert_eq!(dedup_positions(&texts, 2), vec![0, 2]);
    let mut v = texts.clone();
    v.dedup();
    assert_eq!(v.len(), 5);
}
