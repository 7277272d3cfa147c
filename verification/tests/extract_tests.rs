use rustmem::config::LlmConfig;
use rustmem::extract::{
    dedup_from_response, dedup_prompt, dedup_without_llm, enclosed_slice_ok, entities_from_response,
    entity_prompt, llm_endpoint, parse_json_array, relation_prompt, relations_from_response,
    response_content, Entity, FactAction, DEDUP_PROMPT, ENTITY_EXTRACTION_PROMPT, RELATION_EXTRACTION_PROMPT,
};

fn strings(v: &[&str]) -> Vec<String> {
    v.iter().map(|s| s.to_string()).collect()
}

#[test]
fn facts_from_plain_array() {
    assert_eq!(parse_json_array(r#"["Name is John", "Is a software engineer"]"#), strings(&["Name is John", "Is a software engineer"]));
    assert_eq!(parse_json_array("[]"), Vec::<String>::new());
}

#[test]
fn facts_from_array_inside_prose() {
    assert_eq!(parse_json_array("Sure! Here you go:\n[\"Likes sushi\"]\nDone."), strings(&["Likes sushi"]));
}

#[test]
fn facts_from_object() {
    assert_eq!(parse_json_array(r#"{"facts": ["a", 3, "b"]}"#), strings(&["a", "b"]));
    assert_eq!(parse_json_array(r#"{"other": ["a"]}"#), strings(&["a"]));
    assert_eq!(parse_json_array(r#"{"other": 1}"#), Vec::<String>::new());
}

#[test]
fn facts_from_garbage() {
    assert_eq!(parse_json_array("no json here"), Vec::<String>::new());
    assert!(!enclosed_slice_ok("x ] y [ z", '[', ']'));
    assert!(!enclosed_slice_ok("x ] [ z", '[', ']'));
    assert!(enclosed_slice_ok("x ][ z", '[', ']'));
    assert!(enclosed_slice_ok("x [ ] z", '[', ']'));
}

#[test]
fn dedup_without_model() {
    let none = dedup_without_llm(&vec![("0".to_string(), "x".to_string())], &vec![]).unwrap();
    assert!(none.is_empty());
    let all = dedup_without_llm(&vec![], &strings(&["a", "b"])).unwrap();
    assert_eq!(all.len(), 2);
    assert_eq!(all[1].fact, "b");
    assert_eq!(all[1].action, FactAction::Add);
    assert!(dedup_without_llm(&vec![("0".to_string(), "x".to_string())], &strings(&["a"])).is_none());
}

#[test]
fn dedup_prompt_fills_placeholders() {
    let p = dedup_prompt(
        &vec![("0".to_string(), "Likes cricket".to_string()), ("1".to_string(), "Lives in Paris".to_string())],
        &strings(&["Loves cricket", "Moved to Rome"]),
    );
    let expected = DEDUP_PROMPT
        .replace("{existing}", "[0] Likes cricket\n[1] Lives in Paris")
        .replace("{new_facts}", "1. Loves cricket\n2. Moved to Rome");
    assert_eq!(p, expected);
}

#[test]
fn dedup_reads_decisions() {
    let reply = r#"{"memory": [
        {"id": "0", "text": "Loves playing cricket", "event": "update"},
        {"id": 1, "text": "", "event": "DELETE"},
        {"id": "new", "text": "Moved to Rome", "event": "ADD"},
        {"text": "Old news", "event": "NONE"},
        {"text": "", "event": "ADD"}
    ]}"#;
    let d = dedup_from_response(reply, &strings(&["x"]));
    assert_eq!(d.len(), 4);
    assert_eq!(d[0].action, FactAction::Update);
    assert_eq!(d[0].existing_id.as_deref(), Some("0"));
    assert_eq!(d[1].action, FactAction::Delete);
    assert_eq!(d[1].existing_id.as_deref(), Some("1"));
    assert_eq!(d[2].action, FactAction::Add);
    assert_eq!(d[3].action, FactAction::NoChange);
}

#[test]
fn dedup_falls_back_to_adding_everything() {
    let d = dedup_from_response("I cannot decide.", &strings(&["a", "b"]));
    assert_eq!(d.len(), 2);
    assert!(d.iter().all(|x| x.action == FactAction::Add && x.existing_id.is_none()));
    let d2 = dedup_from_response("Result: {\"memory\": []} ok", &strings(&["a"]));
    assert_eq!(d2.len(), 1);
    let d3 = dedup_from_response("prefix {\"memory\": [{\"text\": \"t\", \"event\": \"add\"}]} suffix", &strings(&["a"]));
    assert_eq!(d3.len(), 1);
    assert_eq!(d3[0].fact, "t");
}

#[test]
fn entities_resolve_self_references() {
    let reply = r#"[{"entity": "I", "entity_type": "Person"}, {"entity": "Google"}, {"entity_type": "x"}, {"entity": "我的", "entity_type": "person"}]"#;
    let e = entities_from_response(reply, "Alice");
    assert_eq!(e.len(), 3);
    assert_eq!((e[0].name.as_str(), e[0].entity_type.as_str()), ("alice", "person"));
    assert_eq!((e[1].name.as_str(), e[1].entity_type.as_str()), ("google", "other"));
    assert_eq!(e[2].name, "alice");
}

#[test]
fn relations_are_normalised() {
    let reply = r#"Here: [{"source": "Alice", "relation": "Works At", "destination": "Google"},
        {"source": "", "relation": "likes", "destination": "x"},
        {"source": "a", "relation": "likes"}]"#;
    let r = relations_from_response(reply);
    assert_eq!(r.len(), 1);
    assert_eq!((r[0].source.as_str(), r[0].relation.as_str(), r[0].destination.as_str()), ("alice", "works_at", "google"));
}

#[test]
fn prompts_are_filled() {
    assert_eq!(entity_prompt("bob"), ENTITY_EXTRACTION_PROMPT.replace("{user_id}", "bob"));
    let entities = vec![
        Entity { name: "alice".to_string(), entity_type: "person".to_string() },
        Entity { name: "say \"hi\"".to_string(), entity_type: "other".to_string() },
    ];
    let names: Vec<&str> = entities.iter().map(|e| e.name.as_str()).collect();
    let expected = RELATION_EXTRACTION_PROMPT
        .replace("{entities}", &format!("{:?}", names))
        .replace("{text}", "Alice met Bob");
    assert_eq!(relation_prompt("Alice met Bob", &entities), expected);
}

fn llm(provider: &str, key: &str, base: &str, model: &str) -> LlmConfig {
    LlmConfig { provider: provider.into(), api_key: key.into(), base_url: base.into(), model: model.into() }
}

#[test]
fn endpoints_per_provider() {
    let e = llm_endpoint(&llm("openai", "", "", ""));
    assert!(!e.is_anthropic);
    assert_eq!(e.url, "https://api.openai.com/v1/chat/completions");
    assert_eq!(e.model, "qwen2.5:32b");
    assert!(e.auth_header.is_none());

    let a = llm_endpoint(&llm("anthropic", "k", "", ""));
    assert!(a.is_anthropic);
    assert_eq!(a.url, "https://api.anthropic.com/v1/messages");
    assert_eq!(a.model, "");
    assert_eq!(a.auth_header, Some(("x-api-key".to_string(), "k".to_string())));

    let o = llm_endpoint(&llm("ollama", "sk", "http://localhost:11434//", "llama3"));
    assert_eq!(o.url, "http://localhost:11434/v1/chat/completions");
    assert_eq!(o.model, "llama3");
    assert_eq!(o.auth_header, Some(("authorization".to_string(), "Bearer sk".to_string())));

    let d = llm_endpoint(&llm("other", "", "", ""));
    assert_eq!(d.url, "http://127.0.0.1:11434/v1/chat/completions");
}

#[test]
fn reply_content_per_flavour() {
    let openai = r#"{"choices": [{"message": {"content": "[\"a\"]"}}]}"#;
    assert_eq!(response_content(false, openai).as_deref(), Some("[\"a\"]"));
    let anthropic = r#"{"content": [{"type": "text", "text": "hello"}]}"#;
    assert_eq!(response_content(true, anthropic).as_deref(), Some("hello"));
    assert_eq!(response_content(true, openai).as_deref(), Some(""));
    assert_eq!(response_content(false, "not json"), None);
}
