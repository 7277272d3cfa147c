//! The fact pipeline's text work: the prompts sent to the language model and
//! the reading of its replies into facts, decisions, entities and relations.

use vstd::prelude::*;

use crate::config::LlmConfig;
use crate::json::{
    parse_json, parse_json_list, parse_string_list, spec_parse_json, spec_parse_json_list,
    spec_parse_string_list, JsonValue,
};
use crate::text::{
    chars_eq, chars_of, decimal, decimal_string, enclosed, enclosed_ok, enclosed_text, join,
    join_seq, opt_view, push_all, replace, replace_all, spec_to_lowercase, spec_to_uppercase,
    string_from_chars, to_lowercase, to_uppercase, trim_end, trim_end_char, views,
};

verus! {

// ── Prompts ───────────────────────────────────────────────────────────

pub const FACT_EXTRACTION_PROMPT: &'static str = r#"You are a Personal Information Organizer, specialized in accurately storing facts, user memories, and preferences. Your job is to extract distinct facts from the conversation.

Extract these types of information:
1. Personal Preferences (likes, dislikes: food, products, activities, entertainment)
2. Important Personal Details (names, relationships, important dates)
3. Plans and Intentions (upcoming events, trips, goals)
4. Activity/Service Preferences (dining, travel, hobbies)
5. Health/Wellness (dietary restrictions, fitness routines)
6. Professional Details (job titles, work habits, career goals)
7. Miscellaneous (favorite books, movies, brands)

IMPORTANT: Extract from BOTH user and assistant messages. Information the assistant provided to the user (recommendations, answers, facts shared) is also worth storing. Do NOT include greetings or generic statements.

Return a JSON array of strings, each being one distinct fact.
If no facts can be extracted, return: []

Examples:
- "Hi." → []
- "There are branches in trees." → []
- "I am looking for a restaurant in San Francisco." → ["Looking for a restaurant in San Francisco"]
- "My name is John. I am a software engineer." → ["Name is John", "Is a software engineer"]
- "Yesterday I had a meeting with John at 3pm about the new project." → ["Had a meeting with John at 3pm", "Discussed the new project with John"]

Respond with ONLY the JSON array."#;

pub const DEDUP_PROMPT: &'static str = r#"You are a smart memory manager which controls the memory of a system.

You will be given existing memories and new facts. For each new fact, decide what to do:

1. ADD: New fact not covered by any existing memory. Use a new integer ID.
2. UPDATE: Existing memory should be updated with richer/more specific info. Keep the same ID, provide new text.
   - "Likes cheese pizza" + "Loves cheese pizza" → NO update (same semantic meaning)
   - "Likes cricket" + "Loves playing cricket with friends" → UPDATE (more specific)
3. DELETE: New fact CONTRADICTS an existing memory. Remove the old memory.
   - "Loves cheese pizza" + "Dislikes cheese pizza" → DELETE the old one
4. NONE: Fact is already fully covered. No action needed.

Existing memories:
{existing}

New facts:
{new_facts}

Respond with ONLY a JSON object:
{"memory": [{"id": "<integer_id_or_new>", "text": "<content>", "event": "ADD|UPDATE|DELETE|NONE", "old_memory": "<only for UPDATE>"}]}"#;

pub const ENTITY_EXTRACTION_PROMPT: &'static str = r#"You are a smart assistant who understands entities and their types.
If the text contains self-references such as 'I', 'me', 'my', 'myself', use "{user_id}" as the entity name.
Extract all entities from the text with their types.

Return a JSON array: [{"entity": "name", "entity_type": "type"}]
Types: person, place, organization, product, event, concept, other

Respond with ONLY the JSON array."#;

pub const RELATION_EXTRACTION_PROMPT: &'static str = r#"You are a smart assistant who extracts relationships between entities.
Given a list of entities and the source text, extract relationships as triples.
If the text uses 'I', 'me', 'my', replace with "{user_id}".

Entities: {entities}
Text: {text}

Return a JSON array: [{"source": "entity1", "relation": "relationship", "destination": "entity2"}]
Use simple lowercase relation names like: lives_in, works_at, likes, knows, born_in, married_to, etc.

Respond with ONLY the JSON array."#;

// ── Types ─────────────────────────────────────────────────────────────

/// What to do with a new fact, as the language model decided.
#[derive(Debug, Clone, Copy, PartialEq, Eq, Structural)]
pub enum FactAction {
    Add,
    Update,
    Delete,
    /// The fact is already covered (the model's `NONE`).
    NoChange,
}

/// A fact with the decision taken for it, and the memory it concerns (by the
/// short id shown to the model) for an update or a deletion.
#[derive(Debug)]
pub struct DeduplicatedFact {
    pub fact: String,
    pub action: FactAction,
    pub existing_id: Option<String>,
}

impl View for DeduplicatedFact {
    type V = (Seq<char>, FactAction, Option<Seq<char>>);

    open spec fn view(&self) -> (Seq<char>, FactAction, Option<Seq<char>>) {
        (self.fact@, self.action, opt_view(self.existing_id))
    }
}

/// An entity named in a text, with its type.
#[derive(Debug, Clone)]
pub struct Entity {
    pub name: String,
    pub entity_type: String,
}

impl View for Entity {
    type V = (Seq<char>, Seq<char>);

    open spec fn view(&self) -> (Seq<char>, Seq<char>) {
        (self.name@, self.entity_type@)
    }
}

/// A relation between two entities: `source --relation--> destination`.
#[derive(Debug, Clone)]
pub struct ExtractedRelation {
    pub source: String,
    pub relation: String,
    pub destination: String,
}

impl View for ExtractedRelation {
    type V = (Seq<char>, Seq<char>, Seq<char>);

    open spec fn view(&self) -> (Seq<char>, Seq<char>, Seq<char>) {
        (self.source@, self.relation@, self.destination@)
    }
}

// ── Reading JSON replies ──────────────────────────────────────────────

/// The text of member `key` of `v`, when it is a string.
pub open spec fn member_text(v: JsonValue, key: Seq<char>) -> Option<Seq<char>> {
    match v.member(key) {
        Some(x) => x.text(),
        None => None,
    }
}

/// The text of member `key` of `v`, when it is a string.
pub fn get_text(v: &JsonValue, key: &str) -> (r: Option<String>)
    ensures
        opt_view(r) == member_text(*v, key@),
{
    match v.get(key) {
        Some(x) => match x.as_str() {
            Some(t) => Some(t.clone()),
            None => None,
        },
        None => None,
    }
}

/// The string elements of a list, in order; other elements are skipped.
pub open spec fn string_items(items: Seq<JsonValue>) -> Seq<Seq<char>>
    decreases items.len(),
{
    if items.len() == 0 {
        seq![]
    } else {
        let prev = string_items(items.drop_last());
        match items.last().text() {
            Some(t) => prev.push(t),
            None => prev,
        }
    }
}

/// The string elements of a list, in order.
pub fn strings_of(items: &Vec<JsonValue>) -> (r: Vec<String>)
    ensures
        views(r@) == string_items(items@),
{
    let mut out: Vec<String> = Vec::new();
    for i in 0..items.len()
        invariant
            views(out@) == string_items(items@.take(i as int)),
    {
        assert(items@.take(i + 1).drop_last() == items@.take(i as int));
        assert(items@.take(i + 1).last() == items@[i as int]);
        match items[i].as_str() {
            Some(t) => {
                out.push(t.clone());
                assert(views(out@) == views(out@.drop_last()).push(t@));
            },
            None => {},
        }
    }
    assert(items@.take(items.len() as int) == items@);
    out
}

/// The facts of a reply of the form `{"facts": [...]}`.
pub open spec fn facts_member(v: JsonValue) -> Seq<Seq<char>> {
    match v.member("facts"@) {
        Some(f) => match f.items() {
            Some(items) => string_items(items),
            None => seq![],
        },
        None => seq![],
    }
}

/// The facts of a reply of the form `{"facts": [...]}`.
pub fn facts_from_object(v: &JsonValue) -> (r: Vec<String>)
    ensures
        views(r@) == facts_member(*v),
{
    match v.get("facts") {
        Some(f) => match f.as_array() {
            Some(items) => strings_of(items),
            None => Vec::new(),
        },
        None => Vec::new(),
    }
}

/// The facts read from a reply: the reply as a JSON array of strings; else
/// the text from its first `[` to its last `]` as one; else the strings under
/// `"facts"` of the reply as a JSON object; else none.
pub open spec fn fact_list(s: Seq<char>) -> Seq<Seq<char>> {
    if spec_parse_string_list(s) is Some {
        spec_parse_string_list(s)->0
    } else if enclosed(s, '[', ']') is Some && spec_parse_string_list(enclosed(s, '[', ']')->0) is Some {
        spec_parse_string_list(enclosed(s, '[', ']')->0)->0
    } else if spec_parse_json(s) is Some {
        facts_member(spec_parse_json(s)->0)
    } else {
        seq![]
    }
}

/// Reads the facts of a reply that should hold a JSON array of strings.
pub fn parse_json_array(s: &str) -> (r: Vec<String>)
    requires
        enclosed_ok(s@, '[', ']'),
    ensures
        views(r@) == fact_list(s@),
{
    if let Some(arr) = parse_string_list(s) {
        return arr;
    }
    let cs = chars_of(s);
    if let Some(sub) = enclosed_text(&cs, '[', ']') {
        let t = string_from_chars(&sub);
        if let Some(arr) = parse_string_list(t.as_str()) {
            return arr;
        }
    }
    match parse_json(s) {
        Some(v) => facts_from_object(&v),
        None => Vec::new(),
    }
}

/// The values read from a reply that should hold a JSON array: the reply as
/// one; else the text from its first `[` to its last `]` as one; else none.
pub open spec fn value_list(s: Seq<char>) -> Seq<JsonValue> {
    if spec_parse_json_list(s) is Some {
        spec_parse_json_list(s)->0
    } else if enclosed(s, '[', ']') is Some && spec_parse_json_list(enclosed(s, '[', ']')->0) is Some {
        spec_parse_json_list(enclosed(s, '[', ']')->0)->0
    } else {
        seq![]
    }
}

/// Reads the values of a reply that should hold a JSON array.
pub fn parse_json_value_array(s: &str) -> (r: Vec<JsonValue>)
    requires
        enclosed_ok(s@, '[', ']'),
    ensures
        r@ == value_list(s@),
{
    if let Some(arr) = parse_json_list(s) {
        return arr;
    }
    let cs = chars_of(s);
    if let Some(sub) = enclosed_text(&cs, '[', ']') {
        let t = string_from_chars(&sub);
        if let Some(arr) = parse_json_list(t.as_str()) {
            return arr;
        }
    }
    Vec::new()
}

/// Whether slicing `s` from its first `open` to its last `close` is well-formed,
/// which reading a reply needs.
pub fn enclosed_slice_ok(s: &str, open: char, close: char) -> (b: bool)
    ensures
        b == enclosed_ok(s@, open, close),
{
    let cs = chars_of(s);
    proof {
        crate::text::lemma_pos_bounds(cs@, open);
        crate::text::lemma_pos_bounds(cs@, close);
    }
    match crate::text::find_char(&cs, open) {
        Some(i) => match crate::text::rfind_char(&cs, close) {
            Some(j) => i <= j || i == j + 1,
            None => true,
        },
        None => true,
    }
}


// ── Deduplication ─────────────────────────────────────────────────────

/// A fact to be added as it is.
pub open spec fn added(f: Seq<char>) -> (Seq<char>, FactAction, Option<Seq<char>>) {
    (f, FactAction::Add, None)
}

/// Every new fact, to be added.
pub open spec fn all_added(facts: Seq<Seq<char>>) -> Seq<(Seq<char>, FactAction, Option<Seq<char>>)> {
    facts.map_values(|f: Seq<char>| added(f))
}

/// The decisions of a list of decisions, as views.
pub open spec fn decision_views(v: Seq<DeduplicatedFact>) -> Seq<(Seq<char>, FactAction, Option<Seq<char>>)> {
    v.map_values(|d: DeduplicatedFact| d@)
}

/// Every new fact, to be added.
pub fn add_all(new_facts: &Vec<String>) -> (r: Vec<DeduplicatedFact>)
    ensures
        decision_views(r@) == all_added(views(new_facts@)),
{
    let mut out: Vec<DeduplicatedFact> = Vec::new();
    for i in 0..new_facts.len()
        invariant
            decision_views(out@) == all_added(views(new_facts@.take(i as int))),
    {
        let d = DeduplicatedFact { fact: new_facts[i].clone(), action: FactAction::Add, existing_id: None };
        assert(d@ == added(new_facts@[i as int]@));
        out.push(d);
        assert(views(new_facts@.take(i + 1)) == views(new_facts@.take(i as int)).push(new_facts@[i as int]@));
        assert(all_added(views(new_facts@.take(i + 1))) == all_added(views(new_facts@.take(i as int))).push(added(new_facts@[i as int]@)));
        assert(decision_views(out@) == decision_views(out@.drop_last()).push(out@.last()@));
    }
    assert(new_facts@.take(new_facts.len() as int) == new_facts@);
    out
}

/// The decisions that need no call to the model: none for no new facts, and
/// every fact added when there is no existing memory to compare with.
pub fn dedup_without_llm(existing: &Vec<(String, String)>, new_facts: &Vec<String>) -> (r: Option<Vec<DeduplicatedFact>>)
    ensures
        new_facts@.len() == 0 ==> (r matches Some(d) && d@.len() == 0),
        new_facts@.len() > 0 && existing@.len() == 0 ==> (r matches Some(d) && decision_views(d@) == all_added(views(new_facts@))),
        new_facts@.len() > 0 && existing@.len() > 0 ==> r is None,
{
    if new_facts.len() == 0 {
        return Some(Vec::new());
    }
    if existing.len() == 0 {
        return Some(add_all(new_facts));
    }
    None
}

/// One existing memory as the model sees it: `[id] text`.
pub open spec fn existing_line(id: Seq<char>, text: Seq<char>) -> Seq<char> {
    seq!['['] + id + seq![']', ' '] + text
}

/// One new fact as the model sees it: its number from 1, a dot, a space, the fact.
pub open spec fn numbered_line(i: int, fact: Seq<char>) -> Seq<char> {
    decimal((i + 1) as nat) + seq!['.', ' '] + fact
}

/// The existing memories, one per line.
pub open spec fn existing_block(existing: Seq<(String, String)>) -> Seq<char> {
    join_seq(existing.map_values(|e: (String, String)| existing_line(e.0@, e.1@)), seq!['\n'])
}

/// The new facts, numbered, one per line.
pub open spec fn facts_block(facts: Seq<String>) -> Seq<char> {
    join_seq(facts.map_values(|f: String| f@).map(|i: int, f: Seq<char>| numbered_line(i, f)), seq!['\n'])
}

/// The deduplication prompt: `DEDUP_PROMPT` with the existing memories and the new facts filled in.
pub open spec fn dedup_prompt_text(existing: Seq<(String, String)>, facts: Seq<String>) -> Seq<char> {
    replace_all(
        replace_all(DEDUP_PROMPT@, "{existing}"@, existing_block(existing)),
        "{new_facts}"@,
        facts_block(facts),
    )
}

/// The deduplication prompt for the existing memories (short id, text) and the new facts.
pub fn dedup_prompt(existing: &Vec<(String, String)>, new_facts: &Vec<String>) -> (r: String)
    ensures
        r@ == dedup_prompt_text(existing@, new_facts@),
{
    let ghost ex_lines = existing@.map_values(|e: (String, String)| existing_line(e.0@, e.1@));
    let mut lines: Vec<Vec<char>> = Vec::new();
    for i in 0..existing.len()
        invariant
            ex_lines == existing@.map_values(|e: (String, String)| existing_line(e.0@, e.1@)),
            lines@.map_values(|l: Vec<char>| l@) == ex_lines.take(i as int),
    {
        let mut line: Vec<char> = Vec::new();
        line.push('[');
        push_all(&mut line, &chars_of(existing[i].0.as_str()));
        line.push(']');
        line.push(' ');
        push_all(&mut line, &chars_of(existing[i].1.as_str()));
        assert(line@ == existing_line(existing@[i as int].0@, existing@[i as int].1@));
        lines.push(line);
        assert(ex_lines.take(i + 1) == ex_lines.take(i as int).push(ex_lines[i as int]));
        assert(lines@.map_values(|l: Vec<char>| l@) == lines@.drop_last().map_values(|l: Vec<char>| l@).push(lines@.last()@));
    }
    assert(ex_lines.take(existing.len() as int) == ex_lines);
    let newline: Vec<char> = vec!['\n'];
    let ex_block = join(&lines, &newline);
    assert(newline@ == seq!['\n']);
    assert(lines@.map_values(|l: Vec<char>| l@) == ex_lines);
    assert(ex_block@ == existing_block(existing@));

    let ghost fact_lines = new_facts@.map_values(|f: String| f@).map(|i: int, f: Seq<char>| numbered_line(i, f));
    let mut flines: Vec<Vec<char>> = Vec::new();
    for i in 0..new_facts.len()
        invariant
            fact_lines == new_facts@.map_values(|f: String| f@).map(|i: int, f: Seq<char>| numbered_line(i, f)),
            flines@.map_values(|l: Vec<char>| l@) == fact_lines.take(i as int),
    {
        let num = decimal_string(i as u128 + 1);
        let mut line = chars_of(num.as_str());
        line.push('.');
        line.push(' ');
        push_all(&mut line, &chars_of(new_facts[i].as_str()));
        assert(line@ == numbered_line(i as int, new_facts@[i as int]@));
        flines.push(line);
        assert(fact_lines.take(i + 1) == fact_lines.take(i as int).push(fact_lines[i as int]));
        assert(flines@.map_values(|l: Vec<char>| l@) == flines@.drop_last().map_values(|l: Vec<char>| l@).push(flines@.last()@));
    }
    assert(fact_lines.take(new_facts.len() as int) == fact_lines);
    let nf_block = join(&flines, &newline);
    assert(nf_block@ == facts_block(new_facts@));

    proof {
        reveal_strlit("{existing}");
        reveal_strlit("{new_facts}");
    }
    let prompt = chars_of(DEDUP_PROMPT);
    let step = replace(&prompt, &chars_of("{existing}"), &ex_block);
    let done = replace(&step, &chars_of("{new_facts}"), &nf_block);
    string_from_chars(&done)
}

/// The items under `"memory"` of a deduplication reply: the reply as a JSON
/// object; else the text from its first `{` to its last `}` as one; else none.
pub open spec fn memory_items(s: Seq<char>) -> Seq<JsonValue> {
    let parsed = if spec_parse_json(s) is Some {
        spec_parse_json(s)
    } else if enclosed(s, '{', '}') is Some {
        spec_parse_json(enclosed(s, '{', '}')->0)
    } else {
        None
    };
    match parsed {
        Some(v) => match v.member("memory"@) {
            Some(m) => match m.items() {
                Some(items) => items,
                None => seq![],
            },
            None => seq![],
        },
        None => seq![],
    }
}

/// The action named by an event (already upper-cased); anything unknown adds.
pub open spec fn action_of(event: Seq<char>) -> FactAction {
    if event == "UPDATE"@ {
        FactAction::Update
    } else if event == "DELETE"@ {
        FactAction::Delete
    } else if event == "NONE"@ {
        FactAction::NoChange
    } else {
        FactAction::Add
    }
}

/// The id of an item: its `"id"` as a string, or an unsigned number in decimal.
pub open spec fn item_id(item: JsonValue) -> Option<Seq<char>> {
    match item.member("id"@) {
        Some(v) => match v.text() {
            Some(t) => Some(t),
            None => match v.unsigned() {
                Some(n) => Some(decimal(n as nat)),
                None => None,
            },
        },
        None => None,
    }
}

/// The `"event"` of a decision item, upper-cased; `ADD` when it has none.
pub open spec fn item_event(item: JsonValue) -> Seq<char> {
    spec_to_uppercase(if member_text(item, "event"@) is Some { member_text(item, "event"@)->0 } else { "ADD"@ })
}

/// The `"text"` of a decision item; empty when it has none.
pub open spec fn item_text(item: JsonValue) -> Seq<char> {
    if member_text(item, "text"@) is Some { member_text(item, "text"@)->0 } else { seq![] }
}

/// What a decision item of the model's reply is read as: its event UPDATE
/// updates, DELETE deletes, NONE changes nothing, and anything else (or no
/// event at all) adds; its text is the fact; its `"id"` is kept as a string,
/// or written in decimal when it is an unsigned number. An item is dropped
/// only when it has no text and does not delete.
pub proof fn lemma_decision_items(item: JsonValue)
    ensures
        decision_of(item) is Some <==> (item_text(item).len() > 0 || item_event(item) == "DELETE"@),
        decision_of(item) matches Some(d) ==> d.0 == item_text(item),
        item_event(item) == "UPDATE"@ ==> (decision_of(item) matches Some(d) && d.1 == FactAction::Update) || item_text(item).len() == 0,
        item_event(item) == "DELETE"@ ==> (decision_of(item) matches Some(d) && d.1 == FactAction::Delete),
        item_event(item) == "NONE"@ ==> (decision_of(item) matches Some(d) && d.1 == FactAction::NoChange) || item_text(item).len() == 0,
        item_event(item) != "UPDATE"@ && item_event(item) != "DELETE"@ && item_event(item) != "NONE"@
            ==> (decision_of(item) matches Some(d) && d.1 == FactAction::Add) || item_text(item).len() == 0,
        decision_of(item) matches Some(d) ==> d.2 == item_id(item),
        item.member("id"@) is Some && (item.member("id"@)->0).text() is Some ==> item_id(item) == (item.member("id"@)->0).text(),
        item.member("id"@) is Some && (item.member("id"@)->0).text() is None && (item.member("id"@)->0).unsigned() is Some
            ==> item_id(item) == Some(decimal((item.member("id"@)->0).unsigned()->0 as nat)),
        item.member("id"@) is None ==> item_id(item) is None,
{
    reveal_strlit("UPDATE");
    reveal_strlit("DELETE");
    reveal_strlit("NONE");
    assert("UPDATE"@[0] != "DELETE"@[0]);
    assert("NONE"@[0] != "DELETE"@[0]);
    assert("UPDATE"@[0] != "NONE"@[0]);
}

/// The decision an item of the reply states: its `"text"` (or nothing), its
/// `"event"` upper-cased (or `ADD`), its id; kept when the text is non-empty or the event deletes.
pub open spec fn decision_of(item: JsonValue) -> Option<(Seq<char>, FactAction, Option<Seq<char>>)> {
    let fact = match member_text(item, "text"@) {
        Some(t) => t,
        None => seq![],
    };
    let event = spec_to_uppercase(match member_text(item, "event"@) {
        Some(t) => t,
        None => "ADD"@,
    });
    let action = action_of(event);
    if fact.len() > 0 || action == FactAction::Delete {
        Some((fact, action, item_id(item)))
    } else {
        None
    }
}

/// The decisions the items state, in order.
pub open spec fn decisions_of(items: Seq<JsonValue>) -> Seq<(Seq<char>, FactAction, Option<Seq<char>>)>
    decreases items.len(),
{
    if items.len() == 0 {
        seq![]
    } else {
        let prev = decisions_of(items.drop_last());
        match decision_of(items.last()) {
            Some(d) => prev.push(d),
            None => prev,
        }
    }
}

/// The decisions read from a reply; when it states none, every new fact is added.
pub open spec fn dedup_result(s: Seq<char>, new_facts: Seq<Seq<char>>) -> Seq<(Seq<char>, FactAction, Option<Seq<char>>)> {
    let ds = decisions_of(memory_items(s));
    if ds.len() == 0 && new_facts.len() > 0 {
        all_added(new_facts)
    } else {
        ds
    }
}

/// The action named by an event.
pub fn action_from_event(event: &str) -> (a: FactAction)
    ensures
        a == action_of(event@),
{
    let e = chars_of(event);
    if chars_eq(&e, &chars_of("UPDATE")) {
        FactAction::Update
    } else if chars_eq(&e, &chars_of("DELETE")) {
        FactAction::Delete
    } else if chars_eq(&e, &chars_of("NONE")) {
        FactAction::NoChange
    } else {
        FactAction::Add
    }
}

/// The id an item gives.
pub fn id_of_item(item: &JsonValue) -> (r: Option<String>)
    ensures
        opt_view(r) == item_id(*item),
{
    match item.get("id") {
        Some(v) => match v.as_str() {
            Some(t) => Some(t.clone()),
            None => match v.as_u64() {
                Some(n) => Some(decimal_string(n as u128)),
                None => None,
            },
        },
        None => None,
    }
}

/// The decision an item of the reply states, if it is kept.
pub fn decision_from_item(item: &JsonValue) -> (r: Option<DeduplicatedFact>)
    ensures
        r matches Some(d) ==> decision_of(*item) == Some(d@),
        r is None ==> decision_of(*item) is None,
{
    proof {
        reveal_strlit("");
    }
    let fact = match get_text(item, "text") {
        Some(t) => t,
        None => "".to_owned(),
    };
    let event = match get_text(item, "event") {
        Some(t) => to_uppercase(t.as_str()),
        None => to_uppercase("ADD"),
    };
    let action = action_from_event(event.as_str());
    let id = id_of_item(item);
    if !fact.as_str().is_empty() || action == FactAction::Delete {
        Some(DeduplicatedFact { fact, action, existing_id: id })
    } else {
        None
    }
}

/// The decisions the items state, in order.
pub fn decisions_from_items(items: &Vec<JsonValue>) -> (r: Vec<DeduplicatedFact>)
    ensures
        decision_views(r@) == decisions_of(items@),
{
    let mut out: Vec<DeduplicatedFact> = Vec::new();
    for i in 0..items.len()
        invariant
            decision_views(out@) == decisions_of(items@.take(i as int)),
    {
        assert(items@.take(i + 1).drop_last() == items@.take(i as int));
        assert(items@.take(i + 1).last() == items@[i as int]);
        match decision_from_item(&items[i]) {
            Some(d) => {
                out.push(d);
                assert(decision_views(out@) == decision_views(out@.drop_last()).push(out@.last()@));
            },
            None => {},
        }
    }
    assert(items@.take(items.len() as int) == items@);
    out
}

/// The decisions read from the model's reply to the deduplication prompt;
/// when it states none, every new fact is added.
pub fn dedup_from_response(response: &str, new_facts: &Vec<String>) -> (r: Vec<DeduplicatedFact>)
    requires
        enclosed_ok(response@, '{', '}'),
    ensures
        decision_views(r@) == dedup_result(response@, views(new_facts@)),
{
    let parsed = match parse_json(response) {
        Some(v) => Some(v),
        None => {
            let cs = chars_of(response);
            match enclosed_text(&cs, '{', '}') {
                Some(sub) => {
                    let t = string_from_chars(&sub);
                    parse_json(t.as_str())
                },
                None => None,
            }
        },
    };
    let results = match &parsed {
        Some(v) => match v.get("memory") {
            Some(m) => match m.as_array() {
                Some(items) => decisions_from_items(items),
                None => Vec::new(),
            },
            None => Vec::new(),
        },
        None => Vec::new(),
    };
    assert(decisions_of(Seq::<JsonValue>::empty()) == Seq::<(Seq<char>, FactAction, Option<Seq<char>>)>::empty());
    if results.len() == 0 && new_facts.len() > 0 {
        add_all(new_facts)
    } else {
        results
    }
}


// ── Entities ──────────────────────────────────────────────────────────

/// The entity extraction prompt for a user: `{user_id}` replaced by the user's id.
pub fn entity_prompt(user_id: &str) -> (r: String)
    ensures
        r@ == replace_all(ENTITY_EXTRACTION_PROMPT@, "{user_id}"@, user_id@),
{
    proof {
        reveal_strlit("{user_id}");
    }
    let out = replace(&chars_of(ENTITY_EXTRACTION_PROMPT), &chars_of("{user_id}"), &chars_of(user_id));
    string_from_chars(&out)
}

/// A name by which a text refers to its writer.
pub open spec fn is_self_reference(name: Seq<char>) -> bool {
    ||| name == "i"@
    ||| name == "me"@
    ||| name == "my"@
    ||| name == "myself"@
    ||| name == "我"@
    ||| name == "我的"@
}

/// Whether a (lower-cased) name refers to the writer.
pub fn self_reference(name: &Vec<char>) -> (b: bool)
    ensures
        b == is_self_reference(name@),
{
    chars_eq(name, &chars_of("i")) || chars_eq(name, &chars_of("me")) || chars_eq(name, &chars_of("my"))
        || chars_eq(name, &chars_of("myself")) || chars_eq(name, &chars_of("我")) || chars_eq(
        name,
        &chars_of("我的"),
    )
}

/// The entity an item of the reply names: its `"entity"` lower-cased, where a
/// self-reference becomes the user's id lower-cased, and its `"entity_type"`
/// lower-cased (`other` when missing); no entity without an `"entity"` string.
pub open spec fn entity_of(item: JsonValue, user_id: Seq<char>) -> Option<(Seq<char>, Seq<char>)> {
    match member_text(item, "entity"@) {
        Some(t) => {
            let name = spec_to_lowercase(t);
            let etype = spec_to_lowercase(match member_text(item, "entity_type"@) {
                Some(x) => x,
                None => "other"@,
            });
            Some((if is_self_reference(name) { spec_to_lowercase(user_id) } else { name }, etype))
        },
        None => None,
    }
}

/// An entity named i, me, my, myself, 我 or 我的 (once lower-cased) is the
/// user: its name is the user's id lower-cased. An entity with any other name
/// keeps its lower-cased name. Its type is its `"entity_type"` lower-cased,
/// `other` when it has none.
pub proof fn lemma_self_references(item: JsonValue, user_id: Seq<char>)
    ensures
        member_text(item, "entity"@) is None ==> entity_of(item, user_id) is None,
        member_text(item, "entity"@) matches Some(t) ==> {
            let name = spec_to_lowercase(t);
            let is_writer = name == "i"@ || name == "me"@ || name == "my"@ || name == "myself"@
                || name == "我"@ || name == "我的"@;
            &&& entity_of(item, user_id) is Some
            &&& is_writer ==> (entity_of(item, user_id)->0).0 == spec_to_lowercase(user_id)
            &&& !is_writer ==> (entity_of(item, user_id)->0).0 == name
            &&& (entity_of(item, user_id)->0).1 == spec_to_lowercase(
                if member_text(item, "entity_type"@) is Some { member_text(item, "entity_type"@)->0 } else { "other"@ })
        },
{
}

/// The entities the items name, in order.
pub open spec fn entities_of(items: Seq<JsonValue>, user_id: Seq<char>) -> Seq<(Seq<char>, Seq<char>)>
    decreases items.len(),
{
    if items.len() == 0 {
        seq![]
    } else {
        let prev = entities_of(items.drop_last(), user_id);
        match entity_of(items.last(), user_id) {
            Some(e) => prev.push(e),
            None => prev,
        }
    }
}

/// The entities of a list, as views.
pub open spec fn entity_views(v: Seq<Entity>) -> Seq<(Seq<char>, Seq<char>)> {
    v.map_values(|e: Entity| e@)
}

/// The entity an item of the reply names.
pub fn entity_from_item(item: &JsonValue, user_id: &str) -> (r: Option<Entity>)
    ensures
        r matches Some(e) ==> entity_of(*item, user_id@) == Some(e@),
        r is None ==> entity_of(*item, user_id@) is None,
{
    let t = match get_text(item, "entity") {
        Some(t) => t,
        None => return None,
    };
    let name = to_lowercase(t.as_str());
    let etype = match get_text(item, "entity_type") {
        Some(x) => to_lowercase(x.as_str()),
        None => to_lowercase("other"),
    };
    let resolved = if self_reference(&chars_of(name.as_str())) {
        to_lowercase(user_id)
    } else {
        name
    };
    Some(Entity { name: resolved, entity_type: etype })
}

/// The entities named by the items of a reply.
pub fn entities_from_items(items: &Vec<JsonValue>, user_id: &str) -> (r: Vec<Entity>)
    ensures
        entity_views(r@) == entities_of(items@, user_id@),
{
    let mut out: Vec<Entity> = Vec::new();
    for i in 0..items.len()
        invariant
            entity_views(out@) == entities_of(items@.take(i as int), user_id@),
    {
        assert(items@.take(i + 1).drop_last() == items@.take(i as int));
        assert(items@.take(i + 1).last() == items@[i as int]);
        match entity_from_item(&items[i], user_id) {
            Some(e) => {
                out.push(e);
                assert(entity_views(out@) == entity_views(out@.drop_last()).push(out@.last()@));
            },
            None => {},
        }
    }
    assert(items@.take(items.len() as int) == items@);
    out
}

/// The entities named in the model's reply to the entity prompt.
pub fn entities_from_response(response: &str, user_id: &str) -> (r: Vec<Entity>)
    requires
        enclosed_ok(response@, '[', ']'),
    ensures
        entity_views(r@) == entities_of(value_list(response@), user_id@),
{
    let items = parse_json_value_array(response);
    entities_from_items(&items, user_id)
}

// ── Relations ─────────────────────────────────────────────────────────

/// The entity names as `format!("{:?}", names)` writes a list of string slices.
pub open spec fn names_list(entities: Seq<Entity>) -> Seq<char> {
    seq!['['] + join_seq(entities.map_values(|e: Entity| crate::text::spec_debug_str(e.name@)), seq![',', ' ']) + seq![']']
}

/// The relation extraction prompt: the entity names and the text filled in.
pub open spec fn relation_prompt_text(text: Seq<char>, entities: Seq<Entity>) -> Seq<char> {
    replace_all(replace_all(RELATION_EXTRACTION_PROMPT@, "{entities}"@, names_list(entities)), "{text}"@, text)
}

/// The relation extraction prompt for a text and the entities found in it.
pub fn relation_prompt(text: &str, entities: &Vec<Entity>) -> (r: String)
    ensures
        r@ == relation_prompt_text(text@, entities@),
{
    let ghost quoted = entities@.map_values(|e: Entity| crate::text::spec_debug_str(e.name@));
    let mut parts: Vec<Vec<char>> = Vec::new();
    for i in 0..entities.len()
        invariant
            quoted == entities@.map_values(|e: Entity| crate::text::spec_debug_str(e.name@)),
            parts@.map_values(|p: Vec<char>| p@) == quoted.take(i as int),
    {
        let q = crate::text::debug_str(entities[i].name.as_str());
        parts.push(chars_of(q.as_str()));
        assert(quoted.take(i + 1) == quoted.take(i as int).push(quoted[i as int]));
        assert(parts@.map_values(|p: Vec<char>| p@) == parts@.drop_last().map_values(|p: Vec<char>| p@).push(parts@.last()@));
    }
    assert(quoted.take(entities.len() as int) == quoted);
    let sep: Vec<char> = vec![',', ' '];
    let inner = join(&parts, &sep);
    let mut list: Vec<char> = vec!['['];
    push_all(&mut list, &inner);
    list.push(']');
    assert(list@ == names_list(entities@));
    proof {
        reveal_strlit("{entities}");
        reveal_strlit("{text}");
    }
    let step = replace(&chars_of(RELATION_EXTRACTION_PROMPT), &chars_of("{entities}"), &list);
    let done = replace(&step, &chars_of("{text}"), &chars_of(text));
    string_from_chars(&done)
}

/// The relation an item of the reply states: `"source"`, `"relation"` and
/// `"destination"` strings lower-cased, spaces in the relation made `_`;
/// none when one is missing or empty.
pub open spec fn relation_of(item: JsonValue) -> Option<(Seq<char>, Seq<char>, Seq<char>)> {
    match (member_text(item, "source"@), member_text(item, "relation"@), member_text(item, "destination"@)) {
        (Some(s), Some(r), Some(d)) => {
            let source = spec_to_lowercase(s);
            let relation = replace_all(spec_to_lowercase(r), seq![' '], seq!['_']);
            let destination = spec_to_lowercase(d);
            if source.len() == 0 || destination.len() == 0 || relation.len() == 0 {
                None
            } else {
                Some((source, relation, destination))
            }
        },
        _ => None,
    }
}

/// Replacing every space by `_` leaves no space.
proof fn lemma_underscored_has_no_space(s: Seq<char>)
    ensures
        forall|j: int| 0 <= j < replace_all(s, seq![' '], seq!['_']).len()
            ==> #[trigger] replace_all(s, seq![' '], seq!['_'])[j] != ' ',
    decreases s.len(),
{
    let r = replace_all(s, seq![' '], seq!['_']);
    if s.len() > 0 {
        if crate::text::occurs_at(s, seq![' '], 0) {
            lemma_underscored_has_no_space(s.skip(1));
            let rest = replace_all(s.skip(1), seq![' '], seq!['_']);
            assert(r == seq!['_'] + rest);
            assert forall|j: int| 0 <= j < r.len() implies #[trigger] r[j] != ' ' by {
                if j > 0 {
                    assert(r[j] == rest[j - 1]);
                }
            }
        } else {
            lemma_underscored_has_no_space(s.drop_first());
            let rest = replace_all(s.drop_first(), seq![' '], seq!['_']);
            assert(r == seq![s[0]] + rest);
            assert(s.subrange(0, 1) =~= seq![s[0]]);
            assert(s[0] != ' ');
            assert forall|j: int| 0 <= j < r.len() implies #[trigger] r[j] != ' ' by {
                if j > 0 {
                    assert(r[j] == rest[j - 1]);
                }
            }
        }
    }
}

/// The relation name of every extracted relation holds no space: it is the
/// lower-cased `"relation"` of the item with each space made `_`; its source
/// and destination are the item's `"source"` and `"destination"` lower-cased,
/// and none of the three is empty.
pub proof fn lemma_relation_names(item: JsonValue)
    ensures
        relation_of(item) matches Some((s, r, d)) ==> {
            &&& forall|j: int| 0 <= j < r.len() ==> #[trigger] r[j] != ' '
            &&& member_text(item, "relation"@) is Some
            &&& r == replace_all(spec_to_lowercase(member_text(item, "relation"@)->0), seq![' '], seq!['_'])
            &&& member_text(item, "source"@) is Some && s == spec_to_lowercase(member_text(item, "source"@)->0)
            &&& member_text(item, "destination"@) is Some
            &&& d == spec_to_lowercase(member_text(item, "destination"@)->0)
            &&& s.len() > 0 && r.len() > 0 && d.len() > 0
        },
{
    if let Some(name) = member_text(item, "relation"@) {
        lemma_underscored_has_no_space(spec_to_lowercase(name));
    }
}

/// The relations the items state, in order.
pub open spec fn relations_of(items: Seq<JsonValue>) -> Seq<(Seq<char>, Seq<char>, Seq<char>)>
    decreases items.len(),
{
    if items.len() == 0 {
        seq![]
    } else {
        let prev = relations_of(items.drop_last());
        match relation_of(items.last()) {
            Some(r) => prev.push(r),
            None => prev,
        }
    }
}

/// The relations of a list, as views.
pub open spec fn relation_views(v: Seq<ExtractedRelation>) -> Seq<(Seq<char>, Seq<char>, Seq<char>)> {
    v.map_values(|r: ExtractedRelation| r@)
}

/// The relation an item of the reply states.
pub fn relation_from_item(item: &JsonValue) -> (r: Option<ExtractedRelation>)
    ensures
        r matches Some(x) ==> relation_of(*item) == Some(x@),
        r is None ==> relation_of(*item) is None,
{
    let s = match get_text(item, "source") {
        Some(t) => t,
        None => return None,
    };
    let r = match get_text(item, "relation") {
        Some(t) => t,
        None => return None,
    };
    let d = match get_text(item, "destination") {
        Some(t) => t,
        None => return None,
    };
    let source = to_lowercase(s.as_str());
    let lowered = to_lowercase(r.as_str());
    let space: Vec<char> = vec![' '];
    let underscore: Vec<char> = vec!['_'];
    assert(space@ == seq![' ']);
    assert(underscore@ == seq!['_']);
    let relation = string_from_chars(&replace(&chars_of(lowered.as_str()), &space, &underscore));
    let destination = to_lowercase(d.as_str());
    if source.as_str().is_empty() || destination.as_str().is_empty() || relation.as_str().is_empty() {
        return None;
    }
    Some(ExtractedRelation { source, relation, destination })
}

/// The relations stated by the items of a reply.
pub fn relations_from_items(items: &Vec<JsonValue>) -> (r: Vec<ExtractedRelation>)
    ensures
        relation_views(r@) == relations_of(items@),
{
    let mut out: Vec<ExtractedRelation> = Vec::new();
    for i in 0..items.len()
        invariant
            relation_views(out@) == relations_of(items@.take(i as int)),
    {
        assert(items@.take(i + 1).drop_last() == items@.take(i as int));
        assert(items@.take(i + 1).last() == items@[i as int]);
        match relation_from_item(&items[i]) {
            Some(x) => {
                out.push(x);
                assert(relation_views(out@) == relation_views(out@.drop_last()).push(out@.last()@));
            },
            None => {},
        }
    }
    assert(items@.take(items.len() as int) == items@);
    out
}

/// The relations stated in the model's reply to the relation prompt.
pub fn relations_from_response(response: &str) -> (r: Vec<ExtractedRelation>)
    requires
        enclosed_ok(response@, '[', ']'),
    ensures
        relation_views(r@) == relations_of(value_list(response@)),
{
    let items = parse_json_value_array(response);
    relations_from_items(&items)
}


// ── Talking to the language model ─────────────────────────────────────

/// Where and how to call the language model: the provider's API flavour, the
/// endpoint, the model name and the header that carries the key, if any.
#[derive(Debug)]
pub struct LlmEndpoint {
    pub is_anthropic: bool,
    pub url: String,
    pub model: String,
    pub auth_header: Option<(String, String)>,
}

/// The base URL: the configured one without trailing `/`, else the provider's default.
pub open spec fn llm_base(config: LlmConfig) -> Seq<char> {
    if config.base_url@.len() == 0 {
        if config.provider@ == "openai"@ {
            "https://api.openai.com"@
        } else if config.provider@ == "anthropic"@ {
            "https://api.anthropic.com"@
        } else {
            "http://127.0.0.1:11434"@
        }
    } else {
        trim_end(config.base_url@, '/')
    }
}

/// The model: the configured one; else, for an OpenAI-compatible API, the
/// local default. For Anthropic no default is named here: the model stays
/// empty and has to be configured.
pub open spec fn llm_model(config: LlmConfig) -> Seq<char> {
    if config.model@.len() == 0 {
        if config.provider@ == "anthropic"@ { Seq::empty() } else { "qwen2.5:32b"@ }
    } else {
        config.model@
    }
}

/// The endpoint: Anthropic's messages API, or the OpenAI-compatible chat API.
pub open spec fn llm_url(config: LlmConfig) -> Seq<char> {
    llm_base(config) + if config.provider@ == "anthropic"@ {
        "/v1/messages"@
    } else {
        "/v1/chat/completions"@
    }
}

/// The header that carries the key: none without a key; `x-api-key` for
/// Anthropic; `authorization: Bearer <key>` otherwise.
pub open spec fn llm_auth(config: LlmConfig) -> Option<(Seq<char>, Seq<char>)> {
    if config.api_key@.len() == 0 {
        None
    } else if config.provider@ == "anthropic"@ {
        Some(("x-api-key"@, config.api_key@))
    } else {
        Some(("authorization"@, "Bearer "@ + config.api_key@))
    }
}

/// Where the language model is called: Anthropic's messages API at
/// api.anthropic.com for the `anthropic` provider, the OpenAI-compatible chat
/// API at api.openai.com for `openai` and at 127.0.0.1:11434 for any other
/// provider, unless a base URL is configured (its trailing `/` dropped); the
/// configured model, else `qwen2.5:32b` outside Anthropic; the key sent as
/// `x-api-key` to Anthropic and as a bearer token elsewhere, and no header
/// without a key.
pub proof fn lemma_llm_endpoints(config: LlmConfig)
    ensures
        config.base_url@.len() == 0 && config.provider@ == "anthropic"@
            ==> llm_url(config) == "https://api.anthropic.com/v1/messages"@,
        config.base_url@.len() == 0 && config.provider@ == "openai"@
            ==> llm_url(config) == "https://api.openai.com/v1/chat/completions"@,
        config.base_url@.len() == 0 && config.provider@ != "openai"@ && config.provider@ != "anthropic"@
            ==> llm_url(config) == "http://127.0.0.1:11434/v1/chat/completions"@,
        config.base_url@.len() > 0 && config.provider@ == "anthropic"@
            ==> llm_url(config) == trim_end(config.base_url@, '/') + "/v1/messages"@,
        config.base_url@.len() > 0 && config.provider@ != "anthropic"@
            ==> llm_url(config) == trim_end(config.base_url@, '/') + "/v1/chat/completions"@,
        config.model@.len() > 0 ==> llm_model(config) == config.model@,
        config.model@.len() == 0 && config.provider@ != "anthropic"@ ==> llm_model(config) == "qwen2.5:32b"@,
        config.api_key@.len() == 0 ==> llm_auth(config) is None,
        config.api_key@.len() > 0 && config.provider@ == "anthropic"@
            ==> llm_auth(config) == Some(("x-api-key"@, config.api_key@)),
        config.api_key@.len() > 0 && config.provider@ != "anthropic"@
            ==> llm_auth(config) == Some(("authorization"@, "Bearer "@ + config.api_key@)),
{
    reveal_strlit("openai");
    reveal_strlit("anthropic");
    assert("openai"@[0] != "anthropic"@[0]);
    reveal_strlit("https://api.anthropic.com");
    reveal_strlit("https://api.openai.com");
    reveal_strlit("http://127.0.0.1:11434");
    reveal_strlit("/v1/messages");
    reveal_strlit("/v1/chat/completions");
    reveal_strlit("https://api.anthropic.com/v1/messages");
    reveal_strlit("https://api.openai.com/v1/chat/completions");
    reveal_strlit("http://127.0.0.1:11434/v1/chat/completions");
    assert("https://api.anthropic.com"@ + "/v1/messages"@ =~= "https://api.anthropic.com/v1/messages"@);
    assert("https://api.openai.com"@ + "/v1/chat/completions"@ =~= "https://api.openai.com/v1/chat/completions"@);
    assert("http://127.0.0.1:11434"@ + "/v1/chat/completions"@ =~= "http://127.0.0.1:11434/v1/chat/completions"@);
}

/// Where and how to call the configured language model.
pub fn llm_endpoint(config: &LlmConfig) -> (e: LlmEndpoint)
    ensures
        e.is_anthropic == (config.provider@ == "anthropic"@),
        e.url@ == llm_url(*config),
        e.model@ == llm_model(*config),
        e.auth_header matches Some(h) ==> llm_auth(*config) == Some((h.0@, h.1@)),
        e.auth_header is None ==> llm_auth(*config) is None,
{
    let provider = chars_of(config.provider.as_str());
    let is_anthropic = chars_eq(&provider, &chars_of("anthropic"));
    let base: Vec<char> = if config.base_url.as_str().is_empty() {
        if chars_eq(&provider, &chars_of("openai")) {
            chars_of("https://api.openai.com")
        } else if is_anthropic {
            chars_of("https://api.anthropic.com")
        } else {
            chars_of("http://127.0.0.1:11434")
        }
    } else {
        trim_end_char(&chars_of(config.base_url.as_str()), '/')
    };
    let model = if config.model.as_str().is_empty() {
        if is_anthropic { String::new() } else { "qwen2.5:32b".to_owned() }
    } else {
        config.model.clone()
    };
    let mut url = base;
    if is_anthropic {
        push_all(&mut url, &chars_of("/v1/messages"));
    } else {
        push_all(&mut url, &chars_of("/v1/chat/completions"));
    }
    let auth_header = if config.api_key.as_str().is_empty() {
        None
    } else if is_anthropic {
        Some(("x-api-key".to_owned(), config.api_key.clone()))
    } else {
        let mut value = chars_of("Bearer ");
        push_all(&mut value, &chars_of(config.api_key.as_str()));
        Some(("authorization".to_owned(), string_from_chars(&value)))
    };
    LlmEndpoint { is_anthropic, url: string_from_chars(&url), model, auth_header }
}

/// The text of a reply body, already parsed: Anthropic's `content[0].text`,
/// or the OpenAI-compatible `choices[0].message.content`; empty when absent.
pub open spec fn reply_text(is_anthropic: bool, data: JsonValue) -> Seq<char> {
    let found = if is_anthropic {
        match data.member("content"@) {
            Some(c) => match c.element(0) {
                Some(first) => member_text(first, "text"@),
                None => None,
            },
            None => None,
        }
    } else {
        match data.member("choices"@) {
            Some(c) => match c.element(0) {
                Some(first) => match first.member("message"@) {
                    Some(m) => member_text(m, "content"@),
                    None => None,
                },
                None => None,
            },
            None => None,
        }
    };
    match found {
        Some(t) => t,
        None => seq![],
    }
}

/// The text of a parsed reply body.
pub fn content_of_reply(is_anthropic: bool, data: &JsonValue) -> (r: String)
    ensures
        r@ == reply_text(is_anthropic, *data),
{
    proof {
        reveal_strlit("");
    }
    let found = if is_anthropic {
        match data.get("content") {
            Some(c) => match c.at(0) {
                Some(first) => get_text(first, "text"),
                None => None,
            },
            None => None,
        }
    } else {
        match data.get("choices") {
            Some(c) => match c.at(0) {
                Some(first) => match first.get("message") {
                    Some(m) => get_text(m, "content"),
                    None => None,
                },
                None => None,
            },
            None => None,
        }
    };
    match found {
        Some(t) => t,
        None => "".to_owned(),
    }
}

/// The text of a reply body; `None` when the body is not JSON.
pub fn response_content(is_anthropic: bool, body: &str) -> (r: Option<String>)
    ensures
        spec_parse_json(body@) is None ==> r is None,
        spec_parse_json(body@) matches Some(data) ==> (r matches Some(t) && t@ == reply_text(is_anthropic, data)),
{
    match parse_json(body) {
        Some(data) => Some(content_of_reply(is_anthropic, &data)),
        None => None,
    }
}

} // verus!
