//! The decisions of the memory pipeline: gathering the memories similar to
//! new facts, showing them to the model under short integer ids, mapping its
//! decisions back to real ids, and reporting what was done.

use vstd::prelude::*;

use crate::extract::{DeduplicatedFact, FactAction};
use crate::graph::Relation;
use crate::text::{chars_eq, chars_of, decimal, decimal_string, digit_char, opt_view, push_all, string_from_chars};

verus! {

/// What one decision did: the memory it concerns, its text, and the event
/// (`ADD`, `UPDATE`, `DELETE`).
#[derive(Debug, Clone)]
pub struct AddResult {
    pub id: String,
    pub text: String,
    pub event: String,
}

impl View for AddResult {
    type V = (Seq<char>, Seq<char>, Seq<char>);

    open spec fn view(&self) -> Self::V {
        (self.id@, self.text@, self.event@)
    }
}

/// A pair of texts, as a view.
pub open spec fn pair_view(p: (String, String)) -> (Seq<char>, Seq<char>) {
    (p.0@, p.1@)
}

/// The pairs of a list, as views.
pub open spec fn pair_views(v: Seq<(String, String)>) -> Seq<(Seq<char>, Seq<char>)> {
    v.map_values(|p: (String, String)| pair_view(p))
}

// ── Gathering similar memories ────────────────────────────────────────

/// The id `id` is the id of one of the pairs.
pub open spec fn has_id(pairs: Seq<(Seq<char>, Seq<char>)>, id: Seq<char>) -> bool {
    exists|j: int| 0 <= j < pairs.len() && #[trigger] pairs[j].0 == id
}

/// The pairs, each id kept at its first occurrence only, in order.
pub open spec fn first_by_id(pairs: Seq<(Seq<char>, Seq<char>)>) -> Seq<(Seq<char>, Seq<char>)>
    decreases pairs.len(),
{
    if pairs.len() == 0 {
        seq![]
    } else {
        let prev = first_by_id(pairs.drop_last());
        if has_id(pairs.drop_last(), pairs.last().0) { prev } else { prev.push(pairs.last()) }
    }
}

/// The memories found for all the facts, in the order found, each once.
pub open spec fn gathered(found: Seq<Seq<(Seq<char>, Seq<char>)>>) -> Seq<(Seq<char>, Seq<char>)> {
    first_by_id(found.flatten())
}

/// Whether `id` is the id of one of the pairs.
pub fn contains_id(pairs: &Vec<(String, String)>, id: &str) -> (b: bool)
    ensures
        b == has_id(pair_views(pairs@), id@),
{
    let target = chars_of(id);
    for j in 0..pairs.len()
        invariant
            target@ == id@,
            forall|k: int| 0 <= k < j ==> pairs@[k].0@ != id@,
    {
        if chars_eq(&chars_of(pairs[j].0.as_str()), &target) {
            assert(pair_views(pairs@)[j as int].0 == id@);
            return true;
        }
    }
    assert forall|k: int| 0 <= k < pairs@.len() implies !(#[trigger] pair_views(pairs@)[k].0 == id@) by {
        assert(pair_views(pairs@)[k].0 == pairs@[k].0@);
    }
    false
}

proof fn lemma_has_id_push(s: Seq<(Seq<char>, Seq<char>)>, x: (Seq<char>, Seq<char>), id: Seq<char>)
    ensures
        has_id(s.push(x), id) == (has_id(s, id) || x.0 == id),
{
    if has_id(s.push(x), id) {
        let j = choose|j: int| 0 <= j < s.push(x).len() && #[trigger] s.push(x)[j].0 == id;
        if j < s.len() {
            assert(s[j].0 == id);
        }
    }
    if has_id(s, id) {
        let j = choose|j: int| 0 <= j < s.len() && #[trigger] s[j].0 == id;
        assert(s.push(x)[j].0 == id);
    }
    if x.0 == id {
        assert(s.push(x)[s.len() as int].0 == id);
    }
}

/// An id occurs among the first-occurrence pairs exactly when it occurs among the pairs.
proof fn lemma_first_by_id_ids(pairs: Seq<(Seq<char>, Seq<char>)>, id: Seq<char>)
    ensures
        has_id(first_by_id(pairs), id) == has_id(pairs, id),
    decreases pairs.len(),
{
    if pairs.len() > 0 {
        let init = pairs.drop_last();
        let x = pairs.last();
        assert(pairs == init.push(x));
        lemma_first_by_id_ids(init, id);
        lemma_has_id_push(init, x, id);
        if has_id(init, x.0) {
            if x.0 == id {
            }
        } else {
            lemma_has_id_push(first_by_id(init), x, id);
        }
    }
}

/// Gathering keeps every memory found, once: no id occurs twice, and an id
/// occurs in the result exactly when one of the searches found it.
pub proof fn lemma_gathered_unique(found: Seq<Seq<(Seq<char>, Seq<char>)>>)
    ensures
        forall|i: int, j: int| 0 <= i < j < gathered(found).len() ==> gathered(found)[i].0 != gathered(found)[j].0,
        forall|id: Seq<char>| has_id(gathered(found), id) == has_id(found.flatten(), id),
{
    lemma_first_by_id_distinct(found.flatten());
    assert forall|id: Seq<char>| has_id(gathered(found), id) == has_id(found.flatten(), id) by {
        lemma_first_by_id_ids(found.flatten(), id);
    }
}

proof fn lemma_first_by_id_distinct(pairs: Seq<(Seq<char>, Seq<char>)>)
    ensures
        forall|i: int, j: int| 0 <= i < j < first_by_id(pairs).len() ==> first_by_id(pairs)[i].0 != first_by_id(pairs)[j].0,
    decreases pairs.len(),
{
    if pairs.len() > 0 {
        let init = pairs.drop_last();
        lemma_first_by_id_distinct(init);
        let prev = first_by_id(init);
        if !has_id(init, pairs.last().0) {
            assert forall|i: int, j: int| 0 <= i < j < first_by_id(pairs).len() implies first_by_id(pairs)[i].0
                != first_by_id(pairs)[j].0 by {
                if j == prev.len() {
                    if prev[i].0 == pairs.last().0 {
                        lemma_first_by_id_ids(init, pairs.last().0);
                        assert(has_id(prev, pairs.last().0));
                    }
                }
            }
        }
    }
}

/// The memories found for the facts, one list per fact, gathered: in the
/// order found, each id once.
pub fn gather_similar(found: &Vec<Vec<(String, String)>>) -> (r: Vec<(String, String)>)
    ensures
        pair_views(r@) == gathered(found@.map_values(|l: Vec<(String, String)>| pair_views(l@))),
{
    broadcast use vstd::seq_lib::group_seq_properties;

    let ghost all = found@.map_values(|l: Vec<(String, String)>| pair_views(l@));
    let mut out: Vec<(String, String)> = Vec::new();
    for i in 0..found.len()
        invariant
            all == found@.map_values(|l: Vec<(String, String)>| pair_views(l@)),
            pair_views(out@) == first_by_id(all.take(i as int).flatten()),
    {
        let list = &found[i];
        let ghost before = all.take(i as int).flatten();
        assert(all.take(i + 1) == all.take(i as int).push(pair_views(list@)));
        proof {
            all.take(i as int).lemma_flatten_push(pair_views(list@));
        }
        assert(all.take(i + 1).flatten() == before + pair_views(list@));
        for j in 0..list.len()
            invariant
                pair_views(out@) == first_by_id(before + pair_views(list@).take(j as int)),
        {
            let ghost cur = before + pair_views(list@).take(j as int);
            let ghost next = before + pair_views(list@).take(j + 1);
            assert(next.drop_last() == cur);
            assert(next.last() == pair_view(list@[j as int]));
            if !contains_id(&out, list[j].0.as_str()) {
                proof {
                    lemma_first_by_id_ids(cur, list@[j as int].0@);
                }
                out.push((list[j].0.clone(), list[j].1.clone()));
                assert(pair_views(out@) == pair_views(out@.drop_last()).push(pair_view(out@.last())));
            } else {
                proof {
                    lemma_first_by_id_ids(cur, list@[j as int].0@);
                }
            }
        }
        assert(pair_views(list@).take(list.len() as int) == pair_views(list@));
    }
    assert(all.take(found.len() as int) == all);
    out
}

// ── Short ids for the model ───────────────────────────────────────────

/// The memories as the model sees them: their position as id, and their text.
pub open spec fn numbered(existing: Seq<(Seq<char>, Seq<char>)>) -> Seq<(Seq<char>, Seq<char>)> {
    Seq::new(existing.len(), |i: int| (decimal(i as nat), existing[i].1))
}

/// The map back from short ids to real ids.
pub open spec fn id_map(existing: Seq<(Seq<char>, Seq<char>)>) -> Seq<(Seq<char>, Seq<char>)> {
    Seq::new(existing.len(), |i: int| (decimal(i as nat), existing[i].0))
}

/// Numbers the memories for the model (integer ids keep the model from
/// inventing ids): the memories under their short ids, and the map from
/// short ids back to real ids.
pub fn number_for_llm(existing: &Vec<(String, String)>) -> (r: (Vec<(String, String)>, Vec<(String, String)>))
    ensures
        pair_views(r.0@) == numbered(pair_views(existing@)),
        pair_views(r.1@) == id_map(pair_views(existing@)),
{
    let mut shown: Vec<(String, String)> = Vec::new();
    let mut map: Vec<(String, String)> = Vec::new();
    for i in 0..existing.len()
        invariant
            shown@.len() == i && map@.len() == i,
            forall|k: int| 0 <= k < i ==> #[trigger] pair_view(shown@[k]) == numbered(pair_views(existing@))[k],
            forall|k: int| 0 <= k < i ==> #[trigger] pair_view(map@[k]) == id_map(pair_views(existing@))[k],
    {
        let n = decimal_string(i as u128);
        shown.push((n.clone(), existing[i].1.clone()));
        map.push((n, existing[i].0.clone()));
    }
    assert(pair_views(shown@) =~= numbered(pair_views(existing@)));
    assert(pair_views(map@) =~= id_map(pair_views(existing@)));
    (shown, map)
}

/// The real id for a short id: the id the map gives it first; the short id
/// itself when the map does not know it.
pub open spec fn resolved(map: Seq<(Seq<char>, Seq<char>)>, short: Seq<char>) -> Seq<char>
    decreases map.len(),
{
    if map.len() == 0 {
        short
    } else if map[0].0 == short {
        map[0].1
    } else {
        resolved(map.drop_first(), short)
    }
}

/// The real id for a short id.
pub fn resolve_id(map: &Vec<(String, String)>, short: &str) -> (r: String)
    ensures
        r@ == resolved(pair_views(map@), short@),
{
    let target = chars_of(short);
    let mut i: usize = 0;
    assert(pair_views(map@).skip(0) == pair_views(map@));
    while i < map.len()
        invariant
            i <= map@.len(),
            target@ == short@,
            resolved(pair_views(map@), short@) == resolved(pair_views(map@).skip(i as int), short@),
        decreases map.len() - i,
    {
        let ghost rest = pair_views(map@).skip(i as int);
        assert(rest[0] == pair_view(map@[i as int]));
        assert(rest.drop_first() == pair_views(map@).skip(i + 1));
        if chars_eq(&chars_of(map[i].0.as_str()), &target) {
            return map[i].1.clone();
        }
        i = i + 1;
    }
    short.to_owned()
}

proof fn lemma_digit_injective(a: nat, b: nat)
    requires
        a < 10,
        b < 10,
        digit_char(a) == digit_char(b),
    ensures
        a == b,
{
}

/// Different numbers are written differently.
pub proof fn lemma_decimal_injective(a: nat, b: nat)
    requires
        decimal(a) == decimal(b),
    ensures
        a == b,
    decreases a,
{
    if a < 10 && b < 10 {
        assert(decimal(a) == seq![digit_char(a)]);
        assert(decimal(b) == seq![digit_char(b)]);
        assert(seq![digit_char(a)][0] == digit_char(a));
        assert(seq![digit_char(b)][0] == digit_char(b));
        assert(digit_char(a) == digit_char(b));
        lemma_digit_injective(a, b);
    } else if a >= 10 && b >= 10 {
        assert(decimal(a).drop_last() == decimal(a / 10));
        assert(decimal(b).drop_last() == decimal(b / 10));
        lemma_decimal_injective(a / 10, b / 10);
        assert(decimal(a).last() == digit_char(a % 10));
        assert(decimal(b).last() == digit_char(b % 10));
        lemma_digit_injective(a % 10, b % 10);
    } else if a < 10 {
        lemma_decimal_long(b);
    } else {
        lemma_decimal_long(a);
    }
}

proof fn lemma_decimal_long(n: nat)
    requires
        n >= 10,
    ensures
        decimal(n).len() >= 2,
    decreases n,
{
    assert(decimal(n) == decimal(n / 10).push(digit_char(n % 10)));
    if n / 10 >= 10 {
        lemma_decimal_long(n / 10);
    }
}

proof fn lemma_resolved_at(map: Seq<(Seq<char>, Seq<char>)>, i: int)
    requires
        0 <= i < map.len(),
        forall|k: int| 0 <= k < i ==> map[k].0 != map[i].0,
    ensures
        resolved(map, map[i].0) == map[i].1,
    decreases i,
{
    if i > 0 {
        assert(map[0].0 != map[i].0);
        assert(map.drop_first()[i - 1] == map[i]);
        assert forall|k: int| 0 <= k < i - 1 implies #[trigger] map.drop_first()[k].0 != map.drop_first()[i - 1].0 by {
            assert(map.drop_first()[k] == map[k + 1]);
        }
        lemma_resolved_at(map.drop_first(), i - 1);
    }
}

/// The model's short id for a memory maps back to that memory's real id.
pub proof fn lemma_short_ids_map_back(existing: Seq<(Seq<char>, Seq<char>)>, i: int)
    requires
        0 <= i < existing.len(),
    ensures
        numbered(existing)[i].1 == existing[i].1,
        resolved(id_map(existing), numbered(existing)[i].0) == existing[i].0,
{
    let map = id_map(existing);
    assert forall|k: int| 0 <= k < i implies map[k].0 != map[i].0 by {
        if map[k].0 == map[i].0 {
            lemma_decimal_injective(k as nat, i as nat);
        }
    }
    lemma_resolved_at(map, i);
}

// ── Acting on the decisions ───────────────────────────────────────────

/// An action to carry out: add a fact, or update or delete the memory with
/// the given (real) id.
#[derive(Debug)]
pub struct PlannedAction {
    pub action: FactAction,
    pub id: Option<String>,
    pub fact: String,
}

impl View for PlannedAction {
    type V = (FactAction, Option<Seq<char>>, Seq<char>);

    open spec fn view(&self) -> Self::V {
        (self.action, opt_view(self.id), self.fact@)
    }
}

/// The action a decision asks for: an addition; an update or a deletion of
/// the memory its short id maps back to; nothing for a fact already covered,
/// or for an update or deletion that names no memory.
pub open spec fn planned(d: (Seq<char>, FactAction, Option<Seq<char>>), map: Seq<(Seq<char>, Seq<char>)>) -> Option<(FactAction, Option<Seq<char>>, Seq<char>)> {
    match d.1 {
        FactAction::Add => Some((FactAction::Add, None, d.0)),
        FactAction::NoChange => None,
        _ => match d.2 {
            Some(short) => Some((d.1, Some(resolved(map, short)), d.0)),
            None => None,
        },
    }
}

/// The actions the decisions ask for, in order.
pub open spec fn plan(ds: Seq<(Seq<char>, FactAction, Option<Seq<char>>)>, map: Seq<(Seq<char>, Seq<char>)>) -> Seq<(FactAction, Option<Seq<char>>, Seq<char>)>
    decreases ds.len(),
{
    if ds.len() == 0 {
        seq![]
    } else {
        let prev = plan(ds.drop_last(), map);
        match planned(ds.last(), map) {
            Some(a) => prev.push(a),
            None => prev,
        }
    }
}

/// The actions the model's decisions ask for, with short ids mapped back.
pub fn plan_actions(decisions: &Vec<DeduplicatedFact>, map: &Vec<(String, String)>) -> (r: Vec<PlannedAction>)
    ensures
        r@.map_values(|a: PlannedAction| a@) == plan(
            decisions@.map_values(|d: DeduplicatedFact| d@),
            pair_views(map@),
        ),
        forall|i: int| 0 <= i < r@.len() ==> (#[trigger] r@[i]).action != FactAction::NoChange,
{
    let ghost ds = decisions@.map_values(|d: DeduplicatedFact| d@);
    let mut out: Vec<PlannedAction> = Vec::new();
    for i in 0..decisions.len()
        invariant
            ds == decisions@.map_values(|d: DeduplicatedFact| d@),
            out@.map_values(|a: PlannedAction| a@) == plan(ds.take(i as int), pair_views(map@)),
            forall|k: int| 0 <= k < out@.len() ==> (#[trigger] out@[k]).action != FactAction::NoChange,
    {
        assert(ds.take(i + 1).drop_last() == ds.take(i as int));
        assert(ds.take(i + 1).last() == decisions@[i as int]@);
        let d = &decisions[i];
        let next = match d.action {
            FactAction::Add => Some(PlannedAction { action: FactAction::Add, id: None, fact: d.fact.clone() }),
            FactAction::NoChange => None,
            _ => match &d.existing_id {
                Some(short) => Some(
                    PlannedAction { action: d.action, id: Some(resolve_id(map, short.as_str())), fact: d.fact.clone() },
                ),
                None => None,
            },
        };
        match next {
            Some(a) => {
                out.push(a);
                assert(out@.map_values(|a: PlannedAction| a@) == out@.drop_last().map_values(|a: PlannedAction| a@).push(out@.last()@));
            },
            None => {},
        }
    }
    assert(ds.take(decisions.len() as int) == ds);
    out
}

/// The name of an event.
pub open spec fn event_name(a: FactAction) -> Seq<char> {
    match a {
        FactAction::Add => "ADD"@,
        FactAction::Update => "UPDATE"@,
        FactAction::Delete => "DELETE"@,
        FactAction::NoChange => "NONE"@,
    }
}

/// The events an add reports: ADD, UPDATE, DELETE, and NONE for a fact
/// that changed nothing.
pub proof fn lemma_event_names()
    ensures
        event_name(FactAction::Add) == "ADD"@,
        event_name(FactAction::Update) == "UPDATE"@,
        event_name(FactAction::Delete) == "DELETE"@,
        event_name(FactAction::NoChange) == "NONE"@,
{
}

/// The report of an action carried out on the memory with id `id`.
pub fn add_result(action: &PlannedAction, id: String) -> (r: AddResult)
    ensures
        r.id == id,
        r.text@ == action.fact@,
        r.event@ == event_name(action.action),
{
    let event = match action.action {
        FactAction::Add => "ADD".to_owned(),
        FactAction::Update => "UPDATE".to_owned(),
        FactAction::Delete => "DELETE".to_owned(),
        FactAction::NoChange => "NONE".to_owned(),
    };
    AddResult { id, text: action.fact.clone(), event }
}

// ── Search results ────────────────────────────────────────────────────

/// The id under which a graph relation is reported: `graph:` and its source.
pub open spec fn graph_hit_id_text(rel: (Seq<char>, Seq<char>, Seq<char>, i64, bool)) -> Seq<char> {
    "graph:"@ + rel.0
}

/// The text under which a graph relation is reported: source, relation and
/// destination, separated by spaces.
pub open spec fn graph_hit_text_of(rel: (Seq<char>, Seq<char>, Seq<char>, i64, bool)) -> Seq<char> {
    rel.0 + seq![' '] + rel.1 + seq![' '] + rel.2
}

/// The id under which a graph relation is reported.
pub fn graph_hit_id(rel: &Relation) -> (r: String)
    ensures
        r@ == graph_hit_id_text(rel@),
{
    let mut out = chars_of("graph:");
    push_all(&mut out, &chars_of(rel.source.as_str()));
    string_from_chars(&out)
}

/// The text under which a graph relation is reported.
pub fn graph_hit_text(rel: &Relation) -> (r: String)
    ensures
        r@ == graph_hit_text_of(rel@),
{
    let mut out = chars_of(rel.source.as_str());
    out.push(' ');
    push_all(&mut out, &chars_of(rel.relation.as_str()));
    out.push(' ');
    push_all(&mut out, &chars_of(rel.destination.as_str()));
    string_from_chars(&out)
}

/// The positions below `n` that start a run of equal texts.
pub open spec fn run_starts(texts: Seq<Seq<char>>, n: int) -> Seq<int>
    decreases n,
{
    if n <= 0 {
        seq![]
    } else {
        let prev = run_starts(texts, n - 1);
        if n - 1 == 0 || texts[n - 1] != texts[n - 2] { prev.push(n - 1) } else { prev }
    }
}

/// At most the first `limit` elements of `s`.
pub open spec fn at_most(s: Seq<int>, limit: nat) -> Seq<int> {
    if s.len() <= limit { s } else { s.take(limit as int) }
}

/// The positions of ranked results that are kept: a result whose text is that
/// of the result before it is dropped (`Vec::dedup_by` on the text), and at
/// most `limit` are kept (`Vec::truncate`).
pub open spec fn kept_positions(texts: Seq<Seq<char>>, limit: nat) -> Seq<int> {
    at_most(run_starts(texts, texts.len() as int), limit)
}

/// The positions of ranked results to keep.
pub fn dedup_positions(texts: &Vec<String>, limit: usize) -> (r: Vec<usize>)
    ensures
        r@.map_values(|i: usize| i as int) == kept_positions(crate::text::views(texts@), limit as nat),
{
    let ghost ts = crate::text::views(texts@);
    let mut out: Vec<usize> = Vec::new();
    for i in 0..texts.len()
        invariant
            ts == crate::text::views(texts@),
            out@.map_values(|i: usize| i as int) == at_most(run_starts(ts, i as int), limit as nat),
    {
        let ghost prev = run_starts(ts, i as int);
        let keep = i == 0 || texts[i] != texts[i - 1];
        if keep {
            assert(run_starts(ts, i + 1) == prev.push(i as int));
            if out.len() < limit {
                out.push(i);
                assert(out@.map_values(|i: usize| i as int) == out@.drop_last().map_values(|i: usize| i as int).push(i as int));
                assert(at_most(prev.push(i as int), limit as nat) == at_most(prev, limit as nat).push(i as int));
            } else {
                assert(at_most(prev.push(i as int), limit as nat) == at_most(prev, limit as nat));
            }
        } else {
            assert(run_starts(ts, i + 1) == prev);
        }
    }
    out
}

} // verus!
