//! The memory graph's rules that need no arithmetic on scores: which stored
//! memories retrieval may consider, which ranked memories fit the context
//! budget, and what an extraction reply asks to be stored. The relevance
//! scores themselves (TF-IDF and cosine similarity over floats) are the
//! program's.

use vstd::prelude::*;
use crate::json::{as_str, get, str_member, trees_of, Json, JsonTree};
use crate::llm::{estimate_spec, estimate_tokens};
use crate::memory::{
    categorize, category_spec, contains_restricted, durable, durable_spec, restricted_spec, sensitivity,
    sensitivity_spec, PrivacyMode,
};
use crate::observations::byte_count;
use crate::text::{chars_eq_str, chars_of, string_of, trim, trim_str};

verus! {

broadcast use vstd::string::group_string_axioms;

/// What retrieval reads of a stored memory.
pub struct MemoryRecord {
    pub text: String,
    pub kind: String,
    pub category: String,
    pub sensitivity: String,
    pub entities: Vec<String>,
    pub active: bool,
}

// ---------------------------------------------------------------------------
// Candidates
// ---------------------------------------------------------------------------

/// A memory retrieval may consider under `privacy`: active, not restricted,
/// and not sensitive unless privacy is normal.
pub open spec fn is_candidate(m: MemoryRecord, privacy: PrivacyMode) -> bool {
    &&& m.active
    &&& m.sensitivity@ != "restricted"@
    &&& (privacy == PrivacyMode::Normal || m.sensitivity@ != "sensitive"@)
}

/// The indices, in order, of the candidates among the first `n` memories.
pub open spec fn candidates_upto(mems: Seq<MemoryRecord>, privacy: PrivacyMode, n: int) -> Seq<usize>
    decreases n,
{
    if n <= 0 {
        Seq::empty()
    } else {
        candidates_upto(mems, privacy, n - 1) + if is_candidate(mems[n - 1], privacy) {
            seq![(n - 1) as usize]
        } else {
            Seq::empty()
        }
    }
}

/// The memories retrieval ranks: none at all in incognito, else every
/// candidate, in stored order.
pub open spec fn candidates_spec(mems: Seq<MemoryRecord>, privacy: PrivacyMode) -> Seq<usize> {
    if privacy == PrivacyMode::Incognito {
        Seq::empty()
    } else {
        candidates_upto(mems, privacy, mems.len() as int)
    }
}

/// The indices of the memories retrieval may rank.
pub fn retrieval_candidates(mems: &[MemoryRecord], privacy: PrivacyMode) -> (r: Vec<usize>)
    ensures
        r@ == candidates_spec(mems@, privacy),
{
    let mut out: Vec<usize> = Vec::new();
    if privacy == PrivacyMode::Incognito {
        return out;
    }
    let mut i: usize = 0;
    while i < mems.len()
        invariant
            i <= mems@.len(),
            privacy != PrivacyMode::Incognito,
            out@ == candidates_upto(mems@, privacy, i as int),
        decreases mems@.len() - i,
    {
        let m = &mems[i];
        let s = chars_of(m.sensitivity.as_str());
        let keep = m.active && !chars_eq_str(s.as_slice(), "restricted")
            && (privacy == PrivacyMode::Normal || !chars_eq_str(s.as_slice(), "sensitive"));
        let ghost before = out@;
        if keep {
            out.push(i);
            assert(out@ =~= before + seq![i]);
        } else {
            assert(out@ =~= before + Seq::<usize>::empty());
        }
        i += 1;
    }
    out
}

// ---------------------------------------------------------------------------
// Selection under a budget
// ---------------------------------------------------------------------------

/// At most this many memories are injected.
pub const MAX_SELECTED: usize = 12;

/// The estimated token cost of a memory: its text's UTF-8 length over four,
/// rounded up.
pub open spec fn memory_cost(m: MemoryRecord) -> nat {
    estimate_spec(byte_count(m.text@) as nat)
}

/// Walking the ranking best first: each memory whose cost fits what is left
/// of `budget` is taken and its cost spent; the rest are passed over; the
/// walk stops once `room` memories are taken.
pub open spec fn select_spec(ranked: Seq<usize>, mems: Seq<MemoryRecord>, budget: nat, room: nat) -> Seq<usize>
    decreases ranked.len(),
{
    if ranked.len() == 0 || room == 0 {
        Seq::empty()
    } else {
        let i = ranked[0];
        let cost = memory_cost(mems[i as int]);
        if cost <= budget {
            seq![i] + select_spec(ranked.drop_first(), mems, (budget - cost) as nat, (room - 1) as nat)
        } else {
            select_spec(ranked.drop_first(), mems, budget, room)
        }
    }
}

/// The memories injected into the context: the ranking (best first, indices
/// into `mems`) cut down to what fits `budget` tokens, at most
/// [`MAX_SELECTED`] of them.
pub fn select_memories(ranked: &[usize], mems: &[MemoryRecord], budget: usize) -> (r: Vec<usize>)
    requires
        forall|k: int| 0 <= k < ranked@.len() ==> #[trigger] ranked@[k] < mems@.len(),
    ensures
        r@ == select_spec(ranked@, mems@, budget as nat, MAX_SELECTED as nat),
{
    let mut out: Vec<usize> = Vec::new();
    let mut left: usize = budget;
    let mut k: usize = 0;
    assert(ranked@.skip(0) =~= ranked@);
    while k < ranked.len() && out.len() < MAX_SELECTED
        invariant
            k <= ranked@.len(),
            out@.len() <= MAX_SELECTED,
            left <= budget,
            forall|j: int| 0 <= j < ranked@.len() ==> #[trigger] ranked@[j] < mems@.len(),
            out@ + select_spec(ranked@.skip(k as int), mems@, left as nat, (MAX_SELECTED - out@.len()) as nat)
                == select_spec(ranked@, mems@, budget as nat, MAX_SELECTED as nat),
        decreases ranked@.len() - k,
    {
        let i = ranked[k];
        let ghost rest = ranked@.skip(k as int);
        assert(rest[0] == i);
        assert(rest.drop_first() =~= ranked@.skip(k + 1));
        let bytes = mems[i].text.as_str().len();
        let cost = estimate_tokens(bytes);
        assert(cost == memory_cost(mems@[i as int]));
        if cost <= left as u64 {
            left = left - cost as usize;
            let ghost before = out@;
            out.push(i);
            assert(out@ == before + seq![i]);
            assert(before + seq![i] + select_spec(ranked@.skip(k + 1), mems@, left as nat, (MAX_SELECTED - out@.len()) as nat)
                =~= before + (seq![i] + select_spec(ranked@.skip(k + 1), mems@, left as nat, (MAX_SELECTED - out@.len()) as nat)));
        }
        k += 1;
    }
    proof {
        let rest = ranked@.skip(k as int);
        if k == ranked@.len() {
            assert(rest.len() == 0);
        }
        assert(select_spec(rest, mems@, left as nat, (MAX_SELECTED - out@.len()) as nat) =~= Seq::<usize>::empty());
        assert(out@ + Seq::<usize>::empty() =~= out@);
    }
    out
}

// ---------------------------------------------------------------------------
// Extraction replies
// ---------------------------------------------------------------------------

/// A memory an extraction reply asks to store.
pub struct NewMemory {
    pub text: String,
    pub kind: String,
    pub category: String,
    pub sensitivity: String,
    /// The entities the reply names, or none when they are to be found in
    /// the text.
    pub entities: Option<Vec<String>>,
}

/// What an extraction reply asks to store: memories, entities (name and
/// kind) and edges (from, to, relation).
pub struct Ingested {
    pub memories: Vec<NewMemory>,
    pub entities: Vec<(String, String)>,
    pub edges: Vec<(String, String, String)>,
}

pub struct NewMemoryView {
    pub text: Seq<char>,
    pub kind: Seq<char>,
    pub category: Seq<char>,
    pub sensitivity: Seq<char>,
    pub entities: Option<Seq<Seq<char>>>,
}

pub struct IngestedView {
    pub memories: Seq<NewMemoryView>,
    pub entities: Seq<(Seq<char>, Seq<char>)>,
    pub edges: Seq<(Seq<char>, Seq<char>, Seq<char>)>,
}

pub open spec fn strings_of(v: Seq<String>) -> Seq<Seq<char>> {
    v.map_values(|s: String| s@)
}

pub open spec fn new_memory_view(m: NewMemory) -> NewMemoryView {
    NewMemoryView {
        text: m.text@,
        kind: m.kind@,
        category: m.category@,
        sensitivity: m.sensitivity@,
        entities: match m.entities {
            Some(v) => Some(strings_of(v@)),
            None => None,
        },
    }
}

pub open spec fn ingested_view(r: Ingested) -> IngestedView {
    IngestedView {
        memories: r.memories@.map_values(|m: NewMemory| new_memory_view(m)),
        entities: r.entities@.map_values(|e: (String, String)| (e.0@, e.1@)),
        edges: r.edges@.map_values(|e: (String, String, String)| (e.0@, e.1@, e.2@)),
    }
}

pub open spec fn or_default(o: Option<Seq<char>>, d: Seq<char>) -> Seq<char> {
    match o {
        Some(s) => s,
        None => d,
    }
}

/// The strings among `items`, as they are.
pub open spec fn plain_strings(items: Seq<JsonTree>) -> Seq<Seq<char>>
    decreases items.len(),
{
    if items.len() == 0 {
        Seq::empty()
    } else {
        plain_strings(items.drop_last()) + match as_str(items.last()) {
            Some(s) => seq![s],
            None => Seq::empty(),
        }
    }
}

/// The memory one item of `memories` asks for: its trimmed text, unless the
/// text is trivial or looks secret; the kind (`semantic_fact`), category and
/// sensitivity it names, else those the text implies; the entities it lists.
pub open spec fn memory_item_spec(item: JsonTree) -> Option<NewMemoryView> {
    let text = trim(or_default(str_member(item, "text"@), Seq::empty()));
    if !durable_spec(text) || restricted_spec(text) {
        None
    } else {
        Some(NewMemoryView {
            text,
            kind: or_default(str_member(item, "kind"@), "semantic_fact"@),
            category: or_default(str_member(item, "category"@), category_spec(text)),
            sensitivity: or_default(str_member(item, "sensitivity"@), sensitivity_spec(text)),
            entities: match get(item, "entities"@) {
                Some(JsonTree::Array(xs)) => Some(plain_strings(xs)),
                _ => None,
            },
        })
    }
}

pub open spec fn memory_items_spec(items: Seq<JsonTree>) -> Seq<NewMemoryView>
    decreases items.len(),
{
    if items.len() == 0 {
        Seq::empty()
    } else {
        memory_items_spec(items.drop_last()) + match memory_item_spec(items.last()) {
            Some(m) => seq![m],
            None => Seq::empty(),
        }
    }
}

/// The entities listed: each item with a string `name`, and its `kind`
/// (`topic` when absent).
pub open spec fn entity_items_spec(items: Seq<JsonTree>) -> Seq<(Seq<char>, Seq<char>)>
    decreases items.len(),
{
    if items.len() == 0 {
        Seq::empty()
    } else {
        entity_items_spec(items.drop_last()) + match str_member(items.last(), "name"@) {
            Some(n) => seq![(n, or_default(str_member(items.last(), "kind"@), "topic"@))],
            None => Seq::empty(),
        }
    }
}

/// The edges listed: each item whose `from` and `to` are non-empty, with
/// its `relation` (`related_to` when absent).
pub open spec fn edge_items_spec(items: Seq<JsonTree>) -> Seq<(Seq<char>, Seq<char>, Seq<char>)>
    decreases items.len(),
{
    if items.len() == 0 {
        Seq::empty()
    } else {
        let e = items.last();
        let from = or_default(str_member(e, "from"@), Seq::empty());
        let to = or_default(str_member(e, "to"@), Seq::empty());
        edge_items_spec(items.drop_last()) + if from.len() > 0 && to.len() > 0 {
            seq![(from, to, or_default(str_member(e, "relation"@), "related_to"@))]
        } else {
            Seq::empty()
        }
    }
}

pub open spec fn array_of(v: Option<JsonTree>) -> Seq<JsonTree> {
    match v {
        Some(JsonTree::Array(xs)) => xs,
        _ => Seq::empty(),
    }
}

/// What an extraction reply asks to store, read from its `memories`,
/// `entities` and `edges` arrays.
pub open spec fn ingest_spec(reply: JsonTree) -> IngestedView {
    IngestedView {
        memories: memory_items_spec(array_of(get(reply, "memories"@))),
        entities: entity_items_spec(array_of(get(reply, "entities"@))),
        edges: edge_items_spec(array_of(get(reply, "edges"@))),
    }
}

fn str_or(item: &Json, key: &str, default: &str) -> (s: String)
    ensures
        s@ == or_default(str_member(item@, key@), default@),
{
    match item.get(key) {
        Some(v) => match v.as_str() {
            Some(t) => String::from_str(t),
            None => String::from_str(default),
        },
        None => String::from_str(default),
    }
}

fn items_of(v: Option<&Json>) -> (r: &[Json])
    ensures
        trees_of(r@) == array_of(match v {
            Some(j) => Some(j@),
            None => None,
        }),
        trees_of(r@).len() == r@.len(),
        forall|i: int| 0 <= i < r@.len() ==> #[trigger] trees_of(r@)[i] == r@[i]@,
{
    match v {
        Some(j) => match j.as_array() {
            Some(items) => items.as_slice(),
            None => {
                proof {
                    crate::json::lemma_trees_of(Seq::<Json>::empty());
                    assert(trees_of(Seq::<Json>::empty()) =~= Seq::<JsonTree>::empty());
                }
                &[]
            },
        },
        None => {
            proof {
                crate::json::lemma_trees_of(Seq::<Json>::empty());
                assert(trees_of(Seq::<Json>::empty()) =~= Seq::<JsonTree>::empty());
            }
            &[]
        },
    }
}

fn plain_string_vec(items: &[Json]) -> (out: Vec<String>)
    requires
        trees_of(items@).len() == items@.len(),
        forall|i: int| 0 <= i < items@.len() ==> #[trigger] trees_of(items@)[i] == items@[i]@,
    ensures
        strings_of(out@) == plain_strings(trees_of(items@)),
{
    let ghost ts = trees_of(items@);
    let mut out: Vec<String> = Vec::new();
    let mut i: usize = 0;
    while i < items.len()
        invariant
            i <= items@.len(),
            ts == trees_of(items@),
            ts.len() == items@.len(),
            forall|k: int| 0 <= k < items@.len() ==> #[trigger] ts[k] == items@[k]@,
            strings_of(out@) == plain_strings(ts.take(i as int)),
        decreases items@.len() - i,
    {
        assert(ts.take(i + 1).drop_last() =~= ts.take(i as int));
        assert(ts.take(i + 1).last() == items@[i as int]@);
        let ghost before = strings_of(out@);
        match items[i].as_str() {
            Some(s) => {
                out.push(String::from_str(s));
                assert(strings_of(out@) =~= before + seq![s@]);
            },
            None => {
                assert(strings_of(out@) =~= before + Seq::<Seq<char>>::empty());
            },
        }
        i += 1;
    }
    assert(ts.take(i as int) =~= ts);
    out
}

fn memory_item(item: &Json) -> (r: Option<NewMemory>)
    ensures
        match r {
            Some(m) => memory_item_spec(item@) == Some(new_memory_view(m)),
            None => memory_item_spec(item@) is None,
        },
{
    let raw = str_or(item, "text", "");
    proof {
        reveal_strlit("");
        assert(""@ =~= Seq::<char>::empty());
    }
    let t = trim_str(raw.as_str());
    let text = string_of(t.as_slice());
    if !durable(text.as_str()) || contains_restricted(text.as_str()) {
        return None;
    }
    let kind = str_or(item, "kind", "semantic_fact");
    let category = str_or(item, "category", categorize(text.as_str()));
    let sens = str_or(item, "sensitivity", sensitivity(text.as_str()));
    let entities = match item.get("entities") {
        Some(v) => match v.as_array() {
            Some(xs) => Some(plain_string_vec(xs.as_slice())),
            None => None,
        },
        None => None,
    };
    Some(NewMemory { text, kind, category, sensitivity: sens, entities })
}

/// Read an extraction reply: the memories, entities and edges it asks to
/// store.
pub fn memory_records_of(reply: &Json) -> (r: Ingested)
    ensures
        ingested_view(r) == ingest_spec(reply@),
{
    let mems = items_of(reply.get("memories"));
    let ghost ms = trees_of(mems@);
    let mut memories: Vec<NewMemory> = Vec::new();
    let mut i: usize = 0;
    while i < mems.len()
        invariant
            i <= mems@.len(),
            ms == trees_of(mems@),
            ms.len() == mems@.len(),
            forall|k: int| 0 <= k < mems@.len() ==> #[trigger] ms[k] == mems@[k]@,
            memories@.map_values(|m: NewMemory| new_memory_view(m)) == memory_items_spec(ms.take(i as int)),
        decreases mems@.len() - i,
    {
        assert(ms.take(i + 1).drop_last() =~= ms.take(i as int));
        assert(ms.take(i + 1).last() == mems@[i as int]@);
        let ghost before = memories@.map_values(|m: NewMemory| new_memory_view(m));
        match memory_item(&mems[i]) {
            Some(m) => {
                let ghost mv = new_memory_view(m);
                memories.push(m);
                assert(memories@.map_values(|m: NewMemory| new_memory_view(m)) =~= before + seq![mv]);
            },
            None => {
                assert(memories@.map_values(|m: NewMemory| new_memory_view(m)) =~= before + Seq::<NewMemoryView>::empty());
            },
        }
        i += 1;
    }
    assert(ms.take(i as int) =~= ms);

    let ents = items_of(reply.get("entities"));
    let ghost es = trees_of(ents@);
    let mut entities: Vec<(String, String)> = Vec::new();
    let mut j: usize = 0;
    while j < ents.len()
        invariant
            j <= ents@.len(),
            es == trees_of(ents@),
            es.len() == ents@.len(),
            forall|k: int| 0 <= k < ents@.len() ==> #[trigger] es[k] == ents@[k]@,
            entities@.map_values(|e: (String, String)| (e.0@, e.1@)) == entity_items_spec(es.take(j as int)),
        decreases ents@.len() - j,
    {
        assert(es.take(j + 1).drop_last() =~= es.take(j as int));
        assert(es.take(j + 1).last() == ents@[j as int]@);
        let ghost before = entities@.map_values(|e: (String, String)| (e.0@, e.1@));
        match ents[j].get("name") {
            Some(nv) => match nv.as_str() {
                Some(n) => {
                    let kind = str_or(&ents[j], "kind", "topic");
                    let ghost ev = (n@, kind@);
                    entities.push((String::from_str(n), kind));
                    assert(entities@.map_values(|e: (String, String)| (e.0@, e.1@)) =~= before + seq![ev]);
                },
                None => {
                    assert(entities@.map_values(|e: (String, String)| (e.0@, e.1@)) =~= before + Seq::<(Seq<char>, Seq<char>)>::empty());
                },
            },
            None => {
                assert(entities@.map_values(|e: (String, String)| (e.0@, e.1@)) =~= before + Seq::<(Seq<char>, Seq<char>)>::empty());
            },
        }
        j += 1;
    }
    assert(es.take(j as int) =~= es);

    let eds = items_of(reply.get("edges"));
    let ghost ds = trees_of(eds@);
    let mut edges: Vec<(String, String, String)> = Vec::new();
    let mut k: usize = 0;
    proof {
        reveal_strlit("");
        assert(""@ =~= Seq::<char>::empty());
    }
    while k < eds.len()
        invariant
            k <= eds@.len(),
            ds == trees_of(eds@),
            ds.len() == eds@.len(),
            forall|q: int| 0 <= q < eds@.len() ==> #[trigger] ds[q] == eds@[q]@,
            ""@ == Seq::<char>::empty(),
            edges@.map_values(|e: (String, String, String)| (e.0@, e.1@, e.2@)) == edge_items_spec(ds.take(k as int)),
        decreases eds@.len() - k,
    {
        assert(ds.take(k + 1).drop_last() =~= ds.take(k as int));
        assert(ds.take(k + 1).last() == eds@[k as int]@);
        let ghost before = edges@.map_values(|e: (String, String, String)| (e.0@, e.1@, e.2@));
        let from = str_or(&eds[k], "from", "");
        let to = str_or(&eds[k], "to", "");
        if from.as_str().unicode_len() > 0 && to.as_str().unicode_len() > 0 {
            let rel = str_or(&eds[k], "relation", "related_to");
            let ghost ev = (from@, to@, rel@);
            edges.push((from, to, rel));
            assert(edges@.map_values(|e: (String, String, String)| (e.0@, e.1@, e.2@)) =~= before + seq![ev]);
        } else {
            assert(edges@.map_values(|e: (String, String, String)| (e.0@, e.1@, e.2@)) =~= before + Seq::<(Seq<char>, Seq<char>, Seq<char>)>::empty());
        }
        k += 1;
    }
    assert(ds.take(k as int) =~= ds);
    Ingested { memories, entities, edges }
}

} // verus!
