use biscuits::json::Json;
use biscuits::memory::{categorize, sensitivity, PrivacyMode};
use biscuits::recall::{memory_records_of, retrieval_candidates, select_memories, MemoryRecord, MAX_SELECTED};

fn rec(text: &str, sensitivity: &str, active: bool) -> MemoryRecord {
    MemoryRecord {
        text: text.to_string(),
        kind: "semantic_fact".to_string(),
        category: "general".to_string(),
        sensitivity: sensitivity.to_string(),
        entities: Vec::new(),
        active,
    }
}

fn obj(members: Vec<(&str, Json)>) -> Json {
    let mut m: Vec<(String, Json)> = members.into_iter().map(|(k, v)| (k.to_string(), v)).collect();
    m.sort_by(|a, b| a.0.cmp(&b.0));
    Json::Object(m)
}

fn js(s: &str) -> Json {
    Json::Str(s.to_string())
}

#[test]
fn candidates_follow_privacy() {
    let mems = vec![
        rec("a fact about the project", "normal", true),
        rec("a retired fact", "normal", false),
        rec("a secret", "restricted", true),
        rec("a health note", "sensitive", true),
    ];
    assert_eq!(retrieval_candidates(&mems, PrivacyMode::Normal), vec![0, 3]);
    assert_eq!(retrieval_candidates(&mems, PrivacyMode::Ephemeral), vec![0]);
    assert!(retrieval_candidates(&mems, PrivacyMode::Incognito).is_empty());
}

#[test]
fn selection_spends_the_budget_in_rank_order() {
    // Costs: 8 bytes -> 2 tokens; 40 bytes -> 10 tokens; 4 bytes -> 1 token.
    let mems = vec![rec("12345678", "normal", true), rec(&"x".repeat(40), "normal", true), rec("abcd", "normal", true)];
    assert_eq!(select_memories(&[1, 0, 2], &mems, 3), vec![0, 2]);
    assert_eq!(select_memories(&[1, 0, 2], &mems, 13), vec![1, 0, 2]);
    assert_eq!(select_memories(&[1, 0, 2], &mems, 0), Vec::<usize>::new());
    let many: Vec<MemoryRecord> = (0..20).map(|_| rec("abcd", "normal", true)).collect();
    let ranked: Vec<usize> = (0..20).collect();
    assert_eq!(select_memories(&ranked, &many, 1000).len(), MAX_SELECTED);
}

#[test]
fn extraction_replies_are_read() {
    let reply = obj(vec![
        (
            "memories",
            Json::Array(vec![
                obj(vec![
                    ("text", js("  The user prefers Rust for backend work  ")),
                    ("entities", Json::Array(vec![js("Rust"), Json::Null])),
                ]),
                obj(vec![("text", js("ok"))]),
                obj(vec![("text", js("the wifi password is hunter22")), ("kind", js("x"))]),
                obj(vec![("text", js("Deploys run every Friday at noon")), ("kind", js("episodic")), ("category", js("work"))]),
            ]),
        ),
        ("entities", Json::Array(vec![obj(vec![("name", js("Rust"))]), obj(vec![("kind", js("x"))])])),
        (
            "edges",
            Json::Array(vec![obj(vec![("from", js("A")), ("to", js("B"))]), obj(vec![("from", js("")), ("to", js("B"))])]),
        ),
    ]);
    let r = memory_records_of(&reply);
    assert_eq!(r.memories.len(), 2);
    let m = &r.memories[0];
    assert_eq!(m.text, "The user prefers Rust for backend work");
    assert_eq!(m.kind, "semantic_fact");
    assert_eq!(m.category, categorize(&m.text));
    assert_eq!(m.sensitivity, sensitivity(&m.text));
    assert_eq!(m.entities, Some(vec!["Rust".to_string()]));
    let d = &r.memories[1];
    assert_eq!((d.kind.as_str(), d.category.as_str()), ("episodic", "work"));
    assert_eq!(d.entities, None);
    assert_eq!(r.entities, vec![("Rust".to_string(), "topic".to_string())]);
    assert_eq!(r.edges, vec![("A".to_string(), "B".to_string(), "related_to".to_string())]);
    assert!(memory_records_of(&Json::Null).memories.is_empty());
}
