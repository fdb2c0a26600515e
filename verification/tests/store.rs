//! Saving, listing, recalling and forgetting against an in-memory stand-in for
//! the agent's keyspace.

use std::collections::BTreeMap;

use vta_agent_memory::record::{Entry, Hit, KeyError, MemoryKey, MemoryRecord, MemoryType};
use vta_agent_memory::store::{EchoError, Item, Store};

fn entry(kind: MemoryType, name: &str, desc: &str) -> Entry {
    Entry {
        key: MemoryKey::new(kind, name).unwrap(),
        record: MemoryRecord::new(kind, name, desc, "body", vec![]),
    }
}

/// The record in a stored value, if it holds one.
fn read(value: &str) -> Option<MemoryRecord> {
    let v: serde_json::Value = serde_json::from_str(value).ok()?;
    let text = |name: &str| v.get(name).and_then(|x| x.as_str()).map(str::to_string);
    Some(MemoryRecord {
        v: v.get("v")?.as_u64()? as u8,
        name: text("name")?,
        kind: MemoryType::parse(&text("type")?)?,
        description: text("description")?,
        body: text("body")?,
        links: vec![],
        updated_at: text("updatedAt")?,
    })
}

/// Values by context and key: put upserts, a listing is of one context and in
/// key order, and deleting what is not there is refused.
#[derive(Default)]
struct Keyspace {
    entries: BTreeMap<(String, String), String>,
    asked: usize,
}

impl Keyspace {
    fn save(&mut self, store: &Store, record: &MemoryRecord) -> Result<MemoryKey, KeyError> {
        let request = store.save(record)?;
        self.asked += 1;
        let echoed = request.key.to_string();
        self.entries.insert(
            (request.context_id.clone(), echoed.clone()),
            request.value.clone(),
        );
        Ok(store.saved(request, &echoed).unwrap())
    }

    fn items(&self, store: &Store) -> Vec<Item> {
        self.entries
            .iter()
            .filter(|((context, _), _)| context == store.context_id())
            .map(|((_, key), value)| Item {
                key: key.clone(),
                value: value.clone(),
            })
            .collect()
    }

    fn list_of_type(&self, store: &Store, kind: Option<MemoryType>) -> Vec<Entry> {
        let found = store.list_of_type(self.items(store), kind);
        let parsed = found.iter().map(|f| read(&f.value)).collect();
        store.entries(found, parsed)
    }

    fn list(&self, store: &Store) -> Vec<Entry> {
        let found = store.list(self.items(store));
        let parsed = found.iter().map(|f| read(&f.value)).collect();
        store.entries(found, parsed)
    }

    fn recall(
        &self,
        store: &Store,
        query: &str,
        kind: Option<MemoryType>,
        limit: usize,
    ) -> Vec<Hit> {
        store.recall(self.list_of_type(store, kind), query, limit)
    }

    fn forget(&mut self, store: &Store, key: &MemoryKey) -> Result<(), String> {
        let request = store.forget(key);
        let text = request.key.to_string();
        match self.entries.remove(&(request.context_id.clone(), text.clone())) {
            Some(_) => store.forgotten(&request, &text).map_err(|e| e.to_string()),
            None => Err(format!("memory entry `{text}` not found")),
        }
    }
}

fn record(kind: MemoryType, name: &str, description: &str, body: &str) -> MemoryRecord {
    MemoryRecord::new(kind, name, description, body, vec![])
}

fn recall_locally(
    entries: Vec<Entry>,
    query: &str,
    kind: Option<MemoryType>,
    limit: usize,
) -> Vec<Hit> {
    let store = Store::new("proj");
    let mut space = Keyspace::default();
    for e in &entries {
        space.save(&store, &e.record).unwrap();
    }
    space.recall(&store, query, kind, limit)
}

#[test]
fn a_query_that_matches_nothing_returns_nothing() {
    let hits = recall_locally(
        vec![
            entry(MemoryType::Project, "Alpha", "one"),
            entry(MemoryType::Project, "Beta", "two"),
        ],
        "kubernetes",
        None,
        8,
    );
    assert!(hits.is_empty(), "no near-misses passed off as answers");
}

#[test]
fn an_empty_query_returns_the_context_up_to_the_limit() {
    let hits = recall_locally(
        (0..20)
            .map(|i| entry(MemoryType::User, &format!("m{i}"), "d"))
            .collect(),
        "",
        None,
        8,
    );
    assert_eq!(hits.len(), 8);
}

#[test]
fn the_type_filter_applies_before_ranking() {
    let hits = recall_locally(
        vec![
            entry(MemoryType::Project, "Gateway", "the gateway"),
            entry(MemoryType::Feedback, "Gateway rules", "about the gateway"),
        ],
        "gateway",
        Some(MemoryType::Feedback),
        8,
    );
    assert_eq!(hits.len(), 1);
    assert_eq!(hits[0].entry.key.kind, MemoryType::Feedback);
}

#[test]
fn a_saved_memory_comes_back_from_recall_and_get() {
    let store = Store::new("proj");
    let mut space = Keyspace::default();
    let key = space
        .save(
            &store,
            &record(
                MemoryType::Feedback,
                "No PR attribution",
                "Don't add tool trailers to commits or PRs",
                "The commit log is the team's record, not the tool's.",
            ),
        )
        .unwrap();
    assert_eq!(key.to_string(), "feedback/no-pr-attribution");

    let hits = space.recall(&store, "attribution", None, 8);
    assert_eq!(hits.len(), 1);
    assert_eq!(hits[0].entry.record.name, "No PR attribution");

    let full = store.get(space.list(&store), &key).expect("present");
    assert!(full.record.body.contains("the team's record"));
}

#[test]
fn saving_the_same_name_replaces_rather_than_duplicates() {
    let store = Store::new("proj");
    let mut space = Keyspace::default();
    space
        .save(&store, &record(MemoryType::Project, "Gateway", "first", "one"))
        .unwrap();
    space
        .save(&store, &record(MemoryType::Project, "Gateway", "second", "two"))
        .unwrap();

    assert_eq!(space.entries.len(), 1, "a re-save must upsert, not append");
    let entries = space.list(&store);
    assert_eq!(entries.len(), 1);
    assert_eq!(entries[0].record.description, "second");
}

#[test]
fn names_that_differ_only_in_punctuation_are_the_same_memory() {
    let store = Store::new("proj");
    let mut space = Keyspace::default();
    space
        .save(&store, &record(MemoryType::Project, "Gateway (v2)", "a", "x"))
        .unwrap();
    space
        .save(&store, &record(MemoryType::Project, "gateway  v2", "b", "y"))
        .unwrap();
    assert_eq!(space.entries.len(), 1);
}

#[test]
fn recall_returns_nothing_for_a_query_that_matches_nothing() {
    let store = Store::new("proj");
    let mut space = Keyspace::default();
    space
        .save(
            &store,
            &record(MemoryType::User, "Prefers Rust", "works in Rust", "…"),
        )
        .unwrap();
    assert!(
        space.recall(&store, "kubernetes", None, 8).is_empty(),
        "a near-miss must not be passed off as an answer"
    );
}

#[test]
fn recall_with_no_query_returns_the_context_up_to_the_limit() {
    let store = Store::new("proj");
    let mut space = Keyspace::default();
    for i in 0..5 {
        space
            .save(
                &store,
                &record(MemoryType::Project, &format!("Memory {i}"), "d", "b"),
            )
            .unwrap();
    }
    assert_eq!(space.recall(&store, "", None, 3).len(), 3);
    assert_eq!(space.recall(&store, "", None, 99).len(), 5);
    assert_eq!(space.recall(&store, " \t\n", None, 99).len(), 5, "blank is empty");
}

#[test]
fn the_type_filter_narrows_before_decoding() {
    let store = Store::new("proj");
    let mut space = Keyspace::default();
    space
        .save(&store, &record(MemoryType::Feedback, "Rule", "a rule", "x"))
        .unwrap();
    space
        .save(
            &store,
            &record(MemoryType::Project, "Rule of thumb", "a project", "x"),
        )
        .unwrap();

    let only_feedback = space.list_of_type(&store, Some(MemoryType::Feedback));
    assert_eq!(only_feedback.len(), 1);
    assert_eq!(only_feedback[0].key.kind, MemoryType::Feedback);
    assert_eq!(space.list(&store).len(), 2);
}

#[test]
fn forgetting_removes_it_and_forgetting_again_reports_not_found() {
    let store = Store::new("proj");
    let mut space = Keyspace::default();
    let key = space
        .save(
            &store,
            &record(MemoryType::Reference, "Dashboard", "a link", "…"),
        )
        .unwrap();

    space.forget(&store, &key).unwrap();
    assert!(store.get(space.list(&store), &key).is_none());

    let err = space.forget(&store, &key).unwrap_err();
    assert!(
        err.contains("not found"),
        "the not-found must survive to the caller: {err}"
    );
}

#[test]
fn one_context_never_sees_anothers_memories() {
    let mut space = Keyspace::default();
    let a = Store::new("ctx-a");
    let b = Store::new("ctx-b");
    space
        .save(&a, &record(MemoryType::User, "Secret", "a-only", "x"))
        .unwrap();
    space
        .save(&b, &record(MemoryType::User, "Secret", "b-only", "y"))
        .unwrap();

    let a_entries = space.list(&a);
    assert_eq!(a_entries.len(), 1);
    assert_eq!(a_entries[0].record.description, "a-only");
    assert_eq!(space.list(&b)[0].record.description, "b-only");
}

#[test]
fn a_sibling_context_prefix_does_not_bleed() {
    let mut space = Keyspace::default();
    let short = Store::new("ctx");
    let long = Store::new("ctx-extra");
    space
        .save(&short, &record(MemoryType::User, "K", "short", "x"))
        .unwrap();
    space
        .save(&long, &record(MemoryType::User, "K", "long", "y"))
        .unwrap();

    let entries = space.list(&short);
    assert_eq!(entries.len(), 1);
    assert_eq!(entries[0].record.description, "short");
}

#[test]
fn an_entry_written_by_another_tool_is_skipped_not_fatal() {
    let mut space = Keyspace::default();
    space.entries.insert(
        ("proj".into(), "some-other-tools-key".into()),
        "opaque".into(),
    );
    let store = Store::new("proj");
    space
        .save(&store, &record(MemoryType::User, "Mine", "ours", "x"))
        .unwrap();

    let entries = space.list(&store);
    assert_eq!(entries.len(), 1, "the foreign entry is skipped");
    assert_eq!(entries[0].record.name, "Mine");
    assert_eq!(space.entries.len(), 2, "and is left untouched in the store");
}

#[test]
fn the_payloads_on_the_wire_are_camel_case_and_context_scoped() {
    let store = Store::new("proj");
    let put = store
        .save(&record(MemoryType::User, "Name", "desc", "body"))
        .unwrap();
    assert_eq!(put.context_id, "proj");
    assert_eq!(put.key.to_string(), "user/name");

    let stored = read(&put.value).unwrap();
    assert_eq!(stored.name, "Name");
    assert_eq!(stored.kind, MemoryType::User);
    assert!(!stored.updated_at.is_empty(), "every write is stamped");
    assert!(put.value.contains("\"updatedAt\":"), "{}", put.value);
    assert!(!put.value.contains("updated_at"), "{}", put.value);

    let key = store.saved(put, "user/name").unwrap();
    let del = store.forget(&key);
    assert_eq!(del.context_id, "proj");
    assert_eq!(del.key.to_string(), "user/name");
}

#[test]
fn a_name_with_no_usable_characters_never_reaches_the_vta() {
    let store = Store::new("proj");
    let mut space = Keyspace::default();
    let err = space
        .save(&store, &record(MemoryType::User, "!!! ???", "d", "b"))
        .unwrap_err();
    assert!(err.to_string().contains("memory name"), "{}", err.to_string());
    assert_eq!(
        space.asked, 0,
        "a key that cannot be addressed must fail before the round trip"
    );
}

#[test]
fn an_answer_about_another_key_is_an_error() {
    let store = Store::new("proj");
    let put = store
        .save(&record(MemoryType::User, "Name", "desc", "body"))
        .unwrap();
    let err = store.saved(put, "user/other").unwrap_err();
    assert!(matches!(err, EchoError::Stored { .. }));
    assert_eq!(
        err.to_string(),
        "the VTA stored memory `user/other` when `user/name` was requested"
    );

    let del = store.forget(&MemoryKey::parse("user/name").unwrap());
    let err = store.forgotten(&del, "user/other").unwrap_err();
    assert!(matches!(err, EchoError::Deleted { .. }));
    assert_eq!(
        err.to_string(),
        "the VTA deleted memory `user/other` when `user/name` was requested"
    );
    assert!(store.forgotten(&del, "user/name").is_ok());
}

#[test]
fn a_listing_keeps_its_order_and_its_foreign_values() {
    let store = Store::new("proj");
    let item = |key: &str, value: &str| Item {
        key: key.to_string(),
        value: value.to_string(),
    };
    let items = vec![
        item("user/b", "plain text"),
        item("nonsense/x", "v"),
        item("User/a", "shouted"),
        item("reference/c", "{}"),
    ];
    let found = store.list(items.clone());
    let keys: Vec<String> = found.iter().map(|f| f.key.to_string()).collect();
    assert_eq!(keys, vec!["user/b", "user/a", "reference/c"]);
    let parsed = found.iter().map(|f| read(&f.value)).collect();
    let entries = store.entries(found, parsed);
    assert_eq!(entries[0].record.body, "plain text");
    assert_eq!(entries[2].record.body, "{}", "no record in it");

    let narrowed = store.list_of_type(items, Some(MemoryType::User));
    let keys: Vec<String> = narrowed.iter().map(|f| f.key.to_string()).collect();
    assert_eq!(
        keys,
        vec!["user/b", "user/a"],
        "what is listed with a type is listed under it"
    );
}

#[test]
fn recall_puts_the_best_first_and_cuts_the_rest() {
    let hits = recall_locally(
        vec![
            entry(MemoryType::User, "Other", "mentions the gateway"),
            entry(MemoryType::User, "Gateway", "the gateway"),
            entry(MemoryType::User, "Nothing", "at all"),
        ],
        "gateway",
        None,
        1,
    );
    assert_eq!(hits.len(), 1);
    assert_eq!(hits[0].entry.record.name, "Gateway");
    assert_eq!(hits[0].score, 6);
}
