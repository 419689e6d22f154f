//! Behavioral tests of the record store operations.

use dns::io::{ActorId, DnsRecord};
use dns::store::Dns;

fn actor(n: u8) -> ActorId {
    ActorId([n; 32])
}

fn register(store: &mut Vec<DnsRecord>, by: ActorId, name: &str, link: &str, desc: &str) -> DnsRecord {
    store.add_record(by, name.to_string(), link.to_string(), desc.to_string())
}

#[test]
fn register_assigns_sequential_ids() {
    let mut store: Vec<DnsRecord> = Vec::new();
    let a = actor(1);
    let r0 = register(&mut store, a, "one", "l1", "d1");
    let r1 = register(&mut store, a, "two", "l2", "d2");
    let r2 = register(&mut store, a, "three", "l3", "d3");
    assert_eq!(r0.id, 0);
    assert_eq!(r1.id, 1);
    assert_eq!(r2.id, 2);
    assert!(r0.id < r1.id && r1.id < r2.id);
    assert_eq!(store.len(), 3);
}

#[test]
fn register_copies_fields_and_creator() {
    let mut store: Vec<DnsRecord> = Vec::new();
    let c = actor(7);
    let r = register(&mut store, c, "alice", "ipfs://a", "personal site");
    assert_eq!(r.name, "alice");
    assert_eq!(r.link, "ipfs://a");
    assert_eq!(r.description, "personal site");
    assert!(r.created_by == c);
    assert!(store[0].created_by == c);
}

#[test]
fn remove_by_non_owner_returns_empty_and_keeps_store() {
    let mut store: Vec<DnsRecord> = Vec::new();
    let a = actor(1);
    let b = actor(2);
    register(&mut store, a, "alice", "la", "da");
    register(&mut store, b, "bob", "lb", "db");
    let gone = store.remove_record(b, 0);
    assert!(gone.is_none());
    assert_eq!(store.len(), 2);
    assert_eq!(store[0].name, "alice");
    assert_eq!(store[0].id, 0);
    assert_eq!(store[1].name, "bob");
    assert_eq!(store[1].id, 1);
}

#[test]
fn remove_of_unknown_id_returns_empty() {
    let mut store: Vec<DnsRecord> = Vec::new();
    let a = actor(1);
    register(&mut store, a, "alice", "la", "da");
    assert!(store.remove_record(a, 42).is_none());
    assert_eq!(store.len(), 1);
}

#[test]
fn remove_by_owner_removes_exactly_that_record() {
    let mut store: Vec<DnsRecord> = Vec::new();
    let a = actor(1);
    register(&mut store, a, "one", "l1", "d1");
    register(&mut store, a, "two", "l2", "d2");
    register(&mut store, a, "three", "l3", "d3");
    let gone = store.remove_record(a, 1).expect("owner removal succeeds");
    assert_eq!(gone.id, 1);
    assert_eq!(gone.name, "two");
    assert!(store.get_by_id(1).is_none());
    // the other records are still retrievable
    assert_eq!(store.get_by_id(0).expect("still present").name, "one");
    assert_eq!(store.get_by_id(2).expect("still present").name, "three");
    assert_eq!(store.len(), 2);
    // removal swaps the last record into the freed slot
    assert_eq!(store[0].name, "one");
    assert_eq!(store[1].name, "three");
}

#[test]
fn update_by_owner_changes_only_present_fields() {
    let mut store: Vec<DnsRecord> = Vec::new();
    let a = actor(1);
    register(&mut store, a, "alice", "ipfs://a", "personal site");
    let updated = store
        .update_record(a, 0, Some("alice2".to_string()), None, None)
        .expect("owner update succeeds");
    assert_eq!(updated.id, 0);
    assert_eq!(updated.name, "alice2");
    assert_eq!(updated.link, "ipfs://a");
    assert_eq!(updated.description, "personal site");
    assert!(updated.created_by == a);
    assert_eq!(store[0].name, "alice2");
    assert_eq!(store[0].link, "ipfs://a");
    assert_eq!(store[0].description, "personal site");
}

#[test]
fn update_by_non_owner_returns_empty_and_changes_nothing() {
    let mut store: Vec<DnsRecord> = Vec::new();
    let a = actor(1);
    let b = actor(2);
    register(&mut store, a, "alice", "ipfs://a", "personal site");
    let res = store.update_record(b, 0, Some("hijack".to_string()), None, None);
    assert!(res.is_none());
    assert_eq!(store[0].name, "alice");
    assert_eq!(store[0].link, "ipfs://a");
    assert_eq!(store[0].description, "personal site");
}

#[test]
fn update_overwrites_every_present_field() {
    let mut store: Vec<DnsRecord> = Vec::new();
    let a = actor(1);
    register(&mut store, a, "alice", "ipfs://a", "personal site");
    let updated = store
        .update_record(
            a,
            0,
            Some("new-name".to_string()),
            Some("new-link".to_string()),
            Some("new-desc".to_string()),
        )
        .expect("owner update succeeds");
    assert_eq!(updated.name, "new-name");
    assert_eq!(updated.link, "new-link");
    assert_eq!(updated.description, "new-desc");
    assert_eq!(updated.id, 0);
}

#[test]
fn get_by_name_is_exact_and_case_sensitive() {
    let mut store: Vec<DnsRecord> = Vec::new();
    let a = actor(1);
    register(&mut store, a, "alice", "l1", "d1");
    register(&mut store, a, "Alice", "l2", "d2");
    register(&mut store, a, "alice", "l3", "d3");
    let found = store.get_by_name("alice".to_string());
    assert_eq!(found.len(), 2);
    assert_eq!(found[0].id, 0);
    assert_eq!(found[1].id, 2);
    assert!(store.get_by_name("alic".to_string()).is_empty());
}

#[test]
fn get_by_description_matches_substrings() {
    let mut store: Vec<DnsRecord> = Vec::new();
    let a = actor(1);
    register(&mut store, a, "one", "l1", "a personal site");
    register(&mut store, a, "two", "l2", "personal blog");
    register(&mut store, a, "three", "l3", "a shop");
    let found = store.get_by_description("personal".to_string());
    assert_eq!(found.len(), 2);
    assert_eq!(found[0].id, 0);
    assert_eq!(found[1].id, 1);
    // the empty string matches every record
    let all = store.get_by_description(String::new());
    assert_eq!(all.len(), 3);
    // case-sensitive: no match for a different case
    assert!(store.get_by_description("Personal".to_string()).is_empty());
    // overlapping occurrences still count as one containment
    let mut over: Vec<DnsRecord> = Vec::new();
    register(&mut over, a, "o", "l", "aaa");
    assert_eq!(over.get_by_description("aa".to_string()).len(), 1);
}

#[test]
fn get_by_creator_returns_that_callers_records() {
    let mut store: Vec<DnsRecord> = Vec::new();
    let a = actor(1);
    let b = actor(2);
    register(&mut store, a, "one", "l1", "d1");
    register(&mut store, b, "two", "l2", "d2");
    register(&mut store, a, "three", "l3", "d3");
    let of_a = store.get_by_creator(a);
    assert_eq!(of_a.len(), 2);
    assert_eq!(of_a[0].id, 0);
    assert_eq!(of_a[1].id, 2);
    let of_b = store.get_by_creator(b);
    assert_eq!(of_b.len(), 1);
    assert_eq!(of_b[0].id, 1);
    assert!(store.get_by_creator(actor(9)).is_empty());
}

#[test]
fn get_by_pattern_is_union_without_duplicates() {
    let mut store: Vec<DnsRecord> = Vec::new();
    let a = actor(1);
    register(&mut store, a, "web site", "l1", "nothing here");
    register(&mut store, a, "blog", "l2", "my web diary");
    register(&mut store, a, "web shop", "l3", "the web store");
    register(&mut store, a, "mail", "l4", "letters");
    let found = store.get_by_pattern("web".to_string());
    // name-only, description-only and both-fields matches each appear once
    assert_eq!(found.len(), 3);
    assert_eq!(found[0].id, 0);
    assert_eq!(found[1].id, 1);
    assert_eq!(found[2].id, 2);
}

#[test]
fn id_reuse_after_remove_is_kept() {
    // The id of a new record is the current record count, not a monotonic
    // counter. This test pins that behavior down: after removing one of
    // three records, the next registration is assigned an id that collides
    // with a still-live record.
    let mut store: Vec<DnsRecord> = Vec::new();
    let a = actor(1);
    register(&mut store, a, "one", "l1", "d1");
    register(&mut store, a, "two", "l2", "d2");
    register(&mut store, a, "three", "l3", "d3");
    store.remove_record(a, 1).expect("owner removal succeeds");
    let fresh = register(&mut store, a, "four", "l4", "d4");
    assert_eq!(fresh.id, 2);
    let with_id_2: Vec<&DnsRecord> = store.iter().filter(|r| r.id == 2).collect();
    assert_eq!(with_id_2.len(), 2);
    // lookups by the duplicated id return the first match in store order
    assert_eq!(store.get_by_id(2).expect("found").name, "three");
}
