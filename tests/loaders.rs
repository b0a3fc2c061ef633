use archive_gateway::entities::{Call, Event, Extrinsic};
use archive_gateway::error::StorageError;
use archive_gateway::grouping::group_by_block;
use archive_gateway::loader::{CallLoader, EventLoader, ExtrinsicLoader, KeyBatcher};
use archive_gateway::payload::Payload;

fn empty() -> Payload {
    Payload { fields: Vec::new() }
}

fn ext(id: &str, block: &str) -> Extrinsic {
    Extrinsic { id: id.to_string(), block_id: block.to_string(), payload: empty() }
}

fn call(id: &str, block: &str) -> Call {
    Call {
        id: id.to_string(),
        block_id: block.to_string(),
        extrinsic_id: format!("{}-x", id),
        name: "Balances.transfer".to_string(),
        payload: empty(),
    }
}

fn event(id: &str, block: &str) -> Event {
    Event {
        id: id.to_string(),
        block_id: block.to_string(),
        extrinsic_id: None,
        call_id: None,
        name: "System.ExtrinsicSuccess".to_string(),
        payload: empty(),
    }
}

fn keys(ks: &[&str]) -> Vec<String> {
    ks.iter().map(|k| k.to_string()).collect()
}

#[test]
fn grouping_has_exactly_the_requested_keys() {
    let records = vec![ext("e1", "b2"), ext("e2", "b1"), ext("e3", "b2"), ext("e4", "b9")];
    let groups = group_by_block(&keys(&["b1", "b2", "b3"]), records);
    let ids: Vec<&str> = groups.iter().map(|g| g.block_id.as_str()).collect();
    assert_eq!(ids, vec!["b1", "b2", "b3"]);
    assert_eq!(groups[2].records.len(), 0);
}

#[test]
fn grouping_keeps_storage_order() {
    let records = vec![ext("e1", "b2"), ext("e2", "b1"), ext("e3", "b2"), ext("e4", "b2")];
    let groups = group_by_block(&keys(&["b1", "b2"]), records);
    let b2: Vec<&str> = groups[1].records.iter().map(|e| e.id.as_str()).collect();
    assert_eq!(b2, vec!["e1", "e3", "e4"]);
    let b1: Vec<&str> = groups[0].records.iter().map(|e| e.id.as_str()).collect();
    assert_eq!(b1, vec!["e2"]);
}

#[test]
fn grouping_of_no_keys_is_empty() {
    let groups = group_by_block::<Extrinsic>(&Vec::new(), vec![ext("e1", "b1")]);
    assert!(groups.is_empty());
}

#[test]
fn overlapping_requests_make_one_storage_call() {
    let mut batcher: KeyBatcher<Call> = KeyBatcher::new();
    for k in ["b1", "b2", "b1", "b3", "b2"] {
        batcher.request(&k.to_string());
    }
    let pending = batcher.take_pending();
    assert_eq!(pending, keys(&["b1", "b2", "b3"]));
    assert!(batcher.pending.is_empty());
    let fetched = Ok(vec![call("c1", "b1"), call("c2", "b3")]);
    assert!(batcher.resolve(fetched).is_ok());
    assert!(batcher.in_flight.is_empty());
    for k in ["b3", "b1", "b2"] {
        batcher.request(&k.to_string());
    }
    assert!(batcher.take_pending().is_empty());
    assert_eq!(batcher.get(&"b1".to_string()).map(|v| v.len()), Some(1));
    assert_eq!(batcher.get(&"b2".to_string()).map(|v| v.len()), Some(0));
    assert!(batcher.get(&"b4".to_string()).is_none());
}

#[test]
fn storage_failure_resolves_no_key() {
    let mut batcher: KeyBatcher<Event> = KeyBatcher::new();
    batcher.request(&"b1".to_string());
    let pending = batcher.take_pending();
    assert_eq!(pending, keys(&["b1"]));
    let r = batcher.resolve(Err(StorageError { message: "down".to_string() }));
    assert_eq!(r.err().map(|e| e.message), Some("down".to_string()));
    assert!(batcher.get(&"b1".to_string()).is_none());
    batcher.request(&"b1".to_string());
    assert_eq!(batcher.take_pending(), keys(&["b1"]));
}

#[test]
fn keys_under_way_are_not_asked_again() {
    let mut batcher: KeyBatcher<Extrinsic> = KeyBatcher::new();
    batcher.request(&"b1".to_string());
    let pending = batcher.take_pending();
    assert_eq!(batcher.in_flight, pending);
    batcher.request(&"b1".to_string());
    batcher.request(&"b2".to_string());
    assert_eq!(batcher.pending, keys(&["b2"]));
    assert!(batcher.resolve(Ok(vec![ext("e1", "b1")])).is_ok());
    assert_eq!(batcher.get(&"b1".to_string()).map(|v| v[0].id.clone()), Some("e1".to_string()));
    assert_eq!(batcher.take_pending(), keys(&["b2"]));
}

#[test]
fn extrinsic_loader_groups_by_block() {
    let loader = ExtrinsicLoader::new(None, None);
    let r = loader.load(&keys(&["b1", "b2"]), Ok(vec![ext("e1", "b2")])).ok().unwrap();
    assert_eq!(r.len(), 2);
    assert_eq!(r[0].records.len(), 0);
    assert_eq!(r[1].records[0].id, "e1");
}

#[test]
fn call_loader_passes_storage_errors() {
    let loader = CallLoader::new(None, None);
    let r = loader.load(&keys(&["b1"]), Err(StorageError { message: "timeout".to_string() }));
    assert_eq!(r.err().map(|e| e.message), Some("timeout".to_string()));
}

#[test]
fn event_loader_groups_by_block() {
    let loader = EventLoader::new(None);
    let r = loader
        .load(&keys(&["b1"]), Ok(vec![event("v1", "b1"), event("v2", "b1")]))
        .ok()
        .unwrap();
    let ids: Vec<&str> = r[0].records.iter().map(|e| e.id.as_str()).collect();
    assert_eq!(ids, vec!["v1", "v2"]);
}
