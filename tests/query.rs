use archive_gateway::assembly::{assemble, assemble_batches, batch_to_camel_case, Batch};
use archive_gateway::entities::{BlockHeader, Call, Event, Extrinsic};
use archive_gateway::error::{InputError, StorageError};
use archive_gateway::grouping::BlockGroup;
use archive_gateway::inclusion::select_block;
use archive_gateway::payload::{keys_to_camel_case, Field, Payload};
use archive_gateway::query::{BatchArgs, QueryRoot};
use archive_gateway::selection::{
    CallSelection, CallSelectionInput, EvmLogSelectionInput, ContractsEventSelectionInput,
    EventSelection, EventSelectionInput,
};
use serde_json::Value;

fn payload(fields: &[(&str, Value)]) -> Payload {
    Payload {
        fields: fields
            .iter()
            .map(|(k, v)| Field { key: k.to_string(), value: v.clone() })
            .collect(),
    }
}

fn keys_of(p: &Payload) -> Vec<&str> {
    p.fields.iter().map(|f| f.key.as_str()).collect()
}

fn header(id: &str, height: u64) -> BlockHeader {
    BlockHeader { id: id.to_string(), height, hash: format!("0x{}", height) }
}

fn call(id: &str, block: &str, extrinsic: &str, name: &str) -> Call {
    Call {
        id: id.to_string(),
        block_id: block.to_string(),
        extrinsic_id: extrinsic.to_string(),
        name: name.to_string(),
        payload: payload(&[("call_index", Value::from(0))]),
    }
}

fn ext(id: &str, block: &str) -> Extrinsic {
    Extrinsic {
        id: id.to_string(),
        block_id: block.to_string(),
        payload: payload(&[("index_in_block", Value::from(1)), ("signature", Value::Null)]),
    }
}

fn group<T>(block: &str, records: Vec<T>) -> BlockGroup<T> {
    BlockGroup { block_id: block.to_string(), records }
}

fn args(limit: i32, from_block: Option<i32>) -> BatchArgs {
    BatchArgs {
        limit,
        from_block,
        to_block: None,
        evm_logs: None,
        ethereum_transactions: None,
        contracts_events: None,
        events: None,
        calls: None,
        include_all_blocks: None,
    }
}

#[test]
fn payload_keys_become_camel_case() {
    let mut p = payload(&[
        ("block_id", Value::from("b1")),
        ("call_name", Value::from("Balances.transfer")),
        ("pos", Value::from(3)),
    ]);
    keys_to_camel_case(&mut p);
    assert_eq!(keys_of(&p), vec!["blockId", "callName", "pos"]);
    assert_eq!(p.fields[1].value, Value::from("Balances.transfer"));
}

#[test]
fn colliding_keys_keep_the_later_value() {
    let mut p = payload(&[
        ("a_b", Value::from(1)),
        ("c", Value::from(2)),
        ("aB", Value::from(3)),
    ]);
    keys_to_camel_case(&mut p);
    assert_eq!(keys_of(&p), vec!["aB", "c"]);
    assert_eq!(p.fields[0].value, Value::from(3));
}

#[test]
fn empty_payload_stays_empty() {
    let mut p = payload(&[]);
    keys_to_camel_case(&mut p);
    assert!(p.fields.is_empty());
}

#[test]
fn batch_casing_touches_every_record_kind() {
    let mut batches = vec![Batch {
        header: header("b1", 1),
        extrinsics: vec![ext("e1", "b1")],
        calls: vec![call("c1", "b1", "e1", "Balances.transfer")],
        events: vec![Event {
            id: "v1".to_string(),
            block_id: "b1".to_string(),
            extrinsic_id: Some("e1".to_string()),
            call_id: Some("c1".to_string()),
            name: "Balances.Transfer".to_string(),
            payload: payload(&[("event_args", Value::Null)]),
        }],
    }];
    batch_to_camel_case(&mut batches);
    assert_eq!(keys_of(&batches[0].extrinsics[0].payload), vec!["indexInBlock", "signature"]);
    assert_eq!(keys_of(&batches[0].calls[0].payload), vec!["callIndex"]);
    assert_eq!(keys_of(&batches[0].events[0].payload), vec!["eventArgs"]);
    assert_eq!(batches[0].calls[0].block_id, "b1");
    assert_eq!(batches[0].header.height, 1);
}

#[test]
fn batch_response_is_idempotent() {
    let root = QueryRoot::new(false, false);
    let make = || {
        vec![Batch {
            header: header("b1", 1),
            extrinsics: vec![ext("e1", "b1")],
            calls: vec![],
            events: vec![],
        }]
    };
    let first = root.batch_response(Ok(make())).ok().unwrap();
    let second = root.batch_response(Ok(make())).ok().unwrap();
    assert_eq!(first.len(), second.len());
    let a = &first[0].extrinsics[0].payload;
    let b = &second[0].extrinsics[0].payload;
    assert_eq!(keys_of(a), keys_of(b));
    assert_eq!(keys_of(a), vec!["indexInBlock", "signature"]);
    let va: Vec<&Value> = a.fields.iter().map(|f| &f.value).collect();
    let vb: Vec<&Value> = b.fields.iter().map(|f| &f.value).collect();
    assert_eq!(va, vb);
}

#[test]
fn batch_response_passes_storage_error() {
    let root = QueryRoot::new(true, true);
    let r = root.batch_response(Err(StorageError { message: "db".to_string() }));
    assert_eq!(r.err().map(|e| e.message), Some("db".to_string()));
}

#[test]
fn request_without_selections_defaults() {
    let root = QueryRoot::new(false, false);
    let q = root.batch_request(args(10, Some(100))).ok().unwrap();
    assert_eq!(q.limit, 10);
    assert_eq!(q.from_block, 100);
    assert_eq!(q.to_block, None);
    assert!(!q.include_all_blocks);
    assert!(q.calls.is_empty() && q.events.is_empty() && q.evm_logs.is_empty());
    let q = root.batch_request(args(5, None)).ok().unwrap();
    assert_eq!(q.from_block, 0);
}

#[test]
fn blocks_without_records_and_selections_come_back_empty() {
    let headers = vec![header("b100", 100), header("b101", 101)];
    let out = assemble_batches(
        headers,
        vec![group("b100", vec![]), group("b101", vec![])],
        vec![group("b100", vec![]), group("b101", vec![])],
        vec![group("b100", vec![]), group("b101", vec![])],
        true,
    );
    assert_eq!(out.len(), 2);
    assert!(out.len() <= 10);
    for b in &out {
        assert!(b.header.height >= 100);
        assert!(b.extrinsics.is_empty() && b.calls.is_empty() && b.events.is_empty());
    }
}

#[test]
fn empty_blocks_are_dropped_unless_all_are_asked_for() {
    let out = assemble_batches(
        vec![header("b1", 1), header("b2", 2)],
        vec![group("b1", vec![]), group("b2", vec![ext("e1", "b2")])],
        vec![group("b1", vec![]), group("b2", vec![])],
        vec![group("b1", vec![]), group("b2", vec![])],
        false,
    );
    assert_eq!(out.len(), 1);
    assert_eq!(out[0].header.id, "b2");
    assert_eq!(out[0].extrinsics[0].id, "e1");
}

#[test]
fn calls_selection_keeps_matching_calls_and_owners() {
    let root = QueryRoot::new(false, false);
    let mut a = args(5, Some(0));
    a.calls = Some(vec![CallSelectionInput {
        name: "Balances.transfer".to_string(),
        fields: vec![],
    }]);
    let q = root.batch_request(a).ok().unwrap();
    assert_eq!(q.calls.len(), 1);
    let calls = vec![
        call("c1", "b1", "e1", "Balances.transfer"),
        call("c2", "b1", "e2", "Timestamp.set"),
        call("c3", "b1", "e3", "Balances.transfer"),
    ];
    let exts = vec![ext("e1", "b1"), ext("e2", "b1"), ext("e3", "b1"), ext("e4", "b1")];
    let (kept_exts, kept_calls, kept_events) = select_block(&q.calls, &q.events, exts, calls, vec![]);
    assert!(kept_events.is_empty());
    assert!(kept_calls.iter().all(|c| c.name == "Balances.transfer"));
    let ids: Vec<&str> = kept_calls.iter().map(|c| c.id.as_str()).collect();
    assert_eq!(ids, vec!["c1", "c3"]);
    let ids: Vec<&str> = kept_exts.iter().map(|e| e.id.as_str()).collect();
    assert_eq!(ids, vec!["e1", "e3"]);
}

#[test]
fn call_selections_combine_by_or() {
    let sels = vec![
        CallSelection { name: "Staking.bond".to_string(), fields: vec![] },
        CallSelection { name: "Balances.transfer".to_string(), fields: vec![] },
    ];
    let calls = vec![call("c1", "b1", "e1", "Balances.transfer")];
    let (kept_exts, kept_calls, _) = select_block(&sels, &Vec::new(), vec![ext("e1", "b1")], calls, vec![]);
    assert_eq!(kept_calls.len(), 1);
    assert_eq!(kept_exts.len(), 1);
    assert_eq!(kept_exts[0].id, "e1");
}

#[test]
fn no_call_selection_selects_nothing() {
    let (kept_exts, kept_calls, kept_events) = select_block(
        &Vec::new(),
        &Vec::new(),
        vec![ext("e1", "b1")],
        vec![call("c1", "b1", "e1", "Balances.transfer")],
        vec![event("v1", "b1", Some("e1"), Some("c1"), "Balances.Transfer")],
    );
    assert!(kept_calls.is_empty() && kept_exts.is_empty() && kept_events.is_empty());
}

fn event(id: &str, block: &str, extrinsic: Option<&str>, call: Option<&str>, name: &str) -> Event {
    Event {
        id: id.to_string(),
        block_id: block.to_string(),
        extrinsic_id: extrinsic.map(|s| s.to_string()),
        call_id: call.map(|s| s.to_string()),
        name: name.to_string(),
        payload: payload(&[]),
    }
}

#[test]
fn selected_events_bring_their_calls_and_extrinsics() {
    let events_sel = vec![EventSelection { name: "Balances.Transfer".to_string(), fields: vec![] }];
    let (kept_exts, kept_calls, kept_events) = select_block(
        &Vec::new(),
        &events_sel,
        vec![ext("e1", "b1"), ext("e2", "b1"), ext("e3", "b1")],
        vec![call("c1", "b1", "e1", "Utility.batch"), call("c2", "b1", "e2", "Timestamp.set")],
        vec![
            event("v1", "b1", Some("e1"), Some("c1"), "Balances.Transfer"),
            event("v2", "b1", Some("e2"), None, "System.ExtrinsicSuccess"),
            event("v3", "b1", Some("e3"), None, "Balances.Transfer"),
        ],
    );
    let ids: Vec<&str> = kept_events.iter().map(|e| e.id.as_str()).collect();
    assert_eq!(ids, vec!["v1", "v3"]);
    let ids: Vec<&str> = kept_calls.iter().map(|c| c.id.as_str()).collect();
    assert_eq!(ids, vec!["c1"]);
    let ids: Vec<&str> = kept_exts.iter().map(|e| e.id.as_str()).collect();
    assert_eq!(ids, vec!["e1", "e3"]);
}

#[test]
fn evm_selection_rejected_when_evm_is_off() {
    let root = QueryRoot::new(false, true);
    let mut a = args(5, None);
    a.evm_logs = Some(vec![EvmLogSelectionInput {
        contract: "0xabc".to_string(),
        topics: vec![],
        fields: vec![],
    }]);
    assert_eq!(root.batch_request(a).err(), Some(InputError::EvmNotSupported));
}

#[test]
fn evm_selection_accepted_when_evm_is_on() {
    let root = QueryRoot::new(true, false);
    let mut a = args(5, None);
    a.evm_logs = Some(vec![EvmLogSelectionInput {
        contract: "0xabc".to_string(),
        topics: vec!["0x01".to_string()],
        fields: vec![],
    }]);
    let q = root.batch_request(a).ok().unwrap();
    assert_eq!(q.evm_logs[0].contract, "0xabc");
    assert_eq!(q.evm_logs[0].topics, vec!["0x01".to_string()]);
}

#[test]
fn contracts_selection_rejected_when_contracts_are_off() {
    let root = QueryRoot::new(true, false);
    let mut a = args(5, None);
    a.contracts_events = Some(vec![ContractsEventSelectionInput {
        contract: "5Grw".to_string(),
        fields: vec![],
    }]);
    let err = root.batch_request(a).err().unwrap();
    assert_eq!(err, InputError::ContractsNotSupported);
    assert_eq!(err.message(), "contracts event selections are not supported");
}

#[test]
fn unwrap_selections_converts_each_input() {
    let root = QueryRoot::new(false, false);
    let none: Vec<EventSelection> = root.unwrap_selections::<EventSelectionInput, EventSelection>(None);
    assert!(none.is_empty());
    let some: Vec<EventSelection> = root.unwrap_selections(Some(vec![
        EventSelectionInput { name: "A.b".to_string(), fields: vec!["x".to_string()] },
        EventSelectionInput { name: "C.d".to_string(), fields: vec![] },
    ]));
    assert_eq!(some.len(), 2);
    assert_eq!(some[0].name, "A.b");
    assert_eq!(some[0].fields, vec!["x".to_string()]);
    assert_eq!(some[1].name, "C.d");
}

#[test]
fn event_load_failure_fails_the_batch() {
    let r = assemble(
        vec![header("b1", 1)],
        Ok(vec![group("b1", vec![ext("e1", "b1")])]),
        Ok(vec![group("b1", vec![])]),
        Err(StorageError { message: "events failed".to_string() }),
        false,
    );
    assert_eq!(r.err().map(|e| e.message), Some("events failed".to_string()));
}

#[test]
fn all_loads_succeeding_assemble_batches() {
    let r = assemble(
        vec![header("b1", 1)],
        Ok(vec![group("b1", vec![ext("e1", "b1")])]),
        Ok(vec![group("b1", vec![call("c1", "b1", "e1", "Balances.transfer")])]),
        Ok(vec![group("b1", vec![])]),
        false,
    )
    .ok()
    .unwrap();
    assert_eq!(r.len(), 1);
    assert_eq!(r[0].calls[0].id, "c1");
}
