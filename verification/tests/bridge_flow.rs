use client_bridge::bridge::{fault_outcome, unknown_handle_outcome, Bridge};
use client_bridge::encode::{outcome_of_reply, CallReply};
use client_bridge::failure::{Failure, TaskOutcome};
use client_bridge::operation::{AccessKind, Operation};
use client_bridge::registry::Registry;

fn text(v: &[char]) -> String {
    v.iter().collect()
}

fn chars(s: &str) -> Vec<char> {
    s.chars().collect()
}

/// A stand-in for the external client library: answers the two calls the
/// end-to-end scenario makes.
struct StubClient {
    node_name: String,
}

impl StubClient {
    fn call(&self, operation: &Operation) -> CallReply {
        match operation {
            Operation::GetInfo => {
                CallReply::Payload(chars(&format!("{{\"nodeName\":\"{}\"}}", self.node_name)))
            }
            Operation::GetMessage(_) => CallReply::Failed(chars("message not found")),
            _ => CallReply::Failed(chars("unsupported by the stub")),
        }
    }
}

#[test]
fn every_task_is_delivered_exactly_once() {
    let mut bridge = Bridge::new();
    let ids = [
        bridge.submit(chars("h0"), Operation::GetInfo),
        bridge.submit(chars("h1"), Operation::GetTips),
        bridge.submit(chars("h2"), Operation::GetMilestone(9)),
    ];
    assert_eq!(ids, [0, 1, 2]);
    for &id in &ids {
        assert!(bridge.is_pending(id));
    }
    // Tasks finish out of submission order; each still delivers once.
    bridge.complete(ids[1], outcome_of_reply(CallReply::Payload(chars("one"))));
    bridge.complete(ids[2], outcome_of_reply(CallReply::Failed(chars("late"))));
    bridge.complete(ids[0], outcome_of_reply(CallReply::Payload(chars("zero"))));
    assert_eq!(bridge.task_count(), 3);
    assert_eq!(bridge.delivery_count(), 3);
    for &id in &ids {
        assert!(!bridge.is_pending(id));
        let hits = (0..bridge.delivery_count())
            .filter(|&d| bridge.delivery(d).0 == id)
            .count();
        assert_eq!(hits, 1, "one delivery per task");
    }
    assert_eq!(bridge.delivery(0).0, 1);
    match &bridge.delivery(0).1 {
        TaskOutcome::Success(t) => assert_eq!(text(t), "one"),
        _ => panic!("expected a success payload"),
    }
}

#[test]
fn internal_fault_becomes_a_structured_failure() {
    let outcome = fault_outcome(Some(chars("index out of range")));
    match outcome {
        TaskOutcome::Failed(Failure::Internal(t)) => {
            let report = text(&t);
            assert!(report.starts_with("Internal error: index out of range\n\n"));
        }
        _ => panic!("expected the internal failure"),
    }
    let outcome = fault_outcome(None);
    match outcome {
        TaskOutcome::Failed(Failure::Internal(t)) => {
            let report = text(&t);
            assert!(report.starts_with("Internal error\n\n"));
        }
        _ => panic!("expected the internal failure"),
    }
}

#[test]
fn one_faulting_task_leaves_others_untouched() {
    let mut registry: Registry<StubClient> = Registry::new();
    let healthy = registry.open(StubClient { node_name: String::from("stub") });
    let doomed = registry.open(StubClient { node_name: String::from("other") });
    let mut bridge = Bridge::new();
    let ok_id = bridge.submit(healthy.clone(), Operation::GetInfo);
    let bad_id = bridge.submit(doomed.clone(), Operation::GetTips);
    // The doomed task hits an internal fault; its outcome is captured.
    bridge.complete(bad_id, fault_outcome(Some(chars("boom"))));
    // The healthy task runs to completion against its own resource.
    let client = registry.resolve(&healthy).expect("live handle");
    let reply = client.call(&Operation::GetInfo);
    bridge.complete(ok_id, outcome_of_reply(reply));
    assert_eq!(bridge.delivery_count(), 2);
    match &bridge.delivery(0).1 {
        TaskOutcome::Failed(Failure::Internal(_)) => {}
        _ => panic!("expected the internal failure"),
    }
    match &bridge.delivery(1).1 {
        TaskOutcome::Success(t) => assert_eq!(text(t), "{\"nodeName\":\"stub\"}"),
        _ => panic!("expected a success payload"),
    }
}

#[test]
fn raw_results_bypass_encoding() {
    let body = vec![1u8, 2, 3, 255];
    match outcome_of_reply(CallReply::Raw(body.clone())) {
        TaskOutcome::RawSuccess(b) => assert_eq!(b, body),
        _ => panic!("expected raw bytes"),
    }
}

#[test]
fn message_identifier_results_are_quoted_hex() {
    match outcome_of_reply(CallReply::MessageId(vec![0u8; 32])) {
        TaskOutcome::Success(t) => assert_eq!(text(&t), format!("\"{}\"", "0".repeat(64))),
        _ => panic!("expected a success payload"),
    }
    match outcome_of_reply(CallReply::Tips(vec![0u8; 32], vec![0xffu8; 32])) {
        TaskOutcome::Success(t) => {
            assert_eq!(
                text(&t),
                format!("[\"{}\",\"{}\"]", "0".repeat(64), "ff".repeat(32))
            )
        }
        _ => panic!("expected a success payload"),
    }
}

#[test]
fn unspent_address_results_pair_text_and_index() {
    let address = client_bridge::address::Address::parse("a12uel5l").expect("valid bech32");
    match outcome_of_reply(CallReply::UnspentAddress(address, 5)) {
        TaskOutcome::Success(t) => assert_eq!(text(&t), "[\"a12uel5l\",5]"),
        _ => panic!("expected a success payload"),
    }
}

#[test]
fn end_to_end_info_then_missing_message() {
    let mut registry: Registry<StubClient> = Registry::new();
    let handle = registry.open(StubClient { node_name: String::from("test-node") });
    let mut bridge = Bridge::new();

    // Submit get-info; the executor resolves the handle and runs the call.
    let info_id = bridge.submit(handle.clone(), Operation::GetInfo);
    let outcome = match registry.resolve(&handle) {
        Some(client) => outcome_of_reply(client.call(&Operation::GetInfo)),
        None => unknown_handle_outcome(&handle),
    };
    bridge.complete(info_id, outcome);
    match &bridge.delivery(0).1 {
        TaskOutcome::Success(t) => {
            let parsed: serde_json::Value = serde_json::from_str(&text(t)).expect("valid json");
            let name = parsed["nodeName"].as_str().expect("a node name");
            assert!(!name.is_empty());
        }
        _ => panic!("expected a success payload"),
    }

    // Submit get-message for an id no node knows: a domain failure, no crash.
    let op = Operation::GetMessage(vec![0u8; 32]);
    let msg_id = bridge.submit(handle.clone(), op);
    let outcome = match registry.resolve(&handle) {
        Some(client) => outcome_of_reply(client.call(&Operation::GetMessage(vec![0u8; 32]))),
        None => unknown_handle_outcome(&handle),
    };
    bridge.complete(msg_id, outcome);
    match &bridge.delivery(1).1 {
        TaskOutcome::Failed(Failure::Domain(e)) => assert_eq!(text(e), "message not found"),
        _ => panic!("expected a domain failure"),
    }
    assert_eq!(bridge.delivery_count(), 2);
}

#[test]
fn current_operations_take_shared_access() {
    let ops = [
        Operation::GetInfo,
        Operation::GetTips,
        Operation::GetMessage(vec![0u8; 32]),
        Operation::GetMilestone(1),
        Operation::Retry(vec![0u8; 32]),
    ];
    for op in &ops {
        assert!(matches!(op.access(), AccessKind::Shared));
    }
}

#[test]
fn internal_report_joins_description_and_trace() {
    let report = client_bridge::failure::format_internal(
        &Some(chars("boom")),
        &chars("frame one\nframe two"),
    );
    assert_eq!(text(&report), "Internal error: boom\n\nframe one\nframe two");
    let report = client_bridge::failure::format_internal(&None, &chars("trace"));
    assert_eq!(text(&report), "Internal error\n\ntrace");
}
