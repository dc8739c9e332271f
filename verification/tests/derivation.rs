//! Signature canonicalization and identifier derivation.

use abi_selectors::abi::{EntryKind, InterfaceEntry, InterfaceInput};
use abi_selectors::digest::{derive_selector, derive_topic};
use abi_selectors::report::analyze_contract;
use abi_selectors::sig::canonical_signature;

fn entry(kind: EntryKind, name: Option<&str>, types: &[&str], anonymous: bool) -> InterfaceEntry {
    InterfaceEntry {
        kind,
        name: name.map(|n| n.to_string()),
        inputs: types
            .iter()
            .map(|t| InterfaceInput { param_type: t.to_string() })
            .collect(),
        anonymous,
    }
}

#[test]
fn empty_input_signature() {
    let e = entry(EntryKind::Function, Some("foo"), &[], false);
    assert_eq!(canonical_signature(&e), "foo()");
}

#[test]
fn signature_with_inputs() {
    let e = entry(EntryKind::Function, Some("transfer"), &["address", "uint256"], false);
    assert_eq!(canonical_signature(&e), "transfer(address,uint256)");
}

#[test]
fn signature_missing_name_uses_placeholder() {
    let e = entry(EntryKind::Function, None, &["bytes32"], false);
    assert_eq!(canonical_signature(&e), "unknown(bytes32)");
}

#[test]
fn signature_types_kept_verbatim() {
    let e = entry(EntryKind::Function, Some("f"), &["(uint256,address)", "uint256[]"], false);
    assert_eq!(canonical_signature(&e), "f((uint256,address),uint256[])");
}

#[test]
fn known_selector_vector() {
    assert_eq!(derive_selector("transfer(address,uint256)"), "0xa9059cbb");
}

#[test]
fn known_topic_vector() {
    assert_eq!(
        derive_topic("Transfer(address,address,uint256)"),
        "0xddf252ad1be2c89b69c2b068fc378daa952ba7f163c4a11628f55a4df523b3ef"
    );
}

#[test]
fn derivation_is_deterministic() {
    let e = entry(EntryKind::Function, Some("approve"), &["address", "uint256"], false);
    let s1 = canonical_signature(&e);
    let s2 = canonical_signature(&e);
    assert_eq!(s1, s2);
    assert_eq!(derive_selector(&s1), derive_selector(&s2));
    assert_eq!(derive_topic(&s1), derive_topic(&s2));
}

#[test]
fn selector_length_invariant() {
    for sig in ["transfer(address,uint256)", "foo()", "unknown(bytes32)", "x(y,z)"] {
        let selector = derive_selector(sig);
        assert_eq!(selector.len(), 10);
        assert!(selector.starts_with("0x"));
    }
}

#[test]
fn topic_length_invariant() {
    for sig in ["Transfer(address,address,uint256)", "Log(uint256)", "E()"] {
        let topic = derive_topic(sig);
        assert_eq!(topic.len(), 66);
        assert!(topic.starts_with("0x"));
    }
}

#[test]
fn anonymous_event_display() {
    let entries = vec![entry(EntryKind::Event, Some("Log"), &["uint256"], true)];
    let report = analyze_contract("C".to_string(), &entries);
    assert_eq!(report.events.len(), 1);
    assert_eq!(report.events[0].text, "Log(uint256) [anonymous]");
    assert_eq!(report.events[0].ident, derive_topic("Log(uint256)"));
    assert!(report.functions.is_empty());
}

#[test]
fn named_event_has_no_suffix() {
    let entries = vec![entry(EntryKind::Event, Some("Log"), &["uint256"], false)];
    let report = analyze_contract("C".to_string(), &entries);
    assert_eq!(report.events[0].text, "Log(uint256)");
    assert_eq!(report.events[0].ident, derive_topic("Log(uint256)"));
}

#[test]
fn other_entries_are_skipped() {
    let entries = vec![
        entry(EntryKind::Other, Some("ctor"), &[], false),
        entry(EntryKind::Function, Some("f"), &[], false),
        entry(EntryKind::Other, None, &["uint8"], false),
    ];
    let report = analyze_contract("C".to_string(), &entries);
    assert!(report.events.is_empty());
    assert_eq!(report.functions.len(), 1);
    assert_eq!(report.functions[0].text, "f()");
}

#[test]
fn analyze_preserves_declaration_order() {
    let entries = vec![
        entry(EntryKind::Function, Some("b"), &[], false),
        entry(EntryKind::Event, Some("E1"), &[], false),
        entry(EntryKind::Function, Some("a"), &["uint8"], false),
        entry(EntryKind::Event, Some("E2"), &["bool"], false),
    ];
    let report = analyze_contract("C".to_string(), &entries);
    let fn_texts: Vec<&str> = report.functions.iter().map(|d| d.text.as_str()).collect();
    let ev_texts: Vec<&str> = report.events.iter().map(|d| d.text.as_str()).collect();
    assert_eq!(fn_texts, ["b()", "a(uint8)"]);
    assert_eq!(ev_texts, ["E1()", "E2(bool)"]);
}
