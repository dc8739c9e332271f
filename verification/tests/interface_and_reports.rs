//! Interface decoding, report table structure, and CSV rendering.

use abi_selectors::abi::{
    classify_kind, parse_interface, EntryKind, MalformedInterfaceError,
};
use abi_selectors::csv::{csv_line, escape_csv_field, render_table};
use abi_selectors::digest::{derive_selector, derive_topic};
use abi_selectors::report::{build_reports, ContractInterface, Row};

#[test]
fn classify_kind_strings() {
    assert_eq!(classify_kind("function"), EntryKind::Function);
    assert_eq!(classify_kind("event"), EntryKind::Event);
    assert_eq!(classify_kind("constructor"), EntryKind::Other);
    assert_eq!(classify_kind("Function"), EntryKind::Other);
    assert_eq!(classify_kind(""), EntryKind::Other);
}

#[test]
fn parse_full_interface() {
    let text = r#"[
        {"type":"function","name":"transfer","inputs":[{"type":"address"},{"type":"uint256"}]},
        {"type":"event","name":"Transfer","inputs":[{"type":"address"},{"type":"address"},{"type":"uint256"}],"anonymous":false},
        {"type":"constructor","inputs":[]}
    ]"#;
    let entries = parse_interface(text).unwrap();
    assert_eq!(entries.len(), 3);
    assert_eq!(entries[0].kind, EntryKind::Function);
    assert_eq!(entries[0].name.as_deref(), Some("transfer"));
    assert_eq!(entries[0].inputs.len(), 2);
    assert_eq!(entries[0].inputs[1].param_type, "uint256");
    assert!(!entries[0].anonymous);
    assert_eq!(entries[1].kind, EntryKind::Event);
    assert!(!entries[1].anonymous);
    assert_eq!(entries[2].kind, EntryKind::Other);
}

#[test]
fn parse_defaults_and_ignored_fields() {
    let text = r#"[
        {"type":"function","extra":42,"outputs":[{"type":"bool"}]},
        {"type":"event","name":null,"inputs":null},
        {"type":"event","name":"Ping","anonymous":true}
    ]"#;
    let entries = parse_interface(text).unwrap();
    assert_eq!(entries[0].name, None);
    assert!(entries[0].inputs.is_empty());
    assert!(!entries[0].anonymous);
    assert_eq!(entries[1].name, None);
    assert!(entries[1].inputs.is_empty());
    assert!(entries[2].anonymous);
}

#[test]
fn parse_rejects_bad_text() {
    let err = |text: &str| parse_interface(text).unwrap_err();
    assert_eq!(err("not json"), MalformedInterfaceError::NotJson);
    assert_eq!(err("{\"type\":\"function\"}"), MalformedInterfaceError::NotArray);
    assert_eq!(err("[{\"name\":\"f\"}]"), MalformedInterfaceError::BadKind);
    assert_eq!(err("[{\"type\":7}]"), MalformedInterfaceError::BadKind);
    assert_eq!(err("[{\"type\":\"function\",\"name\":3}]"), MalformedInterfaceError::BadName);
    assert_eq!(err("[{\"type\":\"function\",\"inputs\":5}]"), MalformedInterfaceError::BadInputs);
    assert_eq!(
        err("[{\"type\":\"function\",\"inputs\":[{\"name\":\"x\"}]}]"),
        MalformedInterfaceError::BadInputs
    );
    assert_eq!(
        err("[{\"type\":\"function\",\"inputs\":[{\"type\":9}]}]"),
        MalformedInterfaceError::BadInputs
    );
    assert_eq!(
        err("[{\"type\":\"event\",\"anonymous\":\"yes\"}]"),
        MalformedInterfaceError::BadAnonymous
    );
    assert_eq!(
        err("[{\"type\":\"event\",\"anonymous\":null}]"),
        MalformedInterfaceError::BadAnonymous
    );
}

fn row(c0: &str, c1: &str, c2: &str) -> (String, String, String) {
    (c0.to_string(), c1.to_string(), c2.to_string())
}

fn as_tuples(rows: &[Row]) -> Vec<(String, String, String)> {
    rows.iter().map(|r| (r.col0.clone(), r.col1.clone(), r.col2.clone())).collect()
}

#[test]
fn tables_keep_discovery_and_declaration_order() {
    let alpha = parse_interface(
        r#"[
            {"type":"event","name":"Paid","inputs":[{"type":"address"}]},
            {"type":"function","name":"pay","inputs":[{"type":"address"}]},
            {"type":"function","name":"stop","inputs":[]}
        ]"#,
    )
    .unwrap();
    let beta = parse_interface(r#"[{"type":"function","name":"go","inputs":[]}]"#).unwrap();
    let contracts = vec![
        ContractInterface { name: "Alpha".to_string(), entries: alpha },
        ContractInterface { name: "Beta".to_string(), entries: beta },
    ];
    let (events, functions) = build_reports(&contracts);
    assert_eq!(
        as_tuples(&events),
        vec![
            row("contractName", "event", "topic"),
            row("Alpha", "", ""),
            row("", "Paid(address)", &derive_topic("Paid(address)")),
            row("Beta", "", ""),
        ]
    );
    assert_eq!(
        as_tuples(&functions),
        vec![
            row("contractName", "function", "selector"),
            row("Alpha", "", ""),
            row("", "pay(address)", &derive_selector("pay(address)")),
            row("", "stop()", &derive_selector("stop()")),
            row("Beta", "", ""),
            row("", "go()", &derive_selector("go()")),
        ]
    );
}

#[test]
fn divider_present_even_for_empty_contribution() {
    let contracts = vec![ContractInterface { name: "Empty".to_string(), entries: vec![] }];
    let (events, functions) = build_reports(&contracts);
    assert_eq!(as_tuples(&events), vec![row("contractName", "event", "topic"), row("Empty", "", "")]);
    assert_eq!(
        as_tuples(&functions),
        vec![row("contractName", "function", "selector"), row("Empty", "", "")]
    );
    let dividers = |rows: &[Row]| rows.iter().filter(|r| r.col0 == "Empty").count();
    assert_eq!(dividers(&events), 1);
    assert_eq!(dividers(&functions), 1);
}

#[test]
fn no_contracts_gives_headers_only() {
    let (events, functions) = build_reports(&vec![]);
    assert_eq!(as_tuples(&events), vec![row("contractName", "event", "topic")]);
    assert_eq!(as_tuples(&functions), vec![row("contractName", "function", "selector")]);
}

#[test]
fn escape_field_without_specials() {
    assert_eq!(escape_csv_field("0xa9059cbb"), "0xa9059cbb");
    assert_eq!(escape_csv_field(""), "");
}

#[test]
fn escape_field_with_comma() {
    assert_eq!(escape_csv_field("f((uint256,address))"), "\"f((uint256,address))\"");
}

#[test]
fn escape_field_doubles_quotes() {
    assert_eq!(escape_csv_field("say \"hi\""), "\"say \"\"hi\"\"\"");
    assert_eq!(escape_csv_field("line\nbreak"), "\"line\nbreak\"");
}

#[test]
fn csv_round_trip_recovers_field() {
    let original = "g((uint256,address),\"x\")";
    let escaped = escape_csv_field(original);
    assert!(escaped.starts_with('"') && escaped.ends_with('"'));
    let body = &escaped[1..escaped.len() - 1];
    let recovered = body.replace("\"\"", "\"");
    assert_eq!(recovered, original);
}

#[test]
fn csv_line_renders_row() {
    let r = Row {
        col0: String::new(),
        col1: "f(uint256,bool)".to_string(),
        col2: "0xdeadbeef".to_string(),
    };
    assert_eq!(csv_line(&r), ",\"f(uint256,bool)\",0xdeadbeef\n");
}

#[test]
fn render_table_joins_lines() {
    let rows = vec![
        Row {
            col0: "contractName".to_string(),
            col1: "function".to_string(),
            col2: "selector".to_string(),
        },
        Row { col0: "C".to_string(), col1: String::new(), col2: String::new() },
        Row { col0: String::new(), col1: "f()".to_string(), col2: "0x26121ff0".to_string() },
    ];
    assert_eq!(render_table(&rows), "contractName,function,selector\nC,,\n,f(),0x26121ff0\n");
}
