use coconut_dkg::error::{DkgError, RecoveryFailure};
use coconut_dkg::event::{find_attribute, node_index_from_events, parse_node_index, Event, EventAttribute};

fn attr(k: &str, v: &str) -> EventAttribute {
    EventAttribute { key: k.to_string(), value: v.to_string() }
}

#[test]
fn parses_plain_and_plus() {
    assert_eq!(parse_node_index("42"), Ok(42));
    assert_eq!(parse_node_index("+7"), Ok(7));
    assert_eq!(parse_node_index("0"), Ok(0));
    assert_eq!(parse_node_index("18446744073709551615"), Ok(u64::MAX));
}

#[test]
fn rejects_malformed_indices() {
    let e = Err(DkgError::NodeIndexRecoveryError { reason: RecoveryFailure::Malformed });
    assert_eq!(parse_node_index(""), e);
    assert_eq!(parse_node_index("+"), e);
    assert_eq!(parse_node_index("-1"), e);
    assert_eq!(parse_node_index(" 1"), e);
    assert_eq!(parse_node_index("1a"), e);
    assert_eq!(parse_node_index("18446744073709551616"), e);
}

#[test]
fn node_index_from_contract_event() {
    let events = vec![
        Event { kind: "message".to_string(), attributes: vec![attr("node_index", "9")] },
        Event {
            kind: "wasm".to_string(),
            attributes: vec![attr("_contract_address", "n1xyz"), attr("node_index", "3")],
        },
        Event { kind: "wasm".to_string(), attributes: vec![attr("node_index", "5")] },
    ];
    assert_eq!(node_index_from_events(&events), Ok(3));
}

#[test]
fn node_index_missing() {
    let events = vec![Event { kind: "wasm".to_string(), attributes: vec![attr("proposal_id", "1")] }];
    let nf = Err(DkgError::NodeIndexRecoveryError { reason: RecoveryFailure::NotFound });
    assert_eq!(node_index_from_events(&events), nf);
    assert_eq!(node_index_from_events(&Vec::new()), nf);
}

#[test]
fn node_index_unparsable() {
    for bad in ["x", "abc", "-1", ""] {
        let events = vec![Event { kind: "wasm".to_string(), attributes: vec![attr("node_index", bad)] }];
        assert_eq!(
            node_index_from_events(&events),
            Err(DkgError::NodeIndexRecoveryError { reason: RecoveryFailure::Malformed })
        );
    }
}

#[test]
fn find_attribute_first_match() {
    let events = vec![Event {
        kind: "wasm".to_string(),
        attributes: vec![attr("proposal_id", "4"), attr("proposal_id", "6")],
    }];
    let found = find_attribute(&events, &"wasm".to_string(), &"proposal_id".to_string());
    assert_eq!(found.map(|s| s.as_str()), Some("4"));
    assert!(find_attribute(&events, &"other".to_string(), &"proposal_id".to_string()).is_none());
}
