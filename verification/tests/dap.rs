use ark::dap::breakpoints::{
    lines_from_dap, update_breakpoints, Breakpoint, BreakpointState, InvalidReason,
};
use ark::dap::dap::{document_hash, Dap, DapBackendEvent, DocumentBreakpoints};
use ark::dap::dap_server::{client_connected, client_disconnected};
use ark::dap::dap_variables::RVariable;
use ark::r_object::RObject;

fn create_test_dap() -> Dap {
    let mut dap = Dap::new();
    dap.is_connected = true;
    dap.has_client = true;
    dap
}

fn insert(dap: &mut Dap, uri: &str, content: &str, breakpoints: Vec<Breakpoint>) {
    let hash = document_hash(content);
    dap.breakpoints.insert(uri.to_string(), DocumentBreakpoints { hash, breakpoints });
}

#[test]
fn test_did_change_document_removes_breakpoints() {
    let mut dap = create_test_dap();

    let uri = "file:///test.R";
    insert(&mut dap, uri, "test content", vec![
        Breakpoint::new(1, 10, BreakpointState::Verified),
        Breakpoint::new(2, 20, BreakpointState::Verified),
    ]);

    let events = dap.did_change_document(uri);

    assert!(dap.breakpoints.get(uri).is_none());

    assert!(matches!(events[0], DapBackendEvent::BreakpointState {
        id: 1,
        verified: false,
        ..
    }));
    assert!(matches!(events[1], DapBackendEvent::BreakpointState {
        id: 2,
        verified: false,
        ..
    }));

    assert_eq!(events.len(), 2);
}

#[test]
fn test_did_change_document_no_breakpoints_is_noop() {
    let mut dap = create_test_dap();

    let events = dap.did_change_document("file:///test.R");

    assert!(events.is_empty());
}

#[test]
fn test_did_change_document_only_affects_target_uri() {
    let mut dap = create_test_dap();

    let uri1 = "file:///test1.R";
    let uri2 = "file:///test2.R";
    insert(&mut dap, uri1, "content 1", vec![Breakpoint::new(
        1,
        10,
        BreakpointState::Verified,
    )]);
    insert(&mut dap, uri2, "content 2", vec![Breakpoint::new(
        2,
        20,
        BreakpointState::Verified,
    )]);

    let events = dap.did_change_document(uri1);

    assert!(dap.breakpoints.get(uri1).is_none());
    assert!(dap.breakpoints.get(uri2).is_some());

    assert!(matches!(events[0], DapBackendEvent::BreakpointState {
        id: 1,
        ..
    }));
    assert_eq!(events.len(), 1);
}

#[test]
fn test_did_change_document_without_backend_tx_is_noop() {
    let mut dap = Dap::new();

    let uri = "file:///test.R";
    insert(&mut dap, uri, "test content", vec![Breakpoint::new(
        1,
        10,
        BreakpointState::Verified,
    )]);

    // Should not panic even without a client
    let events = dap.did_change_document(uri);
    assert!(events.is_empty());

    // Breakpoints should still be removed
    assert!(dap.breakpoints.get(uri).is_none());
}

#[test]
fn the_hash_is_that_of_blake3() {
    assert_eq!(document_hash("test content"), blake3::hash(b"test content").as_bytes().to_vec());
    assert_ne!(document_hash("a"), document_hash("b"));
}

#[test]
fn lines_go_to_the_client_and_back() {
    for line in [0u32, 1, 41, u32::MAX - 1] {
        assert_eq!(Breakpoint::from_dap_line(Breakpoint::to_dap_line(line)), line);
    }
    assert_eq!(lines_from_dap(&vec![1, 7]), vec![0, 6]);
}

#[test]
fn breakpoints_keep_their_ids_while_the_document_stays() {
    let mut dap = create_test_dap();
    let uri = "file:///test.R";
    let first = dap.set_breakpoints(uri, "x", &vec![3, 5]);
    assert_eq!(first.len(), 2);
    let ids: Vec<i64> =
        dap.breakpoints.get(uri).unwrap().breakpoints.iter().map(|b| b.id).collect();
    assert_eq!(ids, vec![1, 2]);

    // Unset and set again: the same breakpoint
    dap.set_breakpoints(uri, "x", &vec![3]);
    dap.set_breakpoints(uri, "x", &vec![3, 5, 9]);
    let mut lines: Vec<(i64, u32)> =
        dap.breakpoints.get(uri).unwrap().breakpoints.iter().map(|b| (b.id, b.line)).collect();
    lines.sort();
    assert_eq!(lines[0], (1, 2));
    assert_eq!(lines[1].1.max(lines[2].1), 8);

    // Another content: new breakpoints
    dap.set_breakpoints(uri, "y", &vec![3]);
    let left = &dap.breakpoints.get(uri).unwrap().breakpoints;
    assert_eq!(left.len(), 1);
    assert!(left[0].id > 2);
    assert!(matches!(left[0].state, BreakpointState::Unverified));
}

#[test]
fn ids_are_never_given_twice() {
    let (bps, next) = update_breakpoints(&vec![], &vec![1, 2, 3], 7);
    assert_eq!(bps.iter().map(|b| b.id).collect::<Vec<_>>(), vec![7, 8, 9]);
    assert_eq!(next, 10);
    let (again, next) = update_breakpoints(&bps, &vec![2, 4], next);
    assert_eq!(next, 11);
    assert!(again.iter().any(|b| b.id == 8 && b.line == 2));
    assert!(again.iter().any(|b| b.id == 10 && b.line == 4));
}

#[test]
fn evaluated_breakpoints_are_verified() {
    let mut dap = create_test_dap();
    let uri = "file:///test.R";
    insert(&mut dap, uri, "x", vec![
        Breakpoint::new(1, 3, BreakpointState::Unverified),
        Breakpoint::new(2, 9, BreakpointState::Unverified),
    ]);
    assert!(dap.verify_breakpoint(uri, "7").is_none());
    assert!(matches!(
        dap.verify_breakpoint(uri, "1"),
        Some(DapBackendEvent::BreakpointState { id: 1, verified: true, .. })
    ));
    assert!(dap.verify_breakpoint(uri, "1").is_none());
    assert!(dap.is_breakpoint_enabled(uri, "1"));
    assert!(!dap.is_breakpoint_enabled("file:///other.R", "1"));
}

#[test]
fn reasons_are_told() {
    assert_eq!(InvalidReason::ClosingBrace.message(), "Can't break on closing `}` brace");
    assert_eq!(InvalidReason::EmptyBraces.message(), "Can't break inside empty braces");
}

#[test]
fn a_client_gets_events_from_when_it_connects() {
    let mut dap = Dap::new();
    assert!(dap.send_invalidated().is_none());
    client_connected(&mut dap);
    assert!(dap.is_connected);
    assert!(matches!(dap.send_invalidated(), Some(DapBackendEvent::Invalidated)));
    client_disconnected(&mut dap);
    assert!(!dap.is_connected);
}

#[test]
fn an_evaluated_object_gets_a_reference() {
    let mut dap = Dap::new();
    let list = RVariable {
        name: "x".to_string(),
        value: "<list>".to_string(),
        type_field: Some("list".to_string()),
        variables_reference_object: Some(RObject { address: 5 }),
    };
    let response = dap.into_evaluate_response(list);
    assert_eq!(response.result, "<list>");
    assert_eq!(response.type_field.as_deref(), Some("list"));
    assert_eq!(response.variables_reference, 1);
    let number = RVariable {
        name: "y".to_string(),
        value: "1".to_string(),
        type_field: None,
        variables_reference_object: None,
    };
    assert_eq!(dap.into_evaluate_response(number).variables_reference, 0);
}

#[test]
fn breakpoint_ids_count_from_one() {
    let mut dap = Dap::new();
    assert_eq!(dap.next_breakpoint_id(), 1);
    assert_eq!(dap.next_breakpoint_id(), 2);
}

#[test]
fn the_client_is_told_why_breakpoints_are_invalid() {
    let mut dap = create_test_dap();
    let uri = "file:///test.R";
    insert(&mut dap, uri, "{\n}", vec![
        Breakpoint::new(1, 10, BreakpointState::Verified),
        Breakpoint::new(2, 20, BreakpointState::Invalid(InvalidReason::EmptyBraces)),
        Breakpoint::new(3, 30, BreakpointState::Disabled),
    ]);
    let events = dap.notify_invalid_breakpoints(uri);
    assert_eq!(events.len(), 1);
    assert!(matches!(
        &events[0],
        DapBackendEvent::BreakpointState { id: 2, line: 20, verified: false, message: Some(m) }
            if m == "Can't break inside empty braces"
    ));
    assert!(dap.notify_invalid_breakpoints("file:///other.R").is_empty());

    dap.remove_disabled_breakpoints(uri);
    let left = &dap.breakpoints.get(uri).unwrap().breakpoints;
    assert_eq!(left.len(), 2);
    assert_eq!((left[0].id, left[1].id), (1, 2));
}

#[test]
fn a_disabled_breakpoint_is_kept_until_it_is_set_again() {
    let verified = vec![Breakpoint::new(1, 4, BreakpointState::Verified)];
    let (unset, next) = update_breakpoints(&verified, &vec![], 2);
    assert_eq!(unset[0].state, BreakpointState::Disabled);
    let (other, next) = update_breakpoints(&unset, &vec![9], next);
    assert_eq!(other.len(), 2);
    assert_eq!((other[1].id, other[1].line, other[1].state), (1, 4, BreakpointState::Disabled));
    let (again, _) = update_breakpoints(&other, &vec![9, 4], next);
    assert_eq!(again.len(), 2);
    assert_eq!((again[1].id, again[1].state), (1, BreakpointState::Verified));
}
