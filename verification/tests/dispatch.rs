use umbral::dispatch::{
    handle_request, handler_error_payload, handler_frame, invalid_protocol_frame,
    invalid_protocol_payload, method_not_found_frame, method_not_found_payload,
    response_payload_for, RequestOutcome, Routes,
};

#[test]
fn distinguished_payloads_exact() {
    assert_eq!(method_not_found_payload(), b"METHOD NOT FOUND".to_vec());
    assert_eq!(invalid_protocol_payload(), b"INVALID PROTOCOL".to_vec());
    assert_eq!(
        handler_error_payload(&b"boom".to_vec()),
        b"Handler error: boom".to_vec()
    );
}

#[test]
fn routes_register_and_lookup() {
    let mut routes = Routes::new();
    assert!(routes.lookup(&b"ping".to_vec()).is_none());
    let i = routes.register(b"ping".to_vec());
    let j = routes.register(b"echo".to_vec());
    assert_ne!(i, j);
    assert_eq!(routes.lookup(&b"ping".to_vec()), Some(i));
    assert_eq!(routes.lookup(&b"echo".to_vec()), Some(j));
    assert!(routes.lookup(&b"gone".to_vec()).is_none());
}

#[test]
fn reregistering_keeps_the_slot() {
    // the caller's handler list is indexed by the returned slot, so an
    // already-present name keeps its index and the last registration wins
    let mut routes = Routes::new();
    let i = routes.register(b"ping".to_vec());
    let again = routes.register(b"ping".to_vec());
    assert_eq!(i, again);
    assert_eq!(routes.lookup(&b"ping".to_vec()), Some(i));
}

#[test]
fn unknown_method_answers_method_not_found() {
    let mut routes = Routes::new();
    routes.register(b"known".to_vec());
    let message = b"unknown[%]payload".to_vec();
    let outcome = handle_request(&routes, &message);
    assert!(matches!(outcome, RequestOutcome::MethodNotFound));
    let frame = method_not_found_frame();
    assert_eq!(frame, b"\x00\x00\x00\x10METHOD NOT FOUND".to_vec());
}

#[test]
fn message_without_delimiter_answers_invalid_protocol() {
    let mut routes = Routes::new();
    routes.register(b"known".to_vec());
    let message = b"known payload with no marker".to_vec();
    let outcome = handle_request(&routes, &message);
    assert!(matches!(outcome, RequestOutcome::InvalidProtocol));
    let frame = invalid_protocol_frame();
    assert_eq!(frame, b"\x00\x00\x00\x10INVALID PROTOCOL".to_vec());
}

#[test]
fn registered_method_is_dispatched_with_its_payload() {
    let mut routes = Routes::new();
    let ping = routes.register(b"ping".to_vec());
    let echo = routes.register(b"echo".to_vec());
    let message = b"echo[%]some bytes".to_vec();
    match handle_request(&routes, &message) {
        RequestOutcome::Invoke(i, payload) => {
            assert_eq!(i, echo);
            assert_ne!(i, ping);
            assert_eq!(payload, b"some bytes".to_vec());
        }
        _ => panic!("expected a dispatch"),
    }
}

#[test]
fn handler_outcome_payloads() {
    assert_eq!(response_payload_for(Ok(b"reply".to_vec())), b"reply".to_vec());
    assert_eq!(
        response_payload_for(Err(b"disk on fire".to_vec())),
        b"Handler error: disk on fire".to_vec()
    );
}

#[test]
fn handler_frames_are_length_prefixed() {
    let ok = handler_frame(Ok(b"hi".to_vec())).expect("short payload frames");
    assert_eq!(ok, b"\x00\x00\x00\x02hi".to_vec());
    let err = handler_frame(Err(b"x".to_vec())).expect("short payload frames");
    assert_eq!(err, b"\x00\x00\x00\x10Handler error: x".to_vec());
}
