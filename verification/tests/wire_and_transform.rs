use revent::ids::ClientId;
use revent::messages::{
    ClientMessage, QueryHandlingErrorReason, QueryParameter, QueryRequestedErrorReason,
    QueryRequestedMessage, QueryRespondedMessage, RegisterClientMessage, RequestId, ServerMessage,
};
use revent::session::{session_end, session_step, SessionAction};
use revent::source_events::{EventId, SourceEvent, UtcTimestamp};
use revent::transform::{
    checked_client_message_from, client_message_from, ClientMessageError, ClientPayload,
    HandlingErrorCode, QueryHandlingErrorPayload, QueryRequestPayload, QueryResponsePayload,
    RegisterClientPayload, RegisterSourceEventPayload,
};
use revent::wire::WireServerMessage;

const UUID_TEXT: &str = "a1a2a3a4-b1b2-c1c2-d1d2-d3d4d5d6d7d8";
const UUID_BITS: u128 = 0xa1a2a3a4b1b2c1c2d1d2d3d4d5d6d7d8;

fn cid(v: &str) -> ClientId {
    ClientId::new(v).expect("valid client id")
}

#[test]
fn uuid_text_round_trips() {
    assert_eq!(RequestId::parse(UUID_TEXT), Some(RequestId(UUID_BITS)));
    assert_eq!(RequestId(UUID_BITS).to_text(), UUID_TEXT);
    assert_eq!(EventId::parse("A1A2A3A4B1B2C1C2D1D2D3D4D5D6D7D8"), Some(EventId(UUID_BITS)));
    assert_eq!(EventId(0).to_text(), "00000000-0000-0000-0000-000000000000");
    assert_eq!(RequestId::parse("not a uuid"), None);
}

#[test]
fn server_messages_in_session_shape() {
    let w = ServerMessage::ClientRegistered { client_id: cid("client-1") }.to_wire();
    assert!(matches!(w, WireServerMessage::ClientRegistered { client_id } if client_id == "client-1"));

    let w = ServerMessage::client_id_duplicated(cid("client-1")).to_wire();
    assert!(matches!(w, WireServerMessage::ClientRegistrationError { client_id, reason }
        if client_id == "client-1" && reason == "ClientIdDuplicated"));

    let w = ServerMessage::QueryRequestedError {
        request_id: RequestId(UUID_BITS),
        query_id: revent::ids::QueryId::new("q.users").expect("valid"),
        reason: QueryRequestedErrorReason::HandlingError(QueryHandlingErrorReason::Unknown {
            details: Some("bad input".to_string()),
        }),
    }
    .to_wire();
    assert!(matches!(w, WireServerMessage::QueryRequestedError { request_id, query_id, reason, details }
        if request_id == UUID_TEXT && query_id == "q.users" && reason == "Unknown" && details == "bad input"));

    let w = ServerMessage::query_timed_out(RequestId(UUID_BITS), revent::ids::QueryId::new("q.users").expect("valid"))
        .to_wire();
    assert!(matches!(w, WireServerMessage::QueryRequestedError { reason, details, .. }
        if reason == "QueryTimedOut" && details.is_empty()));

    let w = ServerMessage::QueryRequested(QueryRequestedMessage::new(
        RequestId(UUID_BITS),
        revent::ids::QueryId::new("q.users").expect("valid"),
        vec![QueryParameter { name: "a".to_string(), value: "b".to_string() }],
    ))
    .to_wire();
    assert!(matches!(w, WireServerMessage::QueryRequested { request_id, parameters, .. }
        if request_id == UUID_TEXT && parameters.len() == 1));

    let w = ServerMessage::QueryResponded(QueryRespondedMessage::new(RequestId(1), &vec![4, 5])).to_wire();
    assert!(matches!(w, WireServerMessage::QueryResponded { request_id, result }
        if request_id == "00000000-0000-0000-0000-000000000001" && result == vec![4, 5]));

    let w = ServerMessage::SourceEventRegistered { event_id: EventId(UUID_BITS), monotonic_clock: 9 }.to_wire();
    assert!(matches!(w, WireServerMessage::SourceEventRegistered { event_id, monotonic_clock: 9 }
        if event_id == UUID_TEXT));

    assert!(matches!(ServerMessage::Heartbeat.to_wire(), WireServerMessage::Heartbeat));
}

#[test]
fn test_from_domain_source_event() {
    let event = SourceEvent::new(
        EventId(UUID_BITS),
        UtcTimestamp { seconds: 1_700_000_000, nanos: 123 },
        100,
        revent::ids::AggregateId::new("test-aggregate").expect("valid"),
        "test-type".to_string(),
        b"{\"foo\": \"bar\"}".to_vec(),
    );
    let WireServerMessage::SourceEvent(w) = ServerMessage::SourceEvent(event).to_wire() else {
        panic!("expected an event")
    };
    assert_eq!(w.id, UUID_TEXT);
    assert_eq!(w.monotonic_clock, 100);
    assert_eq!(w.aggregate_id, "test-aggregate");
    assert_eq!(w.aggregate_type, "test-type");
    assert_eq!(w.created_at_seconds, 1_700_000_000);
    assert_eq!(w.created_at_nanos, 123);
    assert_eq!(w.payload, b"{\"foo\": \"bar\"}".to_vec());
}

#[test]
fn registration_payload_is_checked_in_order() {
    let ok = client_message_from(
        &ClientPayload::RegisterClient(RegisterClientPayload {
            client_id: "client-1".to_string(),
            query_handlers: vec!["q.one".to_string(), "q.two".to_string()],
        }),
        None,
    );
    let Ok(ClientMessage::RegisterClient(m)) = ok else { panic!("expected a registration") };
    assert_eq!(m.client_id, cid("client-1"));
    assert_eq!(m.query_handlers.len(), 2);

    let bad_query = client_message_from(
        &ClientPayload::RegisterClient(RegisterClientPayload {
            client_id: "x".to_string(),
            query_handlers: vec!["q.one".to_string(), "  ".to_string(), "ab".to_string()],
        }),
        None,
    );
    let Err(e) = bad_query else { panic!("expected a refusal") };
    assert_eq!(e.message(), "Validation error for field query_id: value is empty");

    let bad_client = client_message_from(
        &ClientPayload::RegisterClient(RegisterClientPayload {
            client_id: "x".to_string(),
            query_handlers: vec!["q.one".to_string()],
        }),
        None,
    );
    let Err(e) = bad_client else { panic!("expected a refusal") };
    assert_eq!(e.message(), "Validation error for field client_id: ClientId is too short");
}

#[test]
fn requests_need_a_registered_session() {
    let e = client_message_from(&ClientPayload::Heartbeat, None).expect_err("not registered");
    assert!(matches!(e, ClientMessageError::ClientNotRegistered));
    assert_eq!(e.message(), "Client not registered");
    let hb = client_message_from(&ClientPayload::Heartbeat, Some(cid("client-1")));
    assert!(matches!(hb, Ok(ClientMessage::Heartbeat { client_id }) if client_id == cid("client-1")));
}

#[test]
fn query_request_payload() {
    let payload = ClientPayload::QueryRequest(QueryRequestPayload {
        request_id: UUID_TEXT.to_string(),
        query_id: "q.users".to_string(),
        parameters: vec![],
    });
    let m = client_message_from(&payload, Some(cid("asker")));
    assert!(matches!(m, Ok(ClientMessage::QueryRequest(q)) if q.request_id == RequestId(UUID_BITS) && q.requester == cid("asker")));
    let short = ClientPayload::QueryRequest(QueryRequestPayload {
        request_id: "not checked".to_string(),
        query_id: "qq".to_string(),
        parameters: vec![],
    });
    let e = client_message_from(&short, Some(cid("asker"))).expect_err("short query id");
    assert_eq!(e.message(), "Validation error for field query_id: value is too short (min=3)");
    let long = ClientPayload::QueryRequest(QueryRequestPayload {
        request_id: UUID_TEXT.to_string(),
        query_id: "q".repeat(256),
        parameters: vec![],
    });
    let e = client_message_from(&long, Some(cid("asker"))).expect_err("long query id");
    assert_eq!(e.message(), "Validation error for field query_id: value is too long (max=255)");
}

#[test]
fn unreadable_ids_are_caught_before_conversion() {
    let payload = ClientPayload::QueryResponse(QueryResponsePayload {
        request_id: "nope".to_string(),
        result: vec![],
    });
    assert!(checked_client_message_from(&payload, Some(cid("answerer"))).is_none());
    assert!(matches!(
        checked_client_message_from(&payload, None),
        Some(Err(ClientMessageError::ClientNotRegistered))
    ));
    let ok = ClientPayload::QueryResponse(QueryResponsePayload {
        request_id: UUID_TEXT.to_string(),
        result: vec![1],
    });
    assert!(matches!(
        checked_client_message_from(&ok, Some(cid("answerer"))),
        Some(Ok(ClientMessage::QueryResponse(_)))
    ));
}

#[test]
fn handling_error_payload() {
    let payload = ClientPayload::QueryHandlingError(QueryHandlingErrorPayload {
        request_id: UUID_TEXT.to_string(),
        reason: HandlingErrorCode::Unknown,
        details: String::new(),
    });
    let m = client_message_from(&payload, Some(cid("answerer")));
    assert!(matches!(m, Ok(ClientMessage::QueryHandlingError(h))
        if h.reason == QueryHandlingErrorReason::Unknown { details: None }));
    let payload = ClientPayload::QueryHandlingError(QueryHandlingErrorPayload {
        request_id: UUID_TEXT.to_string(),
        reason: HandlingErrorCode::Unknown,
        details: "why".to_string(),
    });
    let m = client_message_from(&payload, Some(cid("answerer")));
    assert!(matches!(m, Ok(ClientMessage::QueryHandlingError(h))
        if h.reason == QueryHandlingErrorReason::Unknown { details: Some("why".to_string()) }));
    let payload = ClientPayload::QueryHandlingError(QueryHandlingErrorPayload {
        request_id: UUID_TEXT.to_string(),
        reason: HandlingErrorCode::ErrorHandling,
        details: "ignored".to_string(),
    });
    let m = client_message_from(&payload, Some(cid("answerer")));
    assert!(matches!(m, Ok(ClientMessage::QueryHandlingError(h))
        if h.reason == QueryHandlingErrorReason::ErrorHandling));
}

#[test]
fn source_event_payload() {
    let payload = ClientPayload::RegisterSourceEvent(RegisterSourceEventPayload {
        event_id: UUID_TEXT.to_string(),
        aggregate_id: "agg-1".to_string(),
        aggregate_type: "Order".to_string(),
        payload: vec![1, 2],
    });
    let m = client_message_from(&payload, Some(cid("client-1")));
    assert!(matches!(m, Ok(ClientMessage::RegisterSourceEvent(e))
        if e.event_id == EventId(UUID_BITS) && e.aggregate_id.as_str() == "agg-1" && e.payload == vec![1, 2]));
    let bad = ClientPayload::RegisterSourceEvent(RegisterSourceEventPayload {
        event_id: "not read".to_string(),
        aggregate_id: " ".to_string(),
        aggregate_type: "Order".to_string(),
        payload: vec![],
    });
    let e = client_message_from(&bad, Some(cid("client-1"))).expect_err("blank aggregate id");
    assert_eq!(e.message(), "Validation error for field aggregate_id: value is empty");
}

#[test]
fn session_steps_follow_conversions() {
    let (client, action) = session_step(None, Err(ClientMessageError::ClientNotRegistered));
    assert!(client.is_none());
    assert!(matches!(action, SessionAction::Stop(ClientMessageError::ClientNotRegistered)));

    let registration = ClientMessage::RegisterClient(RegisterClientMessage::new(cid("client-1"), &[]));
    let (client, action) = session_step(None, Ok(registration));
    assert_eq!(client, Some(cid("client-1")));
    assert!(matches!(action, SessionAction::Handle(ClientMessage::RegisterClient(_))));

    let heartbeat = ClientMessage::Heartbeat { client_id: cid("client-1") };
    let (client, action) = session_step(client, Ok(heartbeat));
    assert_eq!(client, Some(cid("client-1")));
    assert!(matches!(action, SessionAction::Handle(ClientMessage::Heartbeat { .. })));

    let (client, action) = session_step(client, Err(ClientMessageError::ClientNotRegistered));
    assert_eq!(client, Some(cid("client-1")));
    assert!(matches!(action, SessionAction::Stop(_)));

    assert!(matches!(
        session_end(client),
        Some(ClientMessage::DisconnectClient { client_id }) if client_id == cid("client-1")
    ));
    assert!(session_end(None).is_none());
}

#[test]
fn handling_error_codes_decode_from_wire_numbers() {
    assert_eq!(HandlingErrorCode::from_wire(0), HandlingErrorCode::Unknown);
    assert_eq!(HandlingErrorCode::from_wire(1), HandlingErrorCode::ErrorHandling);
    assert_eq!(HandlingErrorCode::from_wire(2), HandlingErrorCode::Unknown);
    assert_eq!(HandlingErrorCode::from_wire(-1), HandlingErrorCode::Unknown);
}
