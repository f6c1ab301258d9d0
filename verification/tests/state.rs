use revent::ids::{ClientId, QueryId};
use revent::messages::{
    ClientMessage, QueryParameter, QueryRequestMessage, QueryRequestedErrorReason,
    QueryResponseMessage, RegisterClientMessage, RegisterSourceEventMessage, RequestId,
    ServerMessage,
};
use revent::query_handlers::QueryRequestHandlerError;
use revent::source_events::{EventId, SourceEvent, UtcTimestamp};
use revent::state::{heartbeat_outcome, MessageOutcome, Outbound, PageRequest, State};
use revent::time::TimeSpan;

fn cid(v: &str) -> ClientId {
    ClientId::new(v).expect("valid client id")
}

fn qid(v: &str) -> QueryId {
    QueryId::new(v).expect("valid query id")
}

const SINCE: UtcTimestamp = UtcTimestamp { seconds: 1_700_000_000, nanos: 0 };

/// Registers a client as a session does; returns what the session was sent.
fn register(state: &mut State, id: &str, queries: &[QueryId], now: u128) -> ServerMessage {
    let msg = RegisterClientMessage::new(cid(id), queries);
    let MessageOutcome::ReplyToSession(reply) =
        state.handle_message(&ClientMessage::RegisterClient(msg), now)
    else {
        panic!("a registration is answered on its session")
    };
    let msg = RegisterClientMessage::new(cid(id), queries);
    state.registration_sent(&msg, true, now, SINCE);
    reply
}

fn request(rid: u128, requester: &str, query: &str) -> QueryRequestMessage {
    QueryRequestMessage::new(RequestId(rid), cid(requester), qid(query), Vec::new())
}

#[test]
fn get_client_can_handle_clients_dont_change() {
    let mut state = State::new();
    let query_id = qid("query.users.list");
    register(&mut state, "client-1", std::slice::from_ref(&query_id), 1);
    register(&mut state, "client-2", std::slice::from_ref(&query_id), 2);

    let before = state.get_client_ids_for_query_id(&query_id);
    assert_eq!(before, vec![cid("client-1"), cid("client-2")]);

    let selected = state.get_client_id_for_query_id(&query_id);
    assert!(selected.is_ok(), "a handler should be selected");

    let after = state.get_client_ids_for_query_id(&query_id);
    assert_eq!(after, vec![cid("client-1"), cid("client-2")]);

    let selected_second = state.get_client_id_for_query_id(&query_id);
    assert!(selected_second.is_ok(), "a second handler should be selected");
}

#[test]
fn get_client_can_handle_updates_round_robin_last_selected() {
    let mut state = State::new();
    let query_id = qid("query.users.list");
    register(&mut state, "client-1", std::slice::from_ref(&query_id), 1);
    register(&mut state, "client-2", std::slice::from_ref(&query_id), 2);

    let selected = state.get_client_id_for_query_id(&query_id);
    assert!(selected.is_ok(), "a handler should be selected");
    assert_eq!(state.last_selected_client(), Some(cid("client-1")));

    let selected_second = state.get_client_id_for_query_id(&query_id);
    assert!(selected_second.is_ok(), "a second handler should be selected");
    assert_eq!(state.last_selected_client(), Some(cid("client-2")));
}

#[test]
fn get_client_can_handle_single_handler_keeps_same_position() {
    let mut state = State::new();
    let query_id = qid("query.users.detail");
    register(&mut state, "client-1", std::slice::from_ref(&query_id), 1);

    let selected = state.get_client_id_for_query_id(&query_id);
    assert!(selected.is_ok(), "single handler should be selected");
    assert_eq!(state.last_selected_client(), Some(cid("client-1")));

    let selected_second = state.get_client_id_for_query_id(&query_id);
    assert!(selected_second.is_ok(), "a second handler should be selected");
    assert_eq!(state.last_selected_client(), Some(cid("client-1")));
}

#[test]
fn get_client_can_handle_returns_error_when_no_handlers_registered_for_query_id() {
    let mut state = State::new();
    let query_id = qid("query.unknown");
    register(&mut state, "client-1", std::slice::from_ref(&qid("another")), 1);

    let result = state.get_client_id_for_query_id(&query_id);
    assert!(matches!(result, Err(QueryRequestHandlerError::QueryHandlerNotFound)));
}

#[test]
fn get_client_can_handle_returns_error_when_no_handlers_registered() {
    let mut state = State::new();
    let query_id = qid("query.unknown");
    let result = state.get_client_id_for_query_id(&query_id);
    assert!(matches!(result, Err(QueryRequestHandlerError::QueryHandlerNotFound)));
}

#[test]
fn handle_message_query_request_without_handlers_sends_query_rejected_to_requester() {
    let mut state = State::new();
    let mut sent_messages: Vec<ServerMessage> = Vec::new();
    let client_id = cid("client-1");

    sent_messages.push(register(
        &mut state,
        "client-1",
        std::slice::from_ref(&qid("query.users.list")),
        1,
    ));

    let request_id = RequestId(0x1234_5678_9abc_def0_1234_5678_9abc_def0);
    let query_id = qid("query.unknown");
    let outcome = state.handle_message(
        &ClientMessage::QueryRequest(QueryRequestMessage::new(
            request_id,
            client_id.clone(),
            query_id.clone(),
            Vec::new(),
        )),
        2,
    );
    let MessageOutcome::Send(out) = outcome else { panic!("expected messages to send") };
    for Outbound { to, message } in out {
        assert_eq!(to, client_id);
        sent_messages.push(message);
    }
    assert_eq!(sent_messages.len(), 2);

    let ServerMessage::QueryRequestedError {
        request_id: msg_request_id,
        query_id: msg_query_id,
        reason: QueryRequestedErrorReason::QueryHandlerNotFound,
    } = &sent_messages[1]
    else {
        panic!("expected QueryRequestedError message to be sent to requester")
    };
    assert_eq!(msg_request_id.clone(), request_id);
    assert_eq!(msg_query_id.clone(), query_id);
}

#[test]
fn get_connected_clients_returns_first_page_sorted_by_client_id() {
    let mut state = State::new();
    register(&mut state, "client-3", &[], 1);
    register(&mut state, "client-1", &[], 2);
    register(&mut state, "client-2", &[], 3);

    let page = state.get_connected_clients(PageRequest::new(0, 2));

    assert_eq!(page.total_count(), 3);
    assert_eq!(page.items().len(), 2);
    let ids: Vec<ClientId> = page.items().iter().map(|(id, _)| id.clone()).collect();
    assert_eq!(ids, vec![cid("client-1"), cid("client-2")]);
}

#[test]
fn get_connected_clients_returns_second_page() {
    let mut state = State::new();
    register(&mut state, "client-1", &[], 1);
    register(&mut state, "client-2", &[], 2);
    register(&mut state, "client-3", &[], 3);

    let page = state.get_connected_clients(PageRequest::new(2, 2));

    assert_eq!(page.total_count(), 3);
    assert_eq!(page.items().len(), 1);
    let ids: Vec<ClientId> = page.items().iter().map(|(id, _)| id.clone()).collect();
    assert_eq!(ids, vec![cid("client-3")]);
}

#[test]
fn get_connected_clients_with_zero_offset_returns_empty_page() {
    let mut state = State::new();
    register(&mut state, "client-1", &[], 1);

    let page = state.get_connected_clients(PageRequest::new(0, 0));

    assert_eq!(page.total_count(), 1);
    assert!(page.items().is_empty());
}

#[test]
fn connected_clients_page_past_the_end_is_empty() {
    let mut state = State::new();
    register(&mut state, "client-1", &[], 1);
    let page = state.get_connected_clients(PageRequest::new(1, 5));
    assert_eq!(page.total_count(), 1);
    assert!(page.items().is_empty());
}

#[test]
fn registration_is_confirmed_and_recorded() {
    let mut state = State::new();
    let reply = register(&mut state, "client-1", &[qid("q.one"), qid("q.two")], 7);
    assert!(matches!(reply, ServerMessage::ClientRegistered { client_id } if client_id == cid("client-1")));
    let info = state.get_client_by_id(&cid("client-1")).expect("connected");
    assert_eq!(info.since, SINCE);
    assert_eq!(info.last_seen, 7);
    assert_eq!(
        state.get_query_handlers_for_client_id(&cid("client-1")),
        vec![qid("q.one"), qid("q.two")]
    );
}

#[test]
fn duplicate_registration_is_refused_and_changes_nothing() {
    let mut state = State::new();
    register(&mut state, "client-1", &[qid("q.one")], 1);
    let reply = register(&mut state, "client-1", &[qid("q.two")], 9);
    assert_eq!(reply.to_wire_reason(), Some("ClientIdDuplicated".to_string()));
    assert_eq!(state.get_client_by_id(&cid("client-1")).expect("connected").last_seen, 1);
    assert_eq!(state.get_query_handlers_for_client_id(&cid("client-1")), vec![qid("q.one")]);
}

#[test]
fn registration_whose_reply_was_lost_is_not_recorded() {
    let mut state = State::new();
    let msg = RegisterClientMessage::new(cid("client-1"), &[qid("q.one")]);
    let _ = state.handle_message(&ClientMessage::RegisterClient(msg), 1);
    let msg = RegisterClientMessage::new(cid("client-1"), &[qid("q.one")]);
    state.registration_sent(&msg, false, 1, SINCE);
    assert!(state.get_client_by_id(&cid("client-1")).is_none());
    assert!(state.get_client_ids_for_query_id(&qid("q.one")).is_empty());
}

trait WireReason {
    fn to_wire_reason(&self) -> Option<String>;
}

impl WireReason for ServerMessage {
    fn to_wire_reason(&self) -> Option<String> {
        match self {
            ServerMessage::ClientRegistrationError { reason, .. } => Some(reason.as_str().to_string()),
            ServerMessage::QueryRequestedError { reason, .. } => Some(reason.as_str().to_string()),
            _ => None,
        }
    }
}

#[test]
fn query_is_forwarded_answered_and_forgotten() {
    let mut state = State::new();
    register(&mut state, "asker", &[], 1);
    register(&mut state, "answerer", &[qid("q.users")], 2);
    let mut msg = request(42, "asker", "q.users");
    msg.parameters.push(QueryParameter { name: "id".to_string(), value: "7".to_string() });

    let outcome = state.handle_message(&ClientMessage::QueryRequest(msg), 10);
    let MessageOutcome::ForwardQuery { responder, message } = outcome else {
        panic!("expected the query to be forwarded")
    };
    assert_eq!(responder, cid("answerer"));
    let ServerMessage::QueryRequested(requested) = message else { panic!("expected QueryRequested") };
    assert_eq!(requested.request_id, RequestId(42));
    assert_eq!(requested.query_id, qid("q.users"));
    assert_eq!(requested.parameters.len(), 1);

    let mut msg = request(42, "asker", "q.users");
    msg.parameters.push(QueryParameter { name: "id".to_string(), value: "7".to_string() });
    let refusals = state.query_request_sent(&msg, &responder, true, 10);
    assert!(refusals.is_empty());
    assert_eq!(state.get_client_by_id(&cid("asker")).expect("connected").last_seen, 10);

    let response = QueryResponseMessage::new(RequestId(42), cid("answerer"), &vec![1, 2, 3]);
    let outcome = state.handle_message(&ClientMessage::QueryResponse(response), 11);
    let MessageOutcome::DeliverResponse { requester, message } = outcome else {
        panic!("expected the answer to be delivered")
    };
    assert_eq!(requester, cid("asker"));
    let ServerMessage::QueryResponded(responded) = message else { panic!("expected QueryResponded") };
    assert_eq!(responded.request_id, RequestId(42));
    assert_eq!(responded.result, vec![1, 2, 3]);

    state.query_response_sent(RequestId(42), true);
    let response = QueryResponseMessage::new(RequestId(42), cid("answerer"), &vec![1]);
    let outcome = state.handle_message(&ClientMessage::QueryResponse(response), 12);
    assert!(matches!(outcome, MessageOutcome::Done));
}

#[test]
fn repeated_request_is_ignored_and_reused_id_is_refused() {
    let mut state = State::new();
    register(&mut state, "asker", &[], 1);
    register(&mut state, "answerer", &[qid("q.users"), qid("q.other")], 2);
    let msg = request(5, "asker", "q.users");
    let MessageOutcome::ForwardQuery { responder, .. } =
        state.handle_message(&ClientMessage::QueryRequest(request(5, "asker", "q.users")), 3)
    else {
        panic!("expected forwarding")
    };
    state.query_request_sent(&msg, &responder, true, 3);

    let again = state.handle_message(&ClientMessage::QueryRequest(request(5, "asker", "q.users")), 4);
    assert!(matches!(again, MessageOutcome::Done));

    let reused = state.handle_message(&ClientMessage::QueryRequest(request(5, "asker", "q.other")), 5);
    let MessageOutcome::Send(out) = reused else { panic!("expected a refusal") };
    assert_eq!(out.len(), 1);
    assert_eq!(out[0].to, cid("asker"));
    assert_eq!(out[0].message.to_wire_reason(), Some("RequestIdDuplicated".to_string()));
}

#[test]
fn failed_forwarding_is_reported_to_requester() {
    let mut state = State::new();
    register(&mut state, "asker", &[], 1);
    register(&mut state, "answerer", &[qid("q.users")], 2);
    let msg = request(8, "asker", "q.users");
    let refusals = state.query_request_sent(&msg, &cid("answerer"), false, 3);
    assert_eq!(refusals.len(), 1);
    assert_eq!(refusals[0].to, cid("asker"));
    assert_eq!(refusals[0].message.to_wire_reason(), Some("QueryHandlerNotFound".to_string()));
    let response = QueryResponseMessage::new(RequestId(8), cid("answerer"), &vec![]);
    assert!(matches!(
        state.handle_message(&ClientMessage::QueryResponse(response), 4),
        MessageOutcome::Done
    ));
}

#[test]
fn query_to_unknown_requester_sends_nothing() {
    let mut state = State::new();
    let outcome = state.handle_message(&ClientMessage::QueryRequest(request(1, "ghost", "q.none")), 1);
    assert!(matches!(outcome, MessageOutcome::Done));
}

#[test]
fn disconnect_forgets_client_and_its_queries() {
    let mut state = State::new();
    register(&mut state, "client-1", &[qid("q.a"), qid("q.b")], 1);
    register(&mut state, "client-2", &[qid("q.b")], 2);
    let outcome = state.handle_message(&ClientMessage::DisconnectClient { client_id: cid("client-1") }, 3);
    assert!(matches!(outcome, MessageOutcome::Done));
    assert!(state.get_client_by_id(&cid("client-1")).is_none());
    assert!(state.get_client_ids_for_query_id(&qid("q.a")).is_empty());
    assert_eq!(state.get_client_ids_for_query_id(&qid("q.b")), vec![cid("client-2")]);
    assert!(state.get_query_handlers_for_client_id(&cid("client-1")).is_empty());
}

#[test]
fn heartbeat_marks_client_seen_and_stale_clients_are_listed() {
    let mut state = State::new();
    register(&mut state, "client-1", &[], 1_000);
    register(&mut state, "client-2", &[], 1_000);
    let _ = state.handle_message(&ClientMessage::Heartbeat { client_id: cid("client-2") }, 5_000);
    assert_eq!(state.get_client_by_id(&cid("client-2")).expect("connected").last_seen, 5_000);
    let stale = state.clients_to_check(5_500, TimeSpan::new(0, 1_000));
    assert_eq!(stale, vec![cid("client-1")]);
    assert!(state.clients_to_check(1_500, TimeSpan::new(0, 1_000)).is_empty());
}

#[test]
fn late_requests_expire_with_a_notice_to_their_requester() {
    let mut state = State::new();
    register(&mut state, "asker", &[], 0);
    register(&mut state, "answerer", &[qid("q.users")], 0);
    state.query_request_sent(&request(1, "asker", "q.users"), &cid("answerer"), true, 100);
    state.query_request_sent(&request(2, "asker", "q.users"), &cid("answerer"), true, 900);
    let notices = state.expire_requests(1_000, TimeSpan::new(0, 500));
    assert_eq!(notices.len(), 1);
    assert_eq!(notices[0].to, cid("asker"));
    let ServerMessage::QueryRequestedError { request_id, query_id, reason } = &notices[0].message else {
        panic!("expected a timeout notice")
    };
    assert_eq!(*request_id, RequestId(1));
    assert_eq!(*query_id, qid("q.users"));
    assert_eq!(*reason, QueryRequestedErrorReason::QueryTimedOut);
    assert!(state.expire_requests(1_000, TimeSpan::new(0, 500)).is_empty());
    let response = QueryResponseMessage::new(RequestId(2), cid("answerer"), &vec![]);
    assert!(matches!(
        state.handle_message(&ClientMessage::QueryResponse(response), 1_001),
        MessageOutcome::DeliverResponse { .. }
    ));
}

fn saved_event() -> SourceEvent {
    SourceEvent::new(
        EventId(77),
        UtcTimestamp { seconds: 10, nanos: 20 },
        3,
        revent::ids::AggregateId::new("agg-1").expect("valid"),
        "Order".to_string(),
        vec![9, 9],
    )
}

#[test]
fn saved_event_is_acknowledged_then_broadcast() {
    let mut state = State::new();
    register(&mut state, "client-b", &[], 1);
    register(&mut state, "client-a", &[], 1);
    let msg = RegisterSourceEventMessage::new(
        cid("client-b"),
        EventId(77),
        revent::ids::AggregateId::new("agg-1").expect("valid"),
        "Order".to_string(),
        &vec![9, 9],
    );
    let outcome = state.handle_message(&ClientMessage::RegisterSourceEvent(msg), 2);
    let MessageOutcome::SaveSourceEvent(new_event) = outcome else { panic!("expected a save") };
    assert_eq!(new_event.event_id, EventId(77));
    assert_eq!(new_event.aggregate_type, "Order");
    assert_eq!(new_event.payload, vec![9, 9]);

    let msg = RegisterSourceEventMessage::new(
        cid("client-b"),
        EventId(77),
        revent::ids::AggregateId::new("agg-1").expect("valid"),
        "Order".to_string(),
        &vec![9, 9],
    );
    let notices = state.source_event_saved(&msg, &saved_event());
    assert_eq!(notices.len(), 3);
    assert_eq!(notices[0].to, cid("client-b"));
    assert!(matches!(
        notices[0].message,
        ServerMessage::SourceEventRegistered { event_id: EventId(77), monotonic_clock: 3 }
    ));
    assert_eq!(notices[1].to, cid("client-a"));
    assert_eq!(notices[2].to, cid("client-b"));
    assert!(matches!(&notices[1].message, ServerMessage::SourceEvent(e) if e.monotonic_clock == 3));
}

#[test]
fn saved_event_of_unknown_source_is_not_broadcast() {
    let mut state = State::new();
    register(&mut state, "client-a", &[], 1);
    let msg = RegisterSourceEventMessage::new(
        cid("ghost"),
        EventId(77),
        revent::ids::AggregateId::new("agg-1").expect("valid"),
        "Order".to_string(),
        &vec![],
    );
    assert!(state.source_event_saved(&msg, &saved_event()).is_empty());
}

#[test]
fn heartbeat_round_refreshes_reached_clients_and_drops_the_others() {
    let mut state = State::new();
    register(&mut state, "client-1", &[qid("q.a")], 1_000);
    register(&mut state, "client-2", &[qid("q.a")], 1_000);
    register(&mut state, "client-3", &[qid("q.a")], 4_800);
    let stale = state.clients_to_check(5_000, TimeSpan::new(0, 1_000));
    assert_eq!(stale, vec![cid("client-1"), cid("client-2")]);
    let reached = [true, false];
    for (id, sent) in stale.into_iter().zip(reached) {
        let msg = heartbeat_outcome(id, sent);
        let _ = state.handle_message(&msg, 5_000);
    }
    assert_eq!(state.get_client_by_id(&cid("client-1")).expect("alive").last_seen, 5_000);
    assert!(state.get_client_by_id(&cid("client-2")).is_none());
    assert_eq!(state.get_client_by_id(&cid("client-3")).expect("fresh").last_seen, 4_800);
    assert_eq!(state.get_client_ids_for_query_id(&qid("q.a")), vec![cid("client-1"), cid("client-3")]);
}

#[test]
fn heartbeat_outcome_follows_delivery() {
    assert!(matches!(
        heartbeat_outcome(cid("client-1"), true),
        ClientMessage::Heartbeat { client_id } if client_id == cid("client-1")
    ));
    assert!(matches!(
        heartbeat_outcome(cid("client-1"), false),
        ClientMessage::DisconnectClient { client_id } if client_id == cid("client-1")
    ));
}
