use revent::config::Config;
use revent::event_pages::{default_cursor, default_limit, source_events_response, CursorPagination};
use revent::ids::{ClientId, QueryId};
use revent::messages::{ClientMessage, RegisterClientMessage};
use revent::rest::{client_details_response, AppInfo, ErrorDetail, ErrorResponse, BAD_REQUEST};
use revent::source_events::UtcTimestamp;
use revent::state::{MessageOutcome, State};
use revent::time::TimeSpan;

fn registered_state() -> State {
    let mut state = State::new();
    let queries = [QueryId::new("q.users").expect("valid"), QueryId::new("q.orders").expect("valid")];
    let msg = RegisterClientMessage::new(ClientId::new("client-1").expect("valid"), &queries);
    let MessageOutcome::ReplyToSession(_) = state.handle_message(&ClientMessage::RegisterClient(msg), 1_000)
    else {
        panic!("expected a reply")
    };
    let msg = RegisterClientMessage::new(ClientId::new("client-1").expect("valid"), &queries);
    state.registration_sent(&msg, true, 1_000, UtcTimestamp { seconds: 5, nanos: 6 });
    state
}

#[test]
fn client_details_of_a_connected_client() {
    let state = registered_state();
    let dto = client_details_response("client-1", &state, 4_000).expect("found");
    assert_eq!(dto.id, "client-1");
    assert_eq!(dto.since, UtcTimestamp { seconds: 5, nanos: 6 });
    assert_eq!(dto.last_seen, 3_000);
    assert_eq!(dto.query_handlers, vec!["q.users".to_string(), "q.orders".to_string()]);
}

#[test]
fn client_details_of_unknown_or_invalid_ids() {
    let state = registered_state();
    let err = client_details_response("client-9", &state, 4_000).expect_err("unknown");
    assert_eq!(err.code, BAD_REQUEST);
    assert_eq!(err.message, "Client with id client-9 not found");
    assert_eq!(err.errors.len(), 1);
    assert_eq!(err.errors[0].reason, "notFound");
    assert_eq!(err.errors[0].location_type, "path");
    let err = client_details_response("ab", &state, 4_000).expect_err("invalid");
    assert_eq!(err.code, BAD_REQUEST);
    assert_eq!(err.message, "Invalid client id");
    assert_eq!(err.errors[0].reason, "invalid parameter");
    assert_eq!(err.errors[0].message, "ClientId is too short");
}

#[test]
fn source_events_listing() {
    assert_eq!(default_cursor(), 0);
    assert_eq!(default_limit(), 20);
    let page = source_events_response(&CursorPagination { cursor: 7, limit: 50 }).expect("valid");
    assert_eq!(page.cursor, 7);
    assert_eq!(page.limit, 50);
    assert_eq!(page.size, 0);
    assert_eq!(page.total_elements, 0);
    assert_eq!(page.content.len(), 1);
    assert_eq!(page.content[0].aggregate_type, "my_type");
    assert_eq!(page.content[0].payload, r#"{"name": "John", "surname": "Doe"}"#);
    let err = source_events_response(&CursorPagination { cursor: 0, limit: 51 }).expect_err("too big");
    assert_eq!(err.code, BAD_REQUEST);
    assert_eq!(
        err.errors[0].message,
        "Failed to deserialize query string: limit must be between 1 and 50"
    );
    assert!(source_events_response(&CursorPagination { cursor: 0, limit: 0 }).is_err());
}

#[test]
fn error_documents() {
    let d = ErrorDetail::new("r".to_string(), "m".to_string(), "l".to_string());
    let e = ErrorResponse::not_found("gone".to_string(), &[d.clone()]);
    assert_eq!(e.code, 400);
    assert_eq!(e.errors, vec![d.clone()]);
    let e = ErrorResponse::validation_error("bad".to_string(), &[d]);
    assert_eq!(e.code, 400);
    assert_eq!(e.message, "bad");
}

#[test]
fn app_info_from_settings() {
    let cfg = Config::new(
        "svc".to_string(),
        "1.2.3".to_string(),
        "prod".to_string(),
        1,
        2,
        TimeSpan::from_secs(1),
        TimeSpan::from_secs(2),
        TimeSpan::from_secs(3),
        "http://collector".to_string(),
    );
    let info = AppInfo::from_config(&cfg, "main".to_string(), "abc123".to_string());
    assert_eq!(info.name, "svc");
    assert_eq!(info.version, "1.2.3");
    assert_eq!(info.environment, "prod");
    assert_eq!(info.git_info.branch, "main");
    assert_eq!(info.git_info.commit_id, "abc123");
}
