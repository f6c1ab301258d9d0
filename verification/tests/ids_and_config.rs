use revent::config::{
    default_app_name, default_app_version, default_environment, default_otel_collector_endpoint,
    default_server_expiration_client, default_server_grpc_port, default_server_html_port,
    default_server_interval_heartbeat_message, default_server_query_response_timeout, Config,
};
use revent::errors::{ErrorStartingServer, TxError};
use revent::ids::{AggregateId, ClientId, InvalidAggregateId, InvalidQueryId, QueryId};
use revent::messages::{
    ClientMessage, ClientRegistrationErrorReason, QueryHandlingErrorReason,
    QueryRequestedErrorReason,
};
use revent::source_events::SourceEventRepositoryError;
use revent::time::TimeSpan;

#[test]
fn client_id_length_bounds() {
    assert_eq!(ClientId::new("").unwrap_err().0, "ClientId is empty");
    assert_eq!(ClientId::new("ab").unwrap_err().0, "ClientId is too short");
    assert_eq!(ClientId::new(&"x".repeat(65)).unwrap_err().0, "ClientId is too long");
    assert_eq!(ClientId::new("abc").expect("valid").as_str(), "abc");
    assert!(ClientId::new(&"x".repeat(64)).is_ok());
    // characters are counted, not bytes
    assert!(ClientId::new("ééé").is_ok());
    assert!(ClientId::new(&"é".repeat(64)).is_ok());
    // a client id may be blank
    assert!(ClientId::new("   ").is_ok());
}

#[test]
fn query_id_checks() {
    assert!(matches!(QueryId::new(""), Err(InvalidQueryId::Empty)));
    assert!(matches!(QueryId::new(" \t\n "), Err(InvalidQueryId::Empty)));
    assert!(matches!(QueryId::new("\u{3000}\u{2028}"), Err(InvalidQueryId::Empty)));
    assert!(matches!(QueryId::new("ab"), Err(InvalidQueryId::TooShort { len: 2, min: 3 })));
    assert!(matches!(QueryId::new(" a "), Ok(_)));
    assert!(matches!(
        QueryId::new(&"q".repeat(256)),
        Err(InvalidQueryId::TooLong { len: 256, max: 255 })
    ));
    assert_eq!(QueryId::new(&"q".repeat(255)).expect("valid").as_str().len(), 255);
    assert_eq!(QueryId::new("query.users").expect("valid").into_string(), "query.users");
}

#[test]
fn aggregate_id_checks() {
    assert!(matches!(AggregateId::new("  "), Err(InvalidAggregateId::Empty)));
    assert!(matches!(AggregateId::new("é"), Err(InvalidAggregateId::TooShort { len: 1, min: 3 })));
    assert!(matches!(
        AggregateId::new(&"a".repeat(300)),
        Err(InvalidAggregateId::TooLong { len: 300, max: 255 })
    ));
    assert_eq!(AggregateId::new("my_agg_id_123").expect("valid").as_str(), "my_agg_id_123");
}

#[test]
fn client_id_order_and_equality() {
    let a = ClientId::new("client-1").expect("valid");
    let b = ClientId::new("client-2").expect("valid");
    assert!(a.precedes(&b));
    assert!(!b.precedes(&a));
    assert!(!a.precedes(&a.clone()));
    assert!(a.same_as(&a.clone()));
    assert!(!a.same_as(&b));
}

fn config(heartbeat: TimeSpan, expiration: TimeSpan, timeout: TimeSpan) -> Config {
    Config::new(
        default_app_name(),
        default_app_version(),
        default_environment(),
        default_server_html_port(),
        default_server_grpc_port(),
        heartbeat,
        expiration,
        timeout,
        default_otel_collector_endpoint(),
    )
}

#[test]
fn default_settings_are_valid() {
    let cfg = config(
        default_server_interval_heartbeat_message(),
        default_server_expiration_client(),
        default_server_query_response_timeout(),
    );
    assert!(cfg.validate().is_ok());
    assert_eq!(cfg.app_name(), "revent");
    assert_eq!(cfg.environment(), "local");
    assert_eq!(cfg.server_rest_port(), 10001);
    assert_eq!(cfg.server_grpc_port(), 10000);
    assert_eq!(cfg.server_interval_heartbeat_message().as_nanos(), 1_000_000_000);
    assert_eq!(cfg.server_expiration_client().as_nanos(), 2_800_000_000);
    assert_eq!(cfg.server_query_response_timeout().as_nanos(), 3_000_000_000);
    assert_eq!(cfg.otel_collector_endpoint(), "http://localhost:4317");
}

#[test]
fn validation_reports_every_problem_with_durations() {
    let cfg = config(TimeSpan::from_secs(3), TimeSpan::from_millis(2800), TimeSpan::from_millis(100));
    let errors = cfg.validate().expect_err("two problems");
    assert_eq!(
        errors,
        vec![
            "server_interval_heartbeat_message (3s) should be lower than server_expiration_client (2.8s)"
                .to_string(),
            "server_query_response_timeout (100ms) it is very low".to_string(),
        ]
    );
}

#[test]
fn validation_bounds_are_inclusive() {
    let equal = config(TimeSpan::from_secs(2), TimeSpan::from_secs(2), TimeSpan::from_millis(500));
    assert!(equal.validate().is_ok());
    let just_low = config(TimeSpan::from_secs(1), TimeSpan::from_secs(2), TimeSpan::new(0, 499_999_999));
    assert_eq!(
        just_low.validate().expect_err("too low"),
        vec!["server_query_response_timeout (499.999999ms) it is very low".to_string()]
    );
}

#[test]
fn time_spans() {
    assert_eq!(TimeSpan::from_millis(2800).secs(), 2);
    assert_eq!(TimeSpan::from_millis(2800).subsec_nanos(), 800_000_000);
    assert_eq!(TimeSpan::new(1, 5).as_nanos(), 1_000_000_005);
    assert_eq!(revent::time::elapsed(10, 4), 6);
    assert_eq!(revent::time::elapsed(4, 10), 0);
}

#[test]
fn reason_names_and_details() {
    assert_eq!(ClientRegistrationErrorReason::ClientIdDuplicated.as_str(), "ClientIdDuplicated");
    assert_eq!(QueryRequestedErrorReason::RequestIdDuplicated.as_str(), "RequestIdDuplicated");
    assert_eq!(QueryRequestedErrorReason::QueryHandlerNotFound.as_str(), "QueryHandlerNotFound");
    assert_eq!(QueryRequestedErrorReason::QueryTimedOut.as_str(), "QueryTimedOut");
    let unknown = QueryRequestedErrorReason::HandlingError(QueryHandlingErrorReason::Unknown {
        details: Some("boom".to_string()),
    });
    assert_eq!(unknown.as_str(), "Unknown");
    assert_eq!(unknown.details(), Some("boom".to_string()));
    let handling = QueryRequestedErrorReason::HandlingError(QueryHandlingErrorReason::ErrorHandling);
    assert_eq!(handling.as_str(), "ErrorHandling");
    assert_eq!(handling.details(), None);
    assert_eq!(QueryRequestedErrorReason::QueryTimedOut.details(), None);
}

#[test]
fn message_sources() {
    let id = ClientId::new("client-1").expect("valid");
    let hb = ClientMessage::Heartbeat { client_id: id.clone() };
    assert_eq!(hb.get_source(), Some(&id));
    let reg = ClientMessage::RegisterClient(revent::messages::RegisterClientMessage::new(id, &[]));
    assert_eq!(reg.get_source(), None);
}

#[test]
fn error_texts() {
    assert_eq!(
        ErrorStartingServer { reason: "port in use".to_string() }.message(),
        "Error starting server: port in use"
    );
    assert_eq!(TxError::SendError("closed".to_string()).message(), "send error: closed");
    assert_eq!(SourceEventRepositoryError::new("disk full".to_string()).message(), "disk full");
}
