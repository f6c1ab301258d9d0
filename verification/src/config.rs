//! Settings of the server and their consistency checks.

use crate::time::{span_nanos, span_secs, span_subsec_nanos, TimeSpan, NANOS_PER_SEC};
use vstd::prelude::*;

verus! {

/// A problem found in the settings, in words.
pub type ConfigError = String;

/// What `format!("{:?}", Duration::new(secs, nanos))` writes, such as
/// `1s`, `2.8s` or `500ms`.
pub uninterp spec fn duration_debug_text(secs: u64, nanos: u32) -> Seq<char>;

/// Calls `std::time::Duration`'s `Debug` formatting on the duration of
/// `secs` seconds and `nanos` nanoseconds; the result is named, not
/// described. `Duration::new` panics only when `nanos` carries over past the
/// largest second count, which `nanos` below a second rules out.
#[verifier::external_body]
fn duration_debug(secs: u64, nanos: u32) -> (r: String)
    requires
        nanos < NANOS_PER_SEC,
    ensures
        r@ == duration_debug_text(secs, nanos),
{
    format!("{:?}", std::time::Duration::new(secs, nanos))
}

/// The debug text of a span.
pub open spec fn span_debug_text(t: TimeSpan) -> Seq<char> {
    duration_debug_text(span_secs(t), span_subsec_nanos(t))
}

fn span_debug(t: &TimeSpan) -> (r: String)
    ensures
        r@ == span_debug_text(*t),
{
    duration_debug(t.secs(), t.subsec_nanos())
}

/// The lowest query response timeout that is not refused, in nanoseconds.
pub open spec fn min_query_response_timeout_nanos() -> nat {
    500_000_000
}

/// The problem reported when heartbeats are sent less often than clients
/// expire.
pub open spec fn heartbeat_error_text(heartbeat: TimeSpan, expiration: TimeSpan) -> Seq<char> {
    "server_interval_heartbeat_message ("@ + span_debug_text(heartbeat)
        + ") should be lower than server_expiration_client ("@ + span_debug_text(expiration)
        + ")"@
}

/// The problem reported when the query response timeout is too low.
pub open spec fn timeout_error_text(timeout: TimeSpan) -> Seq<char> {
    "server_query_response_timeout ("@ + span_debug_text(timeout) + ") it is very low"@
}

/// The settings of the server.
#[derive(Debug, Clone)]
pub struct Config {
    app_name: String,
    app_version: String,
    environment: String,
    server_rest_port: u16,
    server_grpc_port: u16,
    server_interval_heartbeat_message: TimeSpan,
    server_expiration_client: TimeSpan,
    server_query_response_timeout: TimeSpan,
    otel_collector_endpoint: String,
}

/// The settings as plain values.
pub struct ConfigView {
    pub app_name: Seq<char>,
    pub app_version: Seq<char>,
    pub environment: Seq<char>,
    pub server_rest_port: u16,
    pub server_grpc_port: u16,
    pub server_interval_heartbeat_message: TimeSpan,
    pub server_expiration_client: TimeSpan,
    pub server_query_response_timeout: TimeSpan,
    pub otel_collector_endpoint: Seq<char>,
}

impl View for Config {
    type V = ConfigView;

    closed spec fn view(&self) -> ConfigView {
        ConfigView {
            app_name: self.app_name@,
            app_version: self.app_version@,
            environment: self.environment@,
            server_rest_port: self.server_rest_port,
            server_grpc_port: self.server_grpc_port,
            server_interval_heartbeat_message: self.server_interval_heartbeat_message,
            server_expiration_client: self.server_expiration_client,
            server_query_response_timeout: self.server_query_response_timeout,
            otel_collector_endpoint: self.otel_collector_endpoint@,
        }
    }
}

/// The problems of settings `c`, in the order they are checked: heartbeats
/// must not be less frequent than client expiration, and the query response
/// timeout must be at least half a second.
pub open spec fn config_errors(c: ConfigView) -> Seq<Seq<char>> {
    let first: Seq<Seq<char>> = if span_nanos(c.server_interval_heartbeat_message) > span_nanos(
        c.server_expiration_client,
    ) {
        seq![
            heartbeat_error_text(c.server_interval_heartbeat_message, c.server_expiration_client),
        ]
    } else {
        Seq::empty()
    };
    if span_nanos(c.server_query_response_timeout) < min_query_response_timeout_nanos() {
        first.push(timeout_error_text(c.server_query_response_timeout))
    } else {
        first
    }
}

/// The texts of a list of errors.
pub open spec fn errors_view(s: Seq<String>) -> Seq<Seq<char>> {
    s.map_values(|e: String| e@)
}

impl Config {
    /// Settings with the given values.
    pub fn new(
        app_name: String,
        app_version: String,
        environment: String,
        server_rest_port: u16,
        server_grpc_port: u16,
        server_interval_heartbeat_message: TimeSpan,
        server_expiration_client: TimeSpan,
        server_query_response_timeout: TimeSpan,
        otel_collector_endpoint: String,
    ) -> (r: Self)
        ensures
            r@ == (ConfigView {
                app_name: app_name@,
                app_version: app_version@,
                environment: environment@,
                server_rest_port,
                server_grpc_port,
                server_interval_heartbeat_message,
                server_expiration_client,
                server_query_response_timeout,
                otel_collector_endpoint: otel_collector_endpoint@,
            }),
    {
        Config {
            app_name,
            app_version,
            environment,
            server_rest_port,
            server_grpc_port,
            server_interval_heartbeat_message,
            server_expiration_client,
            server_query_response_timeout,
            otel_collector_endpoint,
        }
    }

    /// Checks the settings: `Ok` when there is no problem, else every
    /// problem found.
    pub fn validate(&self) -> (r: Result<(), Vec<ConfigError>>)
        ensures
            match r {
                Ok(()) => config_errors(self@).len() == 0,
                Err(errors) => errors_view(errors@) == config_errors(self@) && errors@.len() > 0,
            },
    {
        let mut cfg_errors: Vec<ConfigError> = Vec::new();
        let heartbeat = self.server_interval_heartbeat_message;
        let expiration = self.server_expiration_client;
        if heartbeat.as_nanos() > expiration.as_nanos() {
            let mut e = "server_interval_heartbeat_message (".to_owned();
            e.append(span_debug(&heartbeat).as_str());
            e.append(") should be lower than server_expiration_client (");
            e.append(span_debug(&expiration).as_str());
            e.append(")");
            cfg_errors.push(e);
        }
        let timeout = self.server_query_response_timeout;
        if timeout.as_nanos() < 500_000_000 {
            let mut e = "server_query_response_timeout (".to_owned();
            e.append(span_debug(&timeout).as_str());
            e.append(") it is very low");
            cfg_errors.push(e);
        }
        assert(errors_view(cfg_errors@) =~= config_errors(self@));
        if cfg_errors.len() > 0 {
            return Err(cfg_errors);
        }
        Ok(())
    }

    pub fn app_name(&self) -> (r: &str)
        ensures
            r@ == self@.app_name,
    {
        self.app_name.as_str()
    }

    pub fn app_version(&self) -> (r: &str)
        ensures
            r@ == self@.app_version,
    {
        self.app_version.as_str()
    }

    /// The environment the server runs in.
    pub fn environment(&self) -> (r: &str)
        ensures
            r@ == self@.environment,
    {
        self.environment.as_str()
    }

    /// The port of the REST server.
    pub fn server_rest_port(&self) -> (r: u16)
        ensures
            r == self@.server_rest_port,
    {
        self.server_rest_port
    }

    /// The port of the gRPC server.
    pub fn server_grpc_port(&self) -> (r: u16)
        ensures
            r == self@.server_grpc_port,
    {
        self.server_grpc_port
    }

    /// How often the server checks that clients are alive.
    pub fn server_interval_heartbeat_message(&self) -> (r: &TimeSpan)
        ensures
            *r == self@.server_interval_heartbeat_message,
    {
        &self.server_interval_heartbeat_message
    }

    /// How long a query may wait for its answer.
    pub fn server_query_response_timeout(&self) -> (r: &TimeSpan)
        ensures
            *r == self@.server_query_response_timeout,
    {
        &self.server_query_response_timeout
    }

    /// How long after it was last seen a client is checked with a heartbeat.
    pub fn server_expiration_client(&self) -> (r: &TimeSpan)
        ensures
            *r == self@.server_expiration_client,
    {
        &self.server_expiration_client
    }

    /// The OTLP endpoint of the telemetry collector.
    pub fn otel_collector_endpoint(&self) -> (r: &str)
        ensures
            r@ == self@.otel_collector_endpoint,
    {
        self.otel_collector_endpoint.as_str()
    }
}

/// The package name, the default application name.
pub fn default_app_name() -> (r: String)
    ensures
        r@ == "revent"@,
{
    "revent".to_owned()
}

/// The package version, the default application version.
pub fn default_app_version() -> (r: String)
    ensures
        r@ == "0.1.0"@,
{
    "0.1.0".to_owned()
}

pub fn default_environment() -> (r: String)
    ensures
        r@ == "local"@,
{
    "local".to_owned()
}

pub fn default_server_html_port() -> (r: u16)
    ensures
        r == 10001,
{
    10001
}

pub fn default_server_grpc_port() -> (r: u16)
    ensures
        r == 10000,
{
    10000
}

pub fn default_server_interval_heartbeat_message() -> (r: TimeSpan)
    ensures
        span_nanos(r) == 1_000_000_000,
{
    TimeSpan::from_secs(1)
}

pub fn default_server_query_response_timeout() -> (r: TimeSpan)
    ensures
        span_nanos(r) == 3_000_000_000,
{
    TimeSpan::from_secs(3)
}

pub fn default_server_expiration_client() -> (r: TimeSpan)
    ensures
        span_nanos(r) == 2_800_000_000,
{
    TimeSpan::from_millis(2800)
}

pub fn default_otel_collector_endpoint() -> (r: String)
    ensures
        r@ == "http://localhost:4317"@,
{
    "http://localhost:4317".to_owned()
}

} // verus!
