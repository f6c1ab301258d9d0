//! Server messages in the shape a client session sends them: every id as
//! text, every reason by name.

use crate::messages::{
    copy_parameters, requested_error_details, requested_error_name, QueryParameter,
    ServerMessage,
};
use crate::source_events::{copy_bytes, SourceEvent};
use crate::uuids::uuid_text;
use vstd::prelude::*;

verus! {

/// A server message as a session sends it.
#[derive(Debug)]
pub enum WireServerMessage {
    ClientRegistered { client_id: String },
    ClientRegistrationError { client_id: String, reason: String },
    Heartbeat,
    QueryRequested { request_id: String, query_id: String, parameters: Vec<QueryParameter> },
    QueryRequestedError { request_id: String, query_id: String, reason: String, details: String },
    QueryResponded { request_id: String, result: Vec<u8> },
    SourceEventRegistered { event_id: String, monotonic_clock: u64 },
    SourceEvent(WireSourceEvent),
}

/// A saved event as a session sends it. The payload stays raw bytes; the
/// session turns it into a structured value.
#[derive(Debug)]
pub struct WireSourceEvent {
    pub id: String,
    pub created_at_seconds: i64,
    pub created_at_nanos: i32,
    pub monotonic_clock: u64,
    pub aggregate_type: String,
    pub aggregate_id: String,
    pub payload: Vec<u8>,
}

/// `n` read as a signed 32-bit number, as `u32::cast_signed` does.
pub open spec fn as_signed(n: u32) -> int {
    if n < 0x8000_0000 {
        n as int
    } else {
        n as int - 0x1_0000_0000
    }
}

fn cast_signed(n: u32) -> (r: i32)
    ensures
        r as int == as_signed(n),
{
    if n < 0x8000_0000 {
        n as i32
    } else {
        let low = (n - 0x8000_0000) as i32;
        low - 0x7fff_ffff - 1
    }
}

/// The session shape of a saved event.
pub open spec fn wire_event_matches(w: WireSourceEvent, e: SourceEvent) -> bool {
    &&& w.id@ == uuid_text(e.id.0)
    &&& w.created_at_seconds == e.created_at.seconds
    &&& w.created_at_nanos as int == as_signed(e.created_at.nanos)
    &&& w.monotonic_clock == e.monotonic_clock
    &&& w.aggregate_type@ == e.aggregate_type@
    &&& w.aggregate_id@ == e.aggregate_id@
    &&& w.payload@ == e.payload@
}

impl WireSourceEvent {
    /// The session shape of a saved event.
    pub fn from_event(e: &SourceEvent) -> (r: Self)
        ensures
            wire_event_matches(r, *e),
    {
        WireSourceEvent {
            id: e.id.to_text(),
            created_at_seconds: e.created_at.seconds,
            created_at_nanos: cast_signed(e.created_at.nanos),
            monotonic_clock: e.monotonic_clock,
            aggregate_type: e.aggregate_type.clone(),
            aggregate_id: e.aggregate_id.as_str().to_owned(),
            payload: copy_bytes(&e.payload),
        }
    }
}

/// The text of an optional detail, empty when absent.
pub open spec fn details_text(d: Option<String>) -> Seq<char> {
    match d {
        Some(s) => s@,
        None => Seq::empty(),
    }
}

/// `w` is the session shape of `m`.
pub open spec fn wire_matches(w: WireServerMessage, m: ServerMessage) -> bool {
    match m {
        ServerMessage::ClientRegistered { client_id } => w matches WireServerMessage::ClientRegistered {
            client_id: c,
        } && c@ == client_id@,
        ServerMessage::ClientRegistrationError { client_id, reason } => w matches WireServerMessage::ClientRegistrationError {
            client_id: c,
            reason: r,
        } && c@ == client_id@ && r@ == "ClientIdDuplicated"@,
        ServerMessage::Heartbeat => w is Heartbeat,
        ServerMessage::QueryRequested(q) => w matches WireServerMessage::QueryRequested {
            request_id,
            query_id,
            parameters,
        } && request_id@ == uuid_text(q.request_id.0) && query_id@ == q.query_id@ && parameters@
            == q.parameters@,
        ServerMessage::QueryRequestedError { request_id, query_id, reason } => w matches WireServerMessage::QueryRequestedError {
            request_id: ri,
            query_id: qi,
            reason: re,
            details,
        } && ri@ == uuid_text(request_id.0) && qi@ == query_id@ && re@ == requested_error_name(
            reason,
        ) && details@ == details_text(requested_error_details(reason)),
        ServerMessage::QueryResponded(q) => w matches WireServerMessage::QueryResponded {
            request_id,
            result,
        } && request_id@ == uuid_text(q.request_id.0) && result@ == q.result@,
        ServerMessage::SourceEventRegistered { event_id, monotonic_clock } => w matches WireServerMessage::SourceEventRegistered {
            event_id: e,
            monotonic_clock: c,
        } && e@ == uuid_text(event_id.0) && c == monotonic_clock,
        ServerMessage::SourceEvent(e) => w matches WireServerMessage::SourceEvent(we)
            && wire_event_matches(we, e),
    }
}

impl ServerMessage {
    /// The message in the shape a session sends it.
    pub fn to_wire(&self) -> (r: WireServerMessage)
        ensures
            wire_matches(r, *self),
    {
        match self {
            ServerMessage::ClientRegistered { client_id } => WireServerMessage::ClientRegistered {
                client_id: client_id.as_str().to_owned(),
            },
            ServerMessage::ClientRegistrationError { client_id, reason } =>
                WireServerMessage::ClientRegistrationError {
                client_id: client_id.as_str().to_owned(),
                reason: reason.as_str().to_owned(),
            },
            ServerMessage::Heartbeat => WireServerMessage::Heartbeat,
            ServerMessage::QueryRequested(q) => WireServerMessage::QueryRequested {
                request_id: q.request_id.to_text(),
                query_id: q.query_id.as_str().to_owned(),
                parameters: copy_parameters(&q.parameters),
            },
            ServerMessage::QueryRequestedError { request_id, query_id, reason } => {
                let details = match reason.details() {
                    Some(d) => d,
                    None => String::new(),
                };
                WireServerMessage::QueryRequestedError {
                    request_id: request_id.to_text(),
                    query_id: query_id.as_str().to_owned(),
                    reason: reason.as_str().to_owned(),
                    details,
                }
            },
            ServerMessage::QueryResponded(q) => WireServerMessage::QueryResponded {
                request_id: q.request_id.to_text(),
                result: copy_bytes(&q.result),
            },
            ServerMessage::SourceEventRegistered { event_id, monotonic_clock } =>
                WireServerMessage::SourceEventRegistered {
                event_id: event_id.to_text(),
                monotonic_clock: *monotonic_clock,
            },
            ServerMessage::SourceEvent(e) => WireServerMessage::SourceEvent(
                WireSourceEvent::from_event(e),
            ),
        }
    }
}

} // verus!
