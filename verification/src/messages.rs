//! Messages exchanged with clients: what they send to the server and what
//! the server sends them.

use crate::ids::{AggregateId, ClientId, QueryId};
use crate::source_events::{copy_bytes, EventId, NewSourceEvent, SourceEvent, SourceEventView};
use vstd::prelude::*;

verus! {

/// Identifier of a query request: the 128 bits of its UUID.
#[derive(Debug, Clone, Copy, PartialEq, Eq, Hash, PartialOrd, Ord, Structural)]
pub struct RequestId(pub u128);

/// A named parameter of a query.
#[derive(Debug, PartialEq, Eq)]
pub struct QueryParameter {
    pub name: String,
    pub value: String,
}

impl Clone for QueryParameter {
    fn clone(&self) -> (r: Self)
        ensures
            r == *self,
    {
        QueryParameter { name: self.name.clone(), value: self.value.clone() }
    }
}

/// A copy of a list of query parameters.
pub fn copy_parameters(p: &Vec<QueryParameter>) -> (r: Vec<QueryParameter>)
    ensures
        r@ == p@,
{
    let mut r: Vec<QueryParameter> = Vec::new();
    let mut i: usize = 0;
    while i < p.len()
        invariant
            i <= p@.len(),
            r@ == p@.take(i as int),
        decreases p@.len() - i,
    {
        r.push(p[i].clone());
        assert(p@.take(i + 1) =~= p@.take(i as int).push(p@[i as int]));
        i += 1;
    }
    assert(p@.take(i as int) =~= p@);
    r
}

/// The texts of a sequence of query ids.
pub open spec fn query_ids_view(s: Seq<QueryId>) -> Seq<Seq<char>> {
    s.map_values(|q: QueryId| q@)
}

/// A copy of a list of query ids.
pub fn copy_query_ids(q: &[QueryId]) -> (r: Vec<QueryId>)
    ensures
        r@ == q@,
{
    let mut r: Vec<QueryId> = Vec::new();
    let mut i: usize = 0;
    while i < q.len()
        invariant
            i <= q@.len(),
            r@ == q@.take(i as int),
        decreases q@.len() - i,
    {
        r.push(q[i].clone());
        assert(q@.take(i + 1) =~= q@.take(i as int).push(q@[i as int]));
        i += 1;
    }
    assert(q@.take(i as int) =~= q@);
    r
}

/// A client asks to be registered, with the queries it can answer. The
/// session that sent it stays with the caller, which answers on it.
#[derive(Debug)]
pub struct RegisterClientMessage {
    pub client_id: ClientId,
    pub query_handlers: Vec<QueryId>,
}

impl RegisterClientMessage {
    pub fn new(client_id: ClientId, query_handlers: &[QueryId]) -> (r: Self)
        ensures
            r.client_id == client_id,
            r.query_handlers@ == query_handlers@,
    {
        RegisterClientMessage { client_id, query_handlers: copy_query_ids(query_handlers) }
    }
}

/// A client asks for a query to be answered by another client.
#[derive(Debug)]
pub struct QueryRequestMessage {
    /// Unique identifier of the query request.
    pub request_id: RequestId,
    /// The client that asks.
    pub requester: ClientId,
    /// The query to answer.
    pub query_id: QueryId,
    /// Parameters of the query.
    pub parameters: Vec<QueryParameter>,
}

impl QueryRequestMessage {
    pub fn new(
        request_id: RequestId,
        requester: ClientId,
        query_id: QueryId,
        parameters: Vec<QueryParameter>,
    ) -> (r: Self)
        ensures
            r.request_id == request_id,
            r.requester == requester,
            r.query_id == query_id,
            r.parameters@ == parameters@,
    {
        QueryRequestMessage { request_id, requester, query_id, parameters }
    }
}

/// A client answers a query request.
#[derive(Debug)]
pub struct QueryResponseMessage {
    pub request_id: RequestId,
    /// The client that answered.
    pub responder: ClientId,
    /// The answer.
    pub result: Vec<u8>,
}

impl QueryResponseMessage {
    pub fn new(request_id: RequestId, responder: ClientId, result: &Vec<u8>) -> (r: Self)
        ensures
            r.request_id == request_id,
            r.responder == responder,
            r.result@ == result@,
    {
        QueryResponseMessage { request_id, responder, result: copy_bytes(result) }
    }
}

/// Why a client could not answer a query request.
#[derive(Debug, PartialEq, Eq)]
pub enum QueryHandlingErrorReason {
    /// The client failed while handling the request.
    ErrorHandling,
    /// The client failed for a reason it does not know, possibly described.
    Unknown { details: Option<String> },
}

impl Clone for QueryHandlingErrorReason {
    fn clone(&self) -> (r: Self)
        ensures
            r == *self,
    {
        match self {
            QueryHandlingErrorReason::ErrorHandling => QueryHandlingErrorReason::ErrorHandling,
            QueryHandlingErrorReason::Unknown { details } => match details {
                Some(d) => QueryHandlingErrorReason::Unknown { details: Some(d.clone()) },
                None => QueryHandlingErrorReason::Unknown { details: None },
            },
        }
    }
}

/// A client reports that it could not answer a query request.
#[derive(Debug)]
pub struct QueryHandlingErrorMessage {
    pub request_id: RequestId,
    pub responder: ClientId,
    pub reason: QueryHandlingErrorReason,
}

impl QueryHandlingErrorMessage {
    pub fn new(request_id: RequestId, responder: ClientId, reason: QueryHandlingErrorReason) -> (r:
        Self)
        ensures
            r.request_id == request_id,
            r.responder == responder,
            r.reason == reason,
    {
        QueryHandlingErrorMessage { request_id, responder, reason }
    }
}

/// A client registers an event.
#[derive(Debug)]
pub struct RegisterSourceEventMessage {
    /// The client that registered the event.
    pub source: ClientId,
    pub event_id: EventId,
    pub aggregate_id: AggregateId,
    pub aggregate_type: String,
    pub payload: Vec<u8>,
}

impl RegisterSourceEventMessage {
    pub fn new(
        source: ClientId,
        event_id: EventId,
        aggregate_id: AggregateId,
        aggregate_type: String,
        payload: &Vec<u8>,
    ) -> (r: Self)
        ensures
            r.source == source,
            r.event_id == event_id,
            r.aggregate_id == aggregate_id,
            r.aggregate_type == aggregate_type,
            r.payload@ == payload@,
    {
        RegisterSourceEventMessage {
            source,
            event_id,
            aggregate_id,
            aggregate_type,
            payload: copy_bytes(payload),
        }
    }

    /// The event to save, as the message describes it.
    pub fn to_new_source_event(&self) -> (r: NewSourceEvent)
        ensures
            r.event_id == self.event_id,
            r.aggregate_id == self.aggregate_id,
            r.aggregate_type == self.aggregate_type,
            r.payload@ == self.payload@,
    {
        NewSourceEvent {
            event_id: self.event_id,
            aggregate_id: self.aggregate_id.clone(),
            aggregate_type: self.aggregate_type.clone(),
            payload: copy_bytes(&self.payload),
        }
    }
}

/// A message a client sends to the server.
#[derive(Debug)]
pub enum ClientMessage {
    /// Registers the client.
    RegisterClient(RegisterClientMessage),
    /// Asks for a query.
    QueryRequest(QueryRequestMessage),
    /// Answers a query request.
    QueryResponse(QueryResponseMessage),
    /// Reports a failure to answer a query request.
    QueryHandlingError(QueryHandlingErrorMessage),
    /// Registers an event.
    RegisterSourceEvent(RegisterSourceEventMessage),
    /// Shows that the client is alive.
    Heartbeat { client_id: ClientId },
    /// The client went away.
    DisconnectClient { client_id: ClientId },
}

/// The client that sent a message, when the message names one.
pub open spec fn message_source(msg: ClientMessage) -> Option<ClientId> {
    match msg {
        ClientMessage::RegisterClient(_) => None,
        ClientMessage::QueryRequest(m) => Some(m.requester),
        ClientMessage::QueryResponse(m) => Some(m.responder),
        ClientMessage::RegisterSourceEvent(m) => Some(m.source),
        ClientMessage::Heartbeat { client_id } => Some(client_id),
        ClientMessage::DisconnectClient { client_id } => Some(client_id),
        ClientMessage::QueryHandlingError(m) => Some(m.responder),
    }
}

impl ClientMessage {
    /// The client that sent the message; a registration names none yet.
    pub fn get_source(&self) -> (r: Option<&ClientId>)
        ensures
            match message_source(*self) {
                Some(c) => r == Some(&c),
                None => r is None,
            },
    {
        match self {
            ClientMessage::RegisterClient(_) => None,
            ClientMessage::QueryRequest(m) => Some(&m.requester),
            ClientMessage::QueryResponse(m) => Some(&m.responder),
            ClientMessage::RegisterSourceEvent(m) => Some(&m.source),
            ClientMessage::Heartbeat { client_id } => Some(client_id),
            ClientMessage::DisconnectClient { client_id } => Some(client_id),
            ClientMessage::QueryHandlingError(m) => Some(&m.responder),
        }
    }
}

/// Why a registration was refused.
#[derive(Debug, Clone, Copy, PartialEq, Eq, Structural)]
pub enum ClientRegistrationErrorReason {
    ClientIdDuplicated,
}

impl ClientRegistrationErrorReason {
    /// The name of the reason.
    pub fn as_str(&self) -> (r: &str)
        ensures
            r@ == "ClientIdDuplicated"@,
    {
        "ClientIdDuplicated"
    }
}

/// Why a query request failed.
#[derive(Debug, PartialEq, Eq)]
pub enum QueryRequestedErrorReason {
    RequestIdDuplicated,
    QueryHandlerNotFound,
    QueryTimedOut,
    HandlingError(QueryHandlingErrorReason),
}

/// The name of a query request failure.
pub open spec fn requested_error_name(r: QueryRequestedErrorReason) -> Seq<char> {
    match r {
        QueryRequestedErrorReason::RequestIdDuplicated => "RequestIdDuplicated"@,
        QueryRequestedErrorReason::QueryHandlerNotFound => "QueryHandlerNotFound"@,
        QueryRequestedErrorReason::QueryTimedOut => "QueryTimedOut"@,
        QueryRequestedErrorReason::HandlingError(QueryHandlingErrorReason::ErrorHandling) =>
            "ErrorHandling"@,
        QueryRequestedErrorReason::HandlingError(QueryHandlingErrorReason::Unknown { .. }) =>
            "Unknown"@,
    }
}

/// The details of a query request failure: only an unknown handling error
/// carries them.
pub open spec fn requested_error_details(r: QueryRequestedErrorReason) -> Option<String> {
    match r {
        QueryRequestedErrorReason::HandlingError(QueryHandlingErrorReason::Unknown { details }) =>
            details,
        _ => None,
    }
}

impl Clone for QueryRequestedErrorReason {
    fn clone(&self) -> (r: Self)
        ensures
            r == *self,
    {
        match self {
            QueryRequestedErrorReason::RequestIdDuplicated => QueryRequestedErrorReason::RequestIdDuplicated,
            QueryRequestedErrorReason::QueryHandlerNotFound => QueryRequestedErrorReason::QueryHandlerNotFound,
            QueryRequestedErrorReason::QueryTimedOut => QueryRequestedErrorReason::QueryTimedOut,
            QueryRequestedErrorReason::HandlingError(h) => QueryRequestedErrorReason::HandlingError(h.clone()),
        }
    }
}

impl QueryRequestedErrorReason {
    /// The name of the reason.
    pub fn as_str(&self) -> (r: &str)
        ensures
            r@ == requested_error_name(*self),
    {
        match self {
            QueryRequestedErrorReason::RequestIdDuplicated => "RequestIdDuplicated",
            QueryRequestedErrorReason::QueryHandlerNotFound => "QueryHandlerNotFound",
            QueryRequestedErrorReason::QueryTimedOut => "QueryTimedOut",
            QueryRequestedErrorReason::HandlingError(reason) => match reason {
                QueryHandlingErrorReason::ErrorHandling => "ErrorHandling",
                QueryHandlingErrorReason::Unknown { .. } => "Unknown",
            },
        }
    }

    /// The details of the reason, if it has any.
    pub fn details(&self) -> (r: Option<String>)
        ensures
            r == requested_error_details(*self),
    {
        match self {
            QueryRequestedErrorReason::HandlingError(QueryHandlingErrorReason::Unknown { details }) =>
                match details {
                Some(d) => Some(d.clone()),
                None => None,
            },
            _ => None,
        }
    }
}

/// A query request as the answering client receives it.
#[derive(Debug)]
pub struct QueryRequestedMessage {
    pub request_id: RequestId,
    pub query_id: QueryId,
    pub parameters: Vec<QueryParameter>,
}

impl QueryRequestedMessage {
    pub fn new(request_id: RequestId, query_id: QueryId, parameters: Vec<QueryParameter>) -> (r:
        Self)
        ensures
            r.request_id == request_id,
            r.query_id == query_id,
            r.parameters@ == parameters@,
    {
        QueryRequestedMessage { request_id, query_id, parameters }
    }

    /// The request as the answering client receives it.
    pub fn from_request(msg: &QueryRequestMessage) -> (r: Self)
        ensures
            r.request_id == msg.request_id,
            r.query_id == msg.query_id,
            r.parameters@ == msg.parameters@,
    {
        QueryRequestedMessage {
            request_id: msg.request_id,
            query_id: msg.query_id.clone(),
            parameters: copy_parameters(&msg.parameters),
        }
    }
}

/// An answer as the requesting client receives it.
#[derive(Debug)]
pub struct QueryRespondedMessage {
    pub request_id: RequestId,
    pub result: Vec<u8>,
}

impl QueryRespondedMessage {
    pub fn new(request_id: RequestId, result: &Vec<u8>) -> (r: Self)
        ensures
            r.request_id == request_id,
            r.result@ == result@,
    {
        QueryRespondedMessage { request_id, result: copy_bytes(result) }
    }
}

/// A message the server sends to a client.
#[derive(Debug)]
pub enum ServerMessage {
    /// The client is registered.
    ClientRegistered { client_id: ClientId },
    /// The registration was refused.
    ClientRegistrationError { client_id: ClientId, reason: ClientRegistrationErrorReason },
    /// Checks that the client is alive.
    Heartbeat,
    /// A query to answer.
    QueryRequested(QueryRequestedMessage),
    /// A query request of this client failed.
    QueryRequestedError { request_id: RequestId, query_id: QueryId, reason: QueryRequestedErrorReason },
    /// The answer to a query request of this client.
    QueryResponded(QueryRespondedMessage),
    /// An event of this client was saved.
    SourceEventRegistered { event_id: EventId, monotonic_clock: u64 },
    /// An event was saved.
    SourceEvent(SourceEvent),
}

/// What a server message holds, as plain values.
pub enum ServerMessageView {
    ClientRegistered { client_id: Seq<char> },
    ClientRegistrationError { client_id: Seq<char>, reason: ClientRegistrationErrorReason },
    Heartbeat,
    QueryRequested { request_id: RequestId, query_id: Seq<char>, parameters: Seq<QueryParameter> },
    QueryRequestedError { request_id: RequestId, query_id: Seq<char>, reason: QueryRequestedErrorReason },
    QueryResponded { request_id: RequestId, result: Seq<u8> },
    SourceEventRegistered { event_id: EventId, monotonic_clock: u64 },
    SourceEvent(SourceEventView),
}

impl View for ServerMessage {
    type V = ServerMessageView;

    open spec fn view(&self) -> ServerMessageView {
        match self {
            ServerMessage::ClientRegistered { client_id } => ServerMessageView::ClientRegistered {
                client_id: client_id@,
            },
            ServerMessage::ClientRegistrationError { client_id, reason } =>
                ServerMessageView::ClientRegistrationError { client_id: client_id@, reason: *reason },
            ServerMessage::Heartbeat => ServerMessageView::Heartbeat,
            ServerMessage::QueryRequested(m) => ServerMessageView::QueryRequested {
                request_id: m.request_id,
                query_id: m.query_id@,
                parameters: m.parameters@,
            },
            ServerMessage::QueryRequestedError { request_id, query_id, reason } =>
                ServerMessageView::QueryRequestedError {
                request_id: *request_id,
                query_id: query_id@,
                reason: *reason,
            },
            ServerMessage::QueryResponded(m) => ServerMessageView::QueryResponded {
                request_id: m.request_id,
                result: m.result@,
            },
            ServerMessage::SourceEventRegistered { event_id, monotonic_clock } =>
                ServerMessageView::SourceEventRegistered {
                event_id: *event_id,
                monotonic_clock: *monotonic_clock,
            },
            ServerMessage::SourceEvent(e) => ServerMessageView::SourceEvent(e@),
        }
    }
}

impl ServerMessage {
    /// Refuses the registration of `client_id`, which is already connected.
    pub fn client_id_duplicated(client_id: ClientId) -> (r: Self)
        ensures
            r@ == (ServerMessageView::ClientRegistrationError {
                client_id: client_id@,
                reason: ClientRegistrationErrorReason::ClientIdDuplicated,
            }),
    {
        ServerMessage::ClientRegistrationError {
            client_id,
            reason: ClientRegistrationErrorReason::ClientIdDuplicated,
        }
    }

    /// Tells the requester that its request id is already in use.
    pub fn query_request_id_duplicated(msg: &QueryRequestMessage) -> (r: Self)
        ensures
            r@ == (ServerMessageView::QueryRequestedError {
                request_id: msg.request_id,
                query_id: msg.query_id@,
                reason: QueryRequestedErrorReason::RequestIdDuplicated,
            }),
    {
        ServerMessage::QueryRequestedError {
            request_id: msg.request_id,
            query_id: msg.query_id.clone(),
            reason: QueryRequestedErrorReason::RequestIdDuplicated,
        }
    }

    /// Tells the requester that no client answers its query.
    pub fn query_handler_not_found(msg: &QueryRequestMessage) -> (r: Self)
        ensures
            r@ == (ServerMessageView::QueryRequestedError {
                request_id: msg.request_id,
                query_id: msg.query_id@,
                reason: QueryRequestedErrorReason::QueryHandlerNotFound,
            }),
    {
        ServerMessage::QueryRequestedError {
            request_id: msg.request_id,
            query_id: msg.query_id.clone(),
            reason: QueryRequestedErrorReason::QueryHandlerNotFound,
        }
    }

    /// Tells the requester that its request got no answer in time.
    pub fn query_timed_out(request_id: RequestId, query_id: QueryId) -> (r: Self)
        ensures
            r@ == (ServerMessageView::QueryRequestedError {
                request_id: request_id,
                query_id: query_id@,
                reason: QueryRequestedErrorReason::QueryTimedOut,
            }),
    {
        ServerMessage::QueryRequestedError {
            request_id,
            query_id,
            reason: QueryRequestedErrorReason::QueryTimedOut,
        }
    }
}

} // verus!
