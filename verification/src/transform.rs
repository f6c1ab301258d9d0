//! Turning what a client session receives into domain messages: the
//! fields of each request are checked and the ids are read.

use crate::ids::{
    client_id_is_valid, client_id_rejection, identifier_is_valid, AggregateId, ClientId,
    ClientIdNotValid, InvalidAggregateId, InvalidQueryId, QueryId, IDENTIFIER_MAX_LEN,
    IDENTIFIER_MIN_LEN,
};
use crate::messages::{
    query_ids_view, ClientMessage, QueryHandlingErrorMessage, QueryHandlingErrorReason,
    QueryParameter, QueryRequestMessage, QueryResponseMessage, RegisterClientMessage,
    RegisterSourceEventMessage, RequestId,
};
use crate::source_events::{copy_bytes, EventId};
use crate::rest::strings_view;
use crate::messages::copy_parameters;
use crate::text::{decimal, decimal_string, is_blank_text};
use crate::uuids::parsed_uuid;
use vstd::prelude::*;

verus! {

/// A registration as it arrives.
#[derive(Debug)]
pub struct RegisterClientPayload {
    pub client_id: String,
    pub query_handlers: Vec<String>,
}

/// A query request as it arrives.
#[derive(Debug)]
pub struct QueryRequestPayload {
    pub request_id: String,
    pub query_id: String,
    pub parameters: Vec<QueryParameter>,
}

/// An answer as it arrives.
#[derive(Debug)]
pub struct QueryResponsePayload {
    pub request_id: String,
    pub result: Vec<u8>,
}

/// The reason codes a client may give for a failed query.
#[derive(Debug, Clone, Copy, PartialEq, Eq, Structural)]
pub enum HandlingErrorCode {
    Unknown,
    ErrorHandling,
}

/// The reason code that wire number `n` stands for: 1 is `ErrorHandling`;
/// 0, and every number the protocol does not define, is `Unknown`.
pub open spec fn handling_code_of(n: i32) -> HandlingErrorCode {
    if n == 1 {
        HandlingErrorCode::ErrorHandling
    } else {
        HandlingErrorCode::Unknown
    }
}

impl HandlingErrorCode {
    /// Decodes the reason code of a failure report from its wire number.
    pub fn from_wire(n: i32) -> (r: Self)
        ensures
            r == handling_code_of(n),
    {
        if n == 1 {
            HandlingErrorCode::ErrorHandling
        } else {
            HandlingErrorCode::Unknown
        }
    }
}

/// A failure report as it arrives.
#[derive(Debug)]
pub struct QueryHandlingErrorPayload {
    pub request_id: String,
    pub reason: HandlingErrorCode,
    pub details: String,
}

/// An event registration as it arrives.
#[derive(Debug)]
pub struct RegisterSourceEventPayload {
    pub event_id: String,
    pub aggregate_id: String,
    pub aggregate_type: String,
    pub payload: Vec<u8>,
}

/// A request as a client session receives it.
#[derive(Debug)]
pub enum ClientPayload {
    RegisterClient(RegisterClientPayload),
    QueryRequest(QueryRequestPayload),
    QueryResponse(QueryResponsePayload),
    QueryHandlingError(QueryHandlingErrorPayload),
    RegisterSourceEvent(RegisterSourceEventPayload),
    Heartbeat,
}

/// Why a request of a session was refused.
#[derive(Debug)]
pub enum ClientMessageError {
    /// Only a registration may come before the session's client registered.
    ClientNotRegistered,
    /// A field does not hold a valid value.
    ValidationError { field: String, reason: String },
}

/// A refusal as plain values.
pub enum ClientMessageErrorView {
    ClientNotRegistered,
    ValidationError { field: Seq<char>, reason: Seq<char> },
}

impl View for ClientMessageError {
    type V = ClientMessageErrorView;

    open spec fn view(&self) -> ClientMessageErrorView {
        match self {
            ClientMessageError::ClientNotRegistered => ClientMessageErrorView::ClientNotRegistered,
            ClientMessageError::ValidationError { field, reason } =>
                ClientMessageErrorView::ValidationError { field: field@, reason: reason@ },
        }
    }
}

/// Why `s` is not a query id or an aggregate id.
pub open spec fn identifier_problem(s: Seq<char>) -> Seq<char> {
    if is_blank_text(s) {
        "value is empty"@
    } else if s.len() > IDENTIFIER_MAX_LEN {
        "value is too long (max="@ + decimal(IDENTIFIER_MAX_LEN as nat) + ")"@
    } else {
        "value is too short (min="@ + decimal(IDENTIFIER_MIN_LEN as nat) + ")"@
    }
}

fn too_short_text(min: usize) -> (r: String)
    ensures
        r@ == "value is too short (min="@ + decimal(min as nat) + ")"@,
{
    let mut s = "value is too short (min=".to_owned();
    s.append(decimal_string(min).as_str());
    s.append(")");
    s
}

fn too_long_text(max: usize) -> (r: String)
    ensures
        r@ == "value is too long (max="@ + decimal(max as nat) + ")"@,
{
    let mut s = "value is too long (max=".to_owned();
    s.append(decimal_string(max).as_str());
    s.append(")");
    s
}

impl ClientMessageError {
    /// The refusal of an invalid client id.
    pub fn from_client_id_error(value: ClientIdNotValid) -> (r: Self)
        ensures
            r@ == (ClientMessageErrorView::ValidationError {
                field: "client_id"@,
                reason: value.0@,
            }),
    {
        ClientMessageError::ValidationError { field: "client_id".to_owned(), reason: value.0 }
    }

    /// The refusal of an invalid query id.
    fn from_query_id_error(value: InvalidQueryId, text: Ghost<Seq<char>>) -> (r: Self)
        requires
            match value {
                InvalidQueryId::Empty => is_blank_text(text@),
                InvalidQueryId::TooLong { len, max } => !is_blank_text(text@) && text@.len()
                    > IDENTIFIER_MAX_LEN && max == IDENTIFIER_MAX_LEN,
                InvalidQueryId::TooShort { len, min } => !is_blank_text(text@) && text@.len()
                    < IDENTIFIER_MIN_LEN && min == IDENTIFIER_MIN_LEN,
            },
        ensures
            r@ == (ClientMessageErrorView::ValidationError {
                field: "query_id"@,
                reason: identifier_problem(text@),
            }),
    {
        let reason = match value {
            InvalidQueryId::Empty => "value is empty".to_owned(),
            InvalidQueryId::TooShort { min, .. } => too_short_text(min),
            InvalidQueryId::TooLong { max, .. } => too_long_text(max),
        };
        ClientMessageError::ValidationError { field: "query_id".to_owned(), reason }
    }

    /// The error in words.
    pub fn message(&self) -> (r: String)
        ensures
            match self@ {
                ClientMessageErrorView::ClientNotRegistered => r@ == "Client not registered"@,
                ClientMessageErrorView::ValidationError { field, reason } => r@
                    == "Validation error for field "@ + field + ": "@ + reason,
            },
    {
        match self {
            ClientMessageError::ClientNotRegistered => "Client not registered".to_owned(),
            ClientMessageError::ValidationError { field, reason } => {
                let mut s = "Validation error for field ".to_owned();
                s.append(field.as_str());
                s.append(": ");
                s.append(reason.as_str());
                s
            },
        }
    }
    fn from_aggregate_id_error(value: InvalidAggregateId, text: Ghost<Seq<char>>) -> (r: Self)
        requires
            match value {
                InvalidAggregateId::Empty => is_blank_text(text@),
                InvalidAggregateId::TooLong { len, max } => !is_blank_text(text@) && text@.len()
                    > IDENTIFIER_MAX_LEN && max == IDENTIFIER_MAX_LEN,
                InvalidAggregateId::TooShort { len, min } => !is_blank_text(text@) && text@.len()
                    < IDENTIFIER_MIN_LEN && min == IDENTIFIER_MIN_LEN,
            },
        ensures
            r@ == (ClientMessageErrorView::ValidationError {
                field: "aggregate_id"@,
                reason: identifier_problem(text@),
            }),
    {
        let reason = match value {
            InvalidAggregateId::Empty => "value is empty".to_owned(),
            InvalidAggregateId::TooShort { min, .. } => too_short_text(min),
            InvalidAggregateId::TooLong { max, .. } => too_long_text(max),
        };
        ClientMessageError::ValidationError { field: "aggregate_id".to_owned(), reason }
    }
}

/// Position `i` holds the first text of `qs` that is not a query id.
pub open spec fn first_invalid_query(qs: Seq<Seq<char>>, i: int) -> bool {
    &&& 0 <= i < qs.len()
    &&& !identifier_is_valid(qs[i])
    &&& forall|j: int| 0 <= j < i ==> identifier_is_valid(#[trigger] qs[j])
}

/// The ids that a request must carry are UUIDs wherever the conversion reads
/// them: the conversion reads them only from a registered session, after
/// the other fields passed.
pub open spec fn payload_ids_parse(payload: ClientPayload, registered: bool) -> bool {
    match payload {
        ClientPayload::QueryRequest(p) => registered && identifier_is_valid(p.query_id@)
            ==> parsed_uuid(p.request_id@) is Some,
        ClientPayload::QueryResponse(p) => registered ==> parsed_uuid(p.request_id@) is Some,
        ClientPayload::QueryHandlingError(p) => registered ==> parsed_uuid(p.request_id@) is Some,
        ClientPayload::RegisterSourceEvent(p) => registered && identifier_is_valid(p.aggregate_id@)
            ==> parsed_uuid(p.event_id@) is Some,
        _ => true,
    }
}

/// The reason of a failure report.
pub open spec fn handling_reason(p: QueryHandlingErrorPayload) -> QueryHandlingErrorReason {
    match p.reason {
        HandlingErrorCode::Unknown => QueryHandlingErrorReason::Unknown {
            details: if p.details@.len() == 0 {
                None
            } else {
                Some(p.details)
            },
        },
        HandlingErrorCode::ErrorHandling => QueryHandlingErrorReason::ErrorHandling,
    }
}

/// `r` is the refusal of an unregistered session.
pub open spec fn is_not_registered(r: Result<ClientMessage, ClientMessageError>) -> bool {
    r matches Err(e) && e@ == ClientMessageErrorView::ClientNotRegistered
}

/// `r` refuses field `field` for `reason`.
pub open spec fn is_invalid_field(
    r: Result<ClientMessage, ClientMessageError>,
    field: Seq<char>,
    reason: Seq<char>,
) -> bool {
    r matches Err(e) && e@ == (ClientMessageErrorView::ValidationError {
        field: field,
        reason: reason,
    })
}

/// What the conversion of `payload` from a session whose client is
/// `client_id` (none before registration) gives: a registration checks its
/// query ids in order, then its client id; every other request needs a
/// registered session; a query request checks its query id, an event its
/// aggregate id; the ids are then read as UUIDs.
pub open spec fn converted(
    payload: ClientPayload,
    client_id: Option<ClientId>,
    r: Result<ClientMessage, ClientMessageError>,
) -> bool {
    match payload {
        ClientPayload::RegisterClient(p) => {
            let qs = strings_view(p.query_handlers@);
            if exists|i: int| first_invalid_query(qs, i) {
                exists|i: int|
                    first_invalid_query(qs, i) && is_invalid_field(
                        r,
                        "query_id"@,
                        identifier_problem(qs[i]),
                    )
            } else if !client_id_is_valid(p.client_id@) {
                is_invalid_field(r, "client_id"@, client_id_rejection(p.client_id@))
            } else {
                r matches Ok(ClientMessage::RegisterClient(m)) && m.client_id@ == p.client_id@
                    && query_ids_view(m.query_handlers@) == qs
            }
        },
        ClientPayload::QueryRequest(p) => match client_id {
            None => is_not_registered(r),
            Some(c) => if !identifier_is_valid(p.query_id@) {
                is_invalid_field(r, "query_id"@, identifier_problem(p.query_id@))
            } else {
                r matches Ok(ClientMessage::QueryRequest(m)) && m.request_id == RequestId(
                    parsed_uuid(p.request_id@)->0,
                ) && m.requester == c && m.query_id@ == p.query_id@ && m.parameters@
                    == p.parameters@
            },
        },
        ClientPayload::QueryResponse(p) => match client_id {
            None => is_not_registered(r),
            Some(c) => r matches Ok(ClientMessage::QueryResponse(m)) && m.request_id == RequestId(
                parsed_uuid(p.request_id@)->0,
            ) && m.responder == c && m.result@ == p.result@,
        },
        ClientPayload::QueryHandlingError(p) => match client_id {
            None => is_not_registered(r),
            Some(c) => r matches Ok(ClientMessage::QueryHandlingError(m)) && m.request_id
                == RequestId(parsed_uuid(p.request_id@)->0) && m.responder == c && m.reason
                == handling_reason(p),
        },
        ClientPayload::RegisterSourceEvent(p) => match client_id {
            None => is_not_registered(r),
            Some(c) => if !identifier_is_valid(p.aggregate_id@) {
                is_invalid_field(r, "aggregate_id"@, identifier_problem(p.aggregate_id@))
            } else {
                r matches Ok(ClientMessage::RegisterSourceEvent(m)) && m.source == c && m.event_id
                    == EventId(parsed_uuid(p.event_id@)->0) && m.aggregate_id@ == p.aggregate_id@
                    && m.aggregate_type == p.aggregate_type && m.payload@ == p.payload@
            },
        },
        ClientPayload::Heartbeat => match client_id {
            None => is_not_registered(r),
            Some(c) => r matches Ok(ClientMessage::Heartbeat { client_id }) && client_id == c,
        },
    }
}

fn convert_register(p: &RegisterClientPayload) -> (r: Result<ClientMessage, ClientMessageError>)
    ensures
        converted(ClientPayload::RegisterClient(*p), None, r),
{
    let ghost qs = strings_view(p.query_handlers@);
    let mut handlers: Vec<QueryId> = Vec::new();
    let mut i: usize = 0;
    while i < p.query_handlers.len()
        invariant
            qs == strings_view(p.query_handlers@),
            i <= qs.len(),
            query_ids_view(handlers@) == qs.take(i as int),
            forall|j: int| 0 <= j < i ==> identifier_is_valid(#[trigger] qs[j]),
        decreases qs.len() - i,
    {
        match QueryId::new(p.query_handlers[i].as_str()) {
            Ok(q) => {
                let ghost before = query_ids_view(handlers@);
                handlers.push(q);
                assert(query_ids_view(handlers@) =~= before.push(qs[i as int]));
                assert(qs.take(i + 1) =~= qs.take(i as int).push(qs[i as int]));
            },
            Err(e) => {
                let err = ClientMessageError::from_query_id_error(e, Ghost(qs[i as int]));
                proof {
                    assert(first_invalid_query(qs, i as int));
                    assert forall|k: int| first_invalid_query(qs, k) implies k == i by {
                        if k < i {
                            assert(identifier_is_valid(qs[k]));
                        } else if k > i {
                            assert(identifier_is_valid(qs[i as int]));
                        }
                    }
                }
                return Err(err);
            },
        }
        i += 1;
    }
    assert(qs.take(i as int) =~= qs);
    assert(!exists|k: int| first_invalid_query(qs, k));
    match ClientId::new(p.client_id.as_str()) {
        Err(e) => Err(ClientMessageError::from_client_id_error(e)),
        Ok(client_id) => Ok(
            ClientMessage::RegisterClient(RegisterClientMessage { client_id, query_handlers: handlers }),
        ),
    }
}

/// Turns a request of a session into a domain message, or refuses it: see
/// `converted`. The ids it reads must be UUIDs.
pub fn client_message_from(payload: &ClientPayload, client_id: Option<ClientId>) -> (r: Result<
    ClientMessage,
    ClientMessageError,
>)
    requires
        payload_ids_parse(*payload, client_id is Some),
    ensures
        converted(*payload, client_id, r),
{
    match payload {
        ClientPayload::RegisterClient(p) => convert_register(p),
        ClientPayload::QueryRequest(p) => {
            let Some(c) = client_id else {
                return Err(ClientMessageError::ClientNotRegistered);
            };
            let query_id = match QueryId::new(p.query_id.as_str()) {
                Ok(q) => q,
                Err(e) => {
                    return Err(ClientMessageError::from_query_id_error(e, Ghost(p.query_id@)));
                },
            };
            let Some(request_id) = RequestId::parse(p.request_id.as_str()) else {
                assert(false);
                return Err(ClientMessageError::ClientNotRegistered);
            };
            Ok(
                ClientMessage::QueryRequest(
                    QueryRequestMessage::new(
                        request_id,
                        c,
                        query_id,
                        copy_parameters(&p.parameters),
                    ),
                ),
            )
        },
        ClientPayload::QueryResponse(p) => {
            let Some(c) = client_id else {
                return Err(ClientMessageError::ClientNotRegistered);
            };
            let Some(request_id) = RequestId::parse(p.request_id.as_str()) else {
                assert(false);
                return Err(ClientMessageError::ClientNotRegistered);
            };
            Ok(ClientMessage::QueryResponse(QueryResponseMessage::new(request_id, c, &p.result)))
        },
        ClientPayload::QueryHandlingError(p) => {
            let Some(c) = client_id else {
                return Err(ClientMessageError::ClientNotRegistered);
            };
            let reason = match p.reason {
                HandlingErrorCode::Unknown => QueryHandlingErrorReason::Unknown {
                    details: if p.details.as_str().is_empty() {
                        None
                    } else {
                        Some(p.details.clone())
                    },
                },
                HandlingErrorCode::ErrorHandling => QueryHandlingErrorReason::ErrorHandling,
            };
            let Some(request_id) = RequestId::parse(p.request_id.as_str()) else {
                assert(false);
                return Err(ClientMessageError::ClientNotRegistered);
            };
            Ok(ClientMessage::QueryHandlingError(QueryHandlingErrorMessage::new(request_id, c, reason)))
        },
        ClientPayload::RegisterSourceEvent(p) => {
            let Some(c) = client_id else {
                return Err(ClientMessageError::ClientNotRegistered);
            };
            let aggregate_id = match AggregateId::new(p.aggregate_id.as_str()) {
                Ok(a) => a,
                Err(e) => {
                    return Err(ClientMessageError::from_aggregate_id_error(e, Ghost(p.aggregate_id@)));
                },
            };
            let Some(event_id) = EventId::parse(p.event_id.as_str()) else {
                assert(false);
                return Err(ClientMessageError::ClientNotRegistered);
            };
            Ok(
                ClientMessage::RegisterSourceEvent(
                    RegisterSourceEventMessage::new(
                        c,
                        event_id,
                        aggregate_id,
                        p.aggregate_type.clone(),
                        &p.payload,
                    ),
                ),
            )
        },
        ClientPayload::Heartbeat => {
            let Some(c) = client_id else {
                return Err(ClientMessageError::ClientNotRegistered);
            };
            Ok(ClientMessage::Heartbeat { client_id: c })
        },
    }
}

/// Turns a request of a session into a domain message, or refuses it, as
/// `client_message_from` does; `None` when an id that it would read is not
/// a UUID.
pub fn checked_client_message_from(payload: &ClientPayload, client_id: Option<ClientId>) -> (r:
    Option<Result<ClientMessage, ClientMessageError>>)
    ensures
        r is None <==> !payload_ids_parse(*payload, client_id is Some),
        r matches Some(x) ==> converted(*payload, client_id, x),
{
    let registered = client_id.is_some();
    let parses = match payload {
        ClientPayload::QueryRequest(p) => !(registered && QueryId::new(p.query_id.as_str()).is_ok())
            || RequestId::parse(p.request_id.as_str()).is_some(),
        ClientPayload::QueryResponse(p) => !registered || RequestId::parse(
            p.request_id.as_str(),
        ).is_some(),
        ClientPayload::QueryHandlingError(p) => !registered || RequestId::parse(
            p.request_id.as_str(),
        ).is_some(),
        ClientPayload::RegisterSourceEvent(p) => !(registered && AggregateId::new(
            p.aggregate_id.as_str(),
        ).is_ok()) || EventId::parse(p.event_id.as_str()).is_some(),
        _ => true,
    };
    if parses {
        Some(client_message_from(payload, client_id))
    } else {
        None
    }
}

} // verus!
