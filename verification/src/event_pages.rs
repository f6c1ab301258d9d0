//! The REST listing of saved events, paged by a cursor.

use crate::rest::{details_view, ErrorDetail, ErrorResponse, BAD_REQUEST};
use crate::source_events::UtcTimestamp;
use vstd::prelude::*;

verus! {

/// Largest size of a page of events.
pub const MAX_EVENTS_LIMIT: usize = 50;

/// Paging parameters of the event list: where to start and how many.
#[derive(Debug, Clone, Copy, PartialEq, Eq, Structural)]
pub struct CursorPagination {
    pub cursor: u64,
    pub limit: usize,
}

/// The cursor when the request gives none.
pub fn default_cursor() -> (r: u64)
    ensures
        r == 0,
{
    0
}

/// The page size when the request gives none.
pub fn default_limit() -> (r: usize)
    ensures
        r == 20,
{
    20
}

/// A saved event as the REST interface shows it.
#[derive(Debug, PartialEq, Eq)]
pub struct SourceEventDto {
    /// The 128 bits of the event's UUID.
    pub id: u128,
    pub created_at: UtcTimestamp,
    pub monotonic_clock: u64,
    pub aggregate_type: String,
    pub aggregate_id: String,
    pub payload: String,
}

/// A page of a list paged by cursor.
#[derive(Debug)]
pub struct CursorPage<T> {
    pub content: Vec<T>,
    pub cursor: u64,
    pub limit: usize,
    pub size: usize,
    pub total_elements: u64,
    pub next: Option<String>,
    pub prev: Option<String>,
}

/// The sample event the listing shows: nil id, the epoch, clock 1.
pub open spec fn sample_event(d: SourceEventDto) -> bool {
    &&& d.id == 0
    &&& d.created_at == UtcTimestamp { seconds: 0, nanos: 0 }
    &&& d.monotonic_clock == 1
    &&& d.aggregate_type@ == "my_type"@
    &&& d.aggregate_id@ == "my_id"@
    &&& d.payload@ == "{\"name\": \"John\", \"surname\": \"Doe\"}"@
}

/// The answer to a request for a page of events: refused when the size is
/// not from 1 to 50; else a page at the cursor that holds the sample event
/// and counts no element.
pub fn source_events_response(pagination: &CursorPagination) -> (r: Result<
    CursorPage<SourceEventDto>,
    ErrorResponse,
>)
    ensures
        pagination.limit == 0 || pagination.limit > MAX_EVENTS_LIMIT ==> match r {
            Err(e) => {
                &&& e.code == BAD_REQUEST
                &&& e.message@ == "Invalid parameters"@
                &&& details_view(e.errors@) == seq![
                    (
                        "invalidParameters"@,
                        "Failed to deserialize query string: limit must be between 1 and 50"@,
                        "query"@,
                    ),
                ]
            },
            Ok(_) => false,
        },
        !(pagination.limit == 0 || pagination.limit > MAX_EVENTS_LIMIT) ==> match r {
            Ok(p) => {
                &&& p.content@.len() == 1
                &&& sample_event(p.content@[0])
                &&& p.cursor == pagination.cursor
                &&& p.limit == pagination.limit
                &&& p.size == 0
                &&& p.total_elements == 0
                &&& p.next is None
                &&& p.prev is None
            },
            Err(_) => false,
        },
{
    if pagination.limit == 0 || pagination.limit > MAX_EVENTS_LIMIT {
        let mut errors: Vec<ErrorDetail> = Vec::new();
        errors.push(
            ErrorDetail::new(
                "invalidParameters".to_owned(),
                "Failed to deserialize query string: limit must be between 1 and 50".to_owned(),
                "query".to_owned(),
            ),
        );
        assert(details_view(errors@) =~= seq![
            (
                "invalidParameters"@,
                "Failed to deserialize query string: limit must be between 1 and 50"@,
                "query"@,
            ),
        ]);
        return Err(ErrorResponse::validation_error("Invalid parameters".to_owned(), errors.as_slice()));
    }
    let mut content: Vec<SourceEventDto> = Vec::new();
    content.push(
        SourceEventDto {
            id: 0,
            created_at: UtcTimestamp { seconds: 0, nanos: 0 },
            monotonic_clock: 1,
            aggregate_type: "my_type".to_owned(),
            aggregate_id: "my_id".to_owned(),
            payload: "{\"name\": \"John\", \"surname\": \"Doe\"}".to_owned(),
        },
    );
    Ok(
        CursorPage {
            content,
            cursor: pagination.cursor,
            limit: pagination.limit,
            size: 0,
            total_elements: 0,
            next: None,
            prev: None,
        },
    )
}

} // verus!
