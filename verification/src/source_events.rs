//! Events that clients register, before and after the store saved them.

use crate::ids::AggregateId;
use vstd::prelude::*;

verus! {

/// Identifier of an event: the 128 bits of its UUID.
#[derive(Debug, Clone, Copy, PartialEq, Eq, Hash, PartialOrd, Ord, Structural)]
pub struct EventId(pub u128);

/// A point in UTC time: whole seconds since the Unix epoch and the
/// nanoseconds past that second.
#[derive(Debug, Clone, Copy, PartialEq, Eq, Structural)]
pub struct UtcTimestamp {
    pub seconds: i64,
    pub nanos: u32,
}

/// An event as the store saved it.
#[derive(Debug)]
pub struct SourceEvent {
    /// Unique identifier of the event.
    pub id: EventId,
    /// When the store saved the event.
    pub created_at: UtcTimestamp,
    /// Position of the event in the order of all saved events.
    pub monotonic_clock: u64,
    /// The aggregate instance the event belongs to.
    pub aggregate_id: AggregateId,
    /// The kind of aggregate.
    pub aggregate_type: String,
    /// The serialized event.
    pub payload: Vec<u8>,
}

/// What a saved event holds, as plain values.
pub struct SourceEventView {
    pub id: EventId,
    pub created_at: UtcTimestamp,
    pub monotonic_clock: u64,
    pub aggregate_id: Seq<char>,
    pub aggregate_type: Seq<char>,
    pub payload: Seq<u8>,
}

impl View for SourceEvent {
    type V = SourceEventView;

    open spec fn view(&self) -> SourceEventView {
        SourceEventView {
            id: self.id,
            created_at: self.created_at,
            monotonic_clock: self.monotonic_clock,
            aggregate_id: self.aggregate_id@,
            aggregate_type: self.aggregate_type@,
            payload: self.payload@,
        }
    }
}

/// A copy of a byte buffer.
pub fn copy_bytes(b: &Vec<u8>) -> (r: Vec<u8>)
    ensures
        r@ == b@,
{
    let r = b.clone();
    assert(r@ =~= b@);
    r
}

impl Clone for SourceEvent {
    fn clone(&self) -> (r: Self)
        ensures
            r@ == self@,
    {
        let payload = copy_bytes(&self.payload);
        SourceEvent {
            id: self.id,
            created_at: self.created_at,
            monotonic_clock: self.monotonic_clock,
            aggregate_id: self.aggregate_id.clone(),
            aggregate_type: self.aggregate_type.clone(),
            payload,
        }
    }
}

impl SourceEvent {
    /// Builds a saved event from its parts.
    pub fn new(
        id: EventId,
        created_at: UtcTimestamp,
        monotonic_clock: u64,
        aggregate_id: AggregateId,
        aggregate_type: String,
        payload: Vec<u8>,
    ) -> (r: Self)
        ensures
            r.id == id,
            r.created_at == created_at,
            r.monotonic_clock == monotonic_clock,
            r.aggregate_id@ == aggregate_id@,
            r.aggregate_type@ == aggregate_type@,
            r.payload@ == payload@,
    {
        SourceEvent { id, created_at, monotonic_clock, aggregate_id, aggregate_type, payload }
    }

    pub fn id(&self) -> (r: &EventId)
        ensures
            *r == self.id,
    {
        &self.id
    }

    pub fn created_at(&self) -> (r: &UtcTimestamp)
        ensures
            *r == self.created_at,
    {
        &self.created_at
    }

    pub fn monotonic_clock(&self) -> (r: u64)
        ensures
            r == self.monotonic_clock,
    {
        self.monotonic_clock
    }

    pub fn aggregate_id(&self) -> (r: &AggregateId)
        ensures
            r@ == self.aggregate_id@,
    {
        &self.aggregate_id
    }

    pub fn aggregate_type(&self) -> (r: &str)
        ensures
            r@ == self.aggregate_type@,
    {
        self.aggregate_type.as_str()
    }

    pub fn payload(&self) -> (r: &Vec<u8>)
        ensures
            r@ == self.payload@,
    {
        &self.payload
    }
}

/// An event that a client registered and the store has not saved yet.
#[derive(Debug)]
pub struct NewSourceEvent {
    /// Unique identifier of the event.
    pub event_id: EventId,
    /// The aggregate instance the event belongs to.
    pub aggregate_id: AggregateId,
    /// The kind of aggregate.
    pub aggregate_type: String,
    /// The serialized event.
    pub payload: Vec<u8>,
}

/// What a new event holds, as plain values.
pub struct NewSourceEventView {
    pub event_id: EventId,
    pub aggregate_id: Seq<char>,
    pub aggregate_type: Seq<char>,
    pub payload: Seq<u8>,
}

impl View for NewSourceEvent {
    type V = NewSourceEventView;

    open spec fn view(&self) -> NewSourceEventView {
        NewSourceEventView {
            event_id: self.event_id,
            aggregate_id: self.aggregate_id@,
            aggregate_type: self.aggregate_type@,
            payload: self.payload@,
        }
    }
}

impl NewSourceEvent {
    /// Builds a new event from its parts.
    pub fn new(event_id: EventId, aggregate_id: AggregateId, aggregate_type: String, payload: Vec<
        u8,
    >) -> (r: Self)
        ensures
            r.event_id == event_id,
            r.aggregate_id@ == aggregate_id@,
            r.aggregate_type@ == aggregate_type@,
            r.payload@ == payload@,
    {
        NewSourceEvent { event_id, aggregate_id, aggregate_type, payload }
    }

    pub fn event_id(&self) -> (r: &EventId)
        ensures
            *r == self.event_id,
    {
        &self.event_id
    }

    pub fn aggregate_id(&self) -> (r: &AggregateId)
        ensures
            r@ == self.aggregate_id@,
    {
        &self.aggregate_id
    }

    pub fn aggregate_type(&self) -> (r: &str)
        ensures
            r@ == self.aggregate_type@,
    {
        self.aggregate_type.as_str()
    }

    pub fn payload(&self) -> (r: &Vec<u8>)
        ensures
            r@ == self.payload@,
    {
        &self.payload
    }
}

/// Why the store could not save an event.
#[derive(Debug)]
pub struct SourceEventRepositoryError {
    message: String,
}

impl SourceEventRepositoryError {
    /// The text of the error.
    pub closed spec fn message_view(&self) -> Seq<char> {
        self.message@
    }

    pub fn new(message: String) -> (r: Self)
        ensures
            r.message_view() == message@,
    {
        SourceEventRepositoryError { message }
    }

    pub fn message(&self) -> (r: &str)
        ensures
            r@ == self.message_view(),
    {
        self.message.as_str()
    }
}

} // verus!
