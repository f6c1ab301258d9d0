//! Identifiers of the domain: clients, queries and aggregates, each checked
//! when it is built.

use crate::text::{is_blank, is_blank_text};
use vstd::prelude::*;

verus! {

/// Longest client id, in characters.
pub const CLIENT_ID_MAX_LEN: usize = 64;

/// Shortest client id, in characters.
pub const CLIENT_ID_MIN_LEN: usize = 3;

/// Longest query id or aggregate id, in characters.
pub const IDENTIFIER_MAX_LEN: usize = 255;

/// Shortest query id or aggregate id, in characters.
pub const IDENTIFIER_MIN_LEN: usize = 3;

/// Identifier of a connected client.
#[derive(Debug, PartialEq, Eq, PartialOrd, Ord, Hash)]
pub struct ClientId(String);

/// Why a text is not a client id; the field is the reason in words.
#[derive(Debug)]
pub struct ClientIdNotValid(pub String);

impl View for ClientId {
    type V = Seq<char>;

    closed spec fn view(&self) -> Seq<char> {
        self.0@
    }
}

impl Clone for ClientId {
    fn clone(&self) -> (r: Self)
        ensures
            r == *self,
    {
        ClientId(self.0.clone())
    }
}

/// A text is a client id when it has between 3 and 64 characters.
pub open spec fn client_id_is_valid(s: Seq<char>) -> bool {
    CLIENT_ID_MIN_LEN <= s.len() <= CLIENT_ID_MAX_LEN
}

/// The reason given for a text that is not a client id.
pub open spec fn client_id_rejection(s: Seq<char>) -> Seq<char> {
    if s.len() == 0 {
        "ClientId is empty"@
    } else if s.len() > CLIENT_ID_MAX_LEN {
        "ClientId is too long"@
    } else {
        "ClientId is too short"@
    }
}

impl ClientId {
    /// Checks `client_id` and builds the id.
    pub fn new(client_id: &str) -> (r: Result<Self, ClientIdNotValid>)
        ensures
            match r {
                Ok(id) => client_id_is_valid(client_id@) && id@ == client_id@,
                Err(e) => !client_id_is_valid(client_id@) && e.0@ == client_id_rejection(
                    client_id@,
                ),
            },
    {
        let n = client_id.unicode_len();
        if n == 0 {
            return Err(ClientIdNotValid("ClientId is empty".to_owned()));
        }
        if n > CLIENT_ID_MAX_LEN {
            return Err(ClientIdNotValid("ClientId is too long".to_owned()));
        }
        if n < CLIENT_ID_MIN_LEN {
            return Err(ClientIdNotValid("ClientId is too short".to_owned()));
        }
        Ok(ClientId(client_id.to_owned()))
    }

    /// The id as text.
    pub fn as_str(&self) -> (r: &str)
        ensures
            r@ == self@,
    {
        self.0.as_str()
    }

    /// Whether two ids are the same text.
    pub fn same_as(&self, other: &ClientId) -> (r: bool)
        ensures
            r == (self@ == other@),
    {
        self.0 == other.0
    }

    /// Whether this id comes strictly before `other` in text order.
    pub fn precedes(&self, other: &ClientId) -> (r: bool)
        ensures
            r == crate::text::text_lt(self@, other@),
    {
        crate::text::text_less(self.0.as_str(), other.0.as_str())
    }
}

/// Identifier of a query that clients can answer.
#[derive(Debug, PartialEq, Eq, PartialOrd, Ord, Hash)]
pub struct QueryId(String);

/// Why a text is not a query id.
#[derive(Debug)]
pub enum InvalidQueryId {
    Empty,
    TooShort { len: usize, min: usize },
    TooLong { len: usize, max: usize },
}

impl View for QueryId {
    type V = Seq<char>;

    closed spec fn view(&self) -> Seq<char> {
        self.0@
    }
}

impl Clone for QueryId {
    fn clone(&self) -> (r: Self)
        ensures
            r == *self,
    {
        QueryId(self.0.clone())
    }
}

/// A text is a query id or an aggregate id when it is not blank and has
/// between 3 and 255 characters.
pub open spec fn identifier_is_valid(s: Seq<char>) -> bool {
    &&& !is_blank_text(s)
    &&& IDENTIFIER_MIN_LEN <= s.len() <= IDENTIFIER_MAX_LEN
}

impl QueryId {
    /// Checks `query_id` and builds the id.
    pub fn new(query_id: &str) -> (r: Result<Self, InvalidQueryId>)
        ensures
            match r {
                Ok(q) => identifier_is_valid(query_id@) && q@ == query_id@,
                Err(InvalidQueryId::Empty) => is_blank_text(query_id@),
                Err(InvalidQueryId::TooLong { len, max }) => {
                    &&& !is_blank_text(query_id@)
                    &&& query_id@.len() > IDENTIFIER_MAX_LEN
                    &&& len == query_id@.len()
                    &&& max == IDENTIFIER_MAX_LEN
                },
                Err(InvalidQueryId::TooShort { len, min }) => {
                    &&& !is_blank_text(query_id@)
                    &&& query_id@.len() < IDENTIFIER_MIN_LEN
                    &&& len == query_id@.len()
                    &&& min == IDENTIFIER_MIN_LEN
                },
            },
    {
        if is_blank(query_id) {
            return Err(InvalidQueryId::Empty);
        }
        let n = query_id.unicode_len();
        if n > IDENTIFIER_MAX_LEN {
            return Err(InvalidQueryId::TooLong { len: n, max: IDENTIFIER_MAX_LEN });
        }
        if n < IDENTIFIER_MIN_LEN {
            return Err(InvalidQueryId::TooShort { len: n, min: IDENTIFIER_MIN_LEN });
        }
        Ok(QueryId(query_id.to_owned()))
    }

    /// The id as text.
    pub fn as_str(&self) -> (r: &str)
        ensures
            r@ == self@,
    {
        self.0.as_str()
    }

    /// Whether two ids are the same text.
    pub fn same_as(&self, other: &QueryId) -> (r: bool)
        ensures
            r == (self@ == other@),
    {
        self.0 == other.0
    }

    /// The id as an owned text.
    pub fn into_string(self) -> (r: String)
        ensures
            r@ == self@,
    {
        self.0
    }
}

/// Identifier of an aggregate instance that events belong to.
#[derive(Debug, PartialEq, Eq, PartialOrd, Ord, Hash)]
pub struct AggregateId(String);

/// Why a text is not an aggregate id.
#[derive(Debug)]
pub enum InvalidAggregateId {
    Empty,
    TooShort { len: usize, min: usize },
    TooLong { len: usize, max: usize },
}

impl View for AggregateId {
    type V = Seq<char>;

    closed spec fn view(&self) -> Seq<char> {
        self.0@
    }
}

impl Clone for AggregateId {
    fn clone(&self) -> (r: Self)
        ensures
            r == *self,
    {
        AggregateId(self.0.clone())
    }
}

impl AggregateId {
    /// Checks `aggregate_id` and builds the id.
    pub fn new(aggregate_id: &str) -> (r: Result<Self, InvalidAggregateId>)
        ensures
            match r {
                Ok(a) => identifier_is_valid(aggregate_id@) && a@ == aggregate_id@,
                Err(InvalidAggregateId::Empty) => is_blank_text(aggregate_id@),
                Err(InvalidAggregateId::TooLong { len, max }) => {
                    &&& !is_blank_text(aggregate_id@)
                    &&& aggregate_id@.len() > IDENTIFIER_MAX_LEN
                    &&& len == aggregate_id@.len()
                    &&& max == IDENTIFIER_MAX_LEN
                },
                Err(InvalidAggregateId::TooShort { len, min }) => {
                    &&& !is_blank_text(aggregate_id@)
                    &&& aggregate_id@.len() < IDENTIFIER_MIN_LEN
                    &&& len == aggregate_id@.len()
                    &&& min == IDENTIFIER_MIN_LEN
                },
            },
    {
        if is_blank(aggregate_id) {
            return Err(InvalidAggregateId::Empty);
        }
        let n = aggregate_id.unicode_len();
        if n > IDENTIFIER_MAX_LEN {
            return Err(InvalidAggregateId::TooLong { len: n, max: IDENTIFIER_MAX_LEN });
        }
        if n < IDENTIFIER_MIN_LEN {
            return Err(InvalidAggregateId::TooShort { len: n, min: IDENTIFIER_MIN_LEN });
        }
        Ok(AggregateId(aggregate_id.to_owned()))
    }

    /// The id as text.
    pub fn as_str(&self) -> (r: &str)
        ensures
            r@ == self@,
    {
        self.0.as_str()
    }
}

} // verus!
