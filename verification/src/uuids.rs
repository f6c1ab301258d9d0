//! UUIDs of requests and events as text, through the `uuid` crate.

use crate::messages::RequestId;
use crate::source_events::EventId;
use crate::text::digit_char;
use vstd::arithmetic::power::pow;
use vstd::prelude::*;

verus! {

/// What `uuid::Uuid::parse_str` reads from `text`, as the 128 bits of the
/// UUID, or `None` when it refuses the text.
pub uninterp spec fn parsed_uuid(text: Seq<char>) -> Option<u128>;

/// Calls `uuid::Uuid::parse_str` and takes `Uuid::as_u128` of the result;
/// the result is named, not described (the crate accepts simple,
/// hyphenated, braced and URN forms, in either case).
#[verifier::external_body]
fn parse_uuid(text: &str) -> (r: Option<u128>)
    ensures
        r == parsed_uuid(text@),
{
    match uuid::Uuid::parse_str(text) {
        Ok(u) => Some(u.as_u128()),
        Err(_) => None,
    }
}

/// A lowercase hexadecimal digit.
pub open spec fn hex_digit(d: int) -> char {
    if d < 10 {
        digit_char(d as nat)
    } else if d == 10 {
        'a'
    } else if d == 11 {
        'b'
    } else if d == 12 {
        'c'
    } else if d == 13 {
        'd'
    } else if d == 14 {
        'e'
    } else {
        'f'
    }
}

/// The `k`-th hexadecimal digit of `v`, the most significant first.
pub open spec fn uuid_nibble(v: u128, k: int) -> int {
    (v as int / pow(16, (31 - k) as nat)) % 16
}

/// How many hyphens come before position `i` of the hyphenated form.
pub open spec fn hyphens_before(i: int) -> int {
    if i < 8 {
        0
    } else if i < 13 {
        1
    } else if i < 18 {
        2
    } else if i < 23 {
        3
    } else {
        4
    }
}

/// The hyphenated lowercase form of the UUID with bits `v`: 32 hexadecimal
/// digits, most significant first, in groups of 8, 4, 4, 4 and 12.
pub open spec fn uuid_text(v: u128) -> Seq<char> {
    Seq::new(
        36,
        |i: int|
            if i == 8 || i == 13 || i == 18 || i == 23 {
                '-'
            } else {
                hex_digit(uuid_nibble(v, i - hyphens_before(i)))
            },
    )
}

/// Calls `uuid::Uuid::from_u128` and its `Display` formatting, which writes
/// the hyphenated lowercase form.
#[verifier::external_body]
fn format_uuid(v: u128) -> (r: String)
    ensures
        r@ == uuid_text(v),
{
    uuid::Uuid::from_u128(v).to_string()
}

impl RequestId {
    /// Reads a request id from its text; `None` when it is not a UUID.
    pub fn parse(text: &str) -> (r: Option<RequestId>)
        ensures
            match parsed_uuid(text@) {
                Some(v) => r == Some(RequestId(v)),
                None => r is None,
            },
    {
        match parse_uuid(text) {
            Some(v) => Some(RequestId(v)),
            None => None,
        }
    }

    /// The text of the id: its hyphenated lowercase UUID.
    pub fn to_text(&self) -> (r: String)
        ensures
            r@ == uuid_text(self.0),
    {
        format_uuid(self.0)
    }
}

impl EventId {
    /// Reads an event id from its text; `None` when it is not a UUID.
    pub fn parse(text: &str) -> (r: Option<EventId>)
        ensures
            match parsed_uuid(text@) {
                Some(v) => r == Some(EventId(v)),
                None => r is None,
            },
    {
        match parse_uuid(text) {
            Some(v) => Some(EventId(v)),
            None => None,
        }
    }

    /// The text of the id: its hyphenated lowercase UUID.
    pub fn to_text(&self) -> (r: String)
        ensures
            r@ == uuid_text(self.0),
    {
        format_uuid(self.0)
    }
}

} // verus!
