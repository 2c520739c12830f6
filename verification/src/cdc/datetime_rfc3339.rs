//! Instants as the change events carry them: RFC 3339 text.
use crate::model::{Instant, instant_from_parts, instant_of};
use chrono::{DateTime, Utc};
use vstd::prelude::*;

verus! {

/// The instant `chrono` reads from an RFC 3339 text, as whole seconds since
/// the Unix epoch and nanoseconds within the second, when it reads one.
pub uninterp spec fn rfc3339_parts(s: Seq<char>) -> Option<(i64, u32)>;

/// `DateTime::parse_from_rfc3339`, taken to UTC and split by `timestamp` and
/// `timestamp_subsec_nanos`: what is read is named [`rfc3339_parts`], a
/// function of the text alone; the nanoseconds stay below 2*10^9 (a leap
/// second is the only case above 10^9, per `chrono`'s documentation).
#[verifier::external_body]
fn parse_rfc3339(raw: &String) -> (r: Option<(i64, u32)>)
    ensures
        r == rfc3339_parts(raw@),
        r matches Some(p) ==> p.1 < 2_000_000_000,
{
    match DateTime::parse_from_rfc3339(raw.as_str()) {
        Ok(dt) => Some((dt.with_timezone(&Utc).timestamp(), dt.timestamp_subsec_nanos())),
        Err(_) => None,
    }
}

/// Reads an instant from RFC 3339 text.
pub fn deserialize(raw: &String) -> (r: Option<Instant>)
    ensures
        match rfc3339_parts(raw@) {
            Some(p) => r == Some(instant_of(p.0, p.1) as Instant),
            None => r is None,
        },
{
    match parse_rfc3339(raw) {
        Some(p) => Some(instant_from_parts(p.0, p.1)),
        None => None,
    }
}

} // verus!
