use vstd::prelude::*;

verus! {

/// A point in time, as milliseconds since the Unix epoch (UTC).
#[derive(Clone, Copy, Debug, PartialEq, Eq, Structural)]
pub struct Timestamp {
    pub millis: i64,
}

/// Relies on chrono's `From<SystemTime> for DateTime<Utc>` and
/// `DateTime::timestamp_millis`: the system clock's reading in milliseconds
/// since the epoch, negative for a clock set before 1970. Nothing is known of
/// the value itself. The conversion handles readings on both sides of the
/// epoch; the system clock stays far inside chrono's date range.
#[verifier::external_body]
fn utc_now_millis() -> (r: i64) {
    chrono::DateTime::<chrono::Utc>::from(std::time::SystemTime::now()).timestamp_millis()
}

impl Timestamp {
    /// The current time, as read from the system clock.
    pub fn now() -> (r: Timestamp) {
        Timestamp { millis: utc_now_millis() }
    }
}

} // verus!
