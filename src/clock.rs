use vstd::prelude::*;

verus! {

/// A point in time: microseconds since 1970-01-01T00:00:00Z.
pub type Timestamp = i64;

/// The value a stored timestamp falls back to when it cannot be read.
pub const EPOCH: Timestamp = 0;

/// The instant an RFC 3339 text denotes, in microseconds, or `None` where
/// the text is not RFC 3339.
pub uninterp spec fn rfc3339_micros(s: Seq<char>) -> Option<int>;

/// The timestamp a stored text is read back as: the instant it denotes, or
/// the epoch where the text is malformed.
pub open spec fn stored_timestamp(s: Seq<char>) -> int {
    match rfc3339_micros(s) {
        Some(m) => m,
        None => EPOCH as int,
    }
}

/// Relies on chrono's `Utc::now` (read through `DateTime::timestamp_micros`):
/// the current time. Nothing is promised of its value.
#[verifier::external_body]
pub(crate) fn now_micros() -> (r: Timestamp) {
    chrono::Utc::now().timestamp_micros()
}

/// Relies on chrono's `DateTime::parse_from_rfc3339` (read through
/// `DateTime::timestamp_micros`): the instant an RFC 3339 text denotes.
#[verifier::external_body]
fn parse_rfc3339(s: &str) -> (r: Option<i64>)
    ensures
        match r {
            Some(m) => rfc3339_micros(s@) == Some(m as int),
            None => rfc3339_micros(s@) is None,
        },
{
    match chrono::DateTime::parse_from_rfc3339(s) {
        Ok(d) => Some(d.timestamp_micros()),
        Err(_) => None,
    }
}

/// The timestamp for the outcome of parsing a stored text: the parsed
/// instant, or the epoch where parsing failed.
pub fn timestamp_or_epoch(parsed: Option<i64>) -> (r: Timestamp)
    ensures
        r == match parsed {
            Some(m) => m,
            None => EPOCH,
        },
{
    match parsed {
        Some(m) => m,
        None => EPOCH,
    }
}

/// Reads a stored timestamp text. A malformed text does not fail the read:
/// it stands for the epoch.
pub fn parse_stored_timestamp(text: &str) -> (r: Timestamp)
    ensures
        r as int == stored_timestamp(text@),
{
    timestamp_or_epoch(parse_rfc3339(text))
}

/// The RFC 3339 text of the instant `micros` microseconds after the epoch,
/// or `None` where that instant is out of the representable range.
pub uninterp spec fn rfc3339_text(micros: int) -> Option<Seq<char>>;

/// Relies on chrono's `DateTime::<Utc>::from_timestamp_micros` (`None` out
/// of range) and `DateTime::to_rfc3339`: the text of an instant.
#[verifier::external_body]
fn format_rfc3339(micros: i64) -> (r: Option<String>)
    ensures
        match r {
            Some(t) => rfc3339_text(micros as int) == Some(t@),
            None => rfc3339_text(micros as int) is None,
        },
{
    match chrono::DateTime::<chrono::Utc>::from_timestamp_micros(micros) {
        Some(d) => Some(d.to_rfc3339()),
        None => None,
    }
}

/// The text stored for an instant that has no RFC 3339 form.
pub open spec fn epoch_text() -> Seq<char> {
    "1970-01-01T00:00:00+00:00"@
}

/// The text a timestamp is stored as, given the outcome of formatting it:
/// the formatted text, or the epoch's text where there is none.
pub fn text_or_epoch(formatted: Option<String>) -> (r: String)
    ensures
        r@ == match formatted {
            Some(t) => t@,
            None => epoch_text(),
        },
{
    match formatted {
        Some(t) => t,
        None => "1970-01-01T00:00:00+00:00".to_owned(),
    }
}

/// The text a timestamp is stored as: RFC 3339, in UTC.
pub fn timestamp_text(t: Timestamp) -> (r: String)
    ensures
        r@ == match rfc3339_text(t as int) {
            Some(s) => s,
            None => epoch_text(),
        },
{
    text_or_epoch(format_rfc3339(t))
}

} // verus!
