//! Points in time with nanosecond precision, as the calendar crate holds them.
use vstd::prelude::*;

use crate::json::quoted;

verus! {

pub const MIN_SECONDS: i64 = -8_334_601_228_800;

pub const MAX_SECONDS: i64 = 8_210_266_876_799;

pub const NANOS_PER_SECOND: u32 = 1_000_000_000;

/// The RFC 3339 text of a point in time, with a numeric offset.
pub uninterp spec fn rfc3339_text(seconds: i64, nanos: u32) -> Seq<char>;

/// The RFC 3339 text of a point in time, with `Z` for the offset.
pub uninterp spec fn zulu_text(seconds: i64, nanos: u32) -> Seq<char>;

/// The date, the time and the zone of a point in time, separated by spaces.
pub uninterp spec fn plain_text(seconds: i64, nanos: u32) -> Seq<char>;

/// The text of a time after a pattern.
pub uninterp spec fn formatted_time(seconds: i64, nanos: u32, pattern: Seq<char>) -> Seq<char>;

/// The date and the time of day without separators, and `Z`.
pub const COMPACT_PATTERN: &'static str = "%Y%m%dT%H%M%SZ";

/// The seconds and nanoseconds of the time that a text names in RFC 3339, or
/// what is wrong with the text.
pub uninterp spec fn parsed_rfc3339(text: Seq<char>) -> Result<(i64, u32), Seq<char>>;

/// The time that a JSON text holds, as the calendar crate deserialises it, or
/// the text of the error.
pub uninterp spec fn time_from_json(text: Seq<char>) -> Result<(i64, u32), Seq<char>>;

/// The seconds and nanoseconds are those of a time that the calendar can
/// represent. In the last second of a minute the nanoseconds may run on into a
/// leap second.
pub open spec fn in_range(seconds: i64, nanos: u32) -> bool {
    &&& MIN_SECONDS <= seconds <= MAX_SECONDS
    &&& nanos < NANOS_PER_SECOND || (nanos < 2 * NANOS_PER_SECOND && (seconds - MIN_SECONDS) % 60
        == 59)
}

/// A time in the years 0 to 9999, and not in a leap second.
pub open spec fn ordinary(seconds: i64, nanos: u32) -> bool {
    -62_167_219_200 <= seconds <= 253_402_300_799 && nanos < NANOS_PER_SECOND
}

/// A point in time since the epoch.
#[derive(Clone, Copy, Debug, PartialEq, Eq, Structural)]
pub struct Timestamp {
    seconds: i64,
    nanos: u32,
}

/// `chrono::DateTime::to_rfc3339` on a representable time depends on the time
/// alone.
#[verifier::external_body]
fn format_rfc3339(seconds: i64, nanos: u32) -> (r: String)
    requires
        in_range(seconds, nanos),
    ensures
        r@ == rfc3339_text(seconds, nanos),
{
    chrono::DateTime::from_timestamp(seconds, nanos).unwrap_or_default().to_rfc3339()
}

/// `chrono::DateTime::to_rfc3339_opts` with automatic precision and `Z`: the
/// form in which the calendar crate serialises a time.
#[verifier::external_body]
fn format_zulu(seconds: i64, nanos: u32) -> (r: String)
    requires
        in_range(seconds, nanos),
    ensures
        r@ == zulu_text(seconds, nanos),
{
    chrono::DateTime::from_timestamp(seconds, nanos).unwrap_or_default().to_rfc3339_opts(
        chrono::SecondsFormat::AutoSi,
        true,
    )
}

/// The `Display` text of a `chrono::DateTime` in UTC.
#[verifier::external_body]
fn format_plain(seconds: i64, nanos: u32) -> (r: String)
    requires
        in_range(seconds, nanos),
    ensures
        r@ == plain_text(seconds, nanos),
{
    chrono::DateTime::from_timestamp(seconds, nanos).unwrap_or_default().to_string()
}

/// `chrono::DateTime::format` on a representable time, written out: the text depends
/// on the time and the pattern alone. Only the pattern of this module is admitted;
/// on a pattern that is none the calendar crate would panic.
#[verifier::external_body]
fn format_time(seconds: i64, nanos: u32, pattern: &str) -> (r: String)
    requires
        in_range(seconds, nanos),
        pattern@ == COMPACT_PATTERN@,
    ensures
        r@ == formatted_time(seconds, nanos, pattern@),
{
    chrono::DateTime::from_timestamp(seconds, nanos).unwrap_or_default().format(pattern).to_string()
}

/// `chrono::DateTime::parse_from_rfc3339`: the time named, in UTC, or the text
/// of the error. Which texts name a time is left to the calendar crate; one
/// that does is in range.
#[verifier::external_body]
fn read_rfc3339(text: &str) -> (r: Result<(i64, u32), String>)
    ensures
        match r {
            Ok(parts) => parsed_rfc3339(text@) == Ok::<(i64, u32), Seq<char>>(parts) && in_range(
                parts.0,
                parts.1,
            ),
            Err(e) => parsed_rfc3339(text@) == Err::<(i64, u32), Seq<char>>(e@),
        },
{
    match chrono::DateTime::parse_from_rfc3339(text) {
        Ok(time) => Ok((time.timestamp(), time.timestamp_subsec_nanos())),
        Err(error) => Err(error.to_string()),
    }
}

/// `serde_json::from_value` into a `chrono::DateTime` in UTC, on the value that
/// a JSON text holds. What comes out depends on the text alone; a time is in
/// range. The text that the calendar crate serialises a time to, in the years
/// of four digits and outside of leap seconds, gives the time back.
#[verifier::external_body]
fn read_json_time(text: &str) -> (r: Result<(i64, u32), String>)
    ensures
        match r {
            Ok(parts) => time_from_json(text@) == Ok::<(i64, u32), Seq<char>>(parts) && in_range(
                parts.0,
                parts.1,
            ),
            Err(e) => time_from_json(text@) == Err::<(i64, u32), Seq<char>>(e@),
        },
        forall|seconds: i64, nanos: u32|
            ordinary(seconds, nanos) && text@ == quoted(#[trigger] zulu_text(seconds, nanos))
                ==> r is Ok && r->Ok_0 == (seconds, nanos),
{
    let read = serde_json::from_str::<serde_json::Value>(text).and_then(
        serde_json::from_value::<chrono::DateTime<chrono::Utc>>,
    );
    match read {
        Ok(time) => Ok((time.timestamp(), time.timestamp_subsec_nanos())),
        Err(error) => Err(error.to_string()),
    }
}

/// The time with these seconds and nanoseconds.
pub closed spec fn timestamp_at(seconds: i64, nanos: u32) -> Timestamp {
    Timestamp { seconds, nanos }
}

/// A time is its seconds and nanoseconds.
pub proof fn lemma_timestamp_parts(time: Timestamp)
    ensures
        timestamp_at(time.whole_seconds(), time.subsecond()) == time,
{
}

impl Timestamp {
    /// Reads the time that a JSON text holds.
    pub fn from_json_text(text: &str) -> (r: Result<Timestamp, String>)
        ensures
            match r {
                Ok(time) => time_from_json(text@) == Ok::<(i64, u32), Seq<char>>(
                    (time.whole_seconds(), time.subsecond()),
                ),
                Err(e) => time_from_json(text@) == Err::<(i64, u32), Seq<char>>(e@),
            },
            forall|time: Timestamp|
                ordinary(time.whole_seconds(), time.subsecond()) && text@ == quoted(
                    #[trigger] time.zulu(),
                ) ==> r == Ok::<Timestamp, String>(time),
    {
        match read_json_time(text) {
            Ok(parts) => Ok(Timestamp { seconds: parts.0, nanos: parts.1 }),
            Err(error) => Err(error),
        }
    }

    #[verifier::type_invariant]
    pub closed spec fn well_formed(self) -> bool {
        in_range(self.seconds, self.nanos)
    }

    pub closed spec fn whole_seconds(self) -> i64 {
        self.seconds
    }

    pub closed spec fn subsecond(self) -> u32 {
        self.nanos
    }

    /// The time is `other` or earlier.
    pub open spec fn no_later_than(self, other: Timestamp) -> bool {
        self.whole_seconds() < other.whole_seconds() || (self.whole_seconds()
            == other.whole_seconds() && self.subsecond() <= other.subsecond())
    }

    /// The RFC 3339 text with a numeric offset.
    pub open spec fn rfc3339(self) -> Seq<char> {
        rfc3339_text(self.whole_seconds(), self.subsecond())
    }

    /// The RFC 3339 text with `Z`.
    pub open spec fn zulu(self) -> Seq<char> {
        zulu_text(self.whole_seconds(), self.subsecond())
    }

    /// The text for people.
    pub open spec fn plain(self) -> Seq<char> {
        plain_text(self.whole_seconds(), self.subsecond())
    }

    /// The text that is fit for the name of a file.
    pub open spec fn compact(self) -> Seq<char> {
        formatted_time(self.whole_seconds(), self.subsecond(), COMPACT_PATTERN@)
    }

    pub fn new(seconds: i64, nanos: u32) -> (r: Option<Timestamp>)
        ensures
            r is Some <==> in_range(seconds, nanos),
            r matches Some(t) ==> t.whole_seconds() == seconds && t.subsecond() == nanos,
    {
        if MIN_SECONDS <= seconds && seconds <= MAX_SECONDS && (nanos < NANOS_PER_SECOND || (nanos
            < 2 * NANOS_PER_SECOND && (seconds - MIN_SECONDS) as u64 % 60 == 59)) {
            Some(Timestamp { seconds, nanos })
        } else {
            None
        }
    }

    pub fn seconds(self) -> (r: i64)
        ensures
            r == self.whole_seconds(),
    {
        self.seconds
    }

    pub fn nanos(self) -> (r: u32)
        ensures
            r == self.subsecond(),
    {
        self.nanos
    }

    /// Whether the time is `other` or earlier.
    pub fn at_or_before(self, other: Timestamp) -> (r: bool)
        ensures
            r == self.no_later_than(other),
    {
        self.seconds < other.seconds || (self.seconds == other.seconds && self.nanos
            <= other.nanos)
    }

    /// The time `seconds` later, if it can be represented. The time itself is
    /// not inside a leap second.
    pub fn plus_seconds(self, seconds: u64) -> (r: Option<Timestamp>)
        requires
            self.subsecond() < NANOS_PER_SECOND,
        ensures
            r is Some <==> self.whole_seconds() + seconds <= MAX_SECONDS,
            r matches Some(t) ==> t.whole_seconds() == self.whole_seconds() + seconds
                && t.subsecond() == self.subsecond(),
    {
        proof {
            use_type_invariant(&self);
        }
        let later: i128 = self.seconds as i128 + seconds as i128;
        if later <= MAX_SECONDS as i128 {
            Some(Timestamp { seconds: later as i64, nanos: self.nanos })
        } else {
            None
        }
    }

    /// Reads an RFC 3339 text; an error is the calendar crate's.
    pub fn parse_rfc3339(text: &str) -> (r: Result<Timestamp, String>)
        ensures
            match r {
                Ok(t) => parsed_rfc3339(text@) == Ok::<(i64, u32), Seq<char>>(
                    (t.whole_seconds(), t.subsecond()),
                ),
                Err(e) => parsed_rfc3339(text@) == Err::<(i64, u32), Seq<char>>(e@),
            },
    {
        match read_rfc3339(text) {
            Ok(parts) => Ok(Timestamp { seconds: parts.0, nanos: parts.1 }),
            Err(error) => Err(error),
        }
    }

    pub fn to_rfc3339(self) -> (r: String)
        ensures
            r@ == self.rfc3339(),
    {
        proof {
            use_type_invariant(&self);
        }
        format_rfc3339(self.seconds, self.nanos)
    }

    /// The text with `Z`.
    pub fn to_zulu(self) -> (r: String)
        ensures
            r@ == self.zulu(),
    {
        proof {
            use_type_invariant(&self);
        }
        format_zulu(self.seconds, self.nanos)
    }

    /// The text for people.
    pub fn to_plain(self) -> (r: String)
        ensures
            r@ == self.plain(),
    {
        proof {
            use_type_invariant(&self);
        }
        format_plain(self.seconds, self.nanos)
    }

    /// The text that is fit for the name of a file.
    pub fn to_compact(self) -> (r: String)
        ensures
            r@ == self.compact(),
    {
        proof {
            use_type_invariant(&self);
        }
        format_time(self.seconds, self.nanos, COMPACT_PATTERN)
    }
}

} // verus!
