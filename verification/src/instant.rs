//! Points in time, as they appear in log lines.

use vstd::prelude::*;
use vstd::string::*;

verus! {

/// A point in time: whole seconds since 1970-01-01T00:00:00 UTC and the
/// nanoseconds into that second. A leap second keeps the count of the second
/// before it and carries 1_000_000_000 or more in `nanos`, so that the order
/// of instants is the order of the pairs.
#[derive(Clone, Copy, Debug, PartialEq, Eq, Structural)]
pub struct Instant {
    pub secs: i64,
    pub nanos: u32,
}

/// The seconds of 1985-09-21T05:00:00 UTC.
pub const EPOCH_SECS: i64 = 496_126_800;

impl Instant {
    /// The instant at which a state begins that has nothing behind it:
    /// 1985-09-21T05:00:00 UTC.
    pub open spec fn spec_epoch() -> Instant {
        Instant { secs: EPOCH_SECS, nanos: 0 }
    }

    /// The instant at which a state begins that has nothing behind it.
    #[verifier::when_used_as_spec(spec_epoch)]
    pub fn epoch() -> (r: Instant)
        ensures
            r == Instant::spec_epoch(),
    {
        Instant { secs: EPOCH_SECS, nanos: 0 }
    }

    /// Strictly earlier than `other`.
    pub open spec fn precedes(self, other: Instant) -> bool {
        self.secs < other.secs || (self.secs == other.secs && self.nanos < other.nanos)
    }

    /// Whether this instant is strictly earlier than `other`.
    pub fn is_before(&self, other: &Instant) -> (b: bool)
        ensures
            b == self.precedes(*other),
    {
        self.secs < other.secs || (self.secs == other.secs && self.nanos < other.nanos)
    }
}

/// The layout of a timestamp token followed by a blank and a zone offset.
pub open spec fn token_layout() -> Seq<char> {
    "%Y.%m.%d-%H.%M.%S:%3f %z"@
}

/// The offset that is appended to a token: the log is written in UTC.
pub open spec fn utc_suffix() -> Seq<char> {
    " +0000"@
}

/// What `chrono::DateTime::parse_from_str` makes of `text` under `layout`:
/// the instant it denotes, or `None` where chrono rejects the text.
pub uninterp spec fn parsed_instant(text: Seq<char>, layout: Seq<char>) -> Option<Instant>;

/// Calls `chrono::DateTime::parse_from_str`. The contract claims only that
/// the outcome is a function of the two strings; an accepted value is handed
/// on as its `timestamp()` and `timestamp_subsec_nanos()`.
#[verifier::external_body]
fn parse_from_str(text: &str, layout: &str) -> (r: Option<Instant>)
    ensures
        r == parsed_instant(text@, layout@),
{
    match chrono::DateTime::parse_from_str(text, layout) {
        Ok(v) => Some(Instant { secs: v.timestamp(), nanos: v.timestamp_subsec_nanos() }),
        Err(_) => None,
    }
}

/// The instant that a timestamp token `YYYY.MM.DD-HH.MM.SS:mmm` denotes, read
/// at UTC.
pub open spec fn token_instant(token: Seq<char>) -> Option<Instant> {
    parsed_instant(token + utc_suffix(), token_layout())
}

/// Parses a timestamp token of the log, `YYYY.MM.DD-HH.MM.SS:mmm`, as UTC.
/// A token that does not parse gives `None`.
pub fn get_dt(s: &str) -> (r: Option<Instant>)
    ensures
        r == token_instant(s@),
{
    let text = String::from_str(s).concat(" +0000");
    parse_from_str(text.as_str(), "%Y.%m.%d-%H.%M.%S:%3f %z")
}

} // verus!
