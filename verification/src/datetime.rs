use vstd::prelude::*;

verus! {

/// The layout in which the database stores creation times.
pub const CREATED_AT_FORMAT: &'static str = "%Y-%m-%d %H:%M:%S";

/// Seconds in a day.
pub const SECONDS_PER_DAY: i64 = 86400;

/// A date and time read from text: its whole seconds since 1970-01-01 00:00:00
/// (taking the wall-clock time as UTC) and the text under which it is shown.
pub struct ParsedDateTime {
    pub timestamp: i64,
    pub text: String,
}

/// What `chrono::NaiveDateTime::parse_from_str(s, fmt)` makes of a text: nothing
/// when the text does not fit the layout, else the date-time's whole seconds
/// since the epoch and the text its `Display` gives.
pub uninterp spec fn parsed_datetime(s: Seq<char>, fmt: Seq<char>) -> Option<(i64, Seq<char>)>;

/// Calls `chrono::NaiveDateTime::parse_from_str`, then reads the result's
/// timestamp (`and_utc().timestamp()`) and its `Display` text.
/// Claimed: the result is `parsed_datetime` of the two texts; parsing depends
/// on the text and the layout alone.
#[verifier::external_body]
pub fn parse_datetime(s: &str, fmt: &str) -> (parsed: Option<ParsedDateTime>)
    ensures
        match parsed {
            Some(p) => parsed_datetime(s@, fmt@) == Some((p.timestamp, p.text@)),
            None => parsed_datetime(s@, fmt@) is None,
        },
{
    match chrono::NaiveDateTime::parse_from_str(s, fmt) {
        Ok(d) => Some(ParsedDateTime { timestamp: d.and_utc().timestamp(), text: d.to_string() }),
        Err(_) => None,
    }
}

/// Reads the clock through `chrono::Local::now()` and gives the local wall-clock
/// time in whole seconds since the epoch (taking it as UTC, as stored times are).
/// Nothing is claimed of the value: it is the time of the call.
#[verifier::external_body]
pub fn local_now_timestamp() -> i64 {
    chrono::Local::now().naive_local().and_utc().timestamp()
}

/// A reading of the local clock in whole seconds since the epoch. Its field is
/// private to this module, so `read_clock` is the only way to get one: a
/// reading is always a value that the clock gave.
pub struct ClockReading {
    seconds: i64,
}

impl ClockReading {
    /// The time read, in seconds.
    pub closed spec fn at(&self) -> i64 {
        self.seconds
    }

    /// The time read, in seconds.
    pub fn seconds(&self) -> (t: i64)
        ensures
            t == self.at(),
    {
        self.seconds
    }
}

/// Reads the local clock.
pub fn read_clock() -> ClockReading {
    ClockReading { seconds: local_now_timestamp() }
}

/// Whole days in a span of seconds, counted toward zero, as
/// `chrono::TimeDelta::num_days` counts them.
pub open spec fn whole_days(seconds: int) -> int {
    if seconds >= 0 {
        seconds / 86400
    } else {
        -((-seconds) / 86400)
    }
}

/// Whole days from `then` to `now`, both in seconds.
pub fn elapsed_days(now: i64, then: i64) -> (days: i64)
    ensures
        days == whole_days(now - then),
{
    let span: i128 = (now as i128) - (then as i128);
    if span >= 0 {
        let d = span / 86400;
        assert(d <= i64::MAX) by (nonlinear_arith)
            requires
                d == span / 86400,
                0 <= span <= 2 * 0x8000_0000_0000_0000,
        ;
        d as i64
    } else {
        let d = (-span) / 86400;
        assert(d <= i64::MAX) by (nonlinear_arith)
            requires
                d == (-span) / 86400,
                0 <= -span <= 2 * 0x8000_0000_0000_0000,
        ;
        -(d as i64)
    }
}

} // verus!
