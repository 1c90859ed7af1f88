//! A point in time with a fixed offset from UTC, written and read as
//! RFC 3339 text by way of `chrono`.

use vstd::prelude::*;

verus! {

/// What `chrono` reads from `text` as a date and time with a fixed offset:
/// the seconds since the Unix epoch, the nanoseconds within the second and
/// the offset east of UTC in seconds; `None` where it refuses the text.
pub uninterp spec fn instant_of_text(text: Seq<char>) -> Option<(i64, u32, i32)>;

/// The RFC 3339 text that `chrono` writes for the point in time `seconds`
/// and `nanoseconds` after the Unix epoch, at `offset` seconds east of UTC;
/// `None` where it cannot represent that point or its local time.
pub uninterp spec fn text_of_instant(seconds: i64, nanoseconds: u32, offset: i32) -> Option<
    Seq<char>,
>;

/// Parses with `str::parse` into a `chrono::DateTime<chrono::FixedOffset>`
/// and reads the result back with `timestamp`, `timestamp_subsec_nanos` and
/// `offset().local_minus_utc()`. `None` where the text is refused.
#[verifier::external_body]
fn read_instant(text: &str) -> (r: Option<(i64, u32, i32)>)
    ensures
        r == instant_of_text(text@),
{
    let parsed = text.parse::<chrono::DateTime<chrono::FixedOffset>>().ok()?;
    Some((parsed.timestamp(), parsed.timestamp_subsec_nanos(), parsed.offset().local_minus_utc()))
}

/// Builds the value with `chrono::DateTime::from_timestamp`,
/// `chrono::FixedOffset::east_opt` and `with_timezone`, and writes it with
/// `to_rfc3339_opts`, with as many fraction digits as the value needs and `Z`
/// for UTC. `None` where a constructor refuses its arguments or the local
/// time is out of range.
#[verifier::external_body]
fn write_instant(seconds: i64, nanoseconds: u32, offset: i32) -> (r: Option<String>)
    ensures
        match r {
            Some(text) => text_of_instant(seconds, nanoseconds, offset) == Some(text@),
            None => text_of_instant(seconds, nanoseconds, offset) is None,
        },
{
    let zone = chrono::FixedOffset::east_opt(offset)?;
    let utc = chrono::DateTime::from_timestamp(seconds, nanoseconds)?;
    utc.naive_utc().checked_add_offset(zone)?;
    Some(utc.with_timezone(&zone).to_rfc3339_opts(chrono::SecondsFormat::AutoSi, true))
}

/// A point in time with a fixed offset from UTC.
#[derive(Debug, PartialEq, Eq)]
pub struct DateTime {
    seconds: i64,
    nanoseconds: u32,
    offset: i32,
    text: String,
}

/// What a [`DateTime`] stands for.
pub struct Instant {
    /// Seconds since the Unix epoch.
    pub seconds: i64,
    /// Nanoseconds within the second.
    pub nanoseconds: u32,
    /// Seconds east of UTC.
    pub offset: i32,
}

impl Instant {
    /// The RFC 3339 text of the instant, where it has one.
    pub open spec fn text(self) -> Option<Seq<char>> {
        text_of_instant(self.seconds, self.nanoseconds, self.offset)
    }

    /// Whether reading the instant's own text gives the instant back.
    pub open spec fn round_trips(self) -> bool {
        self.text() matches Some(text) && instant_of_text(text) == Some(
            (self.seconds, self.nanoseconds, self.offset),
        )
    }
}

/// The instant that `text` stands for: what is read from it, where that
/// instant's own text reads back as the same instant.
pub open spec fn instant_read(text: Seq<char>) -> Option<Instant> {
    match instant_of_text(text) {
        Some((seconds, nanoseconds, offset)) => {
            let instant = Instant { seconds, nanoseconds, offset };
            if instant.round_trips() {
                Some(instant)
            } else {
                None
            }
        },
        None => None,
    }
}

impl View for DateTime {
    type V = Instant;

    closed spec fn view(&self) -> Instant {
        Instant { seconds: self.seconds, nanoseconds: self.nanoseconds, offset: self.offset }
    }
}

impl DateTime {
    #[verifier::type_invariant]
    spec fn writable(&self) -> bool {
        &&& text_of_instant(self.seconds, self.nanoseconds, self.offset) == Some(self.text@)
        &&& instant_of_text(self.text@) == Some((self.seconds, self.nanoseconds, self.offset))
    }

    /// The point in time `seconds` and `nanoseconds` after the Unix epoch, at
    /// `offset` seconds east of UTC. It is made only where it can be written
    /// as text and that text reads back as the same point: every value of the
    /// type survives being written and read.
    pub fn new(seconds: i64, nanoseconds: u32, offset: i32) -> (r: Option<DateTime>)
        ensures
            match r {
                Some(made) => made@ == (Instant { seconds, nanoseconds, offset })
                    && made@.round_trips(),
                None => !(Instant { seconds, nanoseconds, offset }).round_trips(),
            },
    {
        match write_instant(seconds, nanoseconds, offset) {
            Some(text) => match read_instant(text.as_str()) {
                Some((s, n, o)) => if s == seconds && n == nanoseconds && o == offset {
                    Some(DateTime { seconds, nanoseconds, offset, text })
                } else {
                    None
                },
                None => None,
            },
            None => None,
        }
    }

    /// Reads RFC 3339 text.
    pub fn parse(text: &str) -> (r: Option<DateTime>)
        ensures
            match r {
                Some(made) => instant_read(text@) == Some(made@),
                None => instant_read(text@) is None,
            },
    {
        match read_instant(text) {
            Some((seconds, nanoseconds, offset)) => DateTime::new(seconds, nanoseconds, offset),
            None => None,
        }
    }

    /// The RFC 3339 text of this point in time.
    pub fn to_text(&self) -> (r: String)
        ensures
            self@.text() == Some(r@),
            self@.round_trips(),
    {
        proof {
            use_type_invariant(self);
        }
        self.text.clone()
    }

    /// Seconds since the Unix epoch.
    pub fn seconds(&self) -> (r: i64)
        ensures
            r == self@.seconds,
    {
        self.seconds
    }

    /// Nanoseconds within the second.
    pub fn nanoseconds(&self) -> (r: u32)
        ensures
            r == self@.nanoseconds,
    {
        self.nanoseconds
    }

    /// Seconds east of UTC.
    pub fn offset(&self) -> (r: i32)
        ensures
            r == self@.offset,
    {
        self.offset
    }

    /// A copy of this point in time.
    pub fn copy(&self) -> (r: DateTime)
        ensures
            r@ == self@,
            r@.round_trips(),
    {
        proof {
            use_type_invariant(self);
        }
        DateTime {
            seconds: self.seconds,
            nanoseconds: self.nanoseconds,
            offset: self.offset,
            text: self.text.clone(),
        }
    }
}

} // verus!
