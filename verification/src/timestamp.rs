//! Points in time, as `chrono` counts them.

use vstd::prelude::*;

verus! {

/// The first second that `chrono` has a date for.
pub const MIN_SECS: i64 = -8_334_601_228_800;

/// The last second that `chrono` has a date for.
pub const MAX_SECS: i64 = 8_210_266_876_799;

pub const NANOS_PER_SEC: u32 = 1_000_000_000;

/// Seconds since the start of 1970 in UTC and nanoseconds since that second. In a leap second
/// the nanoseconds go on past a thousand million.
#[verifier::ext_equal]
pub struct TimestampView {
    pub secs: int,
    pub nanos: int,
}

impl TimestampView {
    pub open spec fn valid(self) -> bool {
        &&& MIN_SECS <= self.secs <= MAX_SECS
        &&& 0 <= self.nanos < 2 * NANOS_PER_SEC
        &&& self.nanos >= NANOS_PER_SEC ==> self.secs % 60 == 59
    }
}

/// Whether a time is one that the clock can show: not before 1970, and not within a leap second.
pub open spec fn is_clock_reading(now: TimestampView) -> bool {
    now.valid() && now.secs >= 0 && now.nanos < NANOS_PER_SEC
}

/// Whether a time is no later than another.
pub open spec fn not_after(a: TimestampView, b: TimestampView) -> bool {
    a.secs < b.secs || (a.secs == b.secs && a.nanos <= b.nanos)
}

/// What `chrono` writes for a time with the format `%Y-%m-%d %H:%M:%S%.6f`.
pub uninterp spec fn timestamp_text(time: TimestampView) -> Seq<char>;

/// What `<chrono::DateTime<Utc> as FromStr>::from_str` reads from a text.
pub uninterp spec fn timestamp_parsed(text: Seq<char>) -> Option<TimestampView>;

#[derive(Clone, Copy, Debug)]
pub struct Timestamp {
    secs: i64,
    nanos: u32,
}

impl View for Timestamp {
    type V = TimestampView;

    closed spec fn view(&self) -> TimestampView {
        TimestampView { secs: self.secs as int, nanos: self.nanos as int }
    }
}

impl DeepView for Timestamp {
    type V = TimestampView;

    open spec fn deep_view(&self) -> TimestampView {
        self@
    }
}

/// Whether a number of seconds is the last second of a minute.
fn ends_minute(secs: i64) -> (r: bool)
    ensures
        r == (secs as int % 60 == 59),
{
    if secs >= 0 {
        secs % 60 == 59
    } else if secs == i64::MIN {
        false
    } else {
        let past: i64 = -(secs + 1);
        past % 60 == 0
    }
}

impl Timestamp {
    #[verifier::type_invariant]
    closed spec fn in_range(self) -> bool {
        self@.valid()
    }

    /// The time at `secs` seconds and `nanos` nanoseconds, where there is one.
    pub fn new(secs: i64, nanos: u32) -> (r: Option<Timestamp>)
        ensures
            match r {
                Some(time) => time@ == (TimestampView { secs: secs as int, nanos: nanos as int })
                    && time@.valid(),
                None => !(TimestampView { secs: secs as int, nanos: nanos as int }).valid(),
            },
    {
        if MIN_SECS <= secs && secs <= MAX_SECS && nanos < 2 * NANOS_PER_SEC && (nanos
            < NANOS_PER_SEC || ends_minute(secs)) {
            Some(Timestamp { secs, nanos })
        } else {
            None
        }
    }

    pub fn secs(&self) -> (r: i64)
        ensures
            r == self@.secs,
            self@.valid(),
    {
        proof {
            use_type_invariant(self);
        }
        self.secs
    }

    pub fn nanos(&self) -> (r: u32)
        ensures
            r == self@.nanos,
            self@.valid(),
    {
        proof {
            use_type_invariant(self);
        }
        self.nanos
    }

    /// `chrono::Utc::now` reads the clock of the machine: some time since 1970, and never within
    /// a leap second.
    #[verifier::external_body]
    pub(crate) fn now() -> (r: Timestamp)
        ensures
            is_clock_reading(r@),
    {
        let time = chrono::Utc::now();
        Timestamp { secs: time.timestamp(), nanos: time.timestamp_subsec_nanos() }
    }

    /// `chrono::DateTime::format` with `%Y-%m-%d %H:%M:%S%.6f` is a function of the time.
    #[verifier::external_body]
    pub(crate) fn to_text(&self) -> (r: String)
        ensures
            r@ == timestamp_text(self@),
    {
        chrono::DateTime::<chrono::Utc>::from_timestamp(self.secs, self.nanos)
            .expect("a time in range")
            .format("%Y-%m-%d %H:%M:%S%.6f")
            .to_string()
    }

    /// `<chrono::DateTime<Utc> as FromStr>::from_str` is a function of the text.
    #[verifier::external_body]
    pub(crate) fn parse(text: &str) -> (r: Option<Timestamp>)
        ensures
            r.deep_view() == timestamp_parsed(text@),
    {
        let parsed: Result<chrono::DateTime<chrono::Utc>, chrono::ParseError> = text.parse();
        parsed.ok().map(|t| Timestamp { secs: t.timestamp(), nanos: t.timestamp_subsec_nanos() })
    }
}

} // verus!
