//! The dates and times that the tasks carry: RFC 3339 timestamps, read and
//! written by `chrono`.
use vstd::prelude::*;

verus! {

/// The pattern, in `chrono`'s strftime notation, by which a creation time
/// is shown: "YYYY-MM-DD hh:mm".
pub open spec fn display_pattern() -> Seq<char> {
    "%Y-%m-%d %H:%M"@
}

/// Whether `chrono` reads the text `s`, of at least 19 characters, as an
/// RFC 3339 date and time.
pub uninterp spec fn chrono_parses_rfc3339(s: Seq<char>) -> bool;

/// Whether `s` reads as an RFC 3339 date and time. `chrono` reads 19 ASCII
/// characters ("YYYY-MM-DDThh:mm:ss") before anything else, so a shorter
/// text never reads.
pub open spec fn parses_as_rfc3339(s: Seq<char>) -> bool {
    s.len() >= 19 && chrono_parses_rfc3339(s)
}

/// The display form "YYYY-MM-DD hh:mm" of an RFC 3339 text: its date, a
/// space, and its hours and minutes.
pub open spec fn minute_display(s: Seq<char>) -> Seq<char> {
    s.subrange(0, 10) + seq![' '] + s.subrange(11, 16)
}

/// Calls `chrono::DateTime::parse_from_rfc3339` on `s` and, where that
/// succeeds, `DateTime::format` with `pattern` on the result, turned into a
/// `String`. The contract claims what the source shows: whether there is a
/// result is the named value `chrono_parses_rfc3339` of the text, which
/// depends on the text alone; a text under 19 characters never reads, as
/// the parser needs 19 ASCII bytes for "YYYY-MM-DDThh:mm:ss" first; and
/// where it reads, the display pattern writes back the date, a space, the
/// hours and the minutes as they stand in the text (four year digits and
/// two for each other field, the date and time before any offset). The
/// pattern is held to the display pattern, which holds no item that
/// `chrono` fails to write (such a failure would panic in `to_string`).
#[verifier::external_body]
fn reformat_rfc3339(s: &str, pattern: &str) -> (r: Option<String>)
    requires
        pattern@ == display_pattern(),
    ensures
        s@.len() < 19 ==> r is None,
        s@.len() >= 19 ==> (r is Some <==> chrono_parses_rfc3339(s@)),
        r matches Some(t) ==> t@ == minute_display(s@),
{
    match chrono::DateTime::parse_from_rfc3339(s) {
        Ok(dt) => Some(dt.format(pattern).to_string()),
        Err(_) => None,
    }
}

/// A reading of the system clock: the time since 1970-01-01 00:00:00 UTC,
/// or, where the clock stands before it, the time until then; in whole
/// seconds and the nanoseconds beyond them.
#[derive(Debug, Clone, Copy, PartialEq, Eq)]
pub enum ClockReading {
    SinceEpoch { secs: u64, nanos: u32 },
    BeforeEpoch { secs: u64, nanos: u32 },
}

/// The nanoseconds of a reading are below one second.
pub open spec fn is_clock_reading(c: ClockReading) -> bool {
    match c {
        ClockReading::SinceEpoch { nanos, .. } => nanos < 1_000_000_000,
        ClockReading::BeforeEpoch { nanos, .. } => nanos < 1_000_000_000,
    }
}

/// A reading taken from the system clock. Its field is private to this
/// module, where only `read_clock` makes one, so a value of this type
/// elsewhere is a reading that the clock gave.
pub struct ClockTime {
    reading: ClockReading,
}

impl ClockTime {
    /// The reading that the clock gave.
    pub closed spec fn taken(self) -> ClockReading {
        self.reading
    }

    /// The reading that the clock gave.
    pub fn reading(&self) -> (r: ClockReading)
        ensures
            r == self.taken(),
    {
        self.reading
    }
}

impl std::ops::Deref for ClockTime {
    type Target = ClockReading;

    fn deref(&self) -> (r: &ClockReading)
        ensures
            *r == self.taken(),
    {
        &self.reading
    }
}

/// Calls `std::time::SystemTime::elapsed` on `std::time::UNIX_EPOCH`, and
/// on failure the error's `duration`, split by `Duration::as_secs` and
/// `Duration::subsec_nanos`. The reading depends on the clock; the contract
/// claims only what `subsec_nanos` is documented to give, a fraction of a
/// second below one billion nanoseconds.
#[verifier::external_body]
pub(crate) fn read_clock() -> (r: ClockTime)
    ensures
        is_clock_reading(r.taken()),
{
    let reading = match std::time::UNIX_EPOCH.elapsed() {
        Ok(d) => ClockReading::SinceEpoch { secs: d.as_secs(), nanos: d.subsec_nanos() },
        Err(e) => ClockReading::BeforeEpoch {
            secs: e.duration().as_secs(),
            nanos: e.duration().subsec_nanos(),
        },
    };
    ClockTime { reading }
}

/// The reading as a Unix timestamp: signed whole seconds and nanoseconds
/// beyond them (from 0 up to one second).
pub open spec fn unix_time_of(c: ClockReading) -> (int, int) {
    match c {
        ClockReading::SinceEpoch { secs, nanos } => (secs as int, nanos as int),
        ClockReading::BeforeEpoch { secs, nanos } => if nanos == 0 {
            (-secs, 0)
        } else {
            (-secs - 1, 1_000_000_000 - nanos)
        },
    }
}

/// Whether a timestamp fits the integer types `chrono` takes.
pub open spec fn fits_timestamp(t: (int, int)) -> bool {
    i64::MIN <= t.0 <= i64::MAX && 0 <= t.1 <= u32::MAX
}

/// The clock reading `c` as a Unix timestamp, where it fits an `i64` of
/// seconds and a `u32` of nanoseconds.
pub fn unix_time(c: &ClockReading) -> (r: Option<(i64, u32)>)
    ensures
        match r {
            Some(t) => fits_timestamp(unix_time_of(*c)) && t.0 == unix_time_of(*c).0 && t.1
                == unix_time_of(*c).1,
            None => !fits_timestamp(unix_time_of(*c)),
        },
{
    match c {
        ClockReading::SinceEpoch { secs, nanos } => {
            if *secs <= 9_223_372_036_854_775_807u64 {
                Some((*secs as i64, *nanos))
            } else {
                None
            }
        },
        ClockReading::BeforeEpoch { secs, nanos } => {
            if *nanos == 0 {
                if *secs <= 9_223_372_036_854_775_807u64 {
                    Some((-(*secs as i64), 0))
                } else if *secs == 9_223_372_036_854_775_808u64 {
                    Some((i64::MIN, 0))
                } else {
                    None
                }
            } else if *nanos <= 1_000_000_000 && *secs <= 9_223_372_036_854_775_807u64 {
                Some((-(*secs as i64) - 1, 1_000_000_000 - *nanos))
            } else {
                None
            }
        },
    }
}

/// A decimal digit.
pub open spec fn is_digit(c: char) -> bool {
    0x30 <= (c as u32) <= 0x39
}

/// An RFC 3339 time in UTC to the second: "YYYY-MM-DDThh:mm:ssZ".
pub open spec fn is_utc_stamp(t: Seq<char>) -> bool {
    &&& t.len() == 20
    &&& forall|i: int|
        0 <= i < 20 && i != 4 && i != 7 && i != 10 && i != 13 && i != 16 && i != 19 ==> is_digit(
            #[trigger] t[i],
        )
    &&& t[4] == '-' && t[7] == '-' && t[10] == 'T'
    &&& t[13] == ':' && t[16] == ':' && t[19] == 'Z'
}

/// A Unix timestamp from the start of year 0 to the end of year 9999, with
/// nanoseconds below a second.
pub open spec fn stamp_range(secs: int, nanos: int) -> bool {
    -62_167_219_200 <= secs < 253_402_300_800 && 0 <= nanos < 1_000_000_000
}

/// The text `chrono` writes for the Unix timestamp `secs`, `nanos` as an
/// RFC 3339 time in UTC to the second; `None` where `chrono` cannot hold
/// the timestamp.
pub uninterp spec fn chrono_utc_stamp(secs: i64, nanos: u32) -> Option<Seq<char>>;

/// Calls `chrono::DateTime::from_timestamp` and, where that gives a time,
/// `DateTime::to_rfc3339_opts` with `SecondsFormat::Secs` and `Z` for UTC.
/// The contract claims that the result is the named value
/// `chrono_utc_stamp` of the arguments, and what the source shows for
/// timestamps from year 0 to year 9999 with nanoseconds below a second:
/// there is a result, four year digits and two digits for every other
/// field, with no fraction of a second, in the form "YYYY-MM-DDThh:mm:ssZ".
#[verifier::external_body]
fn utc_stamp(secs: i64, nanos: u32) -> (r: Option<String>)
    ensures
        opt_text(r) == chrono_utc_stamp(secs, nanos),
        r is None ==> !stamp_range(secs as int, nanos as int),
        r matches Some(t) ==> (stamp_range(secs as int, nanos as int) ==> is_utc_stamp(t@)),
{
    match chrono::DateTime::from_timestamp(secs, nanos) {
        Some(dt) => Some(dt.to_rfc3339_opts(chrono::SecondsFormat::Secs, true)),
        None => None,
    }
}

/// A text, or none, as a character sequence, or none.
pub open spec fn opt_text(o: Option<String>) -> Option<Seq<char>> {
    match o {
        Some(s) => Some(s@),
        None => None,
    }
}

/// The creation-time text for the clock reading `c`.
pub open spec fn stamp_text(c: ClockReading) -> Option<Seq<char>> {
    let t = unix_time_of(c);
    if fits_timestamp(t) {
        chrono_utc_stamp(t.0 as i64, t.1 as u32)
    } else {
        None
    }
}

/// A reading between the years 0 and 9999.
pub open spec fn in_stamp_range(c: ClockReading) -> bool {
    stamp_range(unix_time_of(c).0, unix_time_of(c).1)
}

/// The creation time written for a new task when the clock reads `c`.
pub open spec fn is_stamp_of(dt: Option<String>, c: ClockReading) -> bool {
    &&& opt_text(dt) == stamp_text(c)
    &&& in_stamp_range(c) ==> (dt matches Some(t) && is_utc_stamp(t@))
}

/// The creation-time text for the clock reading `c`: the time in UTC to
/// the second, "YYYY-MM-DDThh:mm:ssZ" for the years 0 to 9999; `None`
/// where the reading lies beyond what `chrono` can hold.
pub fn stamp_at(c: &ClockReading) -> (r: Option<String>)
    ensures
        is_stamp_of(r, *c),
{
    match unix_time(c) {
        Some((secs, nanos)) => utc_stamp(secs, nanos),
        None => None,
    }
}

/// The text shown for a stored creation time `dt`: nothing where there is
/// none, the time in the display pattern where it reads as RFC 3339, and
/// the stored text unchanged otherwise.
pub open spec fn created_dt_text(dt: Option<String>) -> Seq<char> {
    match dt {
        None => Seq::empty(),
        Some(s) => if parses_as_rfc3339(s@) {
            minute_display(s@)
        } else {
            s@
        },
    }
}

/// The label for a stored creation time `original`, given what reading it
/// as RFC 3339 and writing it in the display pattern gave (`None` where it
/// did not read): that text, or else the stored text itself.
pub fn created_dt_label(original: &String, reformatted: Option<String>) -> (r: String)
    ensures
        r@ == match reformatted {
            Some(t) => t@,
            None => original@,
        },
{
    match reformatted {
        Some(t) => t,
        None => original.clone(),
    }
}

/// Formats a stored creation time for display ("YYYY-MM-DD hh:mm").
pub fn format_created_dt(iso8601_str: &Option<String>) -> (r: String)
    ensures
        r@ == created_dt_text(*iso8601_str),
        created_dt_text(Some(r)) == r@,
{
    match iso8601_str {
        Some(dt_str) => {
            let reformatted = reformat_rfc3339(dt_str.as_str(), "%Y-%m-%d %H:%M");
            created_dt_label(dt_str, reformatted)
        },
        None => String::new(),
    }
}

} // verus!
