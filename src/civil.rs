use crate::error::Error;
use vstd::prelude::*;

verus! {

/// A calendar date and a time of day, with no time zone attached.
#[derive(Clone, Copy, Debug, PartialEq, Eq, Structural)]
pub struct CivilDateTime {
    pub year: i16,
    pub month: i8,
    pub day: i8,
    pub hour: i8,
    pub minute: i8,
    pub second: i8,
}

/// How a civil date and time stands in a time zone: at one offset from UTC,
/// in a gap the clocks skipped over, or in an overlap they passed twice.
/// Offsets are in seconds east of UTC.
#[derive(Clone, Copy, Debug, PartialEq, Eq, Structural)]
pub enum LocalOffset {
    Unique(i32),
    Gap { before: i32, after: i32 },
    Fold { before: i32, after: i32 },
}

/// The largest offset from UTC, in seconds, that a time zone can have
/// (25:59:59).
pub const MAX_OFFSET: i32 = 93599;

pub open spec fn offset_in_bounds(o: i32) -> bool {
    -MAX_OFFSET <= o <= MAX_OFFSET
}

pub open spec fn local_offset_in_bounds(lo: LocalOffset) -> bool {
    match lo {
        LocalOffset::Unique(o) => offset_in_bounds(o),
        LocalOffset::Gap { before, after } => offset_in_bounds(before) && offset_in_bounds(after),
        LocalOffset::Fold { before, after } => offset_in_bounds(before) && offset_in_bounds(after),
    }
}

pub open spec fn is_leap_year(y: int) -> bool {
    y % 4 == 0 && (y % 100 != 0 || y % 400 == 0)
}

pub open spec fn days_in_month(y: int, m: int) -> int {
    if m == 2 {
        if is_leap_year(y) {
            29
        } else {
            28
        }
    } else if m == 4 || m == 6 || m == 9 || m == 11 {
        30
    } else {
        31
    }
}

/// The proleptic Gregorian date and time of day that the calendar accepts:
/// years `-9999..=9999`, no leap seconds.
pub open spec fn is_valid_civil(c: CivilDateTime) -> bool {
    &&& -9999 <= c.year <= 9999
    &&& 1 <= c.month <= 12
    &&& 1 <= c.day <= days_in_month(c.year as int, c.month as int)
    &&& 0 <= c.hour <= 23
    &&& 0 <= c.minute <= 59
    &&& 0 <= c.second <= 59
}

/// Days from the first day of year 1 to the first day of year `y`.
pub open spec fn days_before_year(y: int) -> int {
    365 * (y - 1) + (y - 1) / 4 - (y - 1) / 100 + (y - 1) / 400
}

/// Days in year `y` before the first day of month `m`.
pub open spec fn days_before_month(y: int, m: int) -> int
    decreases m,
{
    if m <= 1 {
        0
    } else {
        days_before_month(y, m - 1) + days_in_month(y, m - 1)
    }
}

/// Days between 1970-01-01 and the date of `c`.
pub open spec fn unix_day(c: CivilDateTime) -> int {
    days_before_year(c.year as int) + days_before_month(c.year as int, c.month as int) + c.day - 1
        - days_before_year(1970)
}

/// Seconds between 1970-01-01T00:00:00 and `c`, both read on the same clock.
pub open spec fn local_seconds(c: CivilDateTime) -> int {
    unix_day(c) * 86400 + c.hour * 3600 + c.minute * 60 + c.second
}

/// The earliest instant, in seconds since the Unix epoch, that the calendar
/// represents: the first second of year -9999 less the largest offset.
pub const MIN_INSTANT: i64 = -377705023201;

/// The latest instant that the calendar represents: the last second of year
/// 9999 less the largest offset.
pub const MAX_INSTANT: i64 = 253402207200;

/// The instant that `c` names in a zone where it stands as `lo`: one instant
/// for a single offset, refused as `Error::InvalidArgs` where the calendar
/// cannot represent it; a gap names none and an overlap more than one, and
/// both are refused.
pub open spec fn resolution(c: CivilDateTime, lo: LocalOffset) -> Result<i64, Error> {
    match lo {
        LocalOffset::Unique(o) => if MIN_INSTANT <= local_seconds(c) - o <= MAX_INSTANT {
            Ok((local_seconds(c) - o) as i64)
        } else {
            Err(Error::InvalidArgs)
        },
        LocalOffset::Gap { .. } => Err(Error::InvalidArgs),
        LocalOffset::Fold { .. } => Err(Error::AmbiguousTime),
    }
}

/// Relies on `jiff::civil::DateTime::new`, which documents that it succeeds
/// exactly on the years `-9999..=9999`, months `1..=12`, days from 1 to the
/// length of the month, hours `0..=23`, minutes and seconds `0..=59`, and a
/// zero sub-second part.
#[verifier::external_body]
fn calendar_accepts(c: &CivilDateTime) -> (r: bool)
    ensures
        r == is_valid_civil(*c),
{
    jiff::civil::DateTime::new(c.year, c.month, c.day, c.hour, c.minute, c.second, 0).is_ok()
}

/// Relies on `jiff::tz::TimeZone::to_ambiguous_timestamp` and
/// `AmbiguousTimestamp::offset`: how `c` stands in `zone`. Each offset lies
/// within `jiff::tz::Offset::MIN..=MAX`, that is within 25:59:59 of UTC.
/// `jiff::civil::date(..).at(..)` panics only on a date or time that
/// `DateTime::new` refuses, which `requires` leaves out.
#[verifier::external_body]
fn offset_at(zone: &Zone, c: &CivilDateTime) -> (r: LocalOffset)
    requires
        is_valid_civil(*c),
    ensures
        local_offset_in_bounds(r),
{
    let dt = jiff::civil::date(c.year, c.month, c.day).at(c.hour, c.minute, c.second, 0);
    match zone.tz.to_ambiguous_timestamp(dt).offset() {
        jiff::tz::AmbiguousOffset::Unambiguous { offset } => LocalOffset::Unique(offset.seconds()),
        jiff::tz::AmbiguousOffset::Gap { before, after } => {
            LocalOffset::Gap { before: before.seconds(), after: after.seconds() }
        },
        jiff::tz::AmbiguousOffset::Fold { before, after } => {
            LocalOffset::Fold { before: before.seconds(), after: after.seconds() }
        },
    }
}

/// A time zone of the database, with the identifier it was found under.
pub struct Zone {
    tz: jiff::tz::TimeZone,
    name: String,
}

impl Zone {
    /// The identifier that this zone was looked up by.
    pub closed spec fn spec_identifier(&self) -> Seq<char> {
        self.name@
    }

    /// The identifier that this zone was looked up by.
    pub fn identifier(&self) -> (r: &str)
        ensures
            r@ == self.spec_identifier(),
    {
        self.name.as_str()
    }
}

/// Relies on `jiff::tz::TimeZone::get`: the time zone of that identifier in
/// this machine's database, if there is one, kept with the identifier asked
/// for. Whether one is found depends on the machine. Its error carries
/// nothing that is used here.
#[verifier::external_body]
fn find_timezone(name: &str) -> (r: Option<Zone>)
    ensures
        r is Some ==> r->Some_0.spec_identifier() == name@,
{
    jiff::tz::TimeZone::get(name).ok().map(|tz| Zone { tz, name: name.to_string() })
}

/// Looks a time zone up by its identifier; an unknown one is
/// `Error::UnknownTimezone`.
pub fn lookup_timezone(name: &str) -> (r: Result<Zone, Error>)
    ensures
        r is Ok ==> r->Ok_0.spec_identifier() == name@,
        r is Err ==> r->Err_0 == Error::UnknownTimezone,
{
    match find_timezone(name) {
        Some(zone) => Ok(zone),
        None => Err(Error::UnknownTimezone),
    }
}

fn is_leap_year_exec(year: i16) -> (r: bool)
    requires
        -9999 <= year <= 9999,
    ensures
        r == is_leap_year(year as int),
{
    let y = (year as i32 + 10000) as u32;
    assert(y as int % 4 == year as int % 4);
    assert(y as int % 100 == year as int % 100);
    assert(y as int % 400 == year as int % 400);
    y % 4 == 0 && (y % 100 != 0 || y % 400 == 0)
}

fn days_before_month_exec(year: i16, month: i8) -> (r: i64)
    requires
        -9999 <= year <= 9999,
        1 <= month <= 12,
    ensures
        r == days_before_month(year as int, month as int),
        0 <= r <= 335,
{
    reveal_with_fuel(days_before_month, 12);
    let base: i64 = match month {
        1 => 0,
        2 => 31,
        3 => 59,
        4 => 90,
        5 => 120,
        6 => 151,
        7 => 181,
        8 => 212,
        9 => 243,
        10 => 273,
        11 => 304,
        _ => 334,
    };
    if month > 2 && is_leap_year_exec(year) {
        base + 1
    } else {
        base
    }
}

/// Days between 1970-01-01 and the date of `c`.
pub fn unix_day_of(c: &CivilDateTime) -> (r: i64)
    requires
        is_valid_civil(*c),
    ensures
        r == unix_day(*c),
        -5_000_000 <= r <= 5_000_000,
{
    let y = c.year as i64;
    let shifted = (y - 1 + 10000) as u64;
    let ghost a = y - 1;
    assert(shifted as int / 4 == a / 4 + 2500);
    assert(shifted as int / 100 == a / 100 + 100);
    assert(shifted as int / 400 == a / 400 + 25);
    let leaps = (shifted / 4) as i64 - 2500 - ((shifted / 100) as i64 - 100) + ((shifted / 400) as i64
        - 25);
    assert(shifted <= 19998);
    assert(0 <= shifted / 4 <= 4999 && 0 <= shifted / 100 <= 199 && 0 <= shifted / 400 <= 49);
    let before_year = 365 * (y - 1) + leaps;
    assert(days_before_year(1970) == 719162);
    before_year + days_before_month_exec(c.year, c.month) + c.day as i64 - 1 - 719162
}

/// The instant, in seconds since the Unix epoch, that `c` names where it
/// stands as `lo`; a gap is `Error::InvalidArgs` and an overlap
/// `Error::AmbiguousTime`.
pub fn resolve_instant(c: &CivilDateTime, lo: LocalOffset) -> (r: Result<i64, Error>)
    requires
        is_valid_civil(*c),
    ensures
        r == resolution(*c, lo),
{
    match lo {
        LocalOffset::Unique(o) => {
            let day = unix_day_of(c);
            let secs = day * 86400 + c.hour as i64 * 3600 + c.minute as i64 * 60 + c.second as i64;
            let t = secs - o as i64;
            if MIN_INSTANT <= t && t <= MAX_INSTANT {
                Ok(t)
            } else {
                Err(Error::InvalidArgs)
            }
        },
        LocalOffset::Gap { .. } => Err(Error::InvalidArgs),
        LocalOffset::Fold { .. } => Err(Error::AmbiguousTime),
    }
}

/// The Unix timestamp, in seconds, that `c` names in `zone`. A date or time
/// that the calendar refuses, or one that the zone's clocks skipped, is
/// `Error::InvalidArgs`; one that they passed twice is `Error::AmbiguousTime`.
pub fn timestamp_in(zone: &Zone, c: &CivilDateTime) -> (r: Result<i64, Error>)
    ensures
        !is_valid_civil(*c) ==> r == Err::<i64, Error>(Error::InvalidArgs),
        is_valid_civil(*c) ==> exists|lo: LocalOffset|
            local_offset_in_bounds(lo) && r == #[trigger] resolution(*c, lo),
{
    if calendar_accepts(c) {
        let lo = offset_at(zone, c);
        resolve_instant(c, lo)
    } else {
        Err(Error::InvalidArgs)
    }
}

/// Where `c` stands at a single offset, it names exactly one instant: its
/// local seconds less the offset, for every date the calendar accepts in any
/// year but the two outermost ones.
pub proof fn lemma_single_offset_resolves(c: CivilDateTime, o: i32)
    requires
        is_valid_civil(c),
        -9998 <= c.year <= 9998,
        offset_in_bounds(o),
    ensures
        resolution(c, LocalOffset::Unique(o)) == Ok::<i64, Error>((local_seconds(c) - o) as i64),
{
    reveal_with_fuel(days_before_month, 12);
    assert(0 <= days_before_month(c.year as int, c.month as int) <= 335);
}

/// A date and time in a gap never resolves to an instant: it is refused as
/// `Error::InvalidArgs`.
pub proof fn lemma_gap_never_resolves(c: CivilDateTime, before: i32, after: i32)
    ensures
        resolution(c, LocalOffset::Gap { before, after }) == Err::<i64, Error>(Error::InvalidArgs),
{
}

} // verus!
