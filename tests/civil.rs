use chrozone::civil::{lookup_timezone, resolve_instant, timestamp_in, unix_day_of, CivilDateTime, LocalOffset};
use chrozone::error::Error;

fn at(year: i16, month: i8, day: i8, hour: i8, minute: i8, second: i8) -> CivilDateTime {
    CivilDateTime { year, month, day, hour, minute, second }
}

#[test]
fn day_numbers_count_from_the_epoch() {
    assert_eq!(unix_day_of(&at(1970, 1, 1, 0, 0, 0)), 0);
    assert_eq!(unix_day_of(&at(2024, 1, 1, 0, 0, 0)), 19723);
    assert_eq!(unix_day_of(&at(2000, 3, 1, 0, 0, 0)), 11017);
    assert_eq!(unix_day_of(&at(1969, 12, 31, 0, 0, 0)), -1);
    assert_eq!(unix_day_of(&at(1, 1, 1, 0, 0, 0)), -719162);
}

#[test]
fn single_offset_gives_local_time_minus_offset() {
    let c = at(2024, 1, 1, 0, 0, 0);
    assert_eq!(resolve_instant(&c, LocalOffset::Unique(0)), Ok(1704067200));
    assert_eq!(resolve_instant(&c, LocalOffset::Unique(3600)), Ok(1704063600));
    assert_eq!(resolve_instant(&at(2024, 2, 29, 23, 59, 59), LocalOffset::Unique(-18000)), Ok(1709269199));
}

#[test]
fn gap_and_overlap_are_refused() {
    let c = at(2024, 3, 10, 2, 30, 0);
    assert_eq!(resolve_instant(&c, LocalOffset::Gap { before: -18000, after: -14400 }), Err(Error::InvalidArgs));
    assert_eq!(resolve_instant(&c, LocalOffset::Fold { before: -14400, after: -18000 }), Err(Error::AmbiguousTime));
}

#[test]
fn new_york_gap_overlap_and_summer() {
    let tz = lookup_timezone("America/New_York").ok().unwrap();
    assert_eq!(timestamp_in(&tz, &at(2024, 3, 10, 2, 30, 0)), Err(Error::InvalidArgs));
    assert_eq!(timestamp_in(&tz, &at(2024, 11, 3, 1, 30, 0)), Err(Error::AmbiguousTime));
    assert_eq!(timestamp_in(&tz, &at(2024, 7, 1, 12, 0, 0)), Ok(1719849600));
}

#[test]
fn same_inputs_give_the_same_timestamp() {
    let tz = lookup_timezone("Asia/Manila").ok().unwrap();
    let c = at(2023, 6, 15, 8, 45, 30);
    let first = timestamp_in(&tz, &c);
    assert_eq!(first, Ok(1686789930));
    assert_eq!(timestamp_in(&tz, &c), first);
}

#[test]
fn calendar_refuses_invalid_dates() {
    let tz = lookup_timezone("UTC").ok().unwrap();
    assert_eq!(timestamp_in(&tz, &at(2023, 2, 29, 0, 0, 0)), Err(Error::InvalidArgs));
    assert_eq!(timestamp_in(&tz, &at(2024, 4, 31, 0, 0, 0)), Err(Error::InvalidArgs));
    assert_eq!(timestamp_in(&tz, &at(2024, 1, 1, 0, 0, 60)), Err(Error::InvalidArgs));
    assert_eq!(timestamp_in(&tz, &at(2024, 13, 1, 0, 0, 0)), Err(Error::InvalidArgs));
    assert_eq!(timestamp_in(&tz, &at(2024, 2, 29, 0, 0, 0)), Ok(1709164800));
}

#[test]
fn zone_keeps_its_identifier() {
    let tz = lookup_timezone("Europe/Paris").ok().unwrap();
    assert_eq!(tz.identifier(), "Europe/Paris");
}

#[test]
fn instants_beyond_the_calendar_range_are_refused() {
    let tz = lookup_timezone("UTC").ok().unwrap();
    assert_eq!(timestamp_in(&tz, &at(9999, 12, 31, 23, 0, 0)), Err(Error::InvalidArgs));
    assert_eq!(timestamp_in(&tz, &at(-9999, 1, 1, 0, 0, 0)), Err(Error::InvalidArgs));
    assert_eq!(timestamp_in(&tz, &at(9999, 12, 30, 22, 0, 0)), Ok(253402207200));
}

#[test]
fn unknown_timezone_is_reported() {
    assert!(matches!(lookup_timezone("Mars/Olympus_Mons"), Err(Error::UnknownTimezone)));
}
