use daynight::calendar::{julian_day_from_date, Calendar, UtcTimestamp};
use daynight::TerminatorError;

fn ts(year: i32, month: u32, day: u32, hour: u32, minute: u32, second: u32) -> UtcTimestamp {
    UtcTimestamp { year, month, day, hour, minute, second }
}

#[test]
fn julian_day_at_j2000_noon() {
    let t = ts(2000, 1, 1, 12, 0, 0);
    assert_eq!(julian_day_from_date(&t, &Calendar::ProlepticGregorian), Ok(2451545));
}

#[test]
fn julian_day_at_j2000_midnight() {
    let t = ts(2000, 1, 1, 0, 0, 0);
    assert_eq!(julian_day_from_date(&t, &Calendar::ProlepticGregorian), Ok(2451544));
}

#[test]
fn julian_day_rounds_up_from_noon_only() {
    let before = ts(2000, 1, 1, 11, 59, 59);
    let at = ts(2000, 1, 1, 12, 0, 0);
    assert_eq!(julian_day_from_date(&before, &Calendar::ProlepticGregorian), Ok(2451544));
    assert_eq!(julian_day_from_date(&at, &Calendar::ProlepticGregorian), Ok(2451545));
}

#[test]
fn gregorian_gap_date_is_impossible() {
    let t = ts(1582, 10, 10, 0, 0, 0);
    assert_eq!(
        julian_day_from_date(&t, &Calendar::Gregorian),
        Err(TerminatorError::ImpossibleDate)
    );
}

#[test]
fn gap_date_is_valid_under_proleptic_gregorian() {
    let t = ts(1582, 10, 10, 0, 0, 0);
    assert_eq!(julian_day_from_date(&t, &Calendar::ProlepticGregorian), Ok(2299155));
}

#[test]
fn gap_date_is_valid_under_julian() {
    let t = ts(1582, 10, 10, 0, 0, 0);
    assert_eq!(julian_day_from_date(&t, &Calendar::Julian), Ok(2299165));
}

#[test]
fn gregorian_gap_boundaries() {
    // The last day before the gap and the first day after it are valid;
    // the gap's own ends are not.
    let last_before = ts(1582, 10, 4, 0, 0, 0);
    let first_in = ts(1582, 10, 5, 0, 0, 0);
    let last_in = ts(1582, 10, 14, 23, 59, 59);
    let first_after = ts(1582, 10, 15, 0, 0, 0);
    assert_eq!(julian_day_from_date(&last_before, &Calendar::Gregorian), Ok(2299159));
    assert_eq!(
        julian_day_from_date(&first_in, &Calendar::Gregorian),
        Err(TerminatorError::ImpossibleDate)
    );
    assert_eq!(
        julian_day_from_date(&last_in, &Calendar::Gregorian),
        Err(TerminatorError::ImpossibleDate)
    );
    assert_eq!(julian_day_from_date(&first_after, &Calendar::Gregorian), Ok(2299160));
    // From the first Gregorian day on, the historical selector agrees with
    // the proleptic one.
    assert_eq!(
        julian_day_from_date(&first_after, &Calendar::ProlepticGregorian),
        Ok(2299160)
    );
}

#[test]
fn october_fourth_1582_is_valid_everywhere() {
    let t = ts(1582, 10, 4, 0, 0, 0);
    assert_eq!(julian_day_from_date(&t, &Calendar::Gregorian), Ok(2299159));
    assert_eq!(julian_day_from_date(&t, &Calendar::Julian), Ok(2299159));
    assert_eq!(julian_day_from_date(&t, &Calendar::ProlepticGregorian), Ok(2299149));
}

#[test]
fn january_and_february_shift_to_previous_year() {
    let t = ts(2000, 2, 29, 0, 0, 0);
    assert_eq!(julian_day_from_date(&t, &Calendar::ProlepticGregorian), Ok(2451603));
}

#[test]
fn negative_years_are_supported() {
    let a = ts(-1000, 1, 1, 0, 0, 0);
    assert_eq!(julian_day_from_date(&a, &Calendar::Julian), Ok(1355807));
    let b = ts(-1000, 3, 1, 0, 0, 0);
    assert_eq!(julian_day_from_date(&b, &Calendar::ProlepticGregorian), Ok(1355876));
}

#[test]
fn julian_day_is_deterministic() {
    let t = ts(2017, 6, 21, 0, 0, 10);
    let a = julian_day_from_date(&t, &Calendar::ProlepticGregorian);
    let b = julian_day_from_date(&t, &Calendar::ProlepticGregorian);
    assert_eq!(a, b);
}

#[test]
fn timestamp_constructor_checks_ranges() {
    assert_eq!(
        UtcTimestamp::new(2017, 6, 21, 0, 0, 10),
        Some(ts(2017, 6, 21, 0, 0, 10))
    );
    assert_eq!(UtcTimestamp::new(2017, 0, 21, 0, 0, 10), None);
    assert_eq!(UtcTimestamp::new(2017, 13, 21, 0, 0, 10), None);
    assert_eq!(UtcTimestamp::new(2017, 6, 0, 0, 0, 10), None);
    assert_eq!(UtcTimestamp::new(2017, 6, 32, 0, 0, 10), None);
    assert_eq!(UtcTimestamp::new(2017, 6, 21, 24, 0, 10), None);
    assert_eq!(UtcTimestamp::new(2017, 6, 21, 0, 60, 10), None);
    assert_eq!(UtcTimestamp::new(2017, 6, 21, 0, 0, 60), None);
    assert_eq!(UtcTimestamp::new(2000000, 6, 21, 0, 0, 10), None);
}
