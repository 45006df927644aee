use vstd::prelude::*;
use vstd::arithmetic::div_mod::{
    lemma_fundamental_div_mod, lemma_fundamental_div_mod_converse, lemma_mod_bound,
};

use crate::TerminatorError;

verus! {

/// Calendar system used to interpret a date when counting Julian days.
///
/// `Julian` never applies the Gregorian leap-century correction,
/// `ProlepticGregorian` always applies it, and `Gregorian` applies it only
/// from the historical adoption onward, rejecting the ten skipped days.
pub enum Calendar {
    Julian,
    Gregorian,
    ProlepticGregorian,
}

/// An instant in UTC: a calendar date and a time of day, second resolution.
#[derive(Clone, Copy, Debug, PartialEq, Eq, Structural)]
pub struct UtcTimestamp {
    pub year: i32,
    pub month: u32,
    pub day: u32,
    pub hour: u32,
    pub minute: u32,
    pub second: u32,
}

impl UtcTimestamp {
    /// A well-formed timestamp: calendar fields in their usual ranges, and
    /// the year within the span this library supports (generously beyond
    /// the range of common datetime libraries; it keeps every intermediate
    /// day count far inside `i64`).
    pub open spec fn wf(self) -> bool {
        &&& -1000000 <= self.year <= 1000000
        &&& 1 <= self.month <= 12
        &&& 1 <= self.day <= 31
        &&& self.hour < 24
        &&& self.minute < 60
        &&& self.second < 60
    }

    /// Seconds elapsed since the previous midnight.
    pub open spec fn day_seconds(self) -> int {
        self.hour * 3600 + self.minute * 60 + self.second
    }

    /// Builds a timestamp after checking every field range.
    pub fn new(
        year: i32,
        month: u32,
        day: u32,
        hour: u32,
        minute: u32,
        second: u32,
    ) -> (r: Option<UtcTimestamp>)
        ensures
            match r {
                Some(t) => t == (UtcTimestamp { year, month, day, hour, minute, second })
                    && t.wf(),
                None => !(UtcTimestamp { year, month, day, hour, minute, second }).wf(),
            },
    {
        if -1000000 <= year && year <= 1000000
            && 1 <= month && month <= 12
            && 1 <= day && day <= 31
            && hour < 24 && minute < 60 && second < 60
        {
            Some(UtcTimestamp { year, month, day, hour, minute, second })
        } else {
            None
        }
    }
}

/// Year with January and February counted as months 13 and 14 of the year
/// before, the usual shift of the astronomical Julian-day formula.
pub open spec fn adjusted_year(t: UtcTimestamp) -> int {
    if t.month < 3 {
        t.year - 1
    } else {
        t.year as int
    }
}

/// Month after the same shift: 3 through 14.
pub open spec fn adjusted_month(t: UtcTimestamp) -> int {
    if t.month < 3 {
        t.month + 12
    } else {
        t.month as int
    }
}

/// The whole-day part of the astronomical Julian-day formula:
/// `floor(365.25 (y + 4716)) + floor(30.6001 (m + 1)) + day`,
/// written with exact integer floors. The real-valued Julian date of the
/// instant is this count plus the fraction of the day elapsed, minus 1524.5.
pub open spec fn base_days(t: UtcTimestamp) -> int {
    (1461 * (adjusted_year(t) + 4716)) / 4
        + (306001 * (adjusted_month(t) + 1)) / 10000
        + t.day
}

/// The Gregorian leap-century correction `2 - a + floor(a / 4)` with
/// `a = floor(y / 100)`, in days.
pub open spec fn gregorian_correction(t: UtcTimestamp) -> int {
    let a = adjusted_year(t) / 100;
    2 - a + a / 4
}

/// A date the historically aware calendar must reject: its Julian date lies
/// in `[2299160.5, 2299170.5)`, the ten days skipped at the changeover
/// (October 5 through October 14, 1582). In terms of the whole-day count
/// that interval is `[2300685, 2300694]`; from 2300695 on — October 15,
/// 1582, the first Gregorian day — the correction applies.
pub open spec fn in_gregorian_gap(t: UtcTimestamp) -> bool {
    2300685 <= base_days(t) <= 2300694
}

/// The integer Julian day of a timestamp under a calendar:
/// `floor(jd + b)` for the real-valued Julian date `jd` and correction `b`,
/// which is `base_days + b - 1525`, plus one from noon onward.
pub open spec fn spec_julian_day(t: UtcTimestamp, c: Calendar) -> int {
    let b = match c {
        Calendar::Julian => 0,
        Calendar::ProlepticGregorian => gregorian_correction(t),
        Calendar::Gregorian => if base_days(t) >= 2300695 {
            gregorian_correction(t)
        } else {
            0
        },
    };
    base_days(t) + b - 1525 + if t.day_seconds() >= 43200 {
        1int
    } else {
        0int
    }
}

/// Outside the gap the historically aware calendar coincides with the pure
/// ones: on and before October 4, 1582 it counts days as the Julian
/// calendar does (no correction), and on and after October 15, 1582 as the
/// proleptic Gregorian does (full correction).
pub proof fn lemma_gregorian_selector_coincides(t: UtcTimestamp)
    ensures
        base_days(t) <= 2300684 ==> spec_julian_day(t, Calendar::Gregorian) == spec_julian_day(
            t,
            Calendar::Julian,
        ),
        base_days(t) >= 2300695 ==> spec_julian_day(t, Calendar::Gregorian) == spec_julian_day(
            t,
            Calendar::ProlepticGregorian,
        ),
{
}

/// Shifting the dividend by a multiple of the (positive) divisor shifts the
/// floored quotient by that multiple.
proof fn lemma_div_offset(x: int, k: int, d: int)
    requires
        d > 0,
    ensures
        (x + k * d) / d == x / d + k,
{
    lemma_fundamental_div_mod(x, d);
    lemma_mod_bound(x, d);
    assert(x + k * d == (x / d + k) * d + (x % d)) by (nonlinear_arith)
        requires
            x == d * (x / d) + (x % d),
    ;
    lemma_fundamental_div_mod_converse(x + k * d, d, x / d + k, x % d);
}

/// Floored division by a positive divisor keeps the quotient between the
/// bounds that the dividend's own bounds force.
proof fn lemma_div_bounds(x: int, d: int, lo: int, hi: int)
    requires
        d > 0,
        lo <= x <= hi,
    ensures
        lo / d <= x / d <= hi / d,
{
    lemma_fundamental_div_mod(x, d);
    lemma_mod_bound(x, d);
    lemma_fundamental_div_mod(lo, d);
    lemma_mod_bound(lo, d);
    lemma_fundamental_div_mod(hi, d);
    lemma_mod_bound(hi, d);
    assert(lo / d <= x / d <= hi / d) by (nonlinear_arith)
        requires
            d > 0,
            lo <= x <= hi,
            x == d * (x / d) + (x % d),
            0 <= x % d < d,
            lo == d * (lo / d) + (lo % d),
            0 <= lo % d < d,
            hi == d * (hi / d) + (hi % d),
            0 <= hi % d < d,
    ;
}

/// Converts a calendar date and time of day into an integer Julian day.
///
/// The formula is the standard astronomical one, carried out in exact
/// integer arithmetic. Under the `Gregorian` calendar, a date whose Julian
/// date falls inside the ten-day adoption gap never existed and is rejected
/// with `ImpossibleDate`; every other input yields `Ok`, and the error comes
/// on no other input.
pub fn julian_day_from_date(dt: &UtcTimestamp, calendar: &Calendar) -> (r: Result<
    i32,
    TerminatorError,
>)
    requires
        dt.wf(),
    ensures
        match r {
            Ok(jd) => !(calendar is Gregorian && in_gregorian_gap(*dt)) && jd
                == spec_julian_day(*dt, *calendar),
            Err(e) => calendar is Gregorian && in_gregorian_gap(*dt) && e
                == TerminatorError::ImpossibleDate,
        },
{
    let (ay, am): (i64, u64) = if dt.month < 3 {
        (dt.year as i64 - 1, dt.month as u64 + 12)
    } else {
        (dt.year as i64, dt.month as u64)
    };

    // floor(1461 (y + 4716) / 4), shifted by a positive multiple of 4 so the
    // division runs on a non-negative value.
    let u1: u64 = ((ay + 1004716) as u64) * 1461;
    proof {
        assert(u1 == 1461 * (adjusted_year(*dt) + 4716) + 4 * 365250000);
        lemma_div_offset(1461 * (adjusted_year(*dt) + 4716), 365250000, 4);
        lemma_div_bounds(1461 * (adjusted_year(*dt) + 4716), 4, -1454560665, 1467890076);
    }
    let term1: i64 = (u1 / 4) as i64 - 365250000;

    let t2: u64 = (306001 * (am + 1)) / 10000;
    let base: i64 = term1 + t2 as i64 + dt.day as i64;
    proof {
        assert(base == base_days(*dt));
    }

    // a = floor(y / 100), then floor(a / 4), each with the same shift.
    proof {
        lemma_div_offset(adjusted_year(*dt), 10001, 100);
        lemma_div_bounds(adjusted_year(*dt), 100, -1000001, 1000000);
    }
    let a: i64 = (((ay + 1000100) as u64) / 100) as i64 - 10001;
    proof {
        lemma_div_offset(a as int, 3000, 4);
        lemma_div_bounds(a as int, 4, -10001, 10000);
    }
    let fa4: i64 = (((a + 12000) as u64) / 4) as i64 - 3000;
    let corr: i64 = 2 - a + fa4;
    proof {
        assert(corr == gregorian_correction(*dt));
    }

    let b: i64 = match calendar {
        Calendar::Gregorian => {
            if base >= 2300695 {
                corr
            } else if base <= 2300684 {
                0
            } else {
                return Err(TerminatorError::ImpossibleDate);
            }
        },
        Calendar::ProlepticGregorian => corr,
        Calendar::Julian => 0,
    };

    let daysec: u32 = dt.hour * 3600 + dt.minute * 60 + dt.second;
    let half: i64 = if daysec >= 43200 {
        1
    } else {
        0
    };
    Ok((base + b - 1525 + half) as i32)
}

} // verus!
