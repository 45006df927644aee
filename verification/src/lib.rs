//! The day/night terminator: for an instant in time and a bounding region,
//! the closed polygon ring that delimits the part of Earth in night (or
//! day). The calendar arithmetic, the bounding-box clamping, the closing
//! rule and the ring assembly are verified; coordinates cross the library's
//! boundary as IEEE-754 bit patterns, and the caller supplies the
//! floating-point solar ephemeris and curve samples.

use vstd::prelude::*;

pub mod calendar;
pub mod coord;
pub mod ring;

verus! {

/// Which side of the terminator the assembled polygon encloses: the dark
/// hemisphere (`Night`) or the lit one (`Day`).
pub enum Mode {
    Night,
    Day,
}

/// The single failure of this library: the requested date falls inside the
/// ten-day gap of the historical Julian-to-Gregorian calendar changeover,
/// so it never existed under the historically aware calendar.
#[derive(Clone, Copy, Debug, PartialEq, Eq, Structural)]
pub enum TerminatorError {
    ImpossibleDate,
}

} // verus!
