use vstd::prelude::*;

use crate::Mode;
use crate::coord::{f64_gt, gt_bits, BITS_ZERO};

verus! {

/// One vertex of the exterior ring: a longitude/latitude pair, each the
/// bit pattern of an IEEE-754 double.
#[derive(Clone, Copy, Debug, PartialEq, Eq, Structural)]
pub struct RingPoint {
    pub lon: u64,
    pub lat: u64,
}

/// The latitude at which the ring closes toward a pole, chosen between the
/// box's two latitude bounds by the mode and the sign of the solar
/// declination. The exact pairing is the contract: `Night` takes `latmax`
/// under positive declination and `latmin` otherwise; `Day` the opposite.
pub open spec fn spec_lat_close(dec: u64, latmax: u64, latmin: u64, mode: Mode) -> u64 {
    match mode {
        Mode::Night => if f64_gt(dec, BITS_ZERO) {
            latmax
        } else {
            latmin
        },
        Mode::Day => if f64_gt(dec, BITS_ZERO) {
            latmin
        } else {
            latmax
        },
    }
}

/// Picks the closing latitude for a declination and mode.
pub fn get_lat_close(dec: u64, latmax: u64, latmin: u64, mode: &Mode) -> (r: u64)
    ensures
        r == spec_lat_close(dec, latmax, latmin, *mode),
{
    match mode {
        Mode::Night => if gt_bits(dec, BITS_ZERO) {
            latmax
        } else {
            latmin
        },
        Mode::Day => if gt_bits(dec, BITS_ZERO) {
            latmin
        } else {
            latmax
        },
    }
}

/// With distinct latitude bounds the two modes never agree on the closing
/// latitude: the selection degenerates only when the bounds coincide.
pub proof fn lemma_lat_close_modes_differ(dec: u64, latmax: u64, latmin: u64)
    requires
        latmax != latmin,
    ensures
        spec_lat_close(dec, latmax, latmin, Mode::Night) != spec_lat_close(
            dec,
            latmax,
            latmin,
            Mode::Day,
        ),
{
}

/// The closed exterior ring assembled from the terminator samples: every
/// sample in order, a point at `lonmax` then one at `lonmin` at the
/// closing latitude, and the first sample repeated to close the ring.
pub open spec fn spec_ring(
    lons: Seq<u64>,
    lats: Seq<u64>,
    lonmin: u64,
    lonmax: u64,
    close: u64,
) -> Seq<RingPoint> {
    Seq::new(lons.len(), |i: int| RingPoint { lon: lons[i], lat: lats[i] }).push(
        RingPoint { lon: lonmax, lat: close },
    ).push(RingPoint { lon: lonmin, lat: close }).push(
        RingPoint { lon: lons[0], lat: lats[0] },
    )
}

/// Assembles the exterior ring from the sampled terminator curve.
///
/// The result is pinned point by point: the samples in longitude order,
/// the two closing points at the latitude `spec_lat_close` picks, and the
/// first sample again, so the ring has the samples' length plus three
/// points and its last point equals its first.
pub fn night_coord_ring(
    lons: &Vec<u64>,
    lats: &Vec<u64>,
    dec: u64,
    latmax: u64,
    lonmax: u64,
    latmin: u64,
    lonmin: u64,
    mode: &Mode,
) -> (r: Vec<RingPoint>)
    requires
        lons@.len() == lats@.len(),
        lons@.len() >= 1,
    ensures
        r@ == spec_ring(lons@, lats@, lonmin, lonmax, spec_lat_close(dec, latmax, latmin, *mode)),
        r@.len() == lons@.len() + 3,
        r@[r@.len() - 1] == r@[0],
{
    let n: usize = lons.len();
    let mut ring: Vec<RingPoint> = Vec::new();
    let mut i: usize = 0;
    while i < n
        invariant
            i <= n,
            n == lons@.len(),
            n == lats@.len(),
            ring@ == Seq::new(i as nat, |k: int| RingPoint { lon: lons@[k], lat: lats@[k] }),
        decreases n - i,
    {
        ring.push(RingPoint { lon: lons[i], lat: lats[i] });
        i = i + 1;
    }
    let close: u64 = get_lat_close(dec, latmax, latmin, mode);
    ring.push(RingPoint { lon: lonmax, lat: close });
    ring.push(RingPoint { lon: lonmin, lat: close });
    ring.push(RingPoint { lon: lons[0], lat: lats[0] });
    proof {
        assert(ring@ =~= spec_ring(
            lons@,
            lats@,
            lonmin,
            lonmax,
            spec_lat_close(dec, latmax, latmin, *mode),
        ));
    }
    ring
}

/// The ring is a function of its inputs alone: two assemblies from equal
/// inputs are equal, point for point.
pub proof fn lemma_ring_deterministic(
    lons: Seq<u64>,
    lats: Seq<u64>,
    lonmin: u64,
    lonmax: u64,
    close: u64,
    r1: Seq<RingPoint>,
    r2: Seq<RingPoint>,
)
    requires
        r1 == spec_ring(lons, lats, lonmin, lonmax, close),
        r2 == spec_ring(lons, lats, lonmin, lonmax, close),
    ensures
        r1 == r2,
{
}

} // verus!
