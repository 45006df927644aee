use vstd::prelude::*;

verus! {

// Bit patterns of the IEEE-754 double-precision constants the clamping
// rules compare against.
pub const BITS_80: u64 = 0x4054000000000000;

pub const BITS_90: u64 = 0x4056800000000000;

pub const BITS_180: u64 = 0x4066800000000000;

pub const BITS_NEG_80: u64 = 0xC054000000000000;

pub const BITS_NEG_90: u64 = 0xC056800000000000;

pub const BITS_NEG_180: u64 = 0xC066800000000000;

pub const BITS_ZERO: u64 = 0;

// A coordinate crosses this library's boundary as the 64 bits of an
// IEEE-754 double-precision number (most significant bit the sign). The
// bits pass through unchanged, so nothing is lost, while every decision
// the library takes on them is integer work it can verify.

/// The encoded double is a NaN: exponent field all ones, fraction nonzero.
pub open spec fn f64_is_nan(b: u64) -> bool {
    (b >> 52) & 0x7ff == 0x7ff && b & 0xfffffffffffff != 0
}

/// Negative zero folded into positive zero, the one pair of distinct bit
/// patterns that compare as equal doubles.
pub open spec fn f64_canon(b: u64) -> u64 {
    if b == 0x8000000000000000 {
        0
    } else {
        b
    }
}

/// Order-preserving key: after folding the zeros, negative values have
/// their bits inverted and non-negative ones their sign bit set, so that
/// unsigned comparison of keys matches the numeric order of the doubles
/// they encode.
pub open spec fn f64_key(b: u64) -> u64 {
    let c = f64_canon(b);
    if c >> 63 == 1 {
        !c
    } else {
        c | 0x8000000000000000
    }
}

/// `a < b` on the encoded doubles; false whenever either is a NaN.
pub open spec fn f64_lt(a: u64, b: u64) -> bool {
    !f64_is_nan(a) && !f64_is_nan(b) && f64_key(a) < f64_key(b)
}

/// `a > b` on the encoded doubles; false whenever either is a NaN.
pub open spec fn f64_gt(a: u64, b: u64) -> bool {
    f64_lt(b, a)
}

/// `a >= b` on the encoded doubles; false whenever either is a NaN.
pub open spec fn f64_ge(a: u64, b: u64) -> bool {
    !f64_is_nan(a) && !f64_is_nan(b) && f64_key(a) >= f64_key(b)
}

fn is_nan_bits(b: u64) -> (r: bool)
    ensures
        r == f64_is_nan(b),
{
    (b >> 52u64) & 0x7ff == 0x7ff && b & 0xfffffffffffff != 0
}

fn key_bits(b: u64) -> (r: u64)
    ensures
        r == f64_key(b),
{
    let c: u64 = if b == 0x8000000000000000 {
        0
    } else {
        b
    };
    if c >> 63u64 == 1 {
        !c
    } else {
        c | 0x8000000000000000
    }
}

/// Strict less-than of two encoded doubles.
pub fn lt_bits(a: u64, b: u64) -> (r: bool)
    ensures
        r == f64_lt(a, b),
{
    !is_nan_bits(a) && !is_nan_bits(b) && key_bits(a) < key_bits(b)
}

/// Strict greater-than of two encoded doubles.
pub fn gt_bits(a: u64, b: u64) -> (r: bool)
    ensures
        r == f64_gt(a, b),
{
    lt_bits(b, a)
}

/// Greater-or-equal of two encoded doubles.
pub fn ge_bits(a: u64, b: u64) -> (r: bool)
    ensures
        r == f64_ge(a, b),
{
    !is_nan_bits(a) && !is_nan_bits(b) && key_bits(a) >= key_bits(b)
}

/// On values that are not NaN the comparisons are a total order: two
/// encoded doubles are strictly ordered one way or the other, or they are
/// the same value (the same bits once the two zeros are folded), and
/// `>=` is exactly the negation of `<`.
pub proof fn lemma_f64_order_total(a: u64, b: u64)
    requires
        !f64_is_nan(a),
        !f64_is_nan(b),
    ensures
        f64_lt(a, b) || f64_gt(a, b) || f64_canon(a) == f64_canon(b),
        f64_ge(a, b) <==> !f64_lt(a, b),
{
    assert(f64_key(a) == f64_key(b) ==> f64_canon(a) == f64_canon(b)) by (bit_vector);
}

/// The caller-supplied bounding region, each bound an encoded double.
#[derive(Clone, Copy, Debug, PartialEq, Eq, Structural)]
pub struct BoundingBox {
    pub latmax: u64,
    pub lonmax: u64,
    pub latmin: u64,
    pub lonmin: u64,
}

/// The northern bound clamped into [80, 90]: raised to 80 when below it,
/// lowered to 90 when above it, otherwise kept (a NaN is kept).
pub open spec fn spec_clamp_latmax(x: u64) -> u64 {
    if f64_lt(x, BITS_80) {
        BITS_80
    } else if f64_gt(x, BITS_90) {
        BITS_90
    } else {
        x
    }
}

/// The southern bound clamped into [-90, -80], testing the upper edge
/// first: lowered to -80 when above it, raised to -90 when below it,
/// otherwise kept (a NaN is kept).
pub open spec fn spec_clamp_latmin(x: u64) -> u64 {
    if f64_gt(x, BITS_NEG_80) {
        BITS_NEG_80
    } else if f64_lt(x, BITS_NEG_90) {
        BITS_NEG_90
    } else {
        x
    }
}

/// The longitude bounds normalised as a pair `(lonmin, lonmax)`: replaced
/// by the full range (-180, 180) when the pair is inverted or the caller
/// reports its span as degenerate, then clamped independently to at most
/// 180 and at least -180.
pub open spec fn spec_clamp_lons(lonmin: u64, lonmax: u64, span_degenerate: bool) -> (u64, u64) {
    let reset = f64_ge(lonmin, lonmax) || span_degenerate;
    let mn = if reset {
        BITS_NEG_180
    } else {
        lonmin
    };
    let mx = if reset {
        BITS_180
    } else {
        lonmax
    };
    let mx2 = if f64_gt(mx, BITS_180) {
        BITS_180
    } else {
        mx
    };
    let mn2 = if f64_lt(mn, BITS_NEG_180) {
        BITS_NEG_180
    } else {
        mn
    };
    (mn2, mx2)
}

/// The whole box after clamping.
pub open spec fn spec_clamp_bbox(b: BoundingBox, span_degenerate: bool) -> BoundingBox {
    BoundingBox {
        latmax: spec_clamp_latmax(b.latmax),
        latmin: spec_clamp_latmin(b.latmin),
        lonmin: spec_clamp_lons(b.lonmin, b.lonmax, span_degenerate).0,
        lonmax: spec_clamp_lons(b.lonmin, b.lonmax, span_degenerate).1,
    }
}

/// Normalises a bounding box before sampling.
///
/// `span_degenerate` reports whether `lonmax - lonmin` comes out below ten
/// degrees in the caller's floating-point arithmetic; the subtraction is
/// the one part of the rule this library cannot decide from the bits
/// alone. The inverted-pair test `lonmin >= lonmax` is decided here.
pub fn clamp_bbox(b: &BoundingBox, span_degenerate: bool) -> (r: BoundingBox)
    ensures
        r == spec_clamp_bbox(*b, span_degenerate),
{
    let latmax: u64 = if lt_bits(b.latmax, BITS_80) {
        BITS_80
    } else if gt_bits(b.latmax, BITS_90) {
        BITS_90
    } else {
        b.latmax
    };
    let latmin: u64 = if gt_bits(b.latmin, BITS_NEG_80) {
        BITS_NEG_80
    } else if lt_bits(b.latmin, BITS_NEG_90) {
        BITS_NEG_90
    } else {
        b.latmin
    };
    let reset: bool = ge_bits(b.lonmin, b.lonmax) || span_degenerate;
    let mn: u64 = if reset {
        BITS_NEG_180
    } else {
        b.lonmin
    };
    let mx: u64 = if reset {
        BITS_180
    } else {
        b.lonmax
    };
    let lonmax: u64 = if gt_bits(mx, BITS_180) {
        BITS_180
    } else {
        mx
    };
    let lonmin: u64 = if lt_bits(mn, BITS_NEG_180) {
        BITS_NEG_180
    } else {
        mn
    };
    BoundingBox { latmax, lonmax, latmin, lonmin }
}

/// A clamped box lies in its bands: the northern bound is never below 80
/// nor above 90, the southern never above -80 nor below -90, and the
/// longitudes never leave [-180, 180]. (A NaN bound is kept as it is, and
/// every order comparison on it is false, so the claims hold of it too.)
pub proof fn lemma_clamp_bounds(b: BoundingBox, span_degenerate: bool)
    ensures
        !f64_lt(spec_clamp_bbox(b, span_degenerate).latmax, BITS_80),
        !f64_gt(spec_clamp_bbox(b, span_degenerate).latmax, BITS_90),
        !f64_gt(spec_clamp_bbox(b, span_degenerate).latmin, BITS_NEG_80),
        !f64_lt(spec_clamp_bbox(b, span_degenerate).latmin, BITS_NEG_90),
        !f64_gt(spec_clamp_bbox(b, span_degenerate).lonmax, BITS_180),
        !f64_lt(spec_clamp_bbox(b, span_degenerate).lonmin, BITS_NEG_180),
{
    assert(f64_key(BITS_80) < f64_key(BITS_90)) by (bit_vector);
    assert(f64_key(BITS_NEG_90) < f64_key(BITS_NEG_80)) by (bit_vector);
}

/// Clamping is idempotent. The latitude bounds need no side condition.
/// For the longitudes the law holds on boxes whose bounds already lie in
/// [-180, 180] (outside that range the independent edge clamps can invert
/// an ordered pair), and the second pass must see a false span flag, which
/// is what a clamped box yields: its span is the full range or at least
/// ten degrees.
pub proof fn lemma_clamp_idempotent(b: BoundingBox, span_degenerate: bool)
    requires
        !f64_lt(b.lonmin, BITS_NEG_180),
        !f64_gt(b.lonmax, BITS_180),
    ensures
        spec_clamp_bbox(spec_clamp_bbox(b, span_degenerate), false) == spec_clamp_bbox(
            b,
            span_degenerate,
        ),
{
    assert(f64_key(BITS_80) < f64_key(BITS_90)) by (bit_vector);
    assert(f64_key(BITS_NEG_90) < f64_key(BITS_NEG_80)) by (bit_vector);
    assert(f64_key(BITS_NEG_180) < f64_key(BITS_180)) by (bit_vector);
}

} // verus!
