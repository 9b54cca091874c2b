//! Fixed-point number system shared by the whole crate.
//!
//! A value `v` stands for the real number `v / SCALE`.  The constants
//! below are the engine's thresholds and defaults expressed in these
//! units, together with the bounds under which every computation in the
//! crate stays inside machine integers.

use vstd::prelude::*;

verus! {

/// One fixed-point unit is a thousandth.
pub const SCALE: i64 = 1000;

/// The value `1.0`.
pub const FP_ONE: i64 = 1000;

/// The value `0.5`, the trigger threshold of the logic and output nodes.
pub const FP_HALF: i64 = 500;

/// Beat markers fire when a beat timestamp is nearer than `0.1` seconds.
pub const BEAT_TOLERANCE: i64 = 100;

/// Transient markers fire when a transient is nearer than `0.05` seconds.
pub const TRANSIENT_TOLERANCE: i64 = 50;

/// Adjacent samples further apart than `0.3` mark a transient.
pub const TRANSIENT_THRESHOLD: i64 = 300;

/// Windowed energy above `0.1` marks a beat.  Energies are sums of
/// squared samples, so this threshold lives in `SCALE * SCALE` units:
/// `0.1 * SCALE * SCALE`.
pub const ENERGY_THRESHOLD: i64 = 100_000;

/// Magnitude bound on every time, parameter and node value the engine
/// works with; inputs beyond it are rejected as malformed.  The bound
/// keeps all products inside 128-bit intermediates.
pub const MAX_VALUE: i64 = 1_000_000_000_000;

/// Magnitude bound on a single audio sample (an amplitude of `1000.0`).
pub const MAX_AMPLITUDE: i64 = 1_000_000;

/// Largest sample buffer the extractor accepts.  Together with a sample
/// rate of at least one it keeps every derived timestamp below
/// `MAX_VALUE`.
pub const MAX_SAMPLES: usize = 1_000_000_000;

/// The loudness input node indexes the contour at the fixed rate
/// `44100 / 1024` entries per second, whatever produced the snapshot.
pub const LOUDNESS_RATE: i64 = 44100;

/// Hop size, in samples at `LOUDNESS_RATE`, assumed by the loudness
/// input node.
pub const LOUDNESS_HOP: i64 = 1024;

/// Default `maxCount` parameter of a counter node (`10.0`).
pub const DEFAULT_MAX_COUNT: i64 = 10_000;

/// Default `inputMax` parameter of a map-range node (`1.0`).
pub const DEFAULT_INPUT_MAX: i64 = 1000;

/// Default `outputMax` parameter of a map-range node (`100.0`).
pub const DEFAULT_OUTPUT_MAX: i64 = 100_000;

/// Default `intensity` input of a cut-video output node (`0.5`).
pub const DEFAULT_INTENSITY: i64 = 500;

/// Truncating division, the rounding Rust's native `/` uses: the
/// quotient of the magnitudes, with the sign of the real quotient.
pub open spec fn div_trunc(a: int, b: int) -> int
    recommends
        b != 0,
{
    let q = (vstd::math::abs(a) / vstd::math::abs(b)) as int;
    if (a < 0) <==> (b < 0) {
        q
    } else {
        -q
    }
}

/// Truncating remainder, as Rust's native `%`: it carries the sign of
/// the dividend.
pub open spec fn rem_trunc(a: int, b: int) -> int
    recommends
        b != 0,
{
    a - b * div_trunc(a, b)
}

/// The floor of the square root: the unique `r` with
/// `r * r <= x < (r + 1) * (r + 1)`.
pub open spec fn sqrt_floor(x: nat) -> nat {
    choose|r: nat| (#[trigger] (r * r)) <= x < (r + 1) * (r + 1)
}

/// Every natural number has a square-root floor.
pub proof fn lemma_sqrt_floor_exists(x: nat)
    ensures
        exists|r: nat| (#[trigger] (r * r)) <= x < (r + 1) * (r + 1),
    decreases x,
{
    if x == 0 {
        let z: nat = 0;
        assert(z * z <= x && x < (z + 1) * (z + 1)) by (nonlinear_arith)
            requires
                x == 0,
                z == 0,
        ;
    } else {
        lemma_sqrt_floor_exists((x - 1) as nat);
        let r = choose|r: nat| (#[trigger] (r * r)) <= x - 1 < (r + 1) * (r + 1);
        if (r + 1) * (r + 1) <= x {
            assert((r + 1) * (r + 1) == x);
            assert(((r + 1) + 1) * ((r + 1) + 1) > x) by (nonlinear_arith)
                requires
                    (r + 1) * (r + 1) == x,
            ;
            assert((r + 1) * (r + 1) <= x < ((r + 1) + 1) * ((r + 1) + 1));
        } else {
            assert(r * r <= x < (r + 1) * (r + 1));
        }
    }
}

/// The square-root floor is unique.
pub proof fn lemma_sqrt_floor_unique(x: nat, r1: nat, r2: nat)
    requires
        r1 * r1 <= x < (r1 + 1) * (r1 + 1),
        r2 * r2 <= x < (r2 + 1) * (r2 + 1),
    ensures
        r1 == r2,
{
    if r1 < r2 {
        assert((r1 + 1) * (r1 + 1) <= r2 * r2) by (nonlinear_arith)
            requires
                r1 + 1 <= r2,
        ;
    }
    if r2 < r1 {
        assert((r2 + 1) * (r2 + 1) <= r1 * r1) by (nonlinear_arith)
            requires
                r2 + 1 <= r1,
        ;
    }
}

/// Integer square root by bisection.
pub fn isqrt(x: u128) -> (r: u64)
    ensures
        (r as int) * (r as int) <= x < ((r as int) + 1) * ((r as int) + 1),
        r == sqrt_floor(x as nat),
{
    let mut lo: u128 = 0;
    let mut hi: u128 = 0x1_0000_0000_0000_0000;
    assert(hi * hi > x) by (nonlinear_arith)
        requires
            hi == 0x1_0000_0000_0000_0000,
            x < 0x1_0000_0000_0000_0000_0000_0000_0000_0000,
    ;
    while lo + 1 < hi
        invariant
            lo < hi,
            hi <= 0x1_0000_0000_0000_0000,
            (lo as int) * (lo as int) <= x,
            x < (hi as int) * (hi as int),
        decreases hi - lo,
    {
        let mid: u128 = lo + (hi - lo) / 2;
        assert(mid * mid <= 0xffff_ffff_ffff_ffff_ffff_ffff_ffff_ffff) by (nonlinear_arith)
            requires
                mid < 0x1_0000_0000_0000_0000,
        ;
        if mid * mid <= x {
            lo = mid;
        } else {
            hi = mid;
        }
    }
    proof {
        lemma_sqrt_floor_exists(x as nat);
        let w = choose|r: nat| (#[trigger] (r * r)) <= (x as nat) < (r + 1) * (r + 1);
        lemma_sqrt_floor_unique(x as nat, lo as nat, w);
    }
    lo as u64
}

} // verus!
