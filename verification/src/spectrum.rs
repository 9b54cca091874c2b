//! Frequency bands: a fixed-size forward discrete Fourier transform of
//! the buffer's first `SPECTRUM_SIZE` samples (zero-padded when the
//! buffer is shorter), reporting the magnitude of every bin.
//!
//! The transform is exact integer arithmetic over a fixed-point sine:
//! angles are phase units of `1/2048` turn, and the sine of a phase is
//! a rational approximation (`16x(H - x) / (5H^2 - 4x(H - x))` on the
//! first half-turn of `H` units), so the whole spectrum is a
//! deterministic function of the samples.

use vstd::prelude::*;

use crate::fixed::{isqrt, sqrt_floor, MAX_AMPLITUDE, MAX_VALUE, SCALE};

verus! {

/// Number of DFT bins, and the number of phase units in a full turn.
pub const SPECTRUM_SIZE: usize = 2048;

/// Phase units in a half turn.
pub const HALF_TURN: i64 = 1024;

/// Sine on the first half turn: `x` in phase units `0 ..= 1024`, the
/// result in fixed-point units of `SCALE`.
pub open spec fn sine_half(x: int) -> int
    recommends
        0 <= x <= HALF_TURN,
{
    16 * x * (HALF_TURN - x) * SCALE / (5 * HALF_TURN * HALF_TURN - 4 * x * (HALF_TURN - x))
}

/// Sine of a phase in `0 .. 2048` units, in fixed-point units.
pub open spec fn sine_fp(p: int) -> int
    recommends
        0 <= p < 2 * HALF_TURN,
{
    if p < HALF_TURN {
        sine_half(p)
    } else {
        -sine_half(p - HALF_TURN)
    }
}

/// Cosine of a phase: the sine a quarter turn later.
pub open spec fn cos_fp(p: int) -> int
    recommends
        0 <= p < 2 * HALF_TURN,
{
    sine_fp((p + 512) % 2048)
}

/// The buffer's first `SPECTRUM_SIZE` samples, zero-padded.
pub open spec fn padded(s: Seq<i64>) -> Seq<i64> {
    Seq::new(
        SPECTRUM_SIZE as nat,
        |j: int|
            if j < s.len() {
                s[j]
            } else {
                0
            },
    )
}

/// Real part of bin `k` over the first `n` samples of `p`.
pub open spec fn dft_re(p: Seq<i64>, k: int, n: int) -> int
    decreases n,
{
    if n <= 0 {
        0
    } else {
        dft_re(p, k, n - 1) + p[n - 1] * cos_fp(k * (n - 1) % 2048)
    }
}

/// Imaginary part of bin `k` over the first `n` samples of `p` (up to
/// sign, which the magnitude ignores).
pub open spec fn dft_im(p: Seq<i64>, k: int, n: int) -> int
    decreases n,
{
    if n <= 0 {
        0
    } else {
        dft_im(p, k, n - 1) + p[n - 1] * sine_fp(k * (n - 1) % 2048)
    }
}

/// Magnitude (complex modulus) of bin `k`, in fixed-point units.
pub open spec fn band_magnitude(p: Seq<i64>, k: int) -> i64 {
    let re = dft_re(p, k, SPECTRUM_SIZE as int);
    let im = dft_im(p, k, SPECTRUM_SIZE as int);
    (sqrt_floor((re * re + im * im) as nat) / (SCALE as nat)) as i64
}

/// The full magnitude spectrum of a sample buffer.
pub open spec fn spectrum_spec(s: Seq<i64>) -> Seq<i64> {
    Seq::new(SPECTRUM_SIZE as nat, |k: int| band_magnitude(padded(s), k))
}

/// Sine on the first half turn, by the rational approximation.
fn sine_half_exec(x: i64) -> (r: i64)
    requires
        0 <= x <= HALF_TURN,
    ensures
        r == sine_half(x as int),
        0 <= r <= SCALE,
{
    proof {
        assert(0 <= (x as int) * (HALF_TURN - x as int) <= 262144) by (nonlinear_arith)
            requires
                0 <= x <= 1024,
        ;
    }
    let u = x * (HALF_TURN - x);
    let num = 16 * u * SCALE;
    let den = 5 * HALF_TURN * HALF_TURN - 4 * u;
    let r = (num as u64) / (den as u64);
    proof {
        assert(16 * (x as int) * (HALF_TURN - x as int) * SCALE == 16 * (u as int) * SCALE
            && 4 * (x as int) * (HALF_TURN - x as int) == 4 * (u as int)) by (nonlinear_arith)
            requires
                u == x * (HALF_TURN - x),
        ;
        vstd::arithmetic::div_mod::lemma_div_is_ordered(
            num as int,
            (den as int) * (SCALE as int),
            den as int,
        );
        vstd::arithmetic::div_mod::lemma_div_multiples_vanish(SCALE as int, den as int);
        vstd::arithmetic::div_mod::lemma_div_pos_is_pos(num as int, den as int);
    }
    r as i64
}

/// The sine of every phase unit, as a lookup table.
fn sine_table() -> (t: Vec<i64>)
    ensures
        t@.len() == SPECTRUM_SIZE,
        forall|p: int| 0 <= p < SPECTRUM_SIZE ==> #[trigger] t@[p] == sine_fp(p),
        forall|p: int| 0 <= p < SPECTRUM_SIZE ==> -SCALE <= #[trigger] t@[p] <= SCALE,
{
    let mut t: Vec<i64> = Vec::new();
    let mut p: usize = 0;
    while p < SPECTRUM_SIZE
        invariant
            t@.len() == p,
            p <= SPECTRUM_SIZE,
            forall|q: int| 0 <= q < p ==> #[trigger] t@[q] == sine_fp(q),
            forall|q: int| 0 <= q < p ==> -SCALE <= #[trigger] t@[q] <= SCALE,
        decreases SPECTRUM_SIZE - p,
    {
        if p < 1024 {
            t.push(sine_half_exec(p as i64));
        } else {
            t.push(-sine_half_exec(p as i64 - HALF_TURN));
        }
        p += 1;
    }
    t
}

/// Computes the magnitude spectrum of the buffer's zero-padded prefix.
pub fn analyze_frequency_bands(samples: &Vec<i64>) -> (bands: Vec<i64>)
    requires
        forall|i: int|
            0 <= i < samples@.len() ==> -MAX_AMPLITUDE <= #[trigger] samples@[i] <= MAX_AMPLITUDE,
    ensures
        bands@ == spectrum_spec(samples@),
        forall|k: int| 0 <= k < bands@.len() ==> 0 <= #[trigger] bands@[k] <= MAX_VALUE,
{
    let table = sine_table();
    let mut p: Vec<i64> = Vec::new();
    let mut j: usize = 0;
    while j < SPECTRUM_SIZE
        invariant
            p@.len() == j,
            j <= SPECTRUM_SIZE,
            forall|i: int|
                0 <= i < samples@.len() ==> -MAX_AMPLITUDE <= #[trigger] samples@[i]
                    <= MAX_AMPLITUDE,
            forall|i: int| 0 <= i < j ==> #[trigger] p@[i] == padded(samples@)[i],
            forall|i: int| 0 <= i < j ==> -MAX_AMPLITUDE <= #[trigger] p@[i] <= MAX_AMPLITUDE,
        decreases SPECTRUM_SIZE - j,
    {
        if j < samples.len() {
            p.push(samples[j]);
        } else {
            p.push(0);
        }
        j += 1;
    }
    proof {
        assert(p@ =~= padded(samples@));
    }
    let mut bands: Vec<i64> = Vec::new();
    let mut k: usize = 0;
    while k < SPECTRUM_SIZE
        invariant
            bands@.len() == k,
            k <= SPECTRUM_SIZE,
            p@.len() == SPECTRUM_SIZE,
            p@ == padded(samples@),
            forall|i: int| 0 <= i < p@.len() ==> -MAX_AMPLITUDE <= #[trigger] p@[i] <= MAX_AMPLITUDE,
            table@.len() == SPECTRUM_SIZE,
            forall|q: int| 0 <= q < SPECTRUM_SIZE ==> #[trigger] table@[q] == sine_fp(q),
            forall|q: int| 0 <= q < SPECTRUM_SIZE ==> -SCALE <= #[trigger] table@[q] <= SCALE,
            forall|q: int| 0 <= q < k ==> #[trigger] bands@[q] == band_magnitude(p@, q),
            forall|q: int| 0 <= q < k ==> 0 <= #[trigger] bands@[q] <= MAX_VALUE,
        decreases SPECTRUM_SIZE - k,
    {
        let mut re: i64 = 0;
        let mut im: i64 = 0;
        let mut n: usize = 0;
        while n < SPECTRUM_SIZE
            invariant
                n <= SPECTRUM_SIZE,
                k < SPECTRUM_SIZE,
                p@.len() == SPECTRUM_SIZE,
                forall|i: int|
                    0 <= i < p@.len() ==> -MAX_AMPLITUDE <= #[trigger] p@[i] <= MAX_AMPLITUDE,
                table@.len() == SPECTRUM_SIZE,
                forall|q: int| 0 <= q < SPECTRUM_SIZE ==> #[trigger] table@[q] == sine_fp(q),
                forall|q: int| 0 <= q < SPECTRUM_SIZE ==> -SCALE <= #[trigger] table@[q] <= SCALE,
                re == dft_re(p@, k as int, n as int),
                im == dft_im(p@, k as int, n as int),
                -(n as int) * MAX_AMPLITUDE * SCALE <= re <= (n as int) * MAX_AMPLITUDE * SCALE,
                -(n as int) * MAX_AMPLITUDE * SCALE <= im <= (n as int) * MAX_AMPLITUDE * SCALE,
            decreases SPECTRUM_SIZE - n,
        {
            proof {
                assert(k * n < 2048 * 2048) by (nonlinear_arith)
                    requires
                        0 <= k < 2048,
                        0 <= n < 2048,
                ;
            }
            let ph = (k * n) % 2048;
            let cidx = (ph + 512) % 2048;
            let sample = p[n];
            let c = table[cidx];
            let s = table[ph];
            assert(-MAX_AMPLITUDE * SCALE <= sample * c <= MAX_AMPLITUDE * SCALE
                && -MAX_AMPLITUDE * SCALE <= sample * s <= MAX_AMPLITUDE * SCALE)
                by (nonlinear_arith)
                requires
                    -MAX_AMPLITUDE <= sample <= MAX_AMPLITUDE,
                    -SCALE <= c <= SCALE,
                    -SCALE <= s <= SCALE,
            ;
            re = re + sample * c;
            im = im + sample * s;
            n += 1;
        }
        let re_w: i128 = re as i128;
        let im_w: i128 = im as i128;
        proof {
            assert(0 <= re_w * re_w <= 5_000_000_000_000_000_000_000_000 && 0 <= im_w * im_w
                <= 5_000_000_000_000_000_000_000_000) by (nonlinear_arith)
                requires
                    -2_048_000_000_000 <= re_w <= 2_048_000_000_000,
                    -2_048_000_000_000 <= im_w <= 2_048_000_000_000,
            ;
        }
        let sq: i128 = re_w * re_w + im_w * im_w;
        let root = isqrt(sq as u128);
        proof {
            assert((root as int) <= 3_200_000_000_000) by (nonlinear_arith)
                requires
                    (root as int) * (root as int) <= 10_000_000_000_000_000_000_000_000,
            ;
        }
        let band = root / (SCALE as u64);
        proof {
            vstd::arithmetic::div_mod::lemma_div_nonincreasing(root as int, SCALE as int);
            vstd::arithmetic::div_mod::lemma_div_pos_is_pos(root as int, SCALE as int);
        }
        bands.push(band as i64);
        k += 1;
    }
    proof {
        assert(bands@ =~= spectrum_spec(samples@));
    }
    bands
}

} // verus!
