//! The audio feature extractor: windowed energy beats, amplitude-jump
//! transients, a windowed RMS loudness contour, and a tempo estimate
//! from average inter-beat spacing.  Everything is deterministic
//! fixed-point arithmetic on the raw sample buffer.

use vstd::prelude::*;

use crate::fixed::{
    sqrt_floor, ENERGY_THRESHOLD, MAX_AMPLITUDE, MAX_SAMPLES, MAX_VALUE, SCALE,
    TRANSIENT_THRESHOLD,
};

verus! {

/// Samples the extractor accepts: a bounded buffer of bounded
/// amplitudes, so that all fixed-point arithmetic stays in range.
pub open spec fn wf_samples(s: Seq<i64>) -> bool {
    &&& s.len() <= MAX_SAMPLES
    &&& forall|i: int| 0 <= i < s.len() ==> -MAX_AMPLITUDE <= #[trigger] s[i] <= MAX_AMPLITUDE
}

/// Sum of squared samples over the index range `[from, to)`, in
/// `SCALE * SCALE` units.
pub open spec fn energy(s: Seq<i64>, from: int, to: int) -> int
    decreases to - from,
{
    if from >= to {
        0
    } else {
        energy(s, from, to - 1) + s[to - 1] * s[to - 1]
    }
}

/// Window starting positions, from `i` in steps of `hop`, whose energy
/// exceeds the beat threshold.  Only full windows that end strictly
/// inside the buffer are considered.
pub open spec fn beat_windows_from(s: Seq<i64>, w: int, hop: int, i: int) -> Seq<u64>
    decreases vstd::math::max(0, s.len() - w - i),
        when hop >= 1
{
    if i >= s.len() - w {
        Seq::empty()
    } else {
        let rest = beat_windows_from(s, w, hop, i + hop);
        if energy(s, i, i + w) > ENERGY_THRESHOLD {
            seq![i as u64] + rest
        } else {
            rest
        }
    }
}

/// Beat detection: slide a window of `0.1 * sample_rate` samples with a
/// hop of a quarter window; a window whose energy exceeds the threshold
/// records its starting sample index.  A degenerate hop of zero yields
/// no beats.
pub open spec fn detect_beats_spec(s: Seq<i64>, sr: int) -> Seq<u64> {
    let w = sr / 10;
    let hop = w / 4;
    if hop < 1 {
        Seq::empty()
    } else {
        beat_windows_from(s, w, hop, 0)
    }
}

/// Sample indices whose amplitude jump from the previous sample
/// exceeds the transient threshold, from index `i` on.
pub open spec fn transients_from(s: Seq<i64>, i: int) -> Seq<u64>
    decreases s.len() - i,
{
    if i < 1 || i >= s.len() {
        Seq::empty()
    } else {
        let rest = transients_from(s, i + 1);
        if vstd::math::abs(s[i] - s[i - 1]) > TRANSIENT_THRESHOLD {
            seq![i as u64] + rest
        } else {
            rest
        }
    }
}

/// Transient detection over the whole buffer.
pub open spec fn detect_transients_spec(s: Seq<i64>) -> Seq<u64> {
    transients_from(s, 1)
}

/// Root-mean-square of the window of length `w` starting at `from`.
pub open spec fn rms_of_window(s: Seq<i64>, from: int, w: int) -> i64
    recommends
        w >= 1,
{
    sqrt_floor((energy(s, from, from + w) / w) as nat) as i64
}

/// RMS values of the windows from `i` in steps of `hop`.
pub open spec fn loudness_from(s: Seq<i64>, w: int, hop: int, i: int) -> Seq<i64>
    decreases vstd::math::max(0, s.len() - w - i),
        when hop >= 1
{
    if i >= s.len() - w {
        Seq::empty()
    } else {
        seq![rms_of_window(s, i, w)] + loudness_from(s, w, hop, i + hop)
    }
}

/// Loudness contour: windowed RMS with a window of `0.05 * sample_rate`
/// samples and a hop of half a window.  A degenerate hop of zero yields
/// an empty contour.
pub open spec fn loudness_contour_spec(s: Seq<i64>, sr: int) -> Seq<i64> {
    let w = sr / 20;
    let hop = w / 2;
    if hop < 1 {
        Seq::empty()
    } else {
        loudness_from(s, w, hop, 0)
    }
}

/// A sample index as fixed-point seconds.
pub open spec fn seconds_of_sample_spec(idx: int, sr: int) -> int
    recommends
        sr >= 1,
{
    idx * SCALE / sr
}

/// A sequence of sample indices as fixed-point seconds.
pub open spec fn seconds_seq(idxs: Seq<u64>, sr: int) -> Seq<i64> {
    idxs.map_values(|x: u64| (x * SCALE / sr) as i64)
}

/// Tempo from average inter-beat spacing: zero for fewer than two
/// beats or a non-positive average interval, else `60 / average`
/// beats per minute in fixed-point units.
pub open spec fn tempo_spec(beats: Seq<i64>) -> i64 {
    if beats.len() < 2 {
        0
    } else {
        let total = beats.last() - beats.first();
        let avg = total / (beats.len() - 1) as int;
        if avg <= 0 {
            0
        } else {
            (60 * SCALE * SCALE / avg) as i64
        }
    }
}

/// Everything the extractor learns from a buffer.  Beat and transient
/// timestamps are fixed-point seconds; the loudness contour holds one
/// RMS value per hop; the frequency bands are the magnitude spectrum;
/// the tempo estimate is fixed-point beats per minute.  `current_time`
/// is boundary metadata a caller may attach; the extractor leaves it
/// zero and the evaluator never reads it.
pub struct AnalysisSnapshot {
    pub beat_timestamps: Vec<i64>,
    pub transient_timestamps: Vec<i64>,
    pub loudness_contour: Vec<i64>,
    pub frequency_bands: Vec<i64>,
    pub tempo_estimate: i64,
    pub current_time: i64,
}

/// A snapshot is well formed when every value it carries lies within
/// the engine's value bound.
pub open spec fn wf_snapshot(a: AnalysisSnapshot) -> bool {
    &&& forall|i: int|
        0 <= i < a.beat_timestamps@.len() ==> -MAX_VALUE <= #[trigger] a.beat_timestamps@[i]
            <= MAX_VALUE
    &&& forall|i: int|
        0 <= i < a.transient_timestamps@.len() ==> -MAX_VALUE
            <= #[trigger] a.transient_timestamps@[i] <= MAX_VALUE
    &&& forall|i: int|
        0 <= i < a.loudness_contour@.len() ==> -MAX_VALUE <= #[trigger] a.loudness_contour@[i]
            <= MAX_VALUE
    &&& forall|i: int|
        0 <= i < a.frequency_bands@.len() ==> -MAX_VALUE <= #[trigger] a.frequency_bands@[i]
            <= MAX_VALUE
    &&& -MAX_VALUE <= a.tempo_estimate <= MAX_VALUE
    &&& -MAX_VALUE <= a.current_time <= MAX_VALUE
}

/// Sum of squared samples over `[from, to)`, as a 128-bit integer.
fn energy_of(s: &Vec<i64>, from: usize, to: usize) -> (e: i128)
    requires
        0 <= from <= to <= s@.len(),
        wf_samples(s@),
    ensures
        e == energy(s@, from as int, to as int),
        0 <= e <= (to - from) * (MAX_AMPLITUDE as int) * (MAX_AMPLITUDE as int),
{
    let mut acc: i128 = 0;
    let mut j: usize = from;
    while j < to
        invariant
            from <= j <= to <= s@.len(),
            wf_samples(s@),
            acc == energy(s@, from as int, j as int),
            0 <= acc <= (j - from) * (MAX_AMPLITUDE as int) * (MAX_AMPLITUDE as int),
        decreases to - j,
    {
        let v: i128 = s[j] as i128;
        assert(0 <= v * v <= (MAX_AMPLITUDE as int) * (MAX_AMPLITUDE as int)) by (nonlinear_arith)
            requires
                -MAX_AMPLITUDE <= v <= MAX_AMPLITUDE,
        ;
        acc = acc + v * v;
        j += 1;
    }
    acc
}

/// Detects beats as window starting sample indices.
pub fn detect_beats(samples: &Vec<i64>, sample_rate: u32) -> (beats: Vec<u64>)
    requires
        wf_samples(samples@),
    ensures
        beats@ == detect_beats_spec(samples@, sample_rate as int),
        beats@.len() <= samples@.len(),
        forall|k: int| 0 <= k < beats@.len() ==> #[trigger] beats@[k] < samples@.len(),
{
    let w = (sample_rate / 10) as usize;
    let hop = w / 4;
    let mut beats: Vec<u64> = Vec::new();
    if hop < 1 || samples.len() <= w {
        assert(detect_beats_spec(samples@, sample_rate as int) =~= Seq::<u64>::empty());
        return beats;
    }
    let bound = samples.len() - w;
    let ghost w_i = w as int;
    let ghost hop_i = hop as int;
    let mut i: usize = 0;
    while i < bound
        invariant
            wf_samples(samples@),
            1 <= hop_i,
            hop == hop_i,
            w == w_i,
            w < samples@.len(),
            hop_i <= w_i,
            bound == samples@.len() - w_i,
            1 <= bound,
            beats@.len() <= i + 1,
            i <= bound + hop_i - 1,
            beat_windows_from(samples@, w_i, hop_i, 0) =~= beats@ + beat_windows_from(
                samples@,
                w_i,
                hop_i,
                i as int,
            ),
            forall|k: int| 0 <= k < beats@.len() ==> #[trigger] beats@[k] < samples@.len(),
        decreases vstd::math::max(0, bound - i),
    {
        let e = energy_of(samples, i, i + w);
        if e > ENERGY_THRESHOLD as i128 {
            beats.push(i as u64);
            proof {
                assert(beats@ + beat_windows_from(samples@, w_i, hop_i, i + hop_i)
                    =~= beats@.drop_last() + (seq![i as u64] + beat_windows_from(
                    samples@,
                    w_i,
                    hop_i,
                    i + hop_i,
                )));
            }
        }
        i += hop;
    }
    proof {
        assert(beat_windows_from(samples@, w_i, hop_i, i as int) =~= Seq::<u64>::empty());
        assert(beats@ + Seq::<u64>::empty() =~= beats@);
    }
    beats
}

/// Detects transients as sample indices of sharp amplitude jumps.
pub fn detect_transients(samples: &Vec<i64>) -> (transients: Vec<u64>)
    requires
        wf_samples(samples@),
    ensures
        transients@ == detect_transients_spec(samples@),
        forall|k: int|
            0 <= k < transients@.len() ==> #[trigger] transients@[k] < samples@.len(),
{
    let mut transients: Vec<u64> = Vec::new();
    let n = samples.len();
    if n < 1 {
        assert(detect_transients_spec(samples@) =~= Seq::<u64>::empty());
        return transients;
    }
    let mut i: usize = 1;
    while i < n
        invariant
            wf_samples(samples@),
            n == samples@.len(),
            1 <= i,
            transients_from(samples@, 1) =~= transients@ + transients_from(samples@, i as int),
            forall|k: int|
                0 <= k < transients@.len() ==> #[trigger] transients@[k] < samples@.len(),
        decreases n - i,
    {
        let diff = samples[i] - samples[i - 1];
        let mag = if diff < 0 {
            -diff
        } else {
            diff
        };
        if mag > TRANSIENT_THRESHOLD {
            transients.push(i as u64);
            proof {
                assert(transients@ + transients_from(samples@, i + 1) =~= transients@.drop_last()
                    + (seq![i as u64] + transients_from(samples@, i + 1)));
            }
        }
        i += 1;
    }
    proof {
        assert(transients_from(samples@, i as int) =~= Seq::<u64>::empty());
        assert(transients@ + Seq::<u64>::empty() =~= transients@);
    }
    transients
}

/// Computes the loudness contour as windowed RMS values.
pub fn calculate_loudness_contour(samples: &Vec<i64>, sample_rate: u32) -> (contour: Vec<i64>)
    requires
        wf_samples(samples@),
    ensures
        contour@ == loudness_contour_spec(samples@, sample_rate as int),
        forall|k: int| 0 <= k < contour@.len() ==> 0 <= #[trigger] contour@[k] <= MAX_AMPLITUDE,
{
    let w = (sample_rate / 20) as usize;
    let hop = w / 2;
    let mut contour: Vec<i64> = Vec::new();
    if hop < 1 || samples.len() <= w {
        assert(loudness_contour_spec(samples@, sample_rate as int) =~= Seq::<i64>::empty());
        return contour;
    }
    let bound = samples.len() - w;
    let ghost w_i = w as int;
    let ghost hop_i = hop as int;
    let mut i: usize = 0;
    while i < bound
        invariant
            wf_samples(samples@),
            1 <= hop_i,
            hop == hop_i,
            w == w_i,
            1 <= w_i,
            w < samples@.len(),
            hop_i <= w_i,
            bound == samples@.len() - w_i,
            loudness_from(samples@, w_i, hop_i, 0) =~= contour@ + loudness_from(
                samples@,
                w_i,
                hop_i,
                i as int,
            ),
            forall|k: int| 0 <= k < contour@.len() ==> 0 <= #[trigger] contour@[k] <= MAX_AMPLITUDE,
        decreases vstd::math::max(0, bound - i),
    {
        let e = energy_of(samples, i, i + w);
        let mean: u128 = (e as u128) / (w as u128);
        proof {
            let a2 = (MAX_AMPLITUDE as int) * (MAX_AMPLITUDE as int);
            vstd::arithmetic::div_mod::lemma_div_is_ordered(e as int, w_i * a2, w_i);
            vstd::arithmetic::div_mod::lemma_div_multiples_vanish(a2, w_i);
            assert(mean <= a2);
        }
        let root = crate::fixed::isqrt(mean);
        assert(root <= MAX_AMPLITUDE) by (nonlinear_arith)
            requires
                (root as int) * (root as int) <= mean,
                mean <= (MAX_AMPLITUDE as int) * (MAX_AMPLITUDE as int),
        ;
        assert(mean == energy(samples@, i as int, i + w_i) / w_i);
        contour.push(root as i64);
        proof {
            assert(contour@.last() == rms_of_window(samples@, i as int, w_i));
            assert(contour@ + loudness_from(samples@, w_i, hop_i, i + hop_i) =~= contour@.drop_last()
                + (seq![rms_of_window(samples@, i as int, w_i)] + loudness_from(
                samples@,
                w_i,
                hop_i,
                i + hop_i,
            )));
        }
        i += hop;
    }
    proof {
        assert(loudness_from(samples@, w_i, hop_i, i as int) =~= Seq::<i64>::empty());
        assert(contour@ + Seq::<i64>::empty() =~= contour@);
    }
    contour
}

/// Converts a sample index to fixed-point seconds.
pub fn seconds_of_sample(idx: u64, sample_rate: u32) -> (t: i64)
    requires
        sample_rate >= 1,
        idx <= MAX_SAMPLES as u64,
    ensures
        t == seconds_of_sample_spec(idx as int, sample_rate as int),
        0 <= t <= MAX_VALUE,
{
    proof {
        assert(idx * (SCALE as u64) <= 1_000_000_000_000) by (nonlinear_arith)
            requires
                idx <= 1_000_000_000,
        ;
    }
    let scaled: u64 = idx * (SCALE as u64);
    let t = scaled / (sample_rate as u64);
    proof {
        vstd::arithmetic::div_mod::lemma_div_nonincreasing(scaled as int, sample_rate as int);
        vstd::arithmetic::div_mod::lemma_div_pos_is_pos(scaled as int, sample_rate as int);
    }
    t as i64
}

/// Converts sample indices to fixed-point seconds.
pub fn sample_indices_to_seconds(idxs: &Vec<u64>, sample_rate: u32) -> (r: Vec<i64>)
    requires
        sample_rate >= 1,
        forall|k: int| 0 <= k < idxs@.len() ==> #[trigger] idxs@[k] <= MAX_SAMPLES as u64,
    ensures
        r@ == seconds_seq(idxs@, sample_rate as int),
        forall|k: int| 0 <= k < r@.len() ==> 0 <= #[trigger] r@[k] <= MAX_VALUE,
{
    let mut r: Vec<i64> = Vec::new();
    let n = idxs.len();
    let mut i: usize = 0;
    while i < n
        invariant
            n == idxs@.len(),
            0 <= i <= n,
            sample_rate >= 1,
            forall|k: int| 0 <= k < idxs@.len() ==> #[trigger] idxs@[k] <= MAX_SAMPLES as u64,
            r@.len() == i,
            forall|k: int|
                0 <= k < i ==> #[trigger] r@[k] == seconds_of_sample_spec(
                    idxs@[k] as int,
                    sample_rate as int,
                ),
            forall|k: int| 0 <= k < r@.len() ==> 0 <= #[trigger] r@[k] <= MAX_VALUE,
        decreases n - i,
    {
        let t = seconds_of_sample(idxs[i], sample_rate);
        r.push(t);
        i += 1;
    }
    proof {
        let sr = sample_rate as int;
        assert forall|k: int| 0 <= k < idxs@.len() implies r@[k] == seconds_seq(idxs@, sr)[k] by {
            assert(r@[k] == seconds_of_sample_spec(idxs@[k] as int, sr));
            assert(seconds_seq(idxs@, sr)[k] == (idxs@[k] * SCALE / sr) as i64);
        }
        assert(r@ =~= seconds_seq(idxs@, sample_rate as int));
    }
    r
}

/// Estimates the tempo, in fixed-point beats per minute, from beat
/// timestamps in fixed-point seconds.
pub fn estimate_tempo(beats: &Vec<i64>) -> (tempo: i64)
    requires
        beats@.len() <= MAX_SAMPLES,
        forall|k: int| 0 <= k < beats@.len() ==> -MAX_VALUE <= #[trigger] beats@[k] <= MAX_VALUE,
    ensures
        tempo == tempo_spec(beats@),
        0 <= tempo <= MAX_VALUE,
{
    let n = beats.len();
    if n < 2 {
        return 0;
    }
    let total = beats[n - 1] - beats[0];
    let count = (n - 1) as i64;
    proof {
        assert(beats@.last() == beats@[n - 1]);
        assert(beats@.first() == beats@[0]);
    }
    if total < count {
        proof {
            vstd::arithmetic::div_mod::lemma_fundamental_div_mod(total as int, count as int);
            vstd::arithmetic::div_mod::lemma_mod_bound(total as int, count as int);
            let q = (total as int) / (count as int);
            let m = (total as int) % (count as int);
            assert(q <= 0) by (nonlinear_arith)
                requires
                    total as int == count as int * q + m,
                    0 <= m < count as int,
                    (total as int) < count as int,
                    count as int >= 1,
            ;
        }
        return 0;
    }
    let avg = (total as u64) / (count as u64);
    proof {
        vstd::arithmetic::div_mod::lemma_div_non_zero(total as int, count as int);
        assert(avg >= 1);
        vstd::arithmetic::div_mod::lemma_div_nonincreasing(
            60 * (SCALE as int) * (SCALE as int),
            avg as int,
        );
    }
    let tempo = (60 * (SCALE as u64) * (SCALE as u64)) / avg;
    tempo as i64
}

/// Extracts every perceptual feature from a raw sample buffer: a pure,
/// deterministic function of the samples and the sample rate.
pub fn extract_features(samples: &Vec<i64>, sample_rate: u32) -> (snap: AnalysisSnapshot)
    requires
        sample_rate >= 1,
        wf_samples(samples@),
    ensures
        snap.beat_timestamps@ == seconds_seq(
            detect_beats_spec(samples@, sample_rate as int),
            sample_rate as int,
        ),
        snap.transient_timestamps@ == seconds_seq(
            detect_transients_spec(samples@),
            sample_rate as int,
        ),
        snap.loudness_contour@ == loudness_contour_spec(samples@, sample_rate as int),
        snap.frequency_bands@ == crate::spectrum::spectrum_spec(samples@),
        snap.tempo_estimate == tempo_spec(
            seconds_seq(detect_beats_spec(samples@, sample_rate as int), sample_rate as int),
        ),
        snap.current_time == 0,
        wf_snapshot(snap),
{
    let beat_indices = detect_beats(samples, sample_rate);
    let transient_indices = detect_transients(samples);
    proof {
        assert(forall|k: int|
            0 <= k < beat_indices@.len() ==> #[trigger] beat_indices@[k] <= MAX_SAMPLES as u64);
        assert(forall|k: int|
            0 <= k < transient_indices@.len() ==> #[trigger] transient_indices@[k]
                <= MAX_SAMPLES as u64);
    }
    let beat_timestamps = sample_indices_to_seconds(&beat_indices, sample_rate);
    let transient_timestamps = sample_indices_to_seconds(&transient_indices, sample_rate);
    let loudness_contour = calculate_loudness_contour(samples, sample_rate);
    let frequency_bands = crate::spectrum::analyze_frequency_bands(samples);
    let tempo_estimate = estimate_tempo(&beat_timestamps);
    AnalysisSnapshot {
        beat_timestamps,
        transient_timestamps,
        loudness_contour,
        frequency_bands,
        tempo_estimate,
        current_time: 0,
    }
}

/// Decides whether every element of a list lies within the engine's
/// value bound.
fn all_within_bound(v: &Vec<i64>) -> (r: bool)
    ensures
        r == forall|k: int| 0 <= k < v@.len() ==> -MAX_VALUE <= #[trigger] v@[k] <= MAX_VALUE,
{
    let n = v.len();
    let mut i: usize = 0;
    while i < n
        invariant
            n == v@.len(),
            0 <= i <= n,
            forall|k: int| 0 <= k < i ==> -MAX_VALUE <= #[trigger] v@[k] <= MAX_VALUE,
        decreases n - i,
    {
        let x = v[i];
        if x < -MAX_VALUE || x > MAX_VALUE {
            return false;
        }
        i += 1;
    }
    true
}

/// Decides whether a snapshot is well formed.
pub fn snapshot_well_formed(a: &AnalysisSnapshot) -> (r: bool)
    ensures
        r == wf_snapshot(*a),
{
    all_within_bound(&a.beat_timestamps) && all_within_bound(&a.transient_timestamps)
        && all_within_bound(&a.loudness_contour) && all_within_bound(&a.frequency_bands) && (
    -MAX_VALUE <= a.tempo_estimate && a.tempo_estimate <= MAX_VALUE) && (-MAX_VALUE
        <= a.current_time && a.current_time <= MAX_VALUE)
}

/// Decides whether a buffer satisfies the extractor's sample bound.
pub fn samples_well_formed(samples: &Vec<i64>) -> (r: bool)
    ensures
        r == wf_samples(samples@),
{
    if samples.len() > MAX_SAMPLES {
        return false;
    }
    let n = samples.len();
    let mut i: usize = 0;
    while i < n
        invariant
            n == samples@.len(),
            0 <= i <= n,
            forall|k: int| 0 <= k < i ==> -MAX_AMPLITUDE <= #[trigger] samples@[k] <= MAX_AMPLITUDE,
        decreases n - i,
    {
        let x = samples[i];
        if x < -MAX_AMPLITUDE || x > MAX_AMPLITUDE {
            return false;
        }
        i += 1;
    }
    true
}

/// The defensive extractor entry: extracts features when the sample
/// rate is positive and the buffer lies within the extractor's bounds,
/// and reports nothing otherwise, never an error.
pub fn extract_features_checked(samples: &Vec<i64>, sample_rate: u32) -> (r: Option<
    AnalysisSnapshot,
>)
    ensures
        (r is Some) <==> (sample_rate >= 1 && wf_samples(samples@)),
        r matches Some(snap) ==> {
            &&& snap.beat_timestamps@ == seconds_seq(
                detect_beats_spec(samples@, sample_rate as int),
                sample_rate as int,
            )
            &&& snap.transient_timestamps@ == seconds_seq(
                detect_transients_spec(samples@),
                sample_rate as int,
            )
            &&& snap.loudness_contour@ == loudness_contour_spec(samples@, sample_rate as int)
            &&& snap.frequency_bands@ == crate::spectrum::spectrum_spec(samples@)
            &&& snap.tempo_estimate == tempo_spec(
                seconds_seq(detect_beats_spec(samples@, sample_rate as int), sample_rate as int),
            )
            &&& snap.current_time == 0
            &&& wf_snapshot(snap)
        },
{
    if sample_rate >= 1 && samples_well_formed(samples) {
        Some(extract_features(samples, sample_rate))
    } else {
        None
    }
}

} // verus!
