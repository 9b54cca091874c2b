//! The engine's laws, stated and proved over the same spec functions
//! its contracts use.

use vstd::prelude::*;

use crate::analysis::{
    detect_beats_spec, detect_transients_spec, loudness_contour_spec, seconds_seq, tempo_spec,
};
use crate::eval::{
    beats_value_spec, evaluate_graph_spec, input_step, logic_and_value_spec, logic_step,
    map_range_value_spec, marker_active, resolve_input, some_or_zero,
};
use crate::fixed::{div_trunc, BEAT_TOLERANCE, FP_HALF, FP_ONE};
use crate::graph::{NodeGraph, WorkflowNode};
use crate::analysis::AnalysisSnapshot;

verus! {

/// A missing graph or snapshot always evaluates to the empty action
/// list; no input raises an error.
pub proof fn lemma_evaluate_graph_malformed(
    graph: Option<NodeGraph>,
    analysis: Option<AnalysisSnapshot>,
    t: i64,
)
    requires
        graph is None || analysis is None,
    ensures
        evaluate_graph_spec(graph, analysis, t) == Seq::<crate::graph::ActionV>::empty(),
{
}

/// Feature extraction is deterministic: equal sample buffers and equal
/// sample rates yield equal snapshots, field for field.
pub proof fn lemma_extract_features_deterministic(
    s1: Seq<i64>,
    s2: Seq<i64>,
    sr1: int,
    sr2: int,
)
    requires
        s1 == s2,
        sr1 == sr2,
    ensures
        seconds_seq(detect_beats_spec(s1, sr1), sr1) == seconds_seq(
            detect_beats_spec(s2, sr2),
            sr2,
        ),
        seconds_seq(detect_transients_spec(s1), sr1) == seconds_seq(
            detect_transients_spec(s2),
            sr2,
        ),
        loudness_contour_spec(s1, sr1) == loudness_contour_spec(s2, sr2),
        crate::spectrum::spectrum_spec(s1) == crate::spectrum::spectrum_spec(s2),
        tempo_spec(seconds_seq(detect_beats_spec(s1, sr1), sr1)) == tempo_spec(
            seconds_seq(detect_beats_spec(s2, sr2), sr2),
        ),
{
}

/// A beat-marker node reads one exactly when some beat timestamp lies
/// strictly nearer than the beat tolerance to the playback time, and
/// zero otherwise.
pub proof fn lemma_beat_marker_value(ts: Seq<i64>, t: int)
    ensures
        beats_value_spec(ts, t) == FP_ONE <==> marker_active(ts, t, BEAT_TOLERANCE as int),
        beats_value_spec(ts, t) == 0 <==> !marker_active(ts, t, BEAT_TOLERANCE as int),
        beats_value_spec(ts, t) == FP_ONE || beats_value_spec(ts, t) == 0,
{
}

/// An and-node reads one exactly when both resolved inputs exceed one
/// half, and zero otherwise; an unresolved input counts as zero.
pub proof fn lemma_logic_and_value(a: Option<i64>, b: Option<i64>)
    ensures
        logic_and_value_spec(a, b) == FP_ONE <==> (some_or_zero(a) > FP_HALF && some_or_zero(b)
            > FP_HALF),
        logic_and_value_spec(a, b) == FP_ONE || logic_and_value_spec(a, b) == 0,
        a is None || b is None ==> logic_and_value_spec(a, b) == logic_and_value_spec(
            Some(some_or_zero(a)),
            Some(some_or_zero(b)),
        ),
{
}

/// A map-range node maps the lower input bound to the lower output
/// bound exactly, whatever the other parameters.
pub proof fn lemma_map_range_at_input_min(imin: int, imax: int, omin: i64, omax: i64)
    ensures
        map_range_value_spec(imin, imin, imax, omin as int, omax as int) == omin,
{
    if imax != imin {
        assert((imin - imin) * (omax - omin) == 0) by (nonlinear_arith);
        assert(div_trunc(0, imax - imin) == 0);
    }
}

/// A map-range node maps the upper input bound to the upper output
/// bound exactly, provided the input range is not empty.
pub proof fn lemma_map_range_at_input_max(imin: int, imax: int, omin: i64, omax: i64)
    requires
        imin != imax,
    ensures
        map_range_value_spec(imax, imin, imax, omin as int, omax as int) == omax,
{
    let d = imax - imin;
    let e = omax as int - omin as int;
    assert((imax - imin) * (omax as int - omin as int) == d * e);
    assert(vstd::math::abs(d * e) == vstd::math::abs(d) * vstd::math::abs(e)) by (nonlinear_arith);
    vstd::arithmetic::div_mod::lemma_div_multiples_vanish(
        vstd::math::abs(e) as int,
        vstd::math::abs(d) as int,
    );
    assert((vstd::math::abs(d) as int) * (vstd::math::abs(e) as int) == vstd::math::abs(d)
        * vstd::math::abs(e)) by (nonlinear_arith);
    assert((d > 0 && e > 0 ==> d * e > 0) && (d < 0 && e < 0 ==> d * e > 0) && (d > 0 && e < 0
        ==> d * e < 0) && (d < 0 && e > 0 ==> d * e < 0) && (e == 0 ==> d * e == 0))
        by (nonlinear_arith);
    assert(div_trunc(d * e, d) == e);
}

/// A map-range node's output always lies between its two output
/// bounds, inclusive, whichever of them is the lesser.
pub proof fn lemma_map_range_bounded(v: int, imin: int, imax: int, omin: i64, omax: i64)
    ensures
        vstd::math::min(omin as int, omax as int) <= map_range_value_spec(
            v,
            imin,
            imax,
            omin as int,
            omax as int,
        ) <= vstd::math::max(omin as int, omax as int),
{
}

/// During the input phase, a beat-marker node records exactly the
/// beat-marker value under its `beats` handle.
pub proof fn lemma_beat_marker_node_output(
    m: Map<(Seq<char>, Seq<char>), i64>,
    n: WorkflowNode,
    snap: AnalysisSnapshot,
    t: int,
)
    requires
        n.node_type@ == "input-beat-markers"@,
    ensures
        input_step(m, n, snap, t).contains_key((n.id@, "beats"@)),
        input_step(m, n, snap, t)[(n.id@, "beats"@)] == beats_value_spec(
            snap.beat_timestamps@,
            t,
        ),
{
}

/// During the logic phase, an and-node records exactly the and-value of
/// its two resolved inputs under its `output` handle.
pub proof fn lemma_logic_and_node_output(
    g: NodeGraph,
    m: Map<(Seq<char>, Seq<char>), i64>,
    n: WorkflowNode,
    t: int,
)
    requires
        n.node_type@ == "logic-and"@,
    ensures
        logic_step(g, m, n, t).contains_key((n.id@, "output"@)),
        logic_step(g, m, n, t)[(n.id@, "output"@)] == logic_and_value_spec(
            resolve_input(g, m, n.id@, "input-a"@),
            resolve_input(g, m, n.id@, "input-b"@),
        ),
{
}

} // verus!
