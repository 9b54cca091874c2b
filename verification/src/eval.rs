//! The graph evaluator: a pure function from a graph, an analysis
//! snapshot and a playback instant to an ordered list of actions.
//!
//! Evaluation walks the nodes three times in declaration order: the
//! input phase reads the snapshot, the logic phase combines values
//! resolved along edges, and the output phase emits actions.  A logic
//! node wired to a node that appears later in the declaration order
//! reads "no value" for that call; dangling edges resolve the same
//! way.  Unknown node type tags are ignored.

use vstd::prelude::*;
use vstd::string::StringExecFns;

use crate::analysis::{wf_snapshot, AnalysisSnapshot};
use crate::fixed::{
    div_trunc, rem_trunc, BEAT_TOLERANCE, DEFAULT_INPUT_MAX, DEFAULT_INTENSITY, DEFAULT_MAX_COUNT,
    DEFAULT_OUTPUT_MAX, FP_HALF, FP_ONE, LOUDNESS_HOP, LOUDNESS_RATE, MAX_VALUE, SCALE,
    TRANSIENT_TOLERANCE,
};
use crate::graph::{
    param_or, text_param_or, wf_graph, Action, ActionV, Edge, NodeGraph, WorkflowNode,
};
use crate::values::ValueStore;

verus! {

/// The value of an optional input, with the documented default of zero.
pub open spec fn some_or_zero(v: Option<i64>) -> i64 {
    match v {
        Some(x) => x,
        None => 0,
    }
}

/// Whether any timestamp lies strictly nearer than `tol` to `t`.
pub open spec fn marker_active(ts: Seq<i64>, t: int, tol: int) -> bool {
    exists|j: int| 0 <= j < ts.len() && vstd::math::abs(#[trigger] ts[j] - t) < tol
}

/// Value of an `input-beat-markers` node: one when a beat lies within
/// the beat tolerance of the playback time, else zero.
pub open spec fn beats_value_spec(ts: Seq<i64>, t: int) -> i64 {
    if marker_active(ts, t, BEAT_TOLERANCE as int) {
        FP_ONE
    } else {
        0
    }
}

/// Value of an `input-transient-markers` node.
pub open spec fn transients_value_spec(ts: Seq<i64>, t: int) -> i64 {
    if marker_active(ts, t, TRANSIENT_TOLERANCE as int) {
        FP_ONE
    } else {
        0
    }
}

/// The contour entry an `input-audio-loudness` node reads: the floor of
/// `t * 44100 / 1024` in real units, whatever rate and hop actually
/// produced the contour.
pub open spec fn loudness_index_spec(t: int) -> int {
    t * LOUDNESS_RATE / (LOUDNESS_HOP * SCALE)
}

/// Value of an `input-audio-loudness` node: the indexed contour entry,
/// or zero when the index falls outside the contour.
pub open spec fn loudness_value_spec(contour: Seq<i64>, t: int) -> i64 {
    let ix = loudness_index_spec(t);
    if 0 <= ix < contour.len() {
        contour[ix]
    } else {
        0
    }
}

/// Value of a `logic-and` node: one when both resolved inputs exceed
/// one half, else zero; an unresolved input counts as zero.
pub open spec fn logic_and_value_spec(a: Option<i64>, b: Option<i64>) -> i64 {
    if some_or_zero(a) > FP_HALF && some_or_zero(b) > FP_HALF {
        FP_ONE
    } else {
        0
    }
}

/// Value of a `logic-counter` node, recomputed from scratch each call:
/// the floor of `time * trigger` (in real units), taken modulo
/// `max_count` with the dividend's sign, as Rust's native remainder
/// does.  A non-positive `max_count` yields zero.
pub open spec fn counter_value_spec(t: int, trig: int, max_count: int) -> i64 {
    if max_count <= 0 {
        0
    } else {
        let k = (t * trig) / (SCALE * SCALE);
        rem_trunc(k * SCALE, max_count) as i64
    }
}

/// Value of a `logic-map-range` node: the input remapped linearly from
/// `[input_min, input_max]` to `[output_min, output_max]` and clamped
/// between the lesser and the greater of the output bounds.  When the
/// input range is empty (`input_max == input_min`, where the division
/// is undefined) the node yields `output_min`.
pub open spec fn map_range_value_spec(v: int, imin: int, imax: int, omin: int, omax: int) -> i64 {
    if imax == imin {
        omin as i64
    } else {
        let lo = vstd::math::min(omin, omax);
        let hi = vstd::math::max(omin, omax);
        let mapped = omin + div_trunc((v - imin) * (omax - omin), imax - imin);
        if mapped < lo {
            lo as i64
        } else if mapped > hi {
            hi as i64
        } else {
            mapped as i64
        }
    }
}

/// Whether an edge feeds the given input handle of the given node.
pub open spec fn edge_matches(e: Edge, node: Seq<char>, handle: Seq<char>) -> bool {
    &&& e.target@ == node
    &&& e.target_handle matches Some(th) && th@ == handle
}

/// Resolution of a node input along the edge list, scanning from `i`:
/// the first matching edge decides; an edge without a source handle, or
/// whose source value was never recorded, resolves to no value.
pub open spec fn resolve_from(
    edges: Seq<Edge>,
    m: Map<(Seq<char>, Seq<char>), i64>,
    node: Seq<char>,
    handle: Seq<char>,
    i: int,
) -> Option<i64>
    decreases edges.len() - i,
{
    if i < 0 || i >= edges.len() {
        None
    } else if edge_matches(edges[i], node, handle) {
        match edges[i].source_handle {
            None => None,
            Some(sh) => {
                if m.contains_key((edges[i].source@, sh@)) {
                    Some(m[(edges[i].source@, sh@)])
                } else {
                    None
                }
            },
        }
    } else {
        resolve_from(edges, m, node, handle, i + 1)
    }
}

/// Resolution of a node input over the whole edge list.
pub open spec fn resolve_input(
    g: NodeGraph,
    m: Map<(Seq<char>, Seq<char>), i64>,
    node: Seq<char>,
    handle: Seq<char>,
) -> Option<i64> {
    resolve_from(g.edges@, m, node, handle, 0)
}

/// What one node contributes during the input phase.
pub open spec fn input_step(
    m: Map<(Seq<char>, Seq<char>), i64>,
    n: WorkflowNode,
    snap: AnalysisSnapshot,
    t: int,
) -> Map<(Seq<char>, Seq<char>), i64> {
    if n.node_type@ == "input-beat-markers"@ {
        m.insert((n.id@, "beats"@), beats_value_spec(snap.beat_timestamps@, t))
    } else if n.node_type@ == "input-transient-markers"@ {
        m.insert((n.id@, "transients"@), transients_value_spec(snap.transient_timestamps@, t))
    } else if n.node_type@ == "input-audio-loudness"@ {
        m.insert((n.id@, "loudness"@), loudness_value_spec(snap.loudness_contour@, t))
    } else {
        m
    }
}

/// The value map after the input phase has walked the first `i` nodes.
pub open spec fn input_map_upto(g: NodeGraph, snap: AnalysisSnapshot, t: int, i: int) -> Map<
    (Seq<char>, Seq<char>),
    i64,
>
    decreases i,
{
    if i <= 0 {
        Map::empty()
    } else {
        input_step(input_map_upto(g, snap, t, i - 1), g.nodes@[i - 1], snap, t)
    }
}

/// What one node contributes during the logic phase.
pub open spec fn logic_step(
    g: NodeGraph,
    m: Map<(Seq<char>, Seq<char>), i64>,
    n: WorkflowNode,
    t: int,
) -> Map<(Seq<char>, Seq<char>), i64> {
    if n.node_type@ == "logic-and"@ {
        let a = resolve_input(g, m, n.id@, "input-a"@);
        let b = resolve_input(g, m, n.id@, "input-b"@);
        m.insert((n.id@, "output"@), logic_and_value_spec(a, b))
    } else if n.node_type@ == "logic-counter"@ {
        let trig = some_or_zero(resolve_input(g, m, n.id@, "trigger"@));
        let mc = param_or(n, "maxCount"@, DEFAULT_MAX_COUNT);
        m.insert((n.id@, "count"@), counter_value_spec(t, trig as int, mc as int))
    } else if n.node_type@ == "logic-map-range"@ {
        let v = some_or_zero(resolve_input(g, m, n.id@, "input"@));
        let imin = param_or(n, "inputMin"@, 0);
        let imax = param_or(n, "inputMax"@, DEFAULT_INPUT_MAX);
        let omin = param_or(n, "outputMin"@, 0);
        let omax = param_or(n, "outputMax"@, DEFAULT_OUTPUT_MAX);
        m.insert(
            (n.id@, "output"@),
            map_range_value_spec(v as int, imin as int, imax as int, omin as int, omax as int),
        )
    } else {
        m
    }
}

/// The value map after the logic phase has walked the first `i` nodes
/// (on top of the completed input phase).
pub open spec fn logic_map_upto(g: NodeGraph, snap: AnalysisSnapshot, t: int, i: int) -> Map<
    (Seq<char>, Seq<char>),
    i64,
>
    decreases i,
{
    if i <= 0 {
        input_map_upto(g, snap, t, g.nodes@.len() as int)
    } else {
        logic_step(g, logic_map_upto(g, snap, t, i - 1), g.nodes@[i - 1], t)
    }
}

/// The value map the output phase reads: both earlier phases complete.
pub open spec fn final_map(g: NodeGraph, snap: AnalysisSnapshot, t: int) -> Map<
    (Seq<char>, Seq<char>),
    i64,
> {
    logic_map_upto(g, snap, t, g.nodes@.len() as int)
}

/// The actions one node contributes during the output phase.
pub open spec fn output_step(
    g: NodeGraph,
    m: Map<(Seq<char>, Seq<char>), i64>,
    n: WorkflowNode,
    t: i64,
) -> Seq<ActionV> {
    if n.node_type@ == "output-cut-video"@ {
        let trig = some_or_zero(resolve_input(g, m, n.id@, "trigger"@));
        let intensity = match resolve_input(g, m, n.id@, "intensity"@) {
            Some(v) => v,
            None => DEFAULT_INTENSITY,
        };
        if trig > FP_HALF {
            seq![
                (ActionV {
                    action_type: "cut_video"@,
                    target: "video_track"@,
                    value: intensity,
                    timestamp: t,
                }),
            ]
        } else {
            Seq::empty()
        }
    } else if n.node_type@ == "output-set-effect"@ {
        let trig = some_or_zero(resolve_input(g, m, n.id@, "trigger"@));
        let value = some_or_zero(resolve_input(g, m, n.id@, "value"@));
        if trig > FP_HALF {
            let effect = text_param_or(n, "effectName"@, "glitch"@);
            let pname = text_param_or(n, "parameterName"@, "intensity"@);
            seq![
                (ActionV {
                    action_type: "set_effect"@,
                    target: effect + "."@ + pname,
                    value: value,
                    timestamp: t,
                }),
            ]
        } else {
            Seq::empty()
        }
    } else {
        Seq::empty()
    }
}

/// The actions emitted once the output phase has walked the first `i`
/// nodes.
pub open spec fn actions_upto(g: NodeGraph, snap: AnalysisSnapshot, t: i64, i: int) -> Seq<ActionV>
    decreases i,
{
    if i <= 0 {
        Seq::empty()
    } else {
        actions_upto(g, snap, t, i - 1) + output_step(
            g,
            final_map(g, snap, t as int),
            g.nodes@[i - 1],
            t,
        )
    }
}

/// Everything `evaluate` returns: the output phase over all nodes.
pub open spec fn evaluate_spec(g: NodeGraph, snap: AnalysisSnapshot, t: i64) -> Seq<ActionV> {
    actions_upto(g, snap, t, g.nodes@.len() as int)
}

/// One when any timestamp lies strictly nearer than `tolerance` to
/// `time`, else zero.
fn marker_value(ts: &Vec<i64>, time: i64, tolerance: i64) -> (v: i64)
    requires
        -MAX_VALUE <= time <= MAX_VALUE,
        tolerance >= 0,
        forall|k: int| 0 <= k < ts@.len() ==> -MAX_VALUE <= #[trigger] ts@[k] <= MAX_VALUE,
    ensures
        v == if marker_active(ts@, time as int, tolerance as int) {
            FP_ONE
        } else {
            0
        },
{
    let n = ts.len();
    let mut j: usize = 0;
    while j < n
        invariant
            n == ts@.len(),
            0 <= j <= n,
            -MAX_VALUE <= time <= MAX_VALUE,
            forall|k: int| 0 <= k < ts@.len() ==> -MAX_VALUE <= #[trigger] ts@[k] <= MAX_VALUE,
            forall|k: int|
                0 <= k < j ==> vstd::math::abs(#[trigger] ts@[k] - time) >= tolerance,
        decreases n - j,
    {
        let d = ts[j] - time;
        let mag = if d < 0 {
            -d
        } else {
            d
        };
        if mag < tolerance {
            return FP_ONE;
        }
        j += 1;
    }
    proof {
        assert(!marker_active(ts@, time as int, tolerance as int));
    }
    0
}

/// Value of an `input-beat-markers` node.
pub fn beat_input_value(beat_timestamps: &Vec<i64>, time: i64) -> (v: i64)
    requires
        -MAX_VALUE <= time <= MAX_VALUE,
        forall|k: int|
            0 <= k < beat_timestamps@.len() ==> -MAX_VALUE <= #[trigger] beat_timestamps@[k]
                <= MAX_VALUE,
    ensures
        v == beats_value_spec(beat_timestamps@, time as int),
{
    marker_value(beat_timestamps, time, BEAT_TOLERANCE)
}

/// Value of an `input-transient-markers` node.
pub fn transient_input_value(transient_timestamps: &Vec<i64>, time: i64) -> (v: i64)
    requires
        -MAX_VALUE <= time <= MAX_VALUE,
        forall|k: int|
            0 <= k < transient_timestamps@.len() ==> -MAX_VALUE
                <= #[trigger] transient_timestamps@[k] <= MAX_VALUE,
    ensures
        v == transients_value_spec(transient_timestamps@, time as int),
{
    marker_value(transient_timestamps, time, TRANSIENT_TOLERANCE)
}

/// Value of an `input-audio-loudness` node.
pub fn loudness_input_value(loudness_contour: &Vec<i64>, time: i64) -> (v: i64)
    requires
        -MAX_VALUE <= time <= MAX_VALUE,
        forall|k: int|
            0 <= k < loudness_contour@.len() ==> -MAX_VALUE <= #[trigger] loudness_contour@[k]
                <= MAX_VALUE,
    ensures
        v == loudness_value_spec(loudness_contour@, time as int),
        -MAX_VALUE <= v <= MAX_VALUE,
{
    if time < 0 {
        proof {
            let d = (LOUDNESS_HOP * SCALE) as int;
            vstd::arithmetic::div_mod::lemma_div_is_ordered(
                time as int * LOUDNESS_RATE,
                -1,
                d,
            );
            vstd::arithmetic::div_mod::lemma_fundamental_div_mod_converse_div(
                -1,
                1024000,
                -1,
                1023999,
            );
        }
        return 0;
    }
    proof {
        assert((time as int) * (LOUDNESS_RATE as int) <= 44_100_000_000_000_000)
            by (nonlinear_arith)
            requires
                0 <= time <= 1_000_000_000_000,
        ;
    }
    let scaled: u64 = (time as u64) * (LOUDNESS_RATE as u64);
    let ix: u64 = scaled / ((LOUDNESS_HOP * SCALE) as u64);
    if ix < loudness_contour.len() as u64 {
        loudness_contour[ix as usize]
    } else {
        0
    }
}

/// Value of a `logic-and` node from its two resolved inputs.
pub fn logic_and_value(input_a: Option<i64>, input_b: Option<i64>) -> (v: i64)
    ensures
        v == logic_and_value_spec(input_a, input_b),
{
    let a = match input_a {
        Some(x) => x,
        None => 0,
    };
    let b = match input_b {
        Some(x) => x,
        None => 0,
    };
    if a > FP_HALF && b > FP_HALF {
        FP_ONE
    } else {
        0
    }
}

/// Floor division of a 128-bit value by a positive divisor.
fn floor_div_i128(a: i128, d: i128) -> (q: i128)
    requires
        1 <= d,
        -0x4000_0000_0000_0000_0000_0000_0000_0000 <= a
            < 0x4000_0000_0000_0000_0000_0000_0000_0000,
    ensures
        q == a as int / d as int,
{
    if a >= 0 {
        let q = ((a as u128) / (d as u128)) as i128;
        q
    } else {
        let m = (-a) as u128;
        let du = d as u128;
        let qm = m / du;
        let rm = m % du;
        proof {
            vstd::arithmetic::div_mod::lemma_fundamental_div_mod(m as int, du as int);
            vstd::arithmetic::div_mod::lemma_mod_bound(m as int, du as int);
            assert((-(qm as int)) * (d as int) == -((d as int) * (qm as int))
                && (-(qm as int) - 1) * (d as int) == -((d as int) * (qm as int)) - (d as int))
                by (nonlinear_arith);
            if rm == 0 {
                vstd::arithmetic::div_mod::lemma_fundamental_div_mod_converse_div(
                    a as int,
                    d as int,
                    -(qm as int),
                    0,
                );
            } else {
                vstd::arithmetic::div_mod::lemma_fundamental_div_mod_converse_div(
                    a as int,
                    d as int,
                    -(qm as int) - 1,
                    d - rm,
                );
            }
        }
        if rm == 0 {
            -(qm as i128)
        } else {
            -(qm as i128) - 1
        }
    }
}

/// Remainder with the dividend's sign, as Rust's native `%`.
fn rem_trunc_i128(a: i128, m: i128) -> (r: i128)
    requires
        1 <= m,
        -0x4000_0000_0000_0000_0000_0000_0000_0000 <= a
            < 0x4000_0000_0000_0000_0000_0000_0000_0000,
    ensures
        r == rem_trunc(a as int, m as int),
        -m < r < m,
{
    proof {
        let ab = vstd::math::abs(a as int) as int;
        let mi = m as int;
        let q = ab / mi;
        let rr = ab % mi;
        vstd::arithmetic::div_mod::lemma_fundamental_div_mod(ab, mi);
        vstd::arithmetic::div_mod::lemma_mod_bound(ab, mi);
        if a >= 0 {
            assert(div_trunc(a as int, mi) == q);
            assert(rem_trunc(a as int, mi) == a - mi * q);
        } else {
            assert(div_trunc(a as int, mi) == -q);
            assert(mi * (-q) == -(mi * q)) by (nonlinear_arith);
            assert(rem_trunc(a as int, mi) == a + mi * q);
            assert(rem_trunc(a as int, mi) == -rr);
        }
    }
    if a >= 0 {
        ((a as u128) % (m as u128)) as i128
    } else {
        -((((-a) as u128) % (m as u128)) as i128)
    }
}

/// Value of a `logic-counter` node.
pub fn logic_counter_value(time: i64, trigger: i64, max_count: i64) -> (v: i64)
    requires
        -MAX_VALUE <= time <= MAX_VALUE,
        -MAX_VALUE <= trigger <= MAX_VALUE,
        -MAX_VALUE <= max_count <= MAX_VALUE,
    ensures
        v == counter_value_spec(time as int, trigger as int, max_count as int),
        -MAX_VALUE <= v <= MAX_VALUE,
{
    if max_count <= 0 {
        return 0;
    }
    proof {
        assert(-1_000_000_000_000_000_000_000_000 <= (time as int) * (trigger as int)
            <= 1_000_000_000_000_000_000_000_000) by (nonlinear_arith)
            requires
                -MAX_VALUE <= time <= MAX_VALUE,
                -MAX_VALUE <= trigger <= MAX_VALUE,
        ;
    }
    let prod: i128 = (time as i128) * (trigger as i128);
    let k = floor_div_i128(prod, (SCALE as i128) * (SCALE as i128));
    proof {
        vstd::arithmetic::div_mod::lemma_div_is_ordered(
            prod as int,
            1_000_000_000_000_000_000_000_000,
            (SCALE * SCALE) as int,
        );
        vstd::arithmetic::div_mod::lemma_div_is_ordered(
            -1_000_000_000_000_000_000_000_000,
            prod as int,
            (SCALE * SCALE) as int,
        );
        vstd::arithmetic::div_mod::lemma_fundamental_div_mod_converse_div(
            1_000_000_000_000_000_000_000_000,
            1_000_000,
            1_000_000_000_000_000_000,
            0,
        );
        vstd::arithmetic::div_mod::lemma_fundamental_div_mod_converse_div(
            -1_000_000_000_000_000_000_000_000,
            1_000_000,
            -1_000_000_000_000_000_000,
            0,
        );
    }
    let scaled_k: i128 = k * (SCALE as i128);
    let r = rem_trunc_i128(scaled_k, max_count as i128);
    r as i64
}

/// Value of a `logic-map-range` node.
pub fn logic_map_range_value(
    input: i64,
    input_min: i64,
    input_max: i64,
    output_min: i64,
    output_max: i64,
) -> (v: i64)
    requires
        -MAX_VALUE <= input <= MAX_VALUE,
        -MAX_VALUE <= input_min <= MAX_VALUE,
        -MAX_VALUE <= input_max <= MAX_VALUE,
        -MAX_VALUE <= output_min <= MAX_VALUE,
        -MAX_VALUE <= output_max <= MAX_VALUE,
    ensures
        v == map_range_value_spec(
            input as int,
            input_min as int,
            input_max as int,
            output_min as int,
            output_max as int,
        ),
        -MAX_VALUE <= v <= MAX_VALUE,
{
    if input_max == input_min {
        return output_min;
    }
    let dv: i128 = (input as i128) - (input_min as i128);
    let span: i128 = (output_max as i128) - (output_min as i128);
    proof {
        assert(-8_000_000_000_000_000_000_000_000 <= (dv as int) * (span as int)
            <= 8_000_000_000_000_000_000_000_000) by (nonlinear_arith)
            requires
                -2_000_000_000_000 <= dv <= 2_000_000_000_000,
                -2_000_000_000_000 <= span <= 2_000_000_000_000,
        ;
    }
    let num: i128 = dv * span;
    let den: i128 = (input_max as i128) - (input_min as i128);
    let neg = (num < 0) != (den < 0);
    let a: u128 = if num < 0 {
        (-num) as u128
    } else {
        num as u128
    };
    let d: u128 = if den < 0 {
        (-den) as u128
    } else {
        den as u128
    };
    let mag = a / d;
    proof {
        vstd::arithmetic::div_mod::lemma_div_nonincreasing(a as int, d as int);
        vstd::arithmetic::div_mod::lemma_div_pos_is_pos(a as int, d as int);
    }
    let q: i128 = if neg {
        -(mag as i128)
    } else {
        mag as i128
    };
    assert(q == div_trunc(num as int, den as int));
    let mapped: i128 = (output_min as i128) + q;
    let lo = if output_min <= output_max {
        output_min
    } else {
        output_max
    };
    let hi = if output_min <= output_max {
        output_max
    } else {
        output_min
    };
    if mapped < lo as i128 {
        lo
    } else if mapped > hi as i128 {
        hi
    } else {
        mapped as i64
    }
}

/// Resolves a node input: scans the edges for the first one feeding
/// the handle and looks the source value up in the store.
pub fn get_node_input_value(
    graph: &NodeGraph,
    node_values: &ValueStore,
    node_id: &String,
    input_handle: &str,
) -> (r: Option<i64>)
    ensures
        r == resolve_input(*graph, node_values.view(), node_id@, input_handle@),
        node_values.bounded() && r is Some ==> -MAX_VALUE <= r->0 <= MAX_VALUE,
{
    let handle: String = input_handle.to_owned();
    let n = graph.edges.len();
    let mut i: usize = 0;
    while i < n
        invariant
            n == graph.edges@.len(),
            0 <= i <= n,
            handle@ == input_handle@,
            resolve_from(graph.edges@, node_values.view(), node_id@, input_handle@, 0)
                == resolve_from(graph.edges@, node_values.view(), node_id@, input_handle@, i as int),
        decreases n - i,
    {
        let edge = &graph.edges[i];
        let matches_target = edge.target == *node_id;
        let matches_handle = match &edge.target_handle {
            Some(th) => *th == handle,
            None => false,
        };
        if matches_target && matches_handle {
            match &edge.source_handle {
                None => {
                    return None;
                },
                Some(sh) => {
                    return node_values.get(&edge.source, sh);
                },
            }
        }
        i += 1;
    }
    None
}

/// Evaluates the graph against the snapshot at the playback instant:
/// the input phase reads the snapshot, the logic phase combines
/// resolved values, and the output phase emits the actions, each phase
/// walking the nodes in declaration order.
#[verifier::loop_isolation(false)]
pub fn evaluate(graph: &NodeGraph, analysis: &AnalysisSnapshot, playback_time: i64) -> (actions:
    Vec<Action>)
    requires
        wf_graph(*graph),
        wf_snapshot(*analysis),
        -MAX_VALUE <= playback_time <= MAX_VALUE,
    ensures
        actions.deep_view() == evaluate_spec(*graph, *analysis, playback_time),
{
    let type_beat: String = "input-beat-markers".to_owned();
    let type_transient: String = "input-transient-markers".to_owned();
    let type_loudness: String = "input-audio-loudness".to_owned();
    let type_and: String = "logic-and".to_owned();
    let type_counter: String = "logic-counter".to_owned();
    let type_map_range: String = "logic-map-range".to_owned();
    let type_cut: String = "output-cut-video".to_owned();
    let type_effect: String = "output-set-effect".to_owned();
    let name_max_count: String = "maxCount".to_owned();
    let name_input_min: String = "inputMin".to_owned();
    let name_input_max: String = "inputMax".to_owned();
    let name_output_min: String = "outputMin".to_owned();
    let name_output_max: String = "outputMax".to_owned();
    let name_effect: String = "effectName".to_owned();
    let name_param: String = "parameterName".to_owned();

    let ghost t = playback_time as int;
    let mut node_values = ValueStore::new();
    let n = graph.nodes.len();

    let mut i: usize = 0;
    while i < n
        invariant
            0 <= i <= n,
            node_values.view() == input_map_upto(*graph, *analysis, t, i as int),
            node_values.bounded(),
        decreases n - i,
    {
        let node = &graph.nodes[i];
        if node.node_type == type_beat {
            let v = beat_input_value(&analysis.beat_timestamps, playback_time);
            node_values.set(&node.id, "beats", v);
        } else if node.node_type == type_transient {
            let v = transient_input_value(&analysis.transient_timestamps, playback_time);
            node_values.set(&node.id, "transients", v);
        } else if node.node_type == type_loudness {
            let v = loudness_input_value(&analysis.loudness_contour, playback_time);
            node_values.set(&node.id, "loudness", v);
        }
        i += 1;
    }

    let mut i: usize = 0;
    while i < n
        invariant
            0 <= i <= n,
            node_values.view() == logic_map_upto(*graph, *analysis, t, i as int),
            node_values.bounded(),
        decreases n - i,
    {
        let node = &graph.nodes[i];
        if node.node_type == type_and {
            let a = get_node_input_value(graph, &node_values, &node.id, "input-a");
            let b = get_node_input_value(graph, &node_values, &node.id, "input-b");
            let v = logic_and_value(a, b);
            node_values.set(&node.id, "output", v);
        } else if node.node_type == type_counter {
            let trig = match get_node_input_value(graph, &node_values, &node.id, "trigger") {
                Some(x) => x,
                None => 0,
            };
            let mc = crate::graph::get_param(node, &name_max_count, DEFAULT_MAX_COUNT);
            let v = logic_counter_value(playback_time, trig, mc);
            node_values.set(&node.id, "count", v);
        } else if node.node_type == type_map_range {
            let inp = match get_node_input_value(graph, &node_values, &node.id, "input") {
                Some(x) => x,
                None => 0,
            };
            let imin = crate::graph::get_param(node, &name_input_min, 0);
            let imax = crate::graph::get_param(node, &name_input_max, DEFAULT_INPUT_MAX);
            let omin = crate::graph::get_param(node, &name_output_min, 0);
            let omax = crate::graph::get_param(node, &name_output_max, DEFAULT_OUTPUT_MAX);
            let v = logic_map_range_value(inp, imin, imax, omin, omax);
            node_values.set(&node.id, "output", v);
        }
        i += 1;
    }

    let mut actions: Vec<Action> = Vec::new();
    let mut i: usize = 0;
    while i < n
        invariant
            0 <= i <= n,
            actions.deep_view() == actions_upto(*graph, *analysis, playback_time, i as int),
        decreases n - i,
    {
        let node = &graph.nodes[i];
        if node.node_type == type_cut {
            let trig = match get_node_input_value(graph, &node_values, &node.id, "trigger") {
                Some(x) => x,
                None => 0,
            };
            let intensity = match get_node_input_value(graph, &node_values, &node.id, "intensity") {
                Some(x) => x,
                None => DEFAULT_INTENSITY,
            };
            if trig > FP_HALF {
                let act = Action {
                    action_type: "cut_video".to_owned(),
                    target: "video_track".to_owned(),
                    value: intensity,
                    timestamp: playback_time,
                };
                actions.push(act);
            }
        } else if node.node_type == type_effect {
            let trig = match get_node_input_value(graph, &node_values, &node.id, "trigger") {
                Some(x) => x,
                None => 0,
            };
            let value = match get_node_input_value(graph, &node_values, &node.id, "value") {
                Some(x) => x,
                None => 0,
            };
            if trig > FP_HALF {
                let effect = crate::graph::get_text_param(node, &name_effect, "glitch");
                let pname = crate::graph::get_text_param(node, &name_param, "intensity");
                let target = effect.concat(".").concat(pname.as_str());
                let act = Action {
                    action_type: "set_effect".to_owned(),
                    target,
                    value,
                    timestamp: playback_time,
                };
                actions.push(act);
            }
        }
        proof {
            assert(actions.deep_view() =~~= actions_upto(
                *graph,
                *analysis,
                playback_time,
                i as int + 1,
            ));
        }
        i += 1;
    }
    actions
}

/// What `evaluate_graph` returns: the evaluation when both inputs are
/// present and well formed, and the empty list for any malformed input.
pub open spec fn evaluate_graph_spec(
    graph: Option<NodeGraph>,
    analysis: Option<AnalysisSnapshot>,
    t: i64,
) -> Seq<ActionV> {
    match (graph, analysis) {
        (Some(g), Some(a)) => {
            if wf_graph(g) && wf_snapshot(a) && -MAX_VALUE <= t <= MAX_VALUE {
                evaluate_spec(g, a, t)
            } else {
                Seq::empty()
            }
        },
        _ => Seq::empty(),
    }
}

/// The boundary entry point: evaluates when handed a graph and a
/// snapshot that are present and well formed, and returns an empty
/// action list for any malformed input, never an error.
pub fn evaluate_graph(
    graph: Option<NodeGraph>,
    analysis: Option<AnalysisSnapshot>,
    playback_time: i64,
) -> (actions: Vec<Action>)
    ensures
        actions.deep_view() == evaluate_graph_spec(graph, analysis, playback_time),
{
    match (graph, analysis) {
        (Some(g), Some(a)) => {
            if crate::graph::graph_well_formed(&g) && crate::analysis::snapshot_well_formed(&a)
                && -MAX_VALUE <= playback_time && playback_time <= MAX_VALUE {
                evaluate(&g, &a, playback_time)
            } else {
                let r: Vec<Action> = Vec::new();
                proof {
                    assert(r.deep_view() =~= Seq::<ActionV>::empty());
                }
                r
            }
        },
        _ => {
            let r: Vec<Action> = Vec::new();
            proof {
                assert(r.deep_view() =~= Seq::<ActionV>::empty());
            }
            r
        },
    }
}

} // verus!
