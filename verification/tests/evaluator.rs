use logic_engine::analysis::AnalysisSnapshot;
use logic_engine::eval::{
    beat_input_value, evaluate, evaluate_graph, get_node_input_value, logic_and_value,
    logic_counter_value, logic_map_range_value, loudness_input_value, transient_input_value,
};
use logic_engine::graph::{Edge, NodeData, NodeGraph, Position, WorkflowNode};
use logic_engine::values::ValueStore;

fn node(id: &str, node_type: &str) -> WorkflowNode {
    WorkflowNode {
        id: id.to_string(),
        node_type: node_type.to_string(),
        position: Position { x: 0, y: 0 },
        data: NodeData {
            label: id.to_string(),
            inputs: None,
            outputs: None,
            parameters: None,
            text_parameters: None,
        },
    }
}

fn edge(id: &str, source: &str, source_handle: &str, target: &str, target_handle: &str) -> Edge {
    Edge {
        id: id.to_string(),
        source: source.to_string(),
        target: target.to_string(),
        source_handle: Some(source_handle.to_string()),
        target_handle: Some(target_handle.to_string()),
    }
}

fn snapshot(beats: Vec<i64>, transients: Vec<i64>, loudness: Vec<i64>) -> AnalysisSnapshot {
    AnalysisSnapshot {
        beat_timestamps: beats,
        transient_timestamps: transients,
        loudness_contour: loudness,
        frequency_bands: vec![],
        tempo_estimate: 0,
        current_time: 0,
    }
}

/// A beat marker wired to a cut-video node emits exactly one cut
/// action when evaluated on a beat.
#[test]
fn beat_to_cut_video_emits_one_action() {
    let graph = NodeGraph {
        nodes: vec![node("beat1", "input-beat-markers"), node("cut1", "output-cut-video")],
        edges: vec![edge("edge1", "beat1", "beats", "cut1", "trigger")],
    };
    let snap = snapshot(vec![1000, 2000, 3000], vec![], vec![500, 700, 300]);
    let actions = evaluate(&graph, &snap, 1000);
    assert_eq!(actions.len(), 1);
    assert_eq!(actions[0].action_type, "cut_video");
    assert_eq!(actions[0].target, "video_track");
    assert_eq!(actions[0].value, 500);
    assert_eq!(actions[0].timestamp, 1000);
}

/// The same wiring emits nothing when no beat is near the playback
/// time.
#[test]
fn no_beat_near_time_emits_nothing() {
    let graph = NodeGraph {
        nodes: vec![node("beat1", "input-beat-markers"), node("cut1", "output-cut-video")],
        edges: vec![edge("edge1", "beat1", "beats", "cut1", "trigger")],
    };
    let snap = snapshot(vec![1000], vec![], vec![]);
    assert!(evaluate(&graph, &snap, 1200).is_empty());
}

/// The beat-to-cut scenario through the boundary entry point, which
/// tolerates absent inputs.
#[test]
fn test_node_graph_execution() {
    let graph = NodeGraph {
        nodes: vec![node("beat1", "input-beat-markers"), node("cut1", "output-cut-video")],
        edges: vec![edge("edge1", "beat1", "beats", "cut1", "trigger")],
    };
    let snap = snapshot(vec![1000, 2000, 3000], vec![], vec![500, 700, 300]);
    let result = evaluate_graph(Some(graph), Some(snap), 1000);
    assert!(!result.is_empty());
}

#[test]
fn beat_marker_tolerance_is_a_tenth() {
    // within 0.1 seconds: one; at or beyond 0.1: zero
    assert_eq!(beat_input_value(&vec![1000], 1050), 1000);
    assert_eq!(beat_input_value(&vec![1000], 1099), 1000);
    assert_eq!(beat_input_value(&vec![1000], 1100), 0);
    assert_eq!(beat_input_value(&vec![], 1000), 0);
}

#[test]
fn transient_marker_tolerance_is_a_twentieth() {
    assert_eq!(transient_input_value(&vec![500], 540), 1000);
    assert_eq!(transient_input_value(&vec![500], 550), 0);
}

#[test]
fn loudness_reads_fixed_rate_index() {
    let contour = vec![111, 222, 333];
    // index = floor(t * 44100 / 1024) with t in seconds
    assert_eq!(loudness_input_value(&contour, 0), 111);
    assert_eq!(loudness_input_value(&contour, 24), 222);
    assert_eq!(loudness_input_value(&contour, 47), 333);
    // out of range or before the start: zero
    assert_eq!(loudness_input_value(&contour, 70), 0);
    assert_eq!(loudness_input_value(&contour, -5), 0);
}

#[test]
fn logic_and_needs_both_above_half() {
    assert_eq!(logic_and_value(Some(501), Some(501)), 1000);
    assert_eq!(logic_and_value(Some(501), Some(500)), 0);
    assert_eq!(logic_and_value(Some(500), Some(501)), 0);
    assert_eq!(logic_and_value(None, Some(1000)), 0);
    assert_eq!(logic_and_value(Some(1000), None), 0);
    assert_eq!(logic_and_value(None, None), 0);
}

#[test]
fn map_range_hits_both_endpoints() {
    // defaults: [0, 1] to [0, 100]
    assert_eq!(logic_map_range_value(0, 0, 1000, 0, 100_000), 0);
    assert_eq!(logic_map_range_value(1000, 0, 1000, 0, 100_000), 100_000);
    assert_eq!(logic_map_range_value(500, 0, 1000, 0, 100_000), 50_000);
}

#[test]
fn map_range_clamps_to_output_bounds() {
    assert_eq!(logic_map_range_value(2000, 0, 1000, 0, 100_000), 100_000);
    assert_eq!(logic_map_range_value(-500, 0, 1000, 0, 100_000), 0);
}

#[test]
fn map_range_with_empty_input_range_yields_output_min() {
    assert_eq!(logic_map_range_value(5, 5, 5, 300, 700), 300);
}

#[test]
fn counter_wraps_at_max_count() {
    // floor(7.0 * 1.0) modulo 10.0 is 7.0
    assert_eq!(logic_counter_value(7_000, 1_000, 10_000), 7_000);
    // floor(25.0) modulo 10.0 wraps to 5.0
    assert_eq!(logic_counter_value(25_000, 1_000, 10_000), 5_000);
    // a non-positive bound yields zero
    assert_eq!(logic_counter_value(7_000, 1_000, 0), 0);
    assert_eq!(logic_counter_value(7_000, 1_000, -3_000), 0);
    // an idle trigger keeps the count at zero
    assert_eq!(logic_counter_value(7_000, 0, 10_000), 0);
}

#[test]
fn unknown_node_types_are_ignored() {
    let graph = NodeGraph {
        nodes: vec![node("x", "banana"), node("cut1", "output-cut-video")],
        edges: vec![edge("e", "x", "beats", "cut1", "trigger")],
    };
    let snap = snapshot(vec![1000], vec![], vec![]);
    assert!(evaluate(&graph, &snap, 1000).is_empty());
}

/// A missing graph or snapshot yields an empty list, never an error.
#[test]
fn malformed_inputs_yield_empty_list() {
    let snap = snapshot(vec![1000], vec![], vec![]);
    assert!(evaluate_graph(None, Some(snap), 1000).is_empty());
    let graph = NodeGraph { nodes: vec![node("beat1", "input-beat-markers")], edges: vec![] };
    assert!(evaluate_graph(Some(graph), None, 1000).is_empty());
    assert!(evaluate_graph(None, None, 1000).is_empty());
}

/// Inputs whose values escape the engine's bound count as malformed.
#[test]
fn out_of_range_values_are_malformed() {
    let graph = NodeGraph {
        nodes: vec![node("beat1", "input-beat-markers"), node("cut1", "output-cut-video")],
        edges: vec![edge("edge1", "beat1", "beats", "cut1", "trigger")],
    };
    let snap = snapshot(vec![2_000_000_000_000], vec![], vec![]);
    assert!(evaluate_graph(Some(graph), Some(snap), 1000).is_empty());
}

/// A full chain: beat marker into a counter and a set-effect node; the
/// effect reports the counter's value under the default target name.
#[test]
fn beat_counter_to_set_effect() {
    let graph = NodeGraph {
        nodes: vec![
            node("beat1", "input-beat-markers"),
            node("c1", "logic-counter"),
            node("e1", "output-set-effect"),
        ],
        edges: vec![
            edge("e_trig", "beat1", "beats", "c1", "trigger"),
            edge("e_fire", "beat1", "beats", "e1", "trigger"),
            edge("e_val", "c1", "count", "e1", "value"),
        ],
    };
    let snap = snapshot(vec![6950], vec![], vec![]);
    let actions = evaluate(&graph, &snap, 7000);
    assert_eq!(actions.len(), 1);
    assert_eq!(actions[0].action_type, "set_effect");
    assert_eq!(actions[0].target, "glitch.intensity");
    assert_eq!(actions[0].value, 7_000);
    assert_eq!(actions[0].timestamp, 7000);
}

/// Named effect parameters feed the action's target string.
#[test]
fn set_effect_uses_named_parameters() {
    let mut e1 = node("e1", "output-set-effect");
    e1.data.text_parameters = Some(vec![
        ("effectName".to_string(), "blur".to_string()),
        ("parameterName".to_string(), "amount".to_string()),
    ]);
    let graph = NodeGraph {
        nodes: vec![node("beat1", "input-beat-markers"), e1],
        edges: vec![edge("e_fire", "beat1", "beats", "e1", "trigger")],
    };
    let snap = snapshot(vec![1000], vec![], vec![]);
    let actions = evaluate(&graph, &snap, 1000);
    assert_eq!(actions.len(), 1);
    assert_eq!(actions[0].target, "blur.amount");
    assert_eq!(actions[0].value, 0);
}

/// Logic nodes read values in declaration order: a node wired to a
/// logic node declared after it sees no value for that call.
#[test]
fn declaration_order_decides_logic_values() {
    let and_after = NodeGraph {
        nodes: vec![
            node("beat1", "input-beat-markers"),
            node("and1", "logic-and"),
            node("cut1", "output-cut-video"),
        ],
        edges: vec![
            edge("ea", "beat1", "beats", "and1", "input-a"),
            edge("eb", "beat1", "beats", "and1", "input-b"),
            edge("et", "and1", "output", "cut1", "trigger"),
        ],
    };
    let snap = snapshot(vec![1000], vec![], vec![]);
    let actions = evaluate(&and_after, &snap, 1000);
    assert_eq!(actions.len(), 1);
    assert_eq!(actions[0].action_type, "cut_video");
}

/// Dangling edges resolve to no value instead of failing.
#[test]
fn dangling_edges_resolve_to_default() {
    let graph = NodeGraph {
        nodes: vec![node("cut1", "output-cut-video")],
        edges: vec![edge("e", "ghostly", "beats", "cut1", "trigger")],
    };
    let snap = snapshot(vec![1000], vec![], vec![]);
    assert!(evaluate(&graph, &snap, 1000).is_empty());
}

#[test]
fn value_store_records_and_overrides() {
    let mut store = ValueStore::new();
    let id = "n1".to_string();
    let handle = "output".to_string();
    assert_eq!(store.get(&id, &handle), None);
    store.set(&id, "output", 5);
    assert_eq!(store.get(&id, &handle), Some(5));
    store.set(&id, "output", 9);
    assert_eq!(store.get(&id, &handle), Some(9));
}

#[test]
fn resolution_takes_first_matching_edge() {
    let graph = NodeGraph {
        nodes: vec![],
        edges: vec![
            edge("e1", "a", "out", "t", "in"),
            edge("e2", "b", "out", "t", "in"),
        ],
    };
    let mut store = ValueStore::new();
    store.set(&"a".to_string(), "out", 1);
    store.set(&"b".to_string(), "out", 2);
    let r = get_node_input_value(&graph, &store, &"t".to_string(), "in");
    assert_eq!(r, Some(1));
}
