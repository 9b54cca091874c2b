//! The node-and-edge dataflow graph, its well-formedness bound, node
//! parameter lookup, and the actions the evaluator emits.

use vstd::prelude::*;

use crate::fixed::MAX_VALUE;

verus! {

/// Display position of a node; never read by the evaluator.
pub struct Position {
    pub x: i64,
    pub y: i64,
}

/// Per-node payload: a display label, declared input and output handle
/// names (display metadata, not enforced at evaluation time), numeric
/// parameters in fixed-point units, and textual parameters such as an
/// effect name.
pub struct NodeData {
    pub label: String,
    pub inputs: Option<Vec<(String, String)>>,
    pub outputs: Option<Vec<(String, String)>>,
    pub parameters: Option<Vec<(String, i64)>>,
    pub text_parameters: Option<Vec<(String, String)>>,
}

/// A typed node of the dataflow graph.  Unknown type tags are ignored
/// by the evaluator.
pub struct WorkflowNode {
    pub id: String,
    pub node_type: String,
    pub position: Position,
    pub data: NodeData,
}

/// A directed connection from a source node's output handle to a
/// target node's input handle.  Edges that name missing nodes or
/// handles resolve to "no value" rather than failing.
pub struct Edge {
    pub id: String,
    pub source: String,
    pub target: String,
    pub source_handle: Option<String>,
    pub target_handle: Option<String>,
}

/// An ordered dataflow graph: evaluation walks `nodes` in declaration
/// order, and input resolution scans `edges` in declaration order.
pub struct NodeGraph {
    pub nodes: Vec<WorkflowNode>,
    pub edges: Vec<Edge>,
}

/// A discrete, timestamped instruction for the downstream effect
/// system.
pub struct Action {
    pub action_type: String,
    pub target: String,
    pub value: i64,
    pub timestamp: i64,
}

/// Mathematical image of an `Action`, with its strings as character
/// sequences.
pub struct ActionV {
    pub action_type: Seq<char>,
    pub target: Seq<char>,
    pub value: i64,
    pub timestamp: i64,
}

impl View for Action {
    type V = ActionV;

    open spec fn view(&self) -> ActionV {
        ActionV {
            action_type: self.action_type@,
            target: self.target@,
            value: self.value,
            timestamp: self.timestamp,
        }
    }
}

impl DeepView for Action {
    type V = ActionV;

    open spec fn deep_view(&self) -> ActionV {
        self.view()
    }
}

/// First numeric parameter of the given name, scanning from `i`.
pub open spec fn param_from(ps: Seq<(String, i64)>, name: Seq<char>, i: int) -> Option<i64>
    decreases ps.len() - i,
{
    if i < 0 || i >= ps.len() {
        None
    } else if ps[i].0@ == name {
        Some(ps[i].1)
    } else {
        param_from(ps, name, i + 1)
    }
}

/// The node's numeric parameter of the given name, or the default when
/// the node has no parameters or none of that name.
pub open spec fn param_or(node: WorkflowNode, name: Seq<char>, default: i64) -> i64 {
    match node.data.parameters {
        None => default,
        Some(ps) => match param_from(ps@, name, 0) {
            None => default,
            Some(v) => v,
        },
    }
}

/// First textual parameter of the given name, scanning from `i`.
pub open spec fn text_param_from(ps: Seq<(String, String)>, name: Seq<char>, i: int) -> Option<
    Seq<char>,
>
    decreases ps.len() - i,
{
    if i < 0 || i >= ps.len() {
        None
    } else if ps[i].0@ == name {
        Some(ps[i].1@)
    } else {
        text_param_from(ps, name, i + 1)
    }
}

/// The node's textual parameter of the given name, or the default.
pub open spec fn text_param_or(node: WorkflowNode, name: Seq<char>, default: Seq<char>) -> Seq<
    char,
> {
    match node.data.text_parameters {
        None => default,
        Some(ps) => match text_param_from(ps@, name, 0) {
            None => default,
            Some(v) => v,
        },
    }
}

/// Numeric parameters stay within the engine's value bound.
pub open spec fn wf_params(ps: Seq<(String, i64)>) -> bool {
    forall|j: int| 0 <= j < ps.len() ==> -MAX_VALUE <= (#[trigger] ps[j]).1 <= MAX_VALUE
}

/// A node is well formed when its numeric parameters are bounded.
pub open spec fn wf_node(node: WorkflowNode) -> bool {
    match node.data.parameters {
        None => true,
        Some(ps) => wf_params(ps@),
    }
}

/// A graph is well formed when every node is.
pub open spec fn wf_graph(g: NodeGraph) -> bool {
    forall|i: int| 0 <= i < g.nodes@.len() ==> wf_node(#[trigger] g.nodes@[i])
}

/// Looks up a node's numeric parameter, falling back to the default.
pub fn get_param(node: &WorkflowNode, name: &String, default: i64) -> (r: i64)
    ensures
        r == param_or(*node, name@, default),
        wf_node(*node) && -MAX_VALUE <= default <= MAX_VALUE ==> -MAX_VALUE <= r <= MAX_VALUE,
{
    match &node.data.parameters {
        None => default,
        Some(ps) => {
            let n = ps.len();
            let mut i: usize = 0;
            while i < n
                invariant
                    n == ps@.len(),
                    0 <= i <= n,
                    param_from(ps@, name@, 0) == param_from(ps@, name@, i as int),
                    wf_node(*node) ==> wf_params(ps@),
                    node.data.parameters matches Some(q) && q@ == ps@,
                decreases n - i,
            {
                if ps[i].0 == *name {
                    return ps[i].1;
                }
                i += 1;
            }
            default
        },
    }
}

/// Looks up a node's textual parameter, falling back to the default.
pub fn get_text_param(node: &WorkflowNode, name: &String, default: &str) -> (r: String)
    ensures
        r@ == text_param_or(*node, name@, default@),
{
    match &node.data.text_parameters {
        None => default.to_owned(),
        Some(ps) => {
            let n = ps.len();
            let mut i: usize = 0;
            while i < n
                invariant
                    n == ps@.len(),
                    0 <= i <= n,
                    text_param_from(ps@, name@, 0) == text_param_from(ps@, name@, i as int),
                    node.data.text_parameters matches Some(q) && q@ == ps@,
                decreases n - i,
            {
                if ps[i].0 == *name {
                    return ps[i].1.clone();
                }
                i += 1;
            }
            default.to_owned()
        },
    }
}

/// Decides whether a graph is well formed.
pub fn graph_well_formed(g: &NodeGraph) -> (r: bool)
    ensures
        r == wf_graph(*g),
{
    let n = g.nodes.len();
    let mut i: usize = 0;
    while i < n
        invariant
            n == g.nodes@.len(),
            0 <= i <= n,
            forall|k: int| 0 <= k < i ==> wf_node(#[trigger] g.nodes@[k]),
        decreases n - i,
    {
        if !node_well_formed(&g.nodes[i]) {
            return false;
        }
        i += 1;
    }
    true
}

/// Decides whether a single node is well formed.
pub fn node_well_formed(node: &WorkflowNode) -> (r: bool)
    ensures
        r == wf_node(*node),
{
    match &node.data.parameters {
        None => true,
        Some(ps) => {
            let n = ps.len();
            let mut j: usize = 0;
            while j < n
                invariant
                    n == ps@.len(),
                    0 <= j <= n,
                    forall|k: int| 0 <= k < j ==> -MAX_VALUE <= (#[trigger] ps@[k]).1 <= MAX_VALUE,
                    node.data.parameters matches Some(q) && q@ == ps@,
                decreases n - j,
            {
                let v = ps[j].1;
                if v < -MAX_VALUE || v > MAX_VALUE {
                    return false;
                }
                j += 1;
            }
            true
        },
    }
}

} // verus!
