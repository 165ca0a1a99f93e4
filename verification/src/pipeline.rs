//! The post-processing pipeline: port types, the DAG of module instances,
//! and the result of running one node.
//!
//! Wiring is stored only in each node's `inputs` (input port -> upstream node
//! and output port); the upstream id `"0"` stands for the recording input.
use vstd::prelude::*;
use crate::meta::PpExecCode;
use crate::text::str_eq;

verus! {

/// Data type carried by a module port.
///
/// Identical types connect; any file type (a media bundle included) connects
/// to `AnyFile`; a TS session directory connects to `AnyDir`.
#[derive(Debug, Clone, Copy, PartialEq, Eq, Structural)]
pub enum PortType {
    /// Directory of TS segments produced by a recording.
    TsSessionDir,
    /// A single video file.
    VideoFile,
    /// A single image file.
    ImageFile,
    /// A video path and an image path joined by a newline.
    MediaBundle,
    /// Accepts any upstream file type.
    AnyFile,
    /// Accepts any upstream directory type.
    AnyDir,
}

/// Whether an output of type `a` may feed an input of type `b`.
pub open spec fn compatible(a: PortType, b: PortType) -> bool {
    ||| a == b
    ||| ((a is VideoFile || a is ImageFile || a is MediaBundle) && b is AnyFile)
    ||| (a is TsSessionDir && b is AnyDir)
}

impl PortType {
    /// Whether `self` (an upstream output type) may feed `target` (a downstream input type).
    pub fn is_compatible_with(&self, target: &PortType) -> (r: bool)
        ensures
            r == compatible(*self, *target),
    {
        if *self == *target {
            return true;
        }
        match (self, target) {
            (PortType::VideoFile, PortType::AnyFile) => true,
            (PortType::ImageFile, PortType::AnyFile) => true,
            (PortType::MediaBundle, PortType::AnyFile) => true,
            (PortType::TsSessionDir, PortType::AnyDir) => true,
            _ => false,
        }
    }
}

/// Where one input port takes its data from.
#[derive(Debug, Clone)]
pub struct NodeInputRef {
    /// Upstream node id; `"0"` is the recording input.
    pub node_id: String,
    /// Upstream output port.
    pub port: usize,
}

/// The value of a node parameter.
#[derive(Debug, Clone)]
pub enum ParamValue {
    /// A JSON string, held as its text.
    Text(String),
    /// Any other JSON value, held as its compact JSON notation.
    Json(String),
}

impl ParamValue {
    /// A copy of the value.
    pub fn copy(&self) -> (r: ParamValue)
        ensures
            r == *self,
    {
        match self {
            ParamValue::Text(s) => ParamValue::Text(s.clone()),
            ParamValue::Json(s) => ParamValue::Json(s.clone()),
        }
    }
}

/// One module instance of the pipeline.
///
/// `params` maps parameter names to their values; `inputs` maps input
/// ports to their sources.
#[derive(Debug, Clone)]
pub struct PipelineNode {
    pub module_id: String,
    pub node_id: Option<String>,
    pub params: Vec<(String, ParamValue)>,
    pub enabled: bool,
    pub inputs: Vec<(usize, NodeInputRef)>,
}

/// A directed edge: an upstream output port feeding a downstream input port.
#[derive(Debug, Clone)]
pub struct PipelineEdge {
    pub from_node_id: String,
    pub from_port: usize,
    pub to_node_id: String,
    pub to_port: usize,
}

/// The pipeline configuration.
#[derive(Debug, Clone)]
pub struct PipelineConfig {
    pub version: String,
    pub nodes: Vec<PipelineNode>,
}

/// What a module reports on the last line of its output.
#[derive(Debug, Clone)]
pub struct ModuleOutput {
    pub code: PpExecCode,
    pub message: Option<String>,
    pub outputs: Option<Vec<String>>,
}

/// Result of running one node.
#[derive(Debug, Clone)]
pub struct NodeResult {
    pub effective_id: String,
    pub module_id: String,
    pub code: PpExecCode,
    pub message: String,
    pub outputs: Vec<String>,
    pub inputs: Vec<String>,
}

impl NodeResult {
    /// Whether the node succeeded (`Okay`, `Done` or `Skipped`).
    pub fn is_success(&self) -> (r: bool)
        ensures
            r == self.code.spec_is_success(),
    {
        self.code.is_success()
    }

    /// Whether the pipeline stops at this node (`Done`, `Error` or `Cancelled`).
    pub fn is_terminal(&self) -> (r: bool)
        ensures
            r == (self.code is Done || self.code is Error || self.code is Cancelled),
    {
        match self.code {
            PpExecCode::Done | PpExecCode::Error | PpExecCode::Cancelled => true,
            _ => false,
        }
    }
}

/// The configuration version written by default: `"1"`.
pub fn default_pipeline_version() -> (r: String)
    ensures
        r@ == seq!['1'],
{
    proof {
        reveal_strlit("1");
        assert("1"@ =~= seq!['1']);
    }
    String::from_str("1")
}

/// `"0"`, the id of the recording input.
pub open spec fn input_id() -> Seq<char> {
    seq!['0']
}

/// Whether `s` is `"0"` (executable).
pub fn is_input_id(s: &str) -> (r: bool)
    ensures
        r == (s@ == input_id()),
{
    proof {
        reveal_strlit("0");
        assert("0"@ =~= seq!['0']);
    }
    str_eq(s, "0")
}

impl PipelineNode {
    /// The node id when present, otherwise the module id.
    pub open spec fn eid_string(&self) -> String {
        match self.node_id {
            Some(n) => n,
            None => self.module_id,
        }
    }

    /// The node id when present, otherwise the module id, as characters.
    pub open spec fn eid(&self) -> Seq<char> {
        self.eid_string()@
    }

    /// The node id when present, otherwise the module id.
    pub fn effective_id(&self) -> (r: &String)
        ensures
            *r == self.eid_string(),
    {
        match &self.node_id {
            Some(n) => n,
            None => &self.module_id,
        }
    }
}

/// The edges that the inputs `ins` of node `to` contribute, in order; inputs
/// from the recording input give none.
pub open spec fn input_edges(ins: Seq<(usize, NodeInputRef)>, to: String) -> Seq<PipelineEdge>
    decreases ins.len(),
{
    if ins.len() == 0 {
        seq![]
    } else {
        let prev = input_edges(ins.drop_last(), to);
        let (p, r) = ins.last();
        if r.node_id@ == input_id() {
            prev
        } else {
            prev.push(
                PipelineEdge { from_node_id: r.node_id, from_port: r.port, to_node_id: to, to_port: p },
            )
        }
    }
}

/// All edges of the nodes, node after node.
pub open spec fn edges_spec(nodes: Seq<PipelineNode>) -> Seq<PipelineEdge>
    decreases nodes.len(),
{
    if nodes.len() == 0 {
        seq![]
    } else {
        edges_spec(nodes.drop_last()) + input_edges(nodes.last().inputs@, nodes.last().eid_string())
    }
}

/// Whether one of the node's inputs comes from the recording input.
pub open spec fn connected_to_input(n: PipelineNode) -> bool {
    exists|i: int| 0 <= i < n.inputs@.len() && (#[trigger] n.inputs@[i]).1.node_id@ == input_id()
}

/// Whether an edge ends at `id`.
pub open spec fn has_incoming(edges: Seq<PipelineEdge>, id: Seq<char>) -> bool {
    exists|i: int| 0 <= i < edges.len() && (#[trigger] edges[i]).to_node_id@ == id
}

/// Whether an edge starts at `id`.
pub open spec fn has_outgoing(edges: Seq<PipelineEdge>, id: Seq<char>) -> bool {
    exists|i: int| 0 <= i < edges.len() && (#[trigger] edges[i]).from_node_id@ == id
}

/// Whether a node starts the pipeline: it reads the recording input, or it
/// has outgoing edges and no incoming ones. Isolated nodes are no roots.
pub open spec fn is_root(n: PipelineNode, edges: Seq<PipelineEdge>) -> bool {
    connected_to_input(n) || (!has_incoming(edges, n.eid()) && has_outgoing(edges, n.eid()))
}

/// The ids of the root nodes among `nodes`, in order.
pub open spec fn roots_spec(nodes: Seq<PipelineNode>, edges: Seq<PipelineEdge>) -> Seq<String>
    decreases nodes.len(),
{
    if nodes.len() == 0 {
        seq![]
    } else if is_root(nodes.last(), edges) {
        roots_spec(nodes.drop_last(), edges).push(nodes.last().eid_string())
    } else {
        roots_spec(nodes.drop_last(), edges)
    }
}

/// Index of the first node whose effective id is `id`, or -1.
pub open spec fn node_index(nodes: Seq<PipelineNode>, id: Seq<char>) -> int
    decreases nodes.len(),
{
    if nodes.len() == 0 {
        -1
    } else if node_index(nodes.drop_last(), id) >= 0 {
        node_index(nodes.drop_last(), id)
    } else if nodes.last().eid() == id {
        nodes.len() - 1
    } else {
        -1
    }
}

/// The outgoing edges of `id` among `edges` whose target is a node, each with
/// the index of that node.
pub open spec fn successors_spec(
    edges: Seq<PipelineEdge>,
    nodes: Seq<PipelineNode>,
    id: Seq<char>,
) -> Seq<(PipelineEdge, usize)>
    decreases edges.len(),
{
    if edges.len() == 0 {
        seq![]
    } else {
        let prev = successors_spec(edges.drop_last(), nodes, id);
        let e = edges.last();
        if e.from_node_id@ == id && node_index(nodes, e.to_node_id@) >= 0 {
            prev.push((e, node_index(nodes, e.to_node_id@) as usize))
        } else {
            prev
        }
    }
}

/// `node_index` is the least index with the id, or -1.
pub proof fn lemma_node_index(nodes: Seq<PipelineNode>, id: Seq<char>)
    ensures
        -1 <= node_index(nodes, id) < nodes.len(),
        node_index(nodes, id) >= 0 ==> nodes[node_index(nodes, id)].eid() == id,
        forall|j: int|
            0 <= j < nodes.len() && (node_index(nodes, id) < 0 || j < node_index(nodes, id))
                ==> #[trigger] nodes[j].eid() != id,
    decreases nodes.len(),
{
    if nodes.len() > 0 {
        lemma_node_index(nodes.drop_last(), id);
        assert forall|j: int| 0 <= j < nodes.len() - 1 implies #[trigger] nodes[j]
            == nodes.drop_last()[j] by {}
    }
}

/// Index of the first node whose effective id is `id` (executable).
pub fn find_node(nodes: &Vec<PipelineNode>, id: &str) -> (r: Option<usize>)
    ensures
        r matches Some(i) ==> i as int == node_index(nodes@, id@),
        r is None ==> node_index(nodes@, id@) == -1,
{
    proof {
        lemma_node_index(nodes@, id@);
    }
    let mut i: usize = 0;
    while i < nodes.len()
        invariant
            i <= nodes.len(),
            forall|j: int| 0 <= j < i ==> #[trigger] nodes@[j].eid() != id@,
            -1 <= node_index(nodes@, id@) < nodes@.len(),
            node_index(nodes@, id@) >= 0 ==> nodes@[node_index(nodes@, id@)].eid() == id@,
            forall|j: int|
                0 <= j < nodes@.len() && (node_index(nodes@, id@) < 0 || j < node_index(
                    nodes@,
                    id@,
                )) ==> #[trigger] nodes@[j].eid() != id@,
        decreases nodes.len() - i,
    {
        if str_eq(nodes[i].effective_id().as_str(), id) {
            assert(nodes@[i as int].eid() == id@);
            return Some(i);
        }
        i += 1;
    }
    None
}

/// The edges that a node's inputs contribute (executable).
fn node_input_edges(node: &PipelineNode) -> (r: Vec<PipelineEdge>)
    ensures
        r@ == input_edges(node.inputs@, node.eid_string()),
{
    let mut r: Vec<PipelineEdge> = Vec::new();
    let mut i: usize = 0;
    while i < node.inputs.len()
        invariant
            i <= node.inputs.len(),
            r@ == input_edges(node.inputs@.take(i as int), node.eid_string()),
        decreases node.inputs.len() - i,
    {
        assert(node.inputs@.take(i + 1).drop_last() =~= node.inputs@.take(i as int));
        let (p, ir) = (node.inputs[i].0, &node.inputs[i].1);
        if !is_input_id(ir.node_id.as_str()) {
            r.push(
                PipelineEdge {
                    from_node_id: ir.node_id.clone(),
                    from_port: ir.port,
                    to_node_id: node.effective_id().clone(),
                    to_port: p,
                },
            );
        }
        i += 1;
    }
    assert(node.inputs@.take(i as int) =~= node.inputs@);
    r
}

/// Whether one of the node's inputs comes from the recording input (executable).
fn reads_recording_input(node: &PipelineNode) -> (r: bool)
    ensures
        r == connected_to_input(*node),
{
    let mut i: usize = 0;
    while i < node.inputs.len()
        invariant
            i <= node.inputs.len(),
            forall|j: int| 0 <= j < i ==> (#[trigger] node.inputs@[j]).1.node_id@ != input_id(),
        decreases node.inputs.len() - i,
    {
        if is_input_id(node.inputs[i].1.node_id.as_str()) {
            return true;
        }
        i += 1;
    }
    false
}

/// Whether an edge ends at `id` (executable).
fn any_incoming(edges: &Vec<PipelineEdge>, id: &str) -> (r: bool)
    ensures
        r == has_incoming(edges@, id@),
{
    let mut i: usize = 0;
    while i < edges.len()
        invariant
            i <= edges.len(),
            forall|j: int| 0 <= j < i ==> (#[trigger] edges@[j]).to_node_id@ != id@,
        decreases edges.len() - i,
    {
        if str_eq(edges[i].to_node_id.as_str(), id) {
            return true;
        }
        i += 1;
    }
    false
}

/// Whether an edge starts at `id` (executable).
fn any_outgoing(edges: &Vec<PipelineEdge>, id: &str) -> (r: bool)
    ensures
        r == has_outgoing(edges@, id@),
{
    let mut i: usize = 0;
    while i < edges.len()
        invariant
            i <= edges.len(),
            forall|j: int| 0 <= j < i ==> (#[trigger] edges@[j]).from_node_id@ != id@,
        decreases edges.len() - i,
    {
        if str_eq(edges[i].from_node_id.as_str(), id) {
            return true;
        }
        i += 1;
    }
    false
}

impl PipelineConfig {
    /// The edge list derived from the nodes' inputs, node after node and
    /// input after input; inputs from the recording input give no edge.
    pub fn resolved_edges(&self) -> (r: Vec<PipelineEdge>)
        ensures
            r@ == edges_spec(self.nodes@),
    {
        let mut r: Vec<PipelineEdge> = Vec::new();
        let mut i: usize = 0;
        while i < self.nodes.len()
            invariant
                i <= self.nodes.len(),
                r@ == edges_spec(self.nodes@.take(i as int)),
            decreases self.nodes.len() - i,
        {
            assert(self.nodes@.take(i + 1).drop_last() =~= self.nodes@.take(i as int));
            let mut more = node_input_edges(&self.nodes[i]);
            r.append(&mut more);
            i += 1;
        }
        assert(self.nodes@.take(i as int) =~= self.nodes@);
        r
    }

    /// The ids of the nodes where execution starts: those that read the
    /// recording input, and those with outgoing but no incoming edges.
    /// Disabled nodes are included (they are passed through when run).
    pub fn root_nodes(&self) -> (r: Vec<String>)
        ensures
            r@ == roots_spec(self.nodes@, edges_spec(self.nodes@)),
    {
        let edges = self.resolved_edges();
        let mut r: Vec<String> = Vec::new();
        let mut i: usize = 0;
        while i < self.nodes.len()
            invariant
                i <= self.nodes.len(),
                edges@ == edges_spec(self.nodes@),
                r@ == roots_spec(self.nodes@.take(i as int), edges@),
            decreases self.nodes.len() - i,
        {
            assert(self.nodes@.take(i + 1).drop_last() =~= self.nodes@.take(i as int));
            let n = &self.nodes[i];
            let eid = n.effective_id();
            let root = reads_recording_input(n) || (!any_incoming(&edges, eid.as_str())
                && any_outgoing(&edges, eid.as_str()));
            if root {
                r.push(eid.clone());
            }
            i += 1;
        }
        assert(self.nodes@.take(i as int) =~= self.nodes@);
        r
    }

    /// The outgoing edges of `node_id`, each with the index of its target
    /// node; edges whose target is no node are left out. Disabled targets
    /// are included.
    pub fn successors(&self, node_id: &str) -> (r: Vec<(PipelineEdge, usize)>)
        ensures
            r@ == successors_spec(edges_spec(self.nodes@), self.nodes@, node_id@),
    {
        let edges = self.resolved_edges();
        let mut r: Vec<(PipelineEdge, usize)> = Vec::new();
        let mut i: usize = 0;
        while i < edges.len()
            invariant
                i <= edges.len(),
                r@ == successors_spec(edges@.take(i as int), self.nodes@, node_id@),
            decreases edges.len() - i,
        {
            assert(edges@.take(i + 1).drop_last() =~= edges@.take(i as int));
            let e = &edges[i];
            if str_eq(e.from_node_id.as_str(), node_id) {
                match find_node(&self.nodes, e.to_node_id.as_str()) {
                    Some(k) => {
                        let copy = PipelineEdge {
                            from_node_id: e.from_node_id.clone(),
                            from_port: e.from_port,
                            to_node_id: e.to_node_id.clone(),
                            to_port: e.to_port,
                        };
                        r.push((copy, k));
                    },
                    None => {},
                }
            }
            i += 1;
        }
        assert(edges@.take(i as int) =~= edges@);
        r
    }
}

} // verus!

verus! {

// ───────────────────────── copies ─────────────────────────

/// A copy of a list of strings.
pub fn copy_strings(v: &Vec<String>) -> (r: Vec<String>)
    ensures
        r@ == v@,
{
    let mut r: Vec<String> = Vec::new();
    let mut i: usize = 0;
    while i < v.len()
        invariant
            i <= v.len(),
            r@ == v@.take(i as int),
        decreases v.len() - i,
    {
        r.push(v[i].clone());
        assert(v@.take(i + 1) =~= v@.take(i as int).push(v@[i as int]));
        i += 1;
    }
    assert(v@.take(i as int) =~= v@);
    r
}

/// A copy of a list of parameters.
pub fn copy_params(v: &Vec<(String, ParamValue)>) -> (r: Vec<(String, ParamValue)>)
    ensures
        r@ == v@,
{
    let mut r: Vec<(String, ParamValue)> = Vec::new();
    let mut i: usize = 0;
    while i < v.len()
        invariant
            i <= v.len(),
            r@ == v@.take(i as int),
        decreases v.len() - i,
    {
        r.push((v[i].0.clone(), v[i].1.copy()));
        assert(v@.take(i + 1) =~= v@.take(i as int).push(v@[i as int]));
        i += 1;
    }
    assert(v@.take(i as int) =~= v@);
    r
}

/// A copy of an optional string.
pub fn copy_opt_string(v: &Option<String>) -> (r: Option<String>)
    ensures
        r == *v,
{
    match v {
        Some(s) => Some(s.clone()),
        None => None,
    }
}

impl NodeInputRef {
    /// A copy of the reference.
    pub fn copy(&self) -> (r: NodeInputRef)
        ensures
            r == *self,
    {
        NodeInputRef { node_id: self.node_id.clone(), port: self.port }
    }
}

impl PipelineEdge {
    /// A copy of the edge.
    pub fn copy(&self) -> (r: PipelineEdge)
        ensures
            r == *self,
    {
        PipelineEdge {
            from_node_id: self.from_node_id.clone(),
            from_port: self.from_port,
            to_node_id: self.to_node_id.clone(),
            to_port: self.to_port,
        }
    }
}

impl PipelineNode {
    /// A copy of the node: every field holds the same values.
    pub fn copy(&self) -> (r: PipelineNode)
        ensures
            r.module_id == self.module_id,
            r.node_id == self.node_id,
            r.params@ == self.params@,
            r.enabled == self.enabled,
            r.inputs@ == self.inputs@,
    {
        let mut inputs: Vec<(usize, NodeInputRef)> = Vec::new();
        let mut i: usize = 0;
        while i < self.inputs.len()
            invariant
                i <= self.inputs.len(),
                inputs@ == self.inputs@.take(i as int),
            decreases self.inputs.len() - i,
        {
            inputs.push((self.inputs[i].0, self.inputs[i].1.copy()));
            assert(self.inputs@.take(i + 1) =~= self.inputs@.take(i as int).push(
                self.inputs@[i as int],
            ));
            i += 1;
        }
        assert(self.inputs@.take(i as int) =~= self.inputs@);
        PipelineNode {
            module_id: self.module_id.clone(),
            node_id: copy_opt_string(&self.node_id),
            params: copy_params(&self.params),
            enabled: self.enabled,
            inputs,
        }
    }
}

/// The view of a node result: its ids, code, message, and its output and input paths.
pub type NodeResultV = (Seq<char>, Seq<char>, PpExecCode, Seq<char>, Seq<Seq<char>>, Seq<Seq<char>>);

impl View for NodeResult {
    type V = NodeResultV;

    open spec fn view(&self) -> NodeResultV {
        (
            self.effective_id@,
            self.module_id@,
            self.code,
            self.message@,
            crate::text::strs_view(self.outputs@),
            crate::text::strs_view(self.inputs@),
        )
    }
}

impl NodeResult {
    /// A copy of the result.
    pub fn copy(&self) -> (r: NodeResult)
        ensures
            r@ == self@,
    {
        NodeResult {
            effective_id: self.effective_id.clone(),
            module_id: self.module_id.clone(),
            code: self.code,
            message: self.message.clone(),
            outputs: copy_strings(&self.outputs),
            inputs: copy_strings(&self.inputs),
        }
    }
}

} // verus!
