//! Running the pipeline DAG: which node runs next, with which inputs, and
//! where its outputs go.
//!
//! The caller runs the loop: it asks `next_step` for the next node, runs
//! it, and hands the result to `complete`. A node is queued once all the
//! input ports that its module declares have received a path; every node is
//! queued at most once. A disabled node does not run: its inputs are passed
//! on unchanged, position by position, as its outputs.
use vstd::prelude::*;
use crate::meta::PpExecCode;
use crate::pipeline::{
    NodeResult, PipelineConfig, PipelineEdge, PipelineNode, edges_spec, node_index, roots_spec,
    successors_spec,
};
use crate::rerun::{PreV, pre_index, pre_push, pre_view, set_of, lemma_set_of_push};
use crate::text::{concat, from_chars, str_eq, strs_view, to_chars, vec_contains_str};

verus! {

/// Number of input ports that a module declares; a module that is not
/// installed counts as one.
pub open spec fn arity_spec(arity: Seq<(String, usize)>, module_id: Seq<char>) -> nat {
    let i = crate::assoc::key_index(arity, module_id);
    if i >= 0 {
        arity[i].1 as nat
    } else {
        1
    }
}

/// Whether a module is installed.
pub open spec fn installed(arity: Seq<(String, usize)>, module_id: Seq<char>) -> bool {
    crate::assoc::key_index(arity, module_id) >= 0
}

/// Number of distinct ports among the collected inputs.
pub open spec fn distinct_ports(s: Seq<(usize, Seq<char>)>) -> nat
    decreases s.len(),
{
    if s.len() == 0 {
        0
    } else {
        let t = s.drop_last();
        distinct_ports(t) + if exists|j: int| 0 <= j < t.len() && #[trigger] t[j].0 == s.last().0 {
            0nat
        } else {
            1nat
        }
    }
}

/// `x` inserted into `s` after every element whose port is not greater.
pub open spec fn insert_by_port(s: Seq<(usize, Seq<char>)>, x: (usize, Seq<char>)) -> Seq<
    (usize, Seq<char>),
>
    decreases s.len(),
{
    if s.len() == 0 || s.last().0 <= x.0 {
        s.push(x)
    } else {
        insert_by_port(s.drop_last(), x).push(s.last())
    }
}

/// The collected inputs ordered by port; inputs on the same port keep their order.
pub open spec fn sort_by_port(s: Seq<(usize, Seq<char>)>) -> Seq<(usize, Seq<char>)>
    decreases s.len(),
{
    if s.len() == 0 {
        s
    } else {
        insert_by_port(sort_by_port(s.drop_last()), s.last())
    }
}

/// The paths of collected inputs, in order.
pub open spec fn paths_of(s: Seq<(usize, Seq<char>)>) -> Seq<Seq<char>> {
    s.map_values(|p: (usize, Seq<char>)| p.1)
}

/// The scheduler's view: collected inputs per node, the queue of nodes with
/// their inputs, and the ids ever queued.
pub struct SchedV {
    pub collected: PreV,
    pub queue: Seq<(Seq<char>, Seq<Seq<char>>)>,
    pub enqueued: Set<Seq<char>>,
}

/// Queues `id` with the inputs collected for it, when its slot covers as
/// many distinct ports as its module declares and it was never queued.
pub open spec fn maybe_enqueue(st: SchedV, id: Seq<char>, required: nat) -> SchedV {
    let k = pre_index(st.collected, id);
    if k >= 0 && distinct_ports(st.collected[k].1) >= required && !st.enqueued.contains(id) {
        SchedV {
            queue: st.queue.push((id, paths_of(sort_by_port(st.collected[k].1)))),
            enqueued: st.enqueued.insert(id),
            ..st
        }
    } else {
        st
    }
}

/// Sending `outputs` along the edges `succs` (each with the index of its
/// target node): an edge whose output port exists adds that output to its
/// target's slot, and the target is then queued if it became ready.
pub open spec fn dispatch_spec(
    st: SchedV,
    succs: Seq<(PipelineEdge, usize)>,
    nodes: Seq<PipelineNode>,
    arity: Seq<(String, usize)>,
    outputs: Seq<Seq<char>>,
) -> SchedV
    decreases succs.len(),
{
    if succs.len() == 0 {
        st
    } else {
        let s0 = dispatch_spec(st, succs.drop_last(), nodes, arity, outputs);
        let (e, idx) = succs.last();
        if e.from_port < outputs.len() {
            let s1 = SchedV {
                collected: pre_push(s0.collected, e.to_node_id@, (e.to_port, outputs[e.from_port as int])),
                ..s0
            };
            maybe_enqueue(s1, e.to_node_id@, arity_spec(arity, nodes[idx as int].module_id@))
        } else {
            s0
        }
    }
}

/// The queue after the roots are queued with the initial inputs.
pub open spec fn roots_queued(st: SchedV, roots: Seq<String>, initial: Seq<Seq<char>>) -> SchedV
    decreases roots.len(),
{
    if roots.len() == 0 {
        st
    } else {
        let s0 = roots_queued(st, roots.drop_last(), initial);
        let id = roots.last()@;
        if s0.enqueued.contains(id) {
            s0
        } else {
            SchedV { queue: s0.queue.push((id, initial)), enqueued: s0.enqueued.insert(id), ..s0 }
        }
    }
}

/// The queue after the nodes whose inputs were collected in an earlier run
/// are queued, node by node.
pub open spec fn prefilled_queued(st: SchedV, nodes: Seq<PipelineNode>, arity: Seq<(String, usize)>) -> SchedV
    decreases nodes.len(),
{
    if nodes.len() == 0 {
        st
    } else {
        let s0 = prefilled_queued(st, nodes.drop_last(), arity);
        maybe_enqueue(s0, nodes.last().eid(), arity_spec(arity, nodes.last().module_id@))
    }
}

/// What the caller does next.
#[derive(Debug, Clone)]
pub enum Step {
    /// Nothing is left to run, or the run was cancelled.
    Finished,
    /// The queued id names no node; nothing to do.
    Unknown,
    /// A disabled node passed its inputs on.
    PassedThrough { effective_id: String },
    /// The node's module is not installed; the result is recorded.
    MissingModule { result: NodeResult },
    /// Run the node's module on the inputs.
    RunModule { effective_id: String, module_id: String, inputs: Vec<String> },
    /// Run the built-in unpack node on the inputs.
    RunUnpack { effective_id: String, inputs: Vec<String> },
    /// The node names a built-in that does not exist; report this result.
    UnknownBuiltin { result: NodeResult },
}

/// State of a pipeline run. `taken` lists, in order, the ids taken off
/// the queue so far.
#[derive(Clone)]
pub struct Scheduler {
    pub collected: Vec<(String, Vec<(usize, String)>)>,
    pub queue: Vec<(String, Vec<String>)>,
    pub enqueued: Vec<String>,
    pub results: Vec<NodeResult>,
    pub taken: Ghost<Seq<Seq<char>>>,
}

/// No two recorded results have the same effective id.
pub open spec fn results_once(results: Seq<NodeResult>) -> bool {
    forall|i: int, j: int| 0 <= i < j < results.len() ==> #[trigger] results[i].effective_id@ != #[trigger] results[j].effective_id@
}

/// Whether a result with effective id `id` is recorded.
pub open spec fn recorded(results: Seq<NodeResult>, id: Seq<char>) -> bool {
    exists|i: int| 0 <= i < results.len() && #[trigger] results[i].effective_id@ == id
}

/// The run's bookkeeping of ids: no id queued twice, none taken twice, none
/// queued again once taken, and every taken id recorded as queued.
pub open spec fn run_ok(st: SchedV, taken: Seq<Seq<char>>) -> bool {
    &&& forall|i: int, j: int| 0 <= i < j < st.queue.len() ==> #[trigger] st.queue[i].0 != #[trigger] st.queue[j].0
    &&& forall|i: int| 0 <= i < taken.len() ==> st.enqueued.contains(#[trigger] taken[i])
    &&& forall|i: int, j: int| 0 <= i < taken.len() && 0 <= j < st.queue.len() ==> #[trigger] taken[i] != #[trigger] st.queue[j].0
    &&& forall|i: int, j: int| 0 <= i < j < taken.len() ==> #[trigger] taken[i] != #[trigger] taken[j]
}

impl Scheduler {
    /// The view of the scheduler.
    pub open spec fn sv(&self) -> SchedV {
        SchedV {
            collected: pre_view(self.collected@),
            queue: self.queue@.map_values(|q: (String, Vec<String>)| (q.0@, strs_view(q.1@))),
            enqueued: set_of(self.enqueued@),
        }
    }

    /// Every queued id was recorded as queued, and none twice; the run's
    /// bookkeeping holds; and no node's result is recorded twice.
    pub open spec fn wf(&self) -> bool {
        &&& forall|i: int| 0 <= i < self.queue@.len() ==> self.sv().enqueued.contains(#[trigger] self.queue@[i].0@)
        &&& forall|i: int, j: int| 0 <= i < j < self.enqueued@.len() ==> self.enqueued@[i]@ != self.enqueued@[j]@
        &&& run_ok(self.sv(), self.taken@)
        &&& results_once(self.results@)
    }
}

/// Whether a module is installed, and how many inputs it declares (executable).
pub fn module_arity(arity: &Vec<(String, usize)>, module_id: &str) -> (r: (bool, usize))
    ensures
        r.0 == installed(arity@, module_id@),
        r.1 as nat == arity_spec(arity@, module_id@),
{
    proof {
        crate::assoc::lemma_key_index(arity@, module_id@);
    }
    match crate::assoc::find_key(arity, module_id) {
        Some(i) => (true, arity[i].1),
        None => (false, 1),
    }
}

/// Number of distinct ports among the collected inputs (executable).
fn count_distinct_ports(s: &Vec<(usize, String)>) -> (r: usize)
    ensures
        r as nat == distinct_ports(s@.map_values(|q: (usize, String)| (q.0, q.1@))),
{
    let ghost v = s@.map_values(|q: (usize, String)| (q.0, q.1@));
    let mut c: usize = 0;
    let mut i: usize = 0;
    while i < s.len()
        invariant
            i <= s.len(),
            v == s@.map_values(|q: (usize, String)| (q.0, q.1@)),
            c as nat == distinct_ports(v.take(i as int)),
            c <= i,
        decreases s.len() - i,
    {
        let ghost t = v.take(i as int);
        assert(v.take(i + 1).drop_last() =~= t);
        let mut seen = false;
        let mut j: usize = 0;
        while j < i
            invariant
                j <= i,
                i < s.len(),
                v == s@.map_values(|q: (usize, String)| (q.0, q.1@)),
                t == v.take(i as int),
                seen == exists|q: int| 0 <= q < j && #[trigger] t[q].0 == v[i as int].0,
            decreases i - j,
        {
            if s[j].0 == s[i].0 {
                assert(t[j as int].0 == v[i as int].0);
                seen = true;
            }
            j += 1;
        }
        if !seen {
            c += 1;
        }
        i += 1;
    }
    assert(v.take(i as int) =~= v);
    c
}

/// `x` inserted after every element whose port is not greater (executable).
fn insert_by_port_exec(v: &mut Vec<(usize, String)>, x: (usize, String))
    ensures
        final(v)@.map_values(|q: (usize, String)| (q.0, q.1@)) == insert_by_port(
            old(v)@.map_values(|q: (usize, String)| (q.0, q.1@)),
            (x.0, x.1@),
        ),
    decreases old(v)@.len(),
{
    let ghost ov = v@.map_values(|q: (usize, String)| (q.0, q.1@));
    if v.len() == 0 || v[v.len() - 1].0 <= x.0 {
        v.push(x);
        assert(v@.map_values(|q: (usize, String)| (q.0, q.1@)) =~= ov.push((x.0, x.1@)));
    } else {
        let last = v.pop().unwrap();
        assert(v@.map_values(|q: (usize, String)| (q.0, q.1@)) =~= ov.drop_last());
        insert_by_port_exec(v, x);
        let ghost mid = v@.map_values(|q: (usize, String)| (q.0, q.1@));
        v.push(last);
        assert(v@.map_values(|q: (usize, String)| (q.0, q.1@)) =~= mid.push((last.0, last.1@)));
    }
}

/// The paths of the collected inputs ordered by port (executable).
fn sorted_paths(s: &Vec<(usize, String)>) -> (r: Vec<String>)
    ensures
        strs_view(r@) == paths_of(sort_by_port(s@.map_values(|q: (usize, String)| (q.0, q.1@)))),
{
    let ghost v = s@.map_values(|q: (usize, String)| (q.0, q.1@));
    let mut sorted: Vec<(usize, String)> = Vec::new();
    let mut i: usize = 0;
    while i < s.len()
        invariant
            i <= s.len(),
            v == s@.map_values(|q: (usize, String)| (q.0, q.1@)),
            sorted@.map_values(|q: (usize, String)| (q.0, q.1@)) == sort_by_port(v.take(i as int)),
        decreases s.len() - i,
    {
        assert(v.take(i + 1).drop_last() =~= v.take(i as int));
        insert_by_port_exec(&mut sorted, (s[i].0, s[i].1.clone()));
        i += 1;
    }
    assert(v.take(i as int) =~= v);
    let ghost sv = sorted@.map_values(|q: (usize, String)| (q.0, q.1@));
    let mut r: Vec<String> = Vec::new();
    let mut k: usize = 0;
    while k < sorted.len()
        invariant
            k <= sorted.len(),
            sv == sorted@.map_values(|q: (usize, String)| (q.0, q.1@)),
            strs_view(r@) == paths_of(sv).take(k as int),
        decreases sorted.len() - k,
    {
        let ghost before = r@;
        r.push(sorted[k].1.clone());
        assert(strs_view(r@) =~= strs_view(before).push(sv[k as int].1));
        assert(paths_of(sv).take(k + 1) =~= paths_of(sv).take(k as int).push(sv[k as int].1));
        k += 1;
    }
    assert(paths_of(sv).take(k as int) =~= paths_of(sv));
    r
}

} // verus!

verus! {

/// Every target index of `successors_spec` is the index of a node.
proof fn lemma_successor_indices(edges: Seq<PipelineEdge>, nodes: Seq<PipelineNode>, id: Seq<char>)
    ensures
        forall|k: int|
            0 <= k < successors_spec(edges, nodes, id).len() ==> (#[trigger] successors_spec(
                edges,
                nodes,
                id,
            )[k]).1 < nodes.len(),
    decreases edges.len(),
{
    if edges.len() > 0 {
        lemma_successor_indices(edges.drop_last(), nodes, id);
        crate::pipeline::lemma_node_index(nodes, edges.last().to_node_id@);
        let prev = successors_spec(edges.drop_last(), nodes, id);
        let cur = successors_spec(edges, nodes, id);
        assert forall|k: int| 0 <= k < cur.len() implies (#[trigger] cur[k]).1 < nodes.len() by {
            if k < prev.len() {
                assert(cur[k] == prev[k]);
            }
        }
    }
}

/// Position of the slot of `id` among the collected inputs (executable).
fn find_slot(collected: &Vec<(String, Vec<(usize, String)>)>, id: &str) -> (r: Option<usize>)
    ensures
        r matches Some(i) ==> i as int == pre_index(pre_view(collected@), id@) && i < collected@.len(),
        r is None ==> pre_index(pre_view(collected@), id@) < 0,
{
    let ghost cv = pre_view(collected@);
    proof {
        crate::rerun::lemma_pre_index_pub(cv, id@);
    }
    let mut i: usize = 0;
    while i < collected.len()
        invariant
            i <= collected.len(),
            cv == pre_view(collected@),
            -1 <= pre_index(cv, id@) < cv.len(),
            pre_index(cv, id@) >= 0 ==> cv[pre_index(cv, id@)].0 == id@,
            forall|j: int|
                0 <= j < cv.len() && (pre_index(cv, id@) < 0 || j < pre_index(cv, id@))
                    ==> #[trigger] cv[j].0 != id@,
            forall|j: int| 0 <= j < i ==> #[trigger] cv[j].0 != id@,
        decreases collected.len() - i,
    {
        if str_eq(collected[i].0.as_str(), id) {
            assert(cv[i as int].0 == id@);
            return Some(i);
        }
        i += 1;
    }
    None
}

/// Queuing an id that was never queued keeps the run's bookkeeping.
proof fn lemma_run_ok_push(st: SchedV, st2: SchedV, taken: Seq<Seq<char>>, id: Seq<char>)
    requires
        run_ok(st, taken),
        forall|i: int| 0 <= i < st.queue.len() ==> st.enqueued.contains(#[trigger] st.queue[i].0),
        !st.enqueued.contains(id),
        st2.queue.len() == st.queue.len() + 1,
        forall|i: int| 0 <= i < st.queue.len() ==> #[trigger] st2.queue[i] == st.queue[i],
        st2.queue.last().0 == id,
        st2.enqueued == st.enqueued.insert(id),
    ensures
        run_ok(st2, taken),
{
    assert forall|i: int, j: int| 0 <= i < j < st2.queue.len() implies #[trigger] st2.queue[i].0 != #[trigger] st2.queue[j].0 by {
        if j == st.queue.len() {
            assert(st.enqueued.contains(st.queue[i].0));
        } else {
            assert(st2.queue[i] == st.queue[i] && st2.queue[j] == st.queue[j]);
        }
    }
    assert forall|i: int, j: int| 0 <= i < taken.len() && 0 <= j < st2.queue.len() implies #[trigger] taken[i] != #[trigger] st2.queue[j].0 by {
        if j == st.queue.len() {
            assert(st.enqueued.contains(taken[i]));
        } else {
            assert(st2.queue[j] == st.queue[j]);
        }
    }
}

impl Scheduler {
    /// Queues `id` when its collected inputs cover `required` distinct ports
    /// and it was never queued.
    fn maybe_enqueue(&mut self, id: &String, required: usize)
        requires
            old(self).wf(),
        ensures
            final(self).wf(),
            final(self).sv() == maybe_enqueue(old(self).sv(), id@, required as nat),
            final(self).results == old(self).results,
            final(self).taken == old(self).taken,
    {
        let ghost st = self.sv();
        let k = match find_slot(&self.collected, id.as_str()) {
            Some(k) => k,
            None => {
                return;
            },
        };
        let n = count_distinct_ports(&self.collected[k].1);
        assert(self.collected@[k as int].1@.map_values(|q: (usize, String)| (q.0, q.1@))
            == st.collected[k as int].1);
        if n >= required && !vec_contains_str(&self.enqueued, id.as_str()) {
            let paths = sorted_paths(&self.collected[k].1);
            let ghost q0 = self.queue@;
            let ghost e0 = self.enqueued@;
            self.queue.push((id.clone(), paths));
            let idc = id.clone();
            self.enqueued.push(idc);
            proof {
                lemma_set_of_push(e0, idc);
                assert(self.queue@.map_values(|q: (String, Vec<String>)| (q.0@, strs_view(q.1@)))
                    =~= st.queue.push((id@, paths_of(sort_by_port(st.collected[k as int].1)))));
                assert forall|i: int| 0 <= i < self.queue@.len() implies self.sv().enqueued.contains(
                    #[trigger] self.queue@[i].0@,
                ) by {
                    if i < q0.len() {
                        assert(self.queue@[i] == q0[i]);
                    }
                }
                assert forall|a: int, b: int| 0 <= a < b < self.enqueued@.len() implies self.enqueued@[a]@
                    != self.enqueued@[b]@ by {
                    if b == e0.len() {
                        assert(strs_view(e0)[a] == e0[a]@);
                    }
                }
                lemma_run_ok_push(st, self.sv(), self.taken@, id@);
            }
        }
    }

    /// Sends `outputs` of node `from_eid` along its outgoing edges: each edge
    /// whose output port exists adds that output to its target's inputs, and
    /// a target whose inputs are complete is queued (once).
    pub fn dispatch(
        &mut self,
        pipeline: &PipelineConfig,
        arity: &Vec<(String, usize)>,
        from_eid: &str,
        outputs: &Vec<String>,
    )
        requires
            old(self).wf(),
        ensures
            final(self).wf(),
            final(self).sv() == dispatch_spec(
                old(self).sv(),
                successors_spec(edges_spec(pipeline.nodes@), pipeline.nodes@, from_eid@),
                pipeline.nodes@,
                arity@,
                strs_view(outputs@),
            ),
            final(self).results == old(self).results,
            final(self).taken == old(self).taken,
    {
        let succs = pipeline.successors(from_eid);
        proof {
            lemma_successor_indices(edges_spec(pipeline.nodes@), pipeline.nodes@, from_eid@);
        }
        let ghost st = self.sv();
        let mut k: usize = 0;
        while k < succs.len()
            invariant
                k <= succs.len(),
                self.wf(),
                succs@ == successors_spec(edges_spec(pipeline.nodes@), pipeline.nodes@, from_eid@),
                forall|j: int| 0 <= j < succs@.len() ==> (#[trigger] succs@[j]).1 < pipeline.nodes@.len(),
                self.sv() == dispatch_spec(
                    st,
                    succs@.take(k as int),
                    pipeline.nodes@,
                    arity@,
                    strs_view(outputs@),
                ),
                self.results == old(self).results,
                self.taken == old(self).taken,
            decreases succs.len() - k,
        {
            assert(succs@.take(k + 1).drop_last() =~= succs@.take(k as int));
            let e = &succs[k].0;
            let idx = succs[k].1;
            assert(succs@[k as int].1 == idx);
            if e.from_port < outputs.len() {
                let ghost sv0 = self.sv();
                crate::rerun::pre_push_exec(
                    &mut self.collected,
                    &e.to_node_id,
                    (e.to_port, outputs[e.from_port].clone()),
                );
                assert(self.sv().queue == sv0.queue);
                assert(self.sv().enqueued == sv0.enqueued);
                let (_, required) = module_arity(arity, pipeline.nodes[idx].module_id.as_str());
                self.maybe_enqueue(&e.to_node_id, required);
            }
            k += 1;
        }
        assert(succs@.take(k as int) =~= succs@);
    }
}

} // verus!

verus! {

/// The state after the head of the queue is taken off.
pub open spec fn popped(st: SchedV) -> SchedV {
    SchedV { queue: st.queue.drop_first(), ..st }
}

/// The message of a node whose module is not installed.
pub open spec fn missing_module_message(module_id: Seq<char>) -> Seq<char> {
    "模块 '"@ + module_id + "' 不存在，请检查 modules/ 目录"@
}

/// The message of a node that names an unknown built-in.
pub open spec fn unknown_builtin_message(module_id: Seq<char>) -> Seq<char> {
    "unknown built-in node: "@ + module_id
}

/// The failed result of a node.
pub open spec fn error_result(id: Seq<char>, module_id: Seq<char>, message: Seq<char>, inputs: Seq<Seq<char>>) -> crate::pipeline::NodeResultV {
    (id, module_id, PpExecCode::Error, message, seq![], inputs)
}

/// A failed result (executable).
fn make_error_result(id: &String, module_id: &String, message: String, inputs: &Vec<String>) -> (r: NodeResult)
    ensures
        r@ == error_result(id@, module_id@, message@, strs_view(inputs@)),
{
    let outs: Vec<String> = Vec::new();
    assert(strs_view(outs@) =~= seq![]);
    NodeResult {
        effective_id: id.clone(),
        module_id: module_id.clone(),
        code: PpExecCode::Error,
        message,
        outputs: outs,
        inputs: crate::pipeline::copy_strings(inputs),
    }
}

impl Scheduler {
    /// A run that starts from `initial_inputs`, with the inputs collected in
    /// an earlier run: the root nodes are queued with the initial inputs
    /// (each once), then every other node whose collected inputs are complete.
    pub fn new(
        pipeline: &PipelineConfig,
        arity: &Vec<(String, usize)>,
        initial_inputs: &Vec<String>,
        pre_collected: Vec<(String, Vec<(usize, String)>)>,
    ) -> (r: Scheduler)
        ensures
            r.wf(),
            r.results@.len() == 0,
            r.sv() == prefilled_queued(
                roots_queued(
                    SchedV { collected: pre_view(pre_collected@), queue: seq![], enqueued: Set::empty() },
                    roots_spec(pipeline.nodes@, edges_spec(pipeline.nodes@)),
                    strs_view(initial_inputs@),
                ),
                pipeline.nodes@,
                arity@,
            ),
    {
        let mut s = Scheduler {
            collected: pre_collected,
            queue: Vec::new(),
            enqueued: Vec::new(),
            results: Vec::new(),
            taken: Ghost(Seq::empty()),
        };
        let ghost st0 = s.sv();
        assert(st0.queue =~= seq![]);
        assert(st0.enqueued =~= Set::empty());
        let roots = pipeline.root_nodes();
        let mut i: usize = 0;
        while i < roots.len()
            invariant
                i <= roots.len(),
                s.wf(),
                s.results@.len() == 0,
                s.sv() == roots_queued(st0, roots@.take(i as int), strs_view(initial_inputs@)),
            decreases roots.len() - i,
        {
            assert(roots@.take(i + 1).drop_last() =~= roots@.take(i as int));
            let id = &roots[i];
            if !vec_contains_str(&s.enqueued, id.as_str()) {
                let ghost q0 = s.queue@;
                let ghost e0 = s.enqueued@;
                let ghost sv0 = s.sv();
                s.queue.push((id.clone(), crate::pipeline::copy_strings(initial_inputs)));
                let idc = id.clone();
                s.enqueued.push(idc);
                proof {
                    lemma_set_of_push(e0, idc);
                    assert(s.sv().queue =~= sv0.queue.push((id@, strs_view(initial_inputs@))));
                    assert forall|k: int| 0 <= k < s.queue@.len() implies s.sv().enqueued.contains(
                        #[trigger] s.queue@[k].0@,
                    ) by {
                        if k < q0.len() {
                            assert(s.queue@[k] == q0[k]);
                        }
                    }
                    assert forall|a: int, b: int| 0 <= a < b < s.enqueued@.len() implies s.enqueued@[a]@
                        != s.enqueued@[b]@ by {
                        if b == e0.len() {
                            assert(strs_view(e0)[a] == e0[a]@);
                        }
                    }
                    lemma_run_ok_push(sv0, s.sv(), s.taken@, id@);
                }
            }
            i += 1;
        }
        assert(roots@.take(i as int) =~= roots@);
        let ghost st1 = s.sv();
        let mut j: usize = 0;
        while j < pipeline.nodes.len()
            invariant
                j <= pipeline.nodes.len(),
                s.wf(),
                s.results@.len() == 0,
                s.sv() == prefilled_queued(st1, pipeline.nodes@.take(j as int), arity@),
            decreases pipeline.nodes.len() - j,
        {
            assert(pipeline.nodes@.take(j + 1).drop_last() =~= pipeline.nodes@.take(j as int));
            let n = &pipeline.nodes[j];
            let (_, required) = module_arity(arity, n.module_id.as_str());
            s.maybe_enqueue(n.effective_id(), required);
            j += 1;
        }
        assert(pipeline.nodes@.take(j as int) =~= pipeline.nodes@);
        s
    }

    /// Takes the next node off the queue and says what to do with it. A
    /// disabled node passes its inputs on at once; a node whose module is
    /// not installed gets a failed result, which is recorded.
    pub fn next_step(
        &mut self,
        pipeline: &PipelineConfig,
        arity: &Vec<(String, usize)>,
        cancelled: bool,
    ) -> (r: Step)
        requires
            old(self).wf(),
        ensures
            final(self).wf(),
            (cancelled || old(self).queue@.len() == 0) ==> r is Finished && final(self).sv() == old(self).sv() && final(self).results == old(self).results
                && final(self).taken == old(self).taken,
            !(cancelled || old(self).queue@.len() == 0) ==> final(self).taken@ == old(self).taken@.push(old(self).sv().queue[0].0)
                && !old(self).taken@.contains(old(self).sv().queue[0].0),
            !(cancelled || old(self).queue@.len() == 0) ==> ({
                let st = old(self).sv();
                let id = st.queue[0].0;
                let ins = st.queue[0].1;
                let nodes = pipeline.nodes@;
                let i = node_index(nodes, id);
                let m = nodes[i].module_id@;
                &&& i < 0 ==> r is Unknown && final(self).sv() == popped(st) && final(self).results
                    == old(self).results
                &&& (i >= 0 && !nodes[i].enabled) ==> (r matches Step::PassedThrough { effective_id }
                    && effective_id@ == id && final(self).sv() == dispatch_spec(
                    popped(st),
                    successors_spec(edges_spec(nodes), nodes, id),
                    nodes,
                    arity@,
                    ins,
                ) && final(self).results == old(self).results)
                &&& (i >= 0 && nodes[i].enabled && !installed(arity@, m)) ==> (
                r matches Step::MissingModule { result } && result@ == error_result(
                    id,
                    m,
                    missing_module_message(m),
                    ins,
                ) && final(self).sv() == popped(st) && final(self).results == old(self).results)
                &&& (i >= 0 && nodes[i].enabled && installed(arity@, m) && crate::text::has_prefix(
                    m,
                    "__builtin__"@,
                ) && m == "__builtin__unpack"@) ==> (r matches Step::RunUnpack { effective_id, inputs }
                    && effective_id@ == id && strs_view(inputs@) == ins && final(self).sv() == popped(st) && final(self).results == old(self).results)
                &&& (i >= 0 && nodes[i].enabled && installed(arity@, m) && crate::text::has_prefix(
                    m,
                    "__builtin__"@,
                ) && m != "__builtin__unpack"@) ==> (r matches Step::UnknownBuiltin { result }
                    && result@ == error_result(id, m, unknown_builtin_message(m), ins) && final(self).sv() == popped(st) && final(self).results == old(self).results)
                &&& (i >= 0 && nodes[i].enabled && installed(arity@, m) && !crate::text::has_prefix(
                    m,
                    "__builtin__"@,
                )) ==> (r matches Step::RunModule { effective_id, module_id, inputs }
                    && effective_id@ == id && module_id@ == m && strs_view(inputs@) == ins && final(self).sv() == popped(st) && final(self).results == old(self).results)
            }),
    {
        if cancelled || self.queue.len() == 0 {
            return Step::Finished;
        }
        let ghost st = self.sv();
        let ghost q0 = self.queue@;
        let (eid, inputs) = self.queue.remove(0);
        proof {
            assert(self.sv().queue =~= st.queue.drop_first());
            assert(self.sv() == popped(st));
            let t0 = self.taken@;
            assert(st.queue[0].0 == eid@);
            assert(st.enqueued.contains(q0[0].0@));
            assert forall|i: int| 0 <= i < t0.len() implies t0[i] != eid@ by {
                assert(t0[i] != st.queue[0].0);
            }
            self.taken@ = t0.push(eid@);
            let t1 = self.taken@;
            let sq = self.sv().queue;
            assert forall|i: int| 0 <= i < t1.len() implies st.enqueued.contains(#[trigger] t1[i]) by {
                if i < t0.len() {
                    assert(t1[i] == t0[i]);
                }
            }
            assert forall|i: int, j: int| 0 <= i < t1.len() && 0 <= j < sq.len() implies #[trigger] t1[i] != #[trigger] sq[j].0 by {
                assert(sq[j] == st.queue[j + 1]);
                if i < t0.len() {
                    assert(t1[i] == t0[i]);
                } else {
                    assert(st.queue[0].0 != st.queue[j + 1].0);
                }
            }
            assert forall|i: int, j: int| 0 <= i < j < t1.len() implies #[trigger] t1[i] != #[trigger] t1[j] by {
                if j == t0.len() {
                    assert(t1[i] == t0[i]);
                } else {
                    assert(t1[i] == t0[i] && t1[j] == t0[j]);
                }
            }
            assert forall|i: int, j: int| 0 <= i < j < sq.len() implies #[trigger] sq[i].0 != #[trigger] sq[j].0 by {
                assert(sq[i] == st.queue[i + 1] && sq[j] == st.queue[j + 1]);
            }
            assert(!t0.contains(eid@));
            assert forall|k: int| 0 <= k < self.queue@.len() implies self.sv().enqueued.contains(
                #[trigger] self.queue@[k].0@,
            ) by {
                assert(self.queue@[k] == q0[k + 1]);
            }
        }
        proof {
            crate::pipeline::lemma_node_index(pipeline.nodes@, eid@);
        }
        let i = match crate::pipeline::find_node(&pipeline.nodes, eid.as_str()) {
            Some(i) => i,
            None => {
                return Step::Unknown;
            },
        };
        let node = &pipeline.nodes[i];
        if !node.enabled {
            self.dispatch(pipeline, arity, eid.as_str(), &inputs);
            return Step::PassedThrough { effective_id: eid };
        }
        let (inst, _) = module_arity(arity, node.module_id.as_str());
        if !inst {
            let msg = from_chars(
                &concat(
                    &concat(&to_chars("模块 '"), &to_chars(node.module_id.as_str())),
                    &to_chars("' 不存在，请检查 modules/ 目录"),
                ),
            );
            let result = make_error_result(&eid, &node.module_id, msg, &inputs);
            return Step::MissingModule { result };
        }
        let builtin = crate::text::starts_with(
            &to_chars(node.module_id.as_str()),
            &to_chars("__builtin__"),
        );
        if builtin {
            if str_eq(node.module_id.as_str(), "__builtin__unpack") {
                return Step::RunUnpack { effective_id: eid, inputs };
            }
            let msg = from_chars(
                &concat(&to_chars("unknown built-in node: "), &to_chars(node.module_id.as_str())),
            );
            let result = make_error_result(&eid, &node.module_id, msg, &inputs);
            return Step::UnknownBuiltin { result };
        }
        Step::RunModule { effective_id: eid, module_id: node.module_id.clone(), inputs }
    }

    /// Records the result of a node that ran (or the failed result that
    /// `next_step` handed out); when it succeeded and is not terminal, its
    /// outputs go to the nodes after it. A result whose node already has one
    /// is not recorded again, and changes nothing (`false`).
    pub fn complete(&mut self, pipeline: &PipelineConfig, arity: &Vec<(String, usize)>, result: NodeResult) -> (accepted: bool)
        requires
            old(self).wf(),
        ensures
            final(self).wf(),
            final(self).taken == old(self).taken,
            accepted == !recorded(old(self).results@, result.effective_id@),
            !accepted ==> final(self).results == old(self).results && final(self).sv() == old(self).sv(),
            accepted ==> crate::rerun::results_view(final(self).results@) == crate::rerun::results_view(
                old(self).results@,
            ).push(result@),
            accepted && (result.code.spec_is_success() && !(result.code is Done || result.code is Error
                || result.code is Cancelled)) ==> final(self).sv() == dispatch_spec(
                old(self).sv(),
                successors_spec(edges_spec(pipeline.nodes@), pipeline.nodes@, result.effective_id@),
                pipeline.nodes@,
                arity@,
                strs_view(result.outputs@),
            ),
            !(result.code.spec_is_success() && !(result.code is Done || result.code is Error
                || result.code is Cancelled)) ==> final(self).sv() == old(self).sv(),
    {
        let mut k: usize = 0;
        while k < self.results.len()
            invariant
                k <= self.results@.len(),
                forall|j: int| 0 <= j < k ==> #[trigger] self.results@[j].effective_id@ != result.effective_id@,
                *self == *old(self),
                old(self).wf(),
            decreases self.results.len() - k,
        {
            if str_eq(self.results[k].effective_id.as_str(), result.effective_id.as_str()) {
                return false;
            }
            k += 1;
        }
        let ok = result.is_success();
        let terminal = result.is_terminal();
        let outputs = crate::pipeline::copy_strings(&result.outputs);
        let eid = result.effective_id.clone();
        let ghost rv = result@;
        let ghost r0 = self.results@;
        let ghost rid = result.effective_id@;
        self.results.push(result);
        assert(crate::rerun::results_view(self.results@) =~= crate::rerun::results_view(r0).push(rv));
        proof {
            let rs = self.results@;
            assert forall|i: int, j: int| 0 <= i < j < rs.len() implies #[trigger] rs[i].effective_id@ != #[trigger] rs[j].effective_id@ by {
                if j == r0.len() {
                    assert(rs[i] == r0[i]);
                } else {
                    assert(rs[i] == r0[i] && rs[j] == r0[j]);
                }
            }
        }
        if ok && !terminal {
            self.dispatch(pipeline, arity, eid.as_str(), &outputs);
        }
        true
    }
}

/// A node is handed out at most once in a run: the ids taken off the
/// queue are pairwise distinct, and the next one to be taken was never
/// taken before (so each node runs, and is completed, at most once).
pub proof fn law_node_taken_once(s: Scheduler)
    requires
        s.wf(),
    ensures
        forall|i: int, j: int| 0 <= i < j < s.taken@.len() ==> #[trigger] s.taken@[i] != #[trigger] s.taken@[j],
        s.queue@.len() > 0 ==> !s.taken@.contains(s.sv().queue[0].0),
{
    if s.queue@.len() > 0 {
        assert forall|i: int| 0 <= i < s.taken@.len() implies s.taken@[i] != s.sv().queue[0].0 by {}
    }
}

/// Each node's result is recorded at most once in a run: the recorded
/// results have pairwise distinct effective ids.
pub proof fn law_results_recorded_once(s: Scheduler)
    requires
        s.wf(),
    ensures
        forall|i: int, j: int| 0 <= i < j < s.results@.len() ==> #[trigger] s.results@[i].effective_id@
            != #[trigger] s.results@[j].effective_id@,
{
}

/// Inputs in ascending order of port.
pub open spec fn ports_ascending(s: Seq<(usize, Seq<char>)>) -> bool {
    forall|i: int, j: int| 0 <= i < j < s.len() ==> #[trigger] s[i].0 <= #[trigger] s[j].0
}

/// Inserting an input whose port is at most `b` into inputs whose ports
/// are at most `b` gives one more input, all with ports at most `b`.
proof fn lemma_insert_bounded(t: Seq<(usize, Seq<char>)>, x: (usize, Seq<char>), b: usize)
    requires
        forall|i: int| 0 <= i < t.len() ==> #[trigger] t[i].0 <= b,
        x.0 <= b,
    ensures
        insert_by_port(t, x).len() == t.len() + 1,
        forall|k: int| 0 <= k < insert_by_port(t, x).len() ==> #[trigger] insert_by_port(t, x)[k].0 <= b,
    decreases t.len(),
{
    if !(t.len() == 0 || t.last().0 <= x.0) {
        let d = t.drop_last();
        assert forall|i: int| 0 <= i < d.len() implies #[trigger] d[i].0 <= b by {
            assert(d[i] == t[i]);
        }
        lemma_insert_bounded(d, x, b);
        let r = insert_by_port(t, x);
        assert forall|k: int| 0 <= k < r.len() implies #[trigger] r[k].0 <= b by {
            if k < r.len() - 1 {
                assert(r[k] == insert_by_port(d, x)[k]);
            } else {
                assert(r[k] == t.last());
            }
        }
    }
}

/// Inserting into inputs in ascending port order keeps them in that order
/// and adds exactly the inserted input.
proof fn lemma_insert_sorted(t: Seq<(usize, Seq<char>)>, x: (usize, Seq<char>))
    requires
        ports_ascending(t),
    ensures
        ports_ascending(insert_by_port(t, x)),
        insert_by_port(t, x).to_multiset() == t.to_multiset().insert(x),
    decreases t.len(),
{
    broadcast use vstd::seq_lib::group_to_multiset_ensures;

    let r = insert_by_port(t, x);
    if t.len() == 0 || t.last().0 <= x.0 {
        assert forall|i: int, j: int| 0 <= i < j < r.len() implies #[trigger] r[i].0 <= #[trigger] r[j].0 by {
            if j == t.len() {
                if t.len() > 0 {
                    assert(r[i] == t[i]);
                    if i < t.len() - 1 {
                        assert(t[i].0 <= t[t.len() - 1].0);
                    }
                }
            } else {
                assert(r[i] == t[i] && r[j] == t[j]);
            }
        }
    } else {
        let d = t.drop_last();
        let last = t.last();
        assert forall|i: int, j: int| 0 <= i < j < d.len() implies #[trigger] d[i].0 <= #[trigger] d[j].0 by {
            assert(d[i] == t[i] && d[j] == t[j]);
        }
        assert forall|i: int| 0 <= i < d.len() implies #[trigger] d[i].0 <= last.0 by {
            assert(d[i] == t[i]);
            assert(t[i].0 <= t[t.len() - 1].0);
        }
        lemma_insert_sorted(d, x);
        lemma_insert_bounded(d, x, last.0);
        let m = insert_by_port(d, x);
        assert(r == m.push(last));
        assert forall|i: int, j: int| 0 <= i < j < r.len() implies #[trigger] r[i].0 <= #[trigger] r[j].0 by {
            assert(r[i] == m[i]);
            if j < m.len() {
                assert(r[j] == m[j]);
            } else {
                assert(r[j] == last);
                assert(m[i].0 <= last.0);
            }
        }
        assert(t =~= d.push(last));
        assert(r.to_multiset() =~= t.to_multiset().insert(x));
    }
}

/// A node is queued with its collected inputs ordered by ascending input
/// port: the ordered list has every port no greater than the ports after
/// it, and holds exactly the collected inputs (each as often).
pub proof fn law_inputs_by_ascending_port(s: Seq<(usize, Seq<char>)>)
    ensures
        forall|i: int, j: int|
            0 <= i < j < sort_by_port(s).len() ==> #[trigger] sort_by_port(s)[i].0 <= #[trigger] sort_by_port(s)[j].0,
        sort_by_port(s).to_multiset() == s.to_multiset(),
        sort_by_port(s).len() == s.len(),
    decreases s.len(),
{
    broadcast use vstd::seq_lib::group_to_multiset_ensures;

    if s.len() > 0 {
        law_inputs_by_ascending_port(s.drop_last());
        lemma_insert_sorted(sort_by_port(s.drop_last()), s.last());
        assert(s =~= s.drop_last().push(s.last()));
    }
    assert(sort_by_port(s).to_multiset().len() == sort_by_port(s).len());
    assert(s.to_multiset().len() == s.len());
}

} // verus!
