//! Re-running post-processing on a recording that was processed before.
//!
//! A node must run again when it did not succeed last time, when its module,
//! parameters or wiring changed (seen through its configuration fingerprint),
//! or when an output it recorded no longer exists; and so must every node
//! downstream of such a node. Nodes that need not run hand their recorded
//! outputs to the nodes after them, and their recorded results join the
//! results of the nodes that ran.
use vstd::prelude::*;
use crate::meta::{PpExecCode, PpExecutionEntry, grouped_view, last_entry_with, lemma_last_entry_with};
use crate::pipeline::{NodeResult, NodeResultV, PipelineConfig, PipelineEdge, PipelineNode, edges_spec};
use crate::text::{join_seq, str_eq, strs_view, vec_contains_str};
use crate::bundle::ungroup_paths_from_bundle;

verus! {

/// Whether every path of a port-grouped list is among `existing`.
pub open spec fn all_exist(outputs: Seq<Vec<String>>, existing: Seq<Seq<char>>) -> bool {
    forall|i: int, j: int|
        0 <= i < outputs.len() && 0 <= j < outputs[i]@.len() ==> existing.contains(
            #[trigger] outputs[i]@[j]@,
        )
}

/// Whether every recorded output path still exists; `existing` lists the
/// recorded paths that exist on disk. No outputs at all pass.
pub fn all_recorded_outputs_exist(outputs: &Vec<Vec<String>>, existing: &Vec<String>) -> (r: bool)
    ensures
        r == all_exist(outputs@, strs_view(existing@)),
{
    let mut i: usize = 0;
    while i < outputs.len()
        invariant
            i <= outputs.len(),
            forall|a: int, b: int|
                0 <= a < i && 0 <= b < outputs@[a]@.len() ==> strs_view(existing@).contains(
                    #[trigger] outputs@[a]@[b]@,
                ),
        decreases outputs.len() - i,
    {
        let port = &outputs[i];
        let mut j: usize = 0;
        while j < port.len()
            invariant
                i < outputs.len(),
                port == &outputs[i as int],
                j <= port.len(),
                forall|a: int, b: int|
                    0 <= a < i && 0 <= b < outputs@[a]@.len() ==> strs_view(existing@).contains(
                        #[trigger] outputs@[a]@[b]@,
                    ),
                forall|b: int| 0 <= b < j ==> strs_view(existing@).contains(#[trigger] port@[b]@),
            decreases port.len() - j,
        {
            if !vec_contains_str(existing, port[j].as_str()) {
                return false;
            }
            j += 1;
        }
        i += 1;
    }
    true
}

/// The recorded output paths of the records, port after port: the paths
/// whose existence the functions of this module are told about.
pub open spec fn recorded_paths_spec(es: Seq<PpExecutionEntry>) -> Seq<Seq<char>>
    decreases es.len(),
{
    if es.len() == 0 {
        seq![]
    } else {
        recorded_paths_spec(es.drop_last()) + crate::meta::flat_paths(es.last().outputs@).map_values(
            |p: String| p@,
        )
    }
}

/// Index of the first record whose effective id is `id`, or -1.
pub open spec fn entry_index(es: Seq<PpExecutionEntry>, id: Seq<char>) -> int
    decreases es.len(),
{
    if es.len() == 0 {
        -1
    } else if entry_index(es.drop_last(), id) >= 0 {
        entry_index(es.drop_last(), id)
    } else if es.last().eid() == id {
        es.len() - 1
    } else {
        -1
    }
}

/// `entry_index` is the least index with the id, or -1.
pub proof fn lemma_entry_index(es: Seq<PpExecutionEntry>, id: Seq<char>)
    ensures
        -1 <= entry_index(es, id) < es.len(),
        entry_index(es, id) >= 0 ==> es[entry_index(es, id)].eid() == id,
        forall|j: int|
            0 <= j < es.len() && (entry_index(es, id) < 0 || j < entry_index(es, id))
                ==> #[trigger] es[j].eid() != id,
    decreases es.len(),
{
    if es.len() > 0 {
        lemma_entry_index(es.drop_last(), id);
        assert forall|j: int| 0 <= j < es.len() - 1 implies #[trigger] es[j] == es.drop_last()[j] by {}
    }
}

/// Index of the first record whose effective id is `id` (executable).
pub fn find_entry(es: &Vec<PpExecutionEntry>, id: &str) -> (r: Option<usize>)
    ensures
        r matches Some(i) ==> i as int == entry_index(es@, id@),
        r is None ==> entry_index(es@, id@) == -1,
{
    proof {
        lemma_entry_index(es@, id@);
    }
    let mut i: usize = 0;
    while i < es.len()
        invariant
            i <= es.len(),
            forall|j: int| 0 <= j < i ==> #[trigger] es@[j].eid() != id@,
            -1 <= entry_index(es@, id@) < es@.len(),
            entry_index(es@, id@) >= 0 ==> es@[entry_index(es@, id@)].eid() == id@,
            forall|j: int|
                0 <= j < es@.len() && (entry_index(es@, id@) < 0 || j < entry_index(es@, id@))
                    ==> #[trigger] es@[j].eid() != id@,
        decreases es.len() - i,
    {
        if str_eq(es[i].effective_id(), id) {
            assert(es@[i as int].eid() == id@);
            return Some(i);
        }
        i += 1;
    }
    None
}

/// Whether a node changed since its last run: it has no record, its record
/// did not succeed, its module or its configuration fingerprint differs, or
/// one of its recorded outputs no longer exists.
pub open spec fn self_changed(
    n: PipelineNode,
    fingerprint: Seq<char>,
    prev: Seq<PpExecutionEntry>,
    existing: Seq<Seq<char>>,
) -> bool {
    let k = entry_index(prev, n.eid());
    if k < 0 {
        true
    } else {
        let e = prev[k];
        ||| !e.succeeded()
        ||| e.module_id@ != n.module_id@
        ||| e.config_fingerprint@ != fingerprint
        ||| !all_exist(e.outputs@, existing)
    }
}

/// Whether a node changed since its last run (executable). `fingerprint`
/// is the node's current configuration fingerprint.
pub fn node_self_changed(
    node: &PipelineNode,
    fingerprint: &str,
    prev_execution: &Vec<PpExecutionEntry>,
    existing: &Vec<String>,
) -> (r: bool)
    ensures
        r == self_changed(*node, fingerprint@, prev_execution@, strs_view(existing@)),
{
    let k = match find_entry(prev_execution, node.effective_id().as_str()) {
        Some(k) => k,
        None => {
            return true;
        },
    };
    proof {
        lemma_entry_index(prev_execution@, node.eid());
    }
    let e = &prev_execution[k];
    let was_success = match &e.result {
        Some(res) => res.code.is_success(),
        None => false,
    };
    if !was_success {
        return true;
    }
    if !str_eq(e.module_id.as_str(), node.module_id.as_str()) {
        return true;
    }
    if !str_eq(e.config_fingerprint.as_str(), fingerprint) {
        return true;
    }
    if !all_recorded_outputs_exist(&e.outputs, existing) {
        return true;
    }
    false
}

/// The ids of a list of strings, as a set.
pub open spec fn set_of(v: Seq<String>) -> Set<Seq<char>> {
    Set::new(|x: Seq<char>| strs_view(v).contains(x))
}

/// Adding a string to a list adds it to the set of its strings.
pub proof fn lemma_set_of_push(v: Seq<String>, x: String)
    ensures
        set_of(v.push(x)) == set_of(v).insert(x@),
{
    let a = strs_view(v.push(x));
    let b = strs_view(v);
    assert(a =~= b.push(x@));
    assert forall|y: Seq<char>| #[trigger] a.contains(y) <==> b.contains(y) || y == x@ by {
        if b.contains(y) {
            let j = choose|j: int| 0 <= j < b.len() && b[j] == y;
            assert(a[j] == y);
        }
        if y == x@ {
            assert(a[b.len() as int] == y);
        }
        if a.contains(y) {
            let j = choose|j: int| 0 <= j < a.len() && a[j] == y;
            if j < b.len() {
                assert(b[j] == y);
            }
        }
    }
    assert(set_of(v.push(x)) =~= set_of(v).insert(x@));
}

/// The ids of the enabled nodes that changed on their own.
pub open spec fn seeds_spec(
    nodes: Seq<PipelineNode>,
    fps: Seq<String>,
    prev: Seq<PpExecutionEntry>,
    existing: Seq<Seq<char>>,
) -> Set<Seq<char>> {
    Set::new(
        |id: Seq<char>|
            exists|i: int|
                0 <= i < nodes.len() && #[trigger] nodes[i].eid() == id && nodes[i].enabled
                    && self_changed(nodes[i], fps[i]@, prev, existing),
    )
}

/// Whether every edge that starts in `s` ends in `s`.
pub open spec fn closed_under(s: Set<Seq<char>>, edges: Seq<PipelineEdge>) -> bool {
    forall|i: int|
        0 <= i < edges.len() && s.contains(#[trigger] edges[i].from_node_id@) ==> s.contains(
            edges[i].to_node_id@,
        )
}

/// Number of edges whose target is not in `s`.
pub open spec fn open_edges(edges: Seq<PipelineEdge>, s: Set<Seq<char>>) -> nat
    decreases edges.len(),
{
    if edges.len() == 0 {
        0
    } else {
        open_edges(edges.drop_last(), s) + if s.contains(edges.last().to_node_id@) {
            0nat
        } else {
            1nat
        }
    }
}

/// Growing the set never opens more edges, and closes at least one edge when
/// it adds the target of an open edge.
proof fn lemma_open_edges_mono(edges: Seq<PipelineEdge>, a: Set<Seq<char>>, b: Set<Seq<char>>, k: int)
    requires
        a.subset_of(b),
    ensures
        open_edges(edges, b) <= open_edges(edges, a),
        0 <= k < edges.len() && !a.contains(edges[k].to_node_id@) && b.contains(edges[k].to_node_id@)
            ==> open_edges(edges, b) < open_edges(edges, a),
    decreases edges.len(),
{
    if edges.len() > 0 {
        let t = edges.drop_last();
        if k == edges.len() - 1 {
            lemma_open_edges_mono(t, a, b, -1);
        } else {
            lemma_open_edges_mono(t, a, b, k);
            if 0 <= k < edges.len() - 1 {
                assert(t[k] == edges[k]);
            }
        }
    }
}

/// The nodes that must run again: the least set that holds every enabled
/// node that changed on its own and, with the source of an edge, its target.
/// `fingerprints[i]` is the current configuration fingerprint of node `i`;
/// `existing` lists the recorded output paths that exist on disk.
pub fn compute_dirty_nodes(
    pipeline: &PipelineConfig,
    prev_execution: &Vec<PpExecutionEntry>,
    fingerprints: &Vec<String>,
    existing: &Vec<String>,
) -> (r: Vec<String>)
    requires
        fingerprints@.len() == pipeline.nodes@.len(),
    ensures
        ({
            let d = set_of(r@);
            let seeds = seeds_spec(
                pipeline.nodes@,
                fingerprints@,
                prev_execution@,
                strs_view(existing@),
            );
            let edges = edges_spec(pipeline.nodes@);
            &&& seeds.subset_of(d)
            &&& closed_under(d, edges)
            &&& forall|s: Set<Seq<char>>|
                seeds.subset_of(s) && closed_under(s, edges) ==> #[trigger] d.subset_of(s)
        }),
{
    let ghost seeds = seeds_spec(pipeline.nodes@, fingerprints@, prev_execution@, strs_view(existing@));
    let edges = pipeline.resolved_edges();
    let mut dirty: Vec<String> = Vec::new();
    let mut i: usize = 0;
    while i < pipeline.nodes.len()
        invariant
            i <= pipeline.nodes.len(),
            fingerprints@.len() == pipeline.nodes@.len(),
            seeds == seeds_spec(pipeline.nodes@, fingerprints@, prev_execution@, strs_view(existing@)),
            set_of(dirty@).subset_of(seeds),
            forall|j: int|
                0 <= j < i && #[trigger] pipeline.nodes@[j].enabled && self_changed(
                    pipeline.nodes@[j],
                    fingerprints@[j]@,
                    prev_execution@,
                    strs_view(existing@),
                ) ==> set_of(dirty@).contains(pipeline.nodes@[j].eid()),
        decreases pipeline.nodes.len() - i,
    {
        let n = &pipeline.nodes[i];
        if n.enabled && node_self_changed(n, fingerprints[i].as_str(), prev_execution, existing) {
            let id = n.effective_id();
            if !vec_contains_str(&dirty, id.as_str()) {
                let ghost before = dirty@;
                let idc = id.clone();
                dirty.push(idc);
                proof {
                    lemma_set_of_push(before, idc);
                }
            }
            assert(set_of(dirty@).contains(pipeline.nodes@[i as int].eid()));
        }
        i += 1;
    }
    assert(seeds.subset_of(set_of(dirty@))) by {
        assert forall|id: Seq<char>| seeds.contains(id) implies set_of(dirty@).contains(id) by {
            let j = choose|j: int|
                0 <= j < pipeline.nodes@.len() && #[trigger] pipeline.nodes@[j].eid() == id
                    && pipeline.nodes@[j].enabled && self_changed(
                    pipeline.nodes@[j],
                    fingerprints@[j]@,
                    prev_execution@,
                    strs_view(existing@),
                );
            assert(pipeline.nodes@[j].enabled);
        }
    }
    loop
        invariant
            edges@ == edges_spec(pipeline.nodes@),
            seeds.subset_of(set_of(dirty@)),
            forall|s: Set<Seq<char>>|
                seeds.subset_of(s) && closed_under(s, edges@) ==> #[trigger] set_of(dirty@).subset_of(s),
        ensures
            seeds.subset_of(set_of(dirty@)),
            closed_under(set_of(dirty@), edges@),
            forall|s: Set<Seq<char>>|
                seeds.subset_of(s) && closed_under(s, edges@) ==> #[trigger] set_of(dirty@).subset_of(s),
        decreases open_edges(edges@, set_of(dirty@)),
    {
        let ghost start = set_of(dirty@);
        let mut added = false;
        let mut k: usize = 0;
        while k < edges.len()
            invariant
                k <= edges.len(),
                edges@ == edges_spec(pipeline.nodes@),
                seeds.subset_of(set_of(dirty@)),
                start.subset_of(set_of(dirty@)),
                !added ==> set_of(dirty@) == start,
                added ==> open_edges(edges@, set_of(dirty@)) < open_edges(edges@, start),
                forall|s: Set<Seq<char>>|
                    seeds.subset_of(s) && closed_under(s, edges@) ==> #[trigger] set_of(
                        dirty@,
                    ).subset_of(s),
                !added ==> forall|j: int|
                    0 <= j < k && set_of(dirty@).contains(#[trigger] edges@[j].from_node_id@)
                        ==> set_of(dirty@).contains(edges@[j].to_node_id@),
            decreases edges.len() - k,
        {
            let e = &edges[k];
            if vec_contains_str(&dirty, e.from_node_id.as_str()) && !vec_contains_str(
                &dirty,
                e.to_node_id.as_str(),
            ) {
                let ghost before = set_of(dirty@);
                let ghost bv = dirty@;
                let toc = e.to_node_id.clone();
                dirty.push(toc);
                proof {
                    lemma_set_of_push(bv, toc);
                }
                proof {
                    lemma_open_edges_mono(edges@, start, set_of(dirty@), k as int);
                    lemma_open_edges_mono(edges@, before, set_of(dirty@), k as int);
                    assert forall|s: Set<Seq<char>>|
                        seeds.subset_of(s) && closed_under(s, edges@) implies #[trigger] set_of(
                        dirty@,
                    ).subset_of(s) by {
                        assert(before.subset_of(s));
                        assert(s.contains(edges@[k as int].from_node_id@));
                    }
                }
                added = true;
            }
            k += 1;
        }
        if !added {
            break;
        }
    }
    dirty
}

} // verus!

verus! {

// ───────────────────────── the pipeline that runs ─────────────────────────

/// The nodes that take part in a re-run: disabled nodes (passed through
/// when run) and enabled nodes that must run again.
pub open spec fn kept_nodes(nodes: Seq<PipelineNode>, dirty: Set<Seq<char>>) -> Seq<PipelineNode>
    decreases nodes.len(),
{
    if nodes.len() == 0 {
        seq![]
    } else if !nodes.last().enabled || dirty.contains(nodes.last().eid()) {
        kept_nodes(nodes.drop_last(), dirty).push(nodes.last())
    } else {
        kept_nodes(nodes.drop_last(), dirty)
    }
}

/// The pipeline without the enabled nodes that need not run again; the
/// wiring of the kept nodes is unchanged.
pub fn build_effective_pipeline(pipeline: PipelineConfig, dirty_nodes: &Vec<String>) -> (r:
    PipelineConfig)
    ensures
        r.version == pipeline.version,
        r.nodes@ == kept_nodes(pipeline.nodes@, set_of(dirty_nodes@)),
{
    let PipelineConfig { version, nodes } = pipeline;
    let ghost orig = nodes@;
    let mut src = nodes;
    let mut kept: Vec<PipelineNode> = Vec::new();
    let mut k: usize = 0;
    assert(orig.len() == src.len());
    while src.len() > 0
        invariant
            k <= orig.len(),
            orig.len() == k + src@.len(),
            orig.len() <= usize::MAX,
            src@ == orig.subrange(k as int, orig.len() as int),
            kept@ == kept_nodes(orig.take(k as int), set_of(dirty_nodes@)),
        decreases src.len(),
    {
        let n = src.remove(0);
        assert(orig.take(k + 1).drop_last() =~= orig.take(k as int));
        assert(n == orig[k as int]);
        if !n.enabled || vec_contains_str(dirty_nodes, n.effective_id().as_str()) {
            kept.push(n);
        }
        k += 1;
        assert(src@ =~= orig.subrange(k as int, orig.len() as int));
    }
    assert(orig.take(k as int) =~= orig);
    PipelineConfig { version, nodes: kept }
}

// ───────────────────────── inputs from earlier runs ─────────────────────────

/// A map from node id to the (input port, path) pairs collected for it.
pub type PreV = Seq<(Seq<char>, Seq<(usize, Seq<char>)>)>;

/// The view of collected inputs.
pub open spec fn pre_view(v: Seq<(String, Vec<(usize, String)>)>) -> PreV {
    v.map_values(
        |p: (String, Vec<(usize, String)>)|
            (p.0@, p.1@.map_values(|q: (usize, String)| (q.0, q.1@))),
    )
}

/// Position of the first entry for `k`, or -1.
pub open spec fn pre_index(s: PreV, k: Seq<char>) -> int
    decreases s.len(),
{
    if s.len() == 0 {
        -1
    } else if pre_index(s.drop_last(), k) >= 0 {
        pre_index(s.drop_last(), k)
    } else if s.last().0 == k {
        s.len() - 1
    } else {
        -1
    }
}

/// `pre_index` is the least position of the key, or -1.
proof fn lemma_pre_index(s: PreV, k: Seq<char>)
    ensures
        -1 <= pre_index(s, k) < s.len(),
        pre_index(s, k) >= 0 ==> s[pre_index(s, k)].0 == k,
        forall|j: int|
            0 <= j < s.len() && (pre_index(s, k) < 0 || j < pre_index(s, k)) ==> #[trigger] s[j].0
                != k,
    decreases s.len(),
{
    if s.len() > 0 {
        lemma_pre_index(s.drop_last(), k);
        assert forall|j: int| 0 <= j < s.len() - 1 implies #[trigger] s[j] == s.drop_last()[j] by {}
    }
}

/// `pre_index` is the least position of the key, or -1.
pub proof fn lemma_pre_index_pub(s: PreV, k: Seq<char>)
    ensures
        -1 <= pre_index(s, k) < s.len(),
        pre_index(s, k) >= 0 ==> s[pre_index(s, k)].0 == k,
        forall|j: int|
            0 <= j < s.len() && (pre_index(s, k) < 0 || j < pre_index(s, k)) ==> #[trigger] s[j].0
                != k,
{
    lemma_pre_index(s, k);
}

/// Appends `item` to the inputs collected for `k`.
pub open spec fn pre_push(s: PreV, k: Seq<char>, item: (usize, Seq<char>)) -> PreV {
    if pre_index(s, k) >= 0 {
        s.update(pre_index(s, k), (k, s[pre_index(s, k)].1.push(item)))
    } else {
        s.push((k, seq![item]))
    }
}

/// What the edges out of `from` carry, given the outputs `outs` of `from`:
/// each edge whose output port exists adds that output to its target.
pub open spec fn edge_fill(s: PreV, edges: Seq<PipelineEdge>, from: Seq<char>, outs: Seq<Seq<char>>) -> PreV
    decreases edges.len(),
{
    if edges.len() == 0 {
        s
    } else {
        let prev = edge_fill(s, edges.drop_last(), from, outs);
        let e = edges.last();
        if e.from_node_id@ == from && e.from_port < outs.len() {
            pre_push(prev, e.to_node_id@, (e.to_port, outs[e.from_port as int]))
        } else {
            prev
        }
    }
}

/// The flat, one-path-per-port form of recorded outputs.
pub open spec fn ungrouped(outputs: Seq<Vec<String>>) -> Seq<Seq<char>> {
    outputs.map_values(|p: Vec<String>| join_seq(strs_view(p@), '\n'))
}

/// Whether a record may hand its outputs on: it is not dirty, succeeded,
/// recorded outputs, and all of them still exist.
pub open spec fn reusable(e: PpExecutionEntry, dirty: Set<Seq<char>>, existing: Seq<Seq<char>>) -> bool {
    !dirty.contains(e.eid()) && e.succeeded() && e.outputs@.len() > 0 && all_exist(
        e.outputs@,
        existing,
    )
}

/// The inputs that the nodes which need not run again hand to the nodes after them.
pub open spec fn pre_spec(
    es: Seq<PpExecutionEntry>,
    edges: Seq<PipelineEdge>,
    dirty: Set<Seq<char>>,
    existing: Seq<Seq<char>>,
) -> PreV
    decreases es.len(),
{
    if es.len() == 0 {
        seq![]
    } else {
        let prev = pre_spec(es.drop_last(), edges, dirty, existing);
        let e = es.last();
        if reusable(e, dirty, existing) {
            edge_fill(prev, edges, e.eid(), ungrouped(e.outputs@))
        } else {
            prev
        }
    }
}

/// Appends `item` to the inputs collected for `k` (executable).
pub(crate) fn pre_push_exec(s: &mut Vec<(String, Vec<(usize, String)>)>, k: &String, item: (usize, String))
    ensures
        pre_view(final(s)@) == pre_push(pre_view(old(s)@), k@, (item.0, item.1@)),
{
    let ghost sv = pre_view(s@);
    proof {
        lemma_pre_index(sv, k@);
    }
    let mut i: usize = 0;
    while i < s.len()
        invariant
            i <= s.len(),
            sv == pre_view(s@),
            s@ == old(s)@,
            -1 <= pre_index(sv, k@) < sv.len(),
            pre_index(sv, k@) >= 0 ==> sv[pre_index(sv, k@)].0 == k@,
            forall|j: int|
                0 <= j < sv.len() && (pre_index(sv, k@) < 0 || j < pre_index(sv, k@))
                    ==> #[trigger] sv[j].0 != k@,
            forall|j: int| 0 <= j < i ==> #[trigger] sv[j].0 != k@,
        decreases s.len() - i,
    {
        if str_eq(s[i].0.as_str(), k.as_str()) {
            assert(sv[i as int].0 == k@);
            assert(pre_index(sv, k@) == i);
            let (key, mut items) = s.remove(i);
            let ghost old_items = items@;
            items.push(item);
            s.insert(i, (key, items));
            assert(pre_view(s@) =~= pre_push(sv, k@, (item.0, item.1@))) by {
                assert(items@.map_values(|q: (usize, String)| (q.0, q.1@)) =~= old_items.map_values(
                    |q: (usize, String)| (q.0, q.1@),
                ).push((item.0, item.1@)));
            }
            return;
        }
        i += 1;
    }
    let mut items: Vec<(usize, String)> = Vec::new();
    items.push(item);
    s.push((k.clone(), items));
    assert(pre_view(s@) =~= pre_push(sv, k@, (item.0, item.1@))) by {
        assert(items@.map_values(|q: (usize, String)| (q.0, q.1@)) =~= seq![(item.0, item.1@)]);
    }
}

/// The inputs that the nodes which need not run again hand to the nodes
/// after them, keyed by target node id: for each record that is not dirty,
/// succeeded and whose recorded outputs all exist, each edge out of it
/// carries its output on the edge's port to the edge's target.
pub fn build_pre_collected(
    pipeline: &PipelineConfig,
    prev_execution: &Vec<PpExecutionEntry>,
    dirty_nodes: &Vec<String>,
    existing: &Vec<String>,
) -> (r: Vec<(String, Vec<(usize, String)>)>)
    ensures
        pre_view(r@) == pre_spec(
            prev_execution@,
            edges_spec(pipeline.nodes@),
            set_of(dirty_nodes@),
            strs_view(existing@),
        ),
{
    let edges = pipeline.resolved_edges();
    let mut pre: Vec<(String, Vec<(usize, String)>)> = Vec::new();
    let mut i: usize = 0;
    while i < prev_execution.len()
        invariant
            i <= prev_execution.len(),
            edges@ == edges_spec(pipeline.nodes@),
            pre_view(pre@) == pre_spec(
                prev_execution@.take(i as int),
                edges@,
                set_of(dirty_nodes@),
                strs_view(existing@),
            ),
        decreases prev_execution.len() - i,
    {
        assert(prev_execution@.take(i + 1).drop_last() =~= prev_execution@.take(i as int));
        let e = &prev_execution[i];
        let eid = e.effective_id();
        let success = match &e.result {
            Some(res) => res.code.is_success(),
            None => false,
        };
        if !vec_contains_str(dirty_nodes, eid) && success && e.outputs.len() > 0
            && all_recorded_outputs_exist(&e.outputs, existing) {
            let outs = ungroup_paths_from_bundle(&e.outputs);
            assert(strs_view(outs@) =~= ungrouped(e.outputs@));
            let ghost base = pre_view(pre@);
            let mut k: usize = 0;
            while k < edges.len()
                invariant
                    k <= edges.len(),
                    pre_view(pre@) == edge_fill(base, edges@.take(k as int), eid@, strs_view(outs@)),
                decreases edges.len() - k,
            {
                assert(edges@.take(k + 1).drop_last() =~= edges@.take(k as int));
                let ed = &edges[k];
                if str_eq(ed.from_node_id.as_str(), eid) && ed.from_port < outs.len() {
                    pre_push_exec(&mut pre, &ed.to_node_id, (ed.to_port, outs[ed.from_port].clone()));
                }
                k += 1;
            }
            assert(edges@.take(k as int) =~= edges@);
        }
        i += 1;
    }
    assert(prev_execution@.take(i as int) =~= prev_execution@);
    pre
}

} // verus!

verus! {

// ───────────────────────── results ─────────────────────────

/// Index of the first result whose effective id is `id`, or -1.
pub open spec fn result_index(rs: Seq<NodeResultV>, id: Seq<char>) -> int
    decreases rs.len(),
{
    if rs.len() == 0 {
        -1
    } else if result_index(rs.drop_last(), id) >= 0 {
        result_index(rs.drop_last(), id)
    } else if rs.last().0 == id {
        rs.len() - 1
    } else {
        -1
    }
}

/// `result_index` is the least index with the id, or -1.
proof fn lemma_result_index(rs: Seq<NodeResultV>, id: Seq<char>)
    ensures
        -1 <= result_index(rs, id) < rs.len(),
        result_index(rs, id) >= 0 ==> rs[result_index(rs, id)].0 == id,
        forall|j: int|
            0 <= j < rs.len() && (result_index(rs, id) < 0 || j < result_index(rs, id))
                ==> #[trigger] rs[j].0 != id,
    decreases rs.len(),
{
    if rs.len() > 0 {
        lemma_result_index(rs.drop_last(), id);
        assert forall|j: int| 0 <= j < rs.len() - 1 implies #[trigger] rs[j] == rs.drop_last()[j] by {}
    }
}

/// The views of a list of results.
pub open spec fn results_view(v: Seq<NodeResult>) -> Seq<NodeResultV> {
    v.map_values(|r: NodeResult| r@)
}

/// Index of the first record with id `id` that succeeded, or -1.
pub open spec fn success_index(es: Seq<PpExecutionEntry>, id: Seq<char>) -> int
    decreases es.len(),
{
    if es.len() == 0 {
        -1
    } else if success_index(es.drop_last(), id) >= 0 {
        success_index(es.drop_last(), id)
    } else if es.last().eid() == id && es.last().succeeded() {
        es.len() - 1
    } else {
        -1
    }
}

/// `success_index` is the least index of a successful record with the id, or -1.
proof fn lemma_success_index(es: Seq<PpExecutionEntry>, id: Seq<char>)
    ensures
        -1 <= success_index(es, id) < es.len(),
        success_index(es, id) >= 0 ==> es[success_index(es, id)].eid() == id && es[success_index(
            es,
            id,
        )].succeeded(),
        forall|j: int|
            0 <= j < es.len() && (success_index(es, id) < 0 || j < success_index(es, id))
                ==> !(#[trigger] es[j].eid() == id && es[j].succeeded()),
    decreases es.len(),
{
    if es.len() > 0 {
        lemma_success_index(es.drop_last(), id);
        assert forall|j: int| 0 <= j < es.len() - 1 implies #[trigger] es[j] == es.drop_last()[j] by {}
    }
}

/// The result that a successful record stands for.
pub open spec fn result_of_entry(e: PpExecutionEntry) -> NodeResultV {
    (
        e.eid(),
        e.module_id@,
        match e.result {
            Some(r) => r.code,
            None => PpExecCode::Okay,
        },
        match e.result {
            Some(r) => match r.message {
                Some(m) => m@,
                None => seq![],
            },
            None => seq![],
        },
        ungrouped(e.outputs@),
        ungrouped(e.inputs@),
    )
}

/// The results of a re-run, one per enabled node in pipeline order: the new
/// result of the node when it ran; otherwise, when it was not dirty, the
/// result of its first successful record, if that record's outputs still exist.
pub open spec fn merge_spec(
    nodes: Seq<PipelineNode>,
    new_results: Seq<NodeResultV>,
    prev: Seq<PpExecutionEntry>,
    dirty: Set<Seq<char>>,
    existing: Seq<Seq<char>>,
) -> Seq<NodeResultV>
    decreases nodes.len(),
{
    if nodes.len() == 0 {
        seq![]
    } else {
        let m = merge_spec(nodes.drop_last(), new_results, prev, dirty, existing);
        let n = nodes.last();
        let k = result_index(new_results, n.eid());
        let j = success_index(prev, n.eid());
        if !n.enabled {
            m
        } else if k >= 0 {
            m.push(new_results[k])
        } else if dirty.contains(n.eid()) {
            m
        } else if j >= 0 && all_exist(prev[j].outputs@, existing) {
            m.push(result_of_entry(prev[j]))
        } else {
            m
        }
    }
}

/// The result that a successful record stands for (executable).
fn result_from_entry(e: &PpExecutionEntry) -> (r: NodeResult)
    ensures
        r@ == result_of_entry(*e),
{
    let code = match &e.result {
        Some(res) => res.code,
        None => PpExecCode::Okay,
    };
    let message = match &e.result {
        Some(res) => match &res.message {
            Some(m) => m.clone(),
            None => String::new(),
        },
        None => String::new(),
    };
    let outs = ungroup_paths_from_bundle(&e.outputs);
    let ins = ungroup_paths_from_bundle(&e.inputs);
    assert(strs_view(outs@) =~= ungrouped(e.outputs@));
    assert(strs_view(ins@) =~= ungrouped(e.inputs@));
    NodeResult {
        effective_id: e.effective_id().to_owned(),
        module_id: e.module_id.clone(),
        code,
        message,
        outputs: outs,
        inputs: ins,
    }
}

/// The results of a re-run: for each enabled node in pipeline order, its new
/// result when it ran this time; otherwise, when it is not dirty, the result
/// of its first successful record whose outputs all still exist.
pub fn merge_with_prev_results(
    new_results: Vec<NodeResult>,
    prev_execution: &Vec<PpExecutionEntry>,
    pipeline: &PipelineConfig,
    dirty_nodes: &Vec<String>,
    existing: &Vec<String>,
) -> (r: Vec<NodeResult>)
    ensures
        results_view(r@) == merge_spec(
            pipeline.nodes@,
            results_view(new_results@),
            prev_execution@,
            set_of(dirty_nodes@),
            strs_view(existing@),
        ),
{
    let ghost nv = results_view(new_results@);
    let mut merged: Vec<NodeResult> = Vec::new();
    let mut i: usize = 0;
    while i < pipeline.nodes.len()
        invariant
            i <= pipeline.nodes.len(),
            nv == results_view(new_results@),
            results_view(merged@) == merge_spec(
                pipeline.nodes@.take(i as int),
                nv,
                prev_execution@,
                set_of(dirty_nodes@),
                strs_view(existing@),
            ),
        decreases pipeline.nodes.len() - i,
    {
        assert(pipeline.nodes@.take(i + 1).drop_last() =~= pipeline.nodes@.take(i as int));
        let n = &pipeline.nodes[i];
        let ghost before = merged@;
        if n.enabled {
            let eid = n.effective_id();
            proof {
                lemma_result_index(nv, eid@);
                lemma_success_index(prev_execution@, eid@);
            }
            let mut k: usize = 0;
            while k < new_results.len()
                invariant
                    k <= new_results.len(),
                    nv == results_view(new_results@),
                    forall|j: int| 0 <= j < k ==> #[trigger] nv[j].0 != eid@,
                ensures
                    k <= new_results.len(),
                    forall|j: int| 0 <= j < k ==> #[trigger] nv[j].0 != eid@,
                    k < new_results.len() ==> nv[k as int].0 == eid@,
                decreases new_results.len() - k,
            {
                if str_eq(new_results[k].effective_id.as_str(), eid.as_str()) {
                    break;
                }
                k += 1;
            }
            if k < new_results.len() {
                assert(result_index(nv, eid@) == k);
                merged.push(new_results[k].copy());
            } else if !vec_contains_str(dirty_nodes, eid.as_str()) {
                let mut j: usize = 0;
                while j < prev_execution.len()
                    invariant
                        j <= prev_execution.len(),
                        forall|q: int|
                            0 <= q < j ==> !(#[trigger] prev_execution@[q].eid() == eid@
                                && prev_execution@[q].succeeded()),
                    ensures
                        j <= prev_execution.len(),
                        forall|q: int|
                            0 <= q < j ==> !(#[trigger] prev_execution@[q].eid() == eid@
                                && prev_execution@[q].succeeded()),
                        j < prev_execution.len() ==> prev_execution@[j as int].eid() == eid@
                            && prev_execution@[j as int].succeeded(),
                    decreases prev_execution.len() - j,
                {
                    let e = &prev_execution[j];
                    let ok = match &e.result {
                        Some(res) => res.code.is_success(),
                        None => false,
                    };
                    if ok && str_eq(e.effective_id(), eid.as_str()) {
                        break;
                    }
                    j += 1;
                }
                if j < prev_execution.len() {
                    assert(success_index(prev_execution@, eid@) == j);
                    if all_recorded_outputs_exist(&prev_execution[j].outputs, existing) {
                        merged.push(result_from_entry(&prev_execution[j]));
                    }
                } else {
                    assert(success_index(prev_execution@, eid@) < 0);
                }
            }
        }
        assert(results_view(merged@) =~= merge_spec(
            pipeline.nodes@.take(i + 1),
            nv,
            prev_execution@,
            set_of(dirty_nodes@),
            strs_view(existing@),
        ));
        i += 1;
    }
    assert(pipeline.nodes@.take(i as int) =~= pipeline.nodes@);
    merged
}

/// The final execution records: for each merged result, the last record
/// of this run with its id, or else the first earlier record with its id.
pub open spec fn final_spec(
    merged: Seq<NodeResult>,
    current: Seq<PpExecutionEntry>,
    prev: Seq<PpExecutionEntry>,
) -> Seq<crate::meta::EntryV>
    decreases merged.len(),
{
    if merged.len() == 0 {
        seq![]
    } else {
        let f = final_spec(merged.drop_last(), current, prev);
        let id = merged.last().effective_id@;
        let i = last_entry_with(current, id);
        let j = entry_index(prev, id);
        if i >= 0 {
            f.push(current[i]@)
        } else if j >= 0 {
            f.push(prev[j]@)
        } else {
            f
        }
    }
}

/// The execution records kept after a run: for each merged result, the
/// record written during this run (the last with its id) or, for a node that
/// was skipped, its record from the earlier run. Records of nodes without a
/// merged result are dropped.
pub fn final_execution(
    merged: &Vec<NodeResult>,
    current: &Vec<PpExecutionEntry>,
    prev: &Vec<PpExecutionEntry>,
) -> (r: Vec<PpExecutionEntry>)
    ensures
        r@.map_values(|e: PpExecutionEntry| e@) == final_spec(merged@, current@, prev@),
{
    let mut out: Vec<PpExecutionEntry> = Vec::new();
    let mut i: usize = 0;
    while i < merged.len()
        invariant
            i <= merged.len(),
            out@.map_values(|e: PpExecutionEntry| e@) == final_spec(merged@.take(i as int), current@, prev@),
        decreases merged.len() - i,
    {
        assert(merged@.take(i + 1).drop_last() =~= merged@.take(i as int));
        let id = merged[i].effective_id.as_str();
        proof {
            lemma_last_entry_with(current@, id@);
        }
        let mut c: usize = current.len();
        while c > 0
            invariant
                c <= current.len(),
                forall|q: int| c <= q < current@.len() ==> #[trigger] current@[q].eid() != id@,
            ensures
                c <= current.len(),
                forall|q: int| c <= q < current@.len() ==> #[trigger] current@[q].eid() != id@,
                c > 0 ==> current@[c - 1].eid() == id@,
            decreases c,
        {
            if str_eq(current[c - 1].effective_id(), id) {
                break;
            }
            c -= 1;
        }
        let ghost before = out@;
        if c > 0 {
            assert(current@[c - 1].eid() == id@);
            assert(last_entry_with(current@, id@) == c - 1);
            out.push(current[c - 1].copy());
        } else {
            assert(last_entry_with(current@, id@) < 0);
            match find_entry(prev, id) {
                Some(j) => {
                    proof {
                        lemma_entry_index(prev@, id@);
                    }
                    out.push(prev[j].copy());
                },
                None => {},
            }
        }
        assert(out@.map_values(|e: PpExecutionEntry| e@) =~= final_spec(
            merged@.take(i + 1),
            current@,
            prev@,
        ));
        i += 1;
    }
    assert(merged@.take(i as int) =~= merged@);
    out
}

} // verus!

verus! {

// ───────────────────────── run bookkeeping ─────────────────────────

/// The module ids of the enabled nodes whose module is not installed.
pub open spec fn missing_spec(nodes: Seq<PipelineNode>, available: Seq<Seq<char>>) -> Seq<Seq<char>>
    decreases nodes.len(),
{
    if nodes.len() == 0 {
        seq![]
    } else if nodes.last().enabled && !available.contains(nodes.last().module_id@) {
        missing_spec(nodes.drop_last(), available).push(nodes.last().module_id@)
    } else {
        missing_spec(nodes.drop_last(), available)
    }
}

/// The module ids of the enabled nodes whose module is not among `available`.
pub fn missing_modules(pipeline: &PipelineConfig, available: &Vec<String>) -> (r: Vec<String>)
    ensures
        strs_view(r@) == missing_spec(pipeline.nodes@, strs_view(available@)),
{
    let mut r: Vec<String> = Vec::new();
    let mut i: usize = 0;
    while i < pipeline.nodes.len()
        invariant
            i <= pipeline.nodes.len(),
            strs_view(r@) == missing_spec(pipeline.nodes@.take(i as int), strs_view(available@)),
        decreases pipeline.nodes.len() - i,
    {
        assert(pipeline.nodes@.take(i + 1).drop_last() =~= pipeline.nodes@.take(i as int));
        let n = &pipeline.nodes[i];
        if n.enabled && !vec_contains_str(available, n.module_id.as_str()) {
            let ghost before = r@;
            r.push(n.module_id.clone());
            assert(strs_view(r@) =~= strs_view(before).push(n.module_id@));
        }
        i += 1;
    }
    assert(pipeline.nodes@.take(i as int) =~= pipeline.nodes@);
    r
}

/// Number of enabled nodes.
pub open spec fn enabled_spec(nodes: Seq<PipelineNode>) -> nat
    decreases nodes.len(),
{
    if nodes.len() == 0 {
        0
    } else {
        enabled_spec(nodes.drop_last()) + if nodes.last().enabled {
            1nat
        } else {
            0nat
        }
    }
}

/// Number of enabled nodes (the total of a run's progress).
pub fn enabled_count(pipeline: &PipelineConfig) -> (r: usize)
    ensures
        r as nat == enabled_spec(pipeline.nodes@),
{
    let mut c: usize = 0;
    let mut i: usize = 0;
    while i < pipeline.nodes.len()
        invariant
            i <= pipeline.nodes.len(),
            c as nat == enabled_spec(pipeline.nodes@.take(i as int)),
            c <= i,
        decreases pipeline.nodes.len() - i,
    {
        assert(pipeline.nodes@.take(i + 1).drop_last() =~= pipeline.nodes@.take(i as int));
        if pipeline.nodes[i].enabled {
            c += 1;
        }
        i += 1;
    }
    assert(pipeline.nodes@.take(i as int) =~= pipeline.nodes@);
    c
}

/// Whether every result succeeded.
pub fn all_success(results: &Vec<NodeResult>) -> (r: bool)
    ensures
        r == forall|i: int| 0 <= i < results@.len() ==> (#[trigger] results@[i]).code.spec_is_success(),
{
    let mut i: usize = 0;
    while i < results.len()
        invariant
            i <= results.len(),
            forall|j: int| 0 <= j < i ==> (#[trigger] results@[j]).code.spec_is_success(),
        decreases results.len() - i,
    {
        if !results[i].is_success() {
            return false;
        }
        i += 1;
    }
    true
}

/// `"ts_merge"`, the module that merges segments into a video.
pub open spec fn ts_merge_id() -> Seq<char> {
    seq!['t', 's', '_', 'm', 'e', 'r', 'g', 'e']
}

/// The video that segment merging produced, searching from result `i` on:
/// the first output of the first successful `ts_merge` result, if it has one.
pub open spec fn ts_merge_from(results: Seq<NodeResult>, i: int) -> Option<Seq<char>>
    decreases results.len() - i,
{
    if i < 0 || i >= results.len() {
        None
    } else if results[i].module_id@ == ts_merge_id() && results[i].code.spec_is_success() {
        if results[i].outputs@.len() > 0 {
            Some(results[i].outputs@[0]@)
        } else {
            None
        }
    } else {
        ts_merge_from(results, i + 1)
    }
}

/// The video that segment merging produced, if any (executable).
pub fn ts_merge_output(results: &Vec<NodeResult>) -> (r: Option<String>)
    ensures
        r matches Some(p) ==> ts_merge_from(results@, 0) == Some(p@),
        r is None ==> ts_merge_from(results@, 0) is None,
{
    proof {
        reveal_strlit("ts_merge");
        assert("ts_merge"@ =~= ts_merge_id());
    }
    let mut i: usize = 0;
    while i < results.len()
        invariant
            i <= results.len(),
            ts_merge_from(results@, 0) == ts_merge_from(results@, i as int),
            "ts_merge"@ == ts_merge_id(),
        decreases results.len() - i,
    {
        let r = &results[i];
        if str_eq(r.module_id.as_str(), "ts_merge") && r.is_success() {
            if r.outputs.len() > 0 {
                return Some(r.outputs[0].clone());
            } else {
                return None;
            }
        }
        i += 1;
    }
    None
}

/// The status recorded at the end of a run: `finish` when every node
/// succeeded, `pp_error` otherwise.
pub fn final_status(all_ok: bool) -> (r: &'static str)
    ensures
        all_ok ==> r@ == "finish"@,
        !all_ok ==> r@ == "pp_error"@,
{
    if all_ok {
        "finish"
    } else {
        "pp_error"
    }
}

/// The node id recorded for a node: its effective id when it is a reusable
/// built-in instance (a built-in module whose effective id differs from the
/// module id), otherwise none.
pub fn entry_node_id(effective_id: &str, module_id: &str) -> (r: Option<String>)
    ensures
        (crate::text::has_prefix(module_id@, "__builtin__"@) && effective_id@ != module_id@) ==> (r
            matches Some(s) && s@ == effective_id@),
        !(crate::text::has_prefix(module_id@, "__builtin__"@) && effective_id@ != module_id@)
            ==> r is None,
{
    let builtin = crate::text::starts_with(&crate::text::to_chars(module_id), &crate::text::to_chars("__builtin__"));
    if builtin && !str_eq(effective_id, module_id) {
        Some(effective_id.to_owned())
    } else {
        None
    }
}

// ───────────────────────── the steps around a run ─────────────────────────

/// How a post-processing run begins.
#[derive(Debug, Clone)]
pub enum RunStart {
    /// The task was cancelled while it waited: its record is set to
    /// `pp_error` and the task is dropped, without running anything.
    Cancelled,
    /// Modules of enabled nodes are missing: the record is set to
    /// `pp_error`, the task finishes, and this message is reported.
    MissingModules { message: String },
    /// The run starts with `total` nodes to run.
    Start { total: usize },
}

/// The message naming the missing modules.
pub open spec fn missing_message(missing: Seq<Seq<char>>) -> Seq<char> {
    "后处理模块缺失："@ + crate::monitor::joined_with_comma_space(missing) + "，请检查 modules/ 目录"@
}

/// How a run of `pipeline` (the nodes to run this time) begins, given
/// whether the task was cancelled while waiting and the modules available.
pub fn run_start(cancelled: bool, pipeline: &PipelineConfig, available: &Vec<String>) -> (r: RunStart)
    ensures
        cancelled ==> r is Cancelled,
        !cancelled && missing_spec(pipeline.nodes@, strs_view(available@)).len() > 0 ==> (r matches RunStart::MissingModules { message }
            && message@ == missing_message(missing_spec(pipeline.nodes@, strs_view(available@)))),
        !cancelled && missing_spec(pipeline.nodes@, strs_view(available@)).len() == 0 ==> (r matches RunStart::Start { total }
            && total as nat == enabled_spec(pipeline.nodes@)),
{
    if cancelled {
        return RunStart::Cancelled;
    }
    let missing = missing_modules(pipeline, available);
    if missing.len() > 0 {
        proof {
            reveal_strlit("后处理模块缺失：");
            reveal_strlit("，请检查 modules/ 目录");
        }
        let joined = crate::monitor::join_comma_space(&missing);
        let m = crate::text::concat(
            &crate::text::concat(&crate::text::to_chars("后处理模块缺失："), &crate::text::to_chars(joined.as_str())),
            &crate::text::to_chars("，请检查 modules/ 目录"),
        );
        return RunStart::MissingModules { message: crate::text::from_chars(&m) };
    }
    RunStart::Start { total: enabled_count(pipeline) }
}

/// The progress of a run, in hundredths of a percent, after `done` of
/// `total` nodes (all done when there is nothing to run).
pub open spec fn progress_spec(done: nat, total: nat) -> nat {
    if total == 0 {
        10000
    } else {
        (if done <= total { done } else { total }) * 10000 / total
    }
}

/// The progress of a run after `done` of `total` nodes (executable).
pub fn progress_hundredths(done: usize, total: usize) -> (r: u32)
    ensures
        r as nat == progress_spec(done as nat, total as nat),
        r <= 10000,
{
    if total == 0 {
        return 10000;
    }
    let d: u128 = if done <= total { done as u128 } else { total as u128 };
    let t: u128 = total as u128;
    assert(d <= t);
    assert(d * 10000 <= 0xffff_ffff_ffff_ffff * 10000) by (nonlinear_arith)
        requires
            d <= 0xffff_ffff_ffff_ffff,
    ;
    assert((d * 10000) as int / (t as int) <= 10000) by (nonlinear_arith)
        requires
            d <= t,
            t > 0,
    ;
    let q = (d * 10000) / t;
    assert(q as int == (d * 10000) as int / (t as int));
    q as u32
}

/// How a run ends: when the recording it leaves (`surviving`: the merged
/// video, else the input) no longer exists, a module removed it; its
/// record is then deleted and the run reported as a success. Otherwise
/// the record is finished with the status of the results.
#[derive(Debug, Clone)]
pub enum RunEnd {
    /// The recording is gone: delete its record, drop the task.
    InputRemoved,
    /// Finish the record with this status.
    Finish { status: &'static str },
}

/// How a run ends, given whether the surviving recording exists and
/// whether every result succeeded.
pub fn run_end(surviving_exists: bool, all_ok: bool) -> (r: RunEnd)
    ensures
        !surviving_exists ==> r is InputRemoved,
        surviving_exists ==> (r matches RunEnd::Finish { status } && (all_ok ==> status@ == "finish"@) && (!all_ok ==> status@ == "pp_error"@)),
{
    if !surviving_exists {
        RunEnd::InputRemoved
    } else {
        RunEnd::Finish { status: final_status(all_ok) }
    }
}

/// A node whose configuration changed runs again: when an enabled node's
/// current configuration fingerprint differs from the one recorded with
/// each of its earlier runs (or it has none), it is among the nodes that
/// changed on their own, and so in every set of nodes to run again that
/// `compute_dirty_nodes` can give (each holds these seeds).
pub proof fn law_changed_config_runs_again(
    nodes: Seq<PipelineNode>,
    fps: Seq<String>,
    prev: Seq<PpExecutionEntry>,
    existing: Seq<Seq<char>>,
    i: int,
)
    requires
        0 <= i < nodes.len(),
        fps.len() == nodes.len(),
        nodes[i].enabled,
        forall|j: int| 0 <= j < prev.len() && #[trigger] prev[j].eid() == nodes[i].eid()
            ==> prev[j].config_fingerprint@ != fps[i]@,
    ensures
        seeds_spec(nodes, fps, prev, existing).contains(nodes[i].eid()),
        forall|d: Set<Seq<char>>| seeds_spec(nodes, fps, prev, existing).subset_of(d) ==> #[trigger] d.contains(nodes[i].eid()),
{
    lemma_entry_index(prev, nodes[i].eid());
    let k = entry_index(prev, nodes[i].eid());
    if k >= 0 {
        assert(prev[k].eid() == nodes[i].eid());
        assert(prev[k].config_fingerprint@ != fps[i]@);
    }
    assert(self_changed(nodes[i], fps[i]@, prev, existing));
    assert(seeds_spec(nodes, fps, prev, existing).contains(nodes[i].eid()));
}

/// A node that has not changed is not redone on its own account: when the
/// first record of the node succeeded, with the same module and the same
/// configuration fingerprint, and every output it recorded still exists,
/// the node did not change on its own.
pub proof fn law_unchanged_node_kept(
    n: PipelineNode,
    fingerprint: Seq<char>,
    prev: Seq<PpExecutionEntry>,
    existing: Seq<Seq<char>>,
    k: int,
)
    requires
        0 <= k < prev.len(),
        prev[k].eid() == n.eid(),
        forall|j: int| 0 <= j < k ==> #[trigger] prev[j].eid() != n.eid(),
        prev[k].result matches Some(r) && (r.code is Okay || r.code is Done || r.code is Skipped),
        prev[k].module_id@ == n.module_id@,
        prev[k].config_fingerprint@ == fingerprint,
        forall|a: int, b: int| 0 <= a < prev[k].outputs@.len() && 0 <= b < prev[k].outputs@[a]@.len()
            ==> existing.contains(#[trigger] prev[k].outputs@[a]@[b]@),
    ensures
        !self_changed(n, fingerprint, prev, existing),
{
    lemma_entry_index(prev, n.eid());
    let e = entry_index(prev, n.eid());
    if e != k {
        if e < 0 || k < e {
            assert(prev[k].eid() != n.eid());
        } else {
            assert(prev[e].eid() != n.eid());
        }
    }
}

} // verus!
