//! The laws of the engine, each stated over the specification functions
//! that the public contracts use: determinism, revision monotonicity,
//! validation–application agreement, history preservation, the PII guard,
//! and typed-edge closure.  Atomicity is stated directly on `apply`: on
//! any error the engine's model is unchanged.

use vstd::prelude::*;
use crate::engine::{spec_apply, spec_report, spec_sandbox, spec_validate, SpecCore};
use crate::graph::{SpecGraph, SpecNode};
use crate::invariants::{
    spec_all_passed, spec_history_result, spec_no_pii_leak, spec_orphan_result, spec_pii_result,
    spec_well_typed, spec_well_typed_result,
};
use crate::json::spec_json_snapshot;
use crate::matcher::spec_find_match;
use crate::rule::{bind_get, SpecBindings, SpecMatch, SpecPattern, SpecRule};
use crate::sim::{
    spec_add_edges, spec_add_nodes, spec_del_edges, spec_del_nodes, spec_pattern_has_edge_var,
    spec_pattern_has_node_var, spec_seed_map, spec_simulate,
};
use crate::text::{lemma_rev_roundtrip, spec_rev_num, spec_rev_string};
use crate::value::SpecValue;

verus! {

/// Determinism: from equal engine states, applying the same rule yields
/// equal outcomes — in particular, equal after-snapshots (so equal
/// canonical JSON), equal diffs, and equal revision advances.
pub proof fn lemma_apply_deterministic(c1: SpecCore, c2: SpecCore, rule: SpecRule)
    requires
        c1 == c2,
    ensures
        spec_apply(c1, rule) == spec_apply(c2, rule),
        spec_apply(c1, rule) is Ok ==> spec_json_snapshot(
            spec_apply(c1, rule)->Ok_0.1.after_snapshot->0,
        ) == spec_json_snapshot(spec_apply(c2, rule)->Ok_0.1.after_snapshot->0),
{
}

/// Revision monotonicity, one step: a successful apply advances the
/// revision number by exactly one.
pub proof fn lemma_revision_advances(c: SpecCore, rule: SpecRule)
    requires
        spec_apply(c, rule) is Ok,
    ensures
        spec_rev_num(spec_apply(c, rule)->Ok_0.0.snapshot.metadata.revision) == spec_rev_num(
            c.snapshot.metadata.revision,
        ) + 1,
{
    let n = spec_rev_num(c.snapshot.metadata.revision);
    assert(n != u64::MAX);
    lemma_rev_roundtrip((n + 1) as u64);
}

/// Revision monotonicity, chained: revision numbers that start at zero and
/// advance by one at each successful apply are contiguous — the `i`-th is
/// exactly `i`, with no gaps.
pub proof fn lemma_revision_chain(revs: Seq<nat>, i: int)
    requires
        revs.len() > 0,
        revs[0] == 0,
        forall|j: int| 0 <= j < revs.len() - 1 ==> #[trigger] revs[j + 1] == revs[j] + 1,
        0 <= i < revs.len(),
    ensures
        revs[i] == i,
    decreases i,
{
    if i > 0 {
        lemma_revision_chain(revs, i - 1);
        assert(revs[(i - 1) + 1] == revs[i - 1] + 1);
    }
}

/// Validation–application agreement: where the revision counter is not
/// exhausted, a valid report means apply succeeds; an invalid report or a
/// validation error means apply fails (and `apply`'s contract adds that a
/// failing apply leaves the state unchanged).
pub proof fn lemma_validation_apply_agree(c: SpecCore, rule: SpecRule)
    requires
        spec_rev_num(c.snapshot.metadata.revision) < u64::MAX,
    ensures
        spec_validate(c, rule) is Ok && spec_validate(c, rule)->Ok_0.is_valid ==> spec_apply(c, rule) is Ok,
        spec_validate(c, rule) is Ok && !spec_validate(c, rule)->Ok_0.is_valid ==> spec_apply(c, rule) is Err,
        spec_validate(c, rule) is Err ==> spec_apply(c, rule) is Err,
{
}

/// The PII guard: after any successful apply, no assistant-authored
/// message of the live graph matches the email or phone pattern.
#[verifier::rlimit(100)]
pub proof fn lemma_pii_guard(c: SpecCore, rule: SpecRule)
    requires
        spec_apply(c, rule) is Ok,
    ensures
        spec_no_pii_leak(spec_apply(c, rule)->Ok_0.0.snapshot.graph),
{
    let rep = spec_validate(c, rule)->Ok_0;
    let g = spec_sandbox(c, rule).0;
    assert(rep == spec_report(g, rule));
    assert(rep.invariants[1] == spec_pii_result(g));
    assert(rep.invariants[1].passed);
}

/// Typed-edge closure: after any successful apply, every edge of the live
/// graph is in the typed-edge table.
#[verifier::rlimit(100)]
pub proof fn lemma_typed_edge_closure(c: SpecCore, rule: SpecRule)
    requires
        spec_apply(c, rule) is Ok,
    ensures
        spec_well_typed(spec_apply(c, rule)->Ok_0.0.snapshot.graph),
{
    let rep = spec_validate(c, rule)->Ok_0;
    let g = spec_sandbox(c, rule).0;
    assert(rep == spec_report(g, rule));
    assert(rep.invariants[2] == spec_well_typed_result(g));
    assert(rep.invariants[2].passed);
}

/// Whether some node of `ns` carries the id and type name given.
pub open spec fn spec_node_present(ns: Seq<SpecNode>, id: Seq<char>, ty: Seq<char>) -> bool {
    exists|j: int| 0 <= j < ns.len() && #[trigger] ns[j].id == id && ns[j].node_type == ty
}

proof fn lemma_del_nodes_noop(g: SpecGraph, l: SpecPattern, kp: SpecPattern, m: SpecMatch, i: int)
    requires
        forall|k: int|
            0 <= k < l.nodes.len() ==> spec_pattern_has_node_var(kp, (#[trigger] l.nodes[k]).var),
    ensures
        spec_del_nodes(g, l, kp, m, i) == Ok::<SpecGraph, crate::errors::SpecCoreError>(g),
    decreases l.nodes.len() - i,
{
    if 0 <= i < l.nodes.len() {
        assert(spec_pattern_has_node_var(kp, l.nodes[i].var));
        lemma_del_nodes_noop(g, l, kp, m, i + 1);
    }
}

proof fn lemma_del_edges_noop(g: SpecGraph, l: SpecPattern, kp: SpecPattern, m: SpecMatch, i: int)
    requires
        forall|k: int|
            0 <= k < l.edges.len() ==> spec_pattern_has_edge_var(kp, (#[trigger] l.edges[k]).var),
    ensures
        spec_del_edges(g, l, kp, m, i) == Ok::<SpecGraph, crate::errors::SpecCoreError>(g),
    decreases l.edges.len() - i,
{
    if 0 <= i < l.edges.len() {
        assert(spec_pattern_has_edge_var(kp, l.edges[i].var));
        lemma_del_edges_noop(g, l, kp, m, i + 1);
    }
}

proof fn lemma_add_nodes_keeps(
    g: SpecGraph,
    rn: Seq<SpecNode>,
    m: SpecMatch,
    map: SpecBindings,
    nn: u64,
    i: int,
    id: Seq<char>,
    ty: Seq<char>,
)
    requires
        spec_add_nodes(g, rn, m, map, nn, i) is Ok,
        spec_node_present(g.nodes, id, ty),
    ensures
        spec_node_present(spec_add_nodes(g, rn, m, map, nn, i)->Ok_0.0.nodes, id, ty),
    decreases rn.len() - i,
{
    if i < 0 || i >= rn.len() {
    } else {
        let n = rn[i];
        if crate::text::has_prefix(n.id, "var:"@) {
            let cid = bind_get(m.nodes, crate::text::strip_prefix_view(n.id, "var:"@))->0;
            crate::matcher::lemma_find_node_bounds(g.nodes, cid, 0);
            let k = crate::matcher::spec_find_node_from(g.nodes, cid, 0)->0;
            let old = g.nodes[k];
            let merged = SpecNode {
                id: old.id,
                node_type: old.node_type,
                attrs: crate::sim::spec_merge_attrs(old.attrs, n.attrs, n.attrs.len() as int),
            };
            let g2 = SpecGraph { nodes: g.nodes.update(k, merged), edges: g.edges };
            let j = choose|j: int| 0 <= j < g.nodes.len() && #[trigger] g.nodes[j].id == id && g.nodes[j].node_type == ty;
            if j == k {
                assert(g2.nodes[k].id == id && g2.nodes[k].node_type == ty);
            } else {
                assert(g2.nodes[j].id == id && g2.nodes[j].node_type == ty);
            }
            lemma_add_nodes_keeps(g2, rn, m, map, nn, i + 1, id, ty);
        } else {
            let fid = crate::text::node_id_view(nn);
            let fresh = SpecNode { id: fid, node_type: n.node_type, attrs: n.attrs };
            let g2 = SpecGraph { nodes: g.nodes.push(fresh), edges: g.edges };
            let j = choose|j: int| 0 <= j < g.nodes.len() && #[trigger] g.nodes[j].id == id && g.nodes[j].node_type == ty;
            assert(g2.nodes[j].id == id && g2.nodes[j].node_type == ty);
            lemma_add_nodes_keeps(g2, rn, m, map.push((n.id, fid)), (nn + 1) as u64, i + 1, id, ty);
        }
    }
}

proof fn lemma_add_edges_nodes_fixed(
    g: SpecGraph,
    re: Seq<crate::graph::SpecEdge>,
    m: SpecMatch,
    map: SpecBindings,
    ne: u64,
    i: int,
)
    requires
        spec_add_edges(g, re, m, map, ne, i) is Ok,
    ensures
        spec_add_edges(g, re, m, map, ne, i)->Ok_0.0.nodes == g.nodes,
    decreases re.len() - i,
{
    if i < 0 || i >= re.len() {
    } else {
        let e = re[i];
        if crate::text::has_prefix(e.id, "var:"@) {
            let cid = bind_get(m.edges, crate::text::strip_prefix_view(e.id, "var:"@))->0;
            crate::matcher::lemma_find_edge_bounds(g.edges, cid, 0);
            let k = crate::matcher::spec_find_edge_from(g.edges, cid, 0)->0;
            let old = g.edges[k];
            let merged = crate::graph::SpecEdge {
                id: old.id,
                edge_type: old.edge_type,
                src: old.src,
                dst: old.dst,
                attrs: crate::sim::spec_merge_attrs(old.attrs, e.attrs, e.attrs.len() as int),
            };
            lemma_add_edges_nodes_fixed(
                SpecGraph { nodes: g.nodes, edges: g.edges.update(k, merged) },
                re,
                m,
                map,
                ne,
                i + 1,
            );
        } else {
            let s = bind_get(map, e.src)->0;
            let d = bind_get(map, e.dst)->0;
            let fresh = crate::graph::SpecEdge {
                id: crate::text::edge_id_view(ne),
                edge_type: e.edge_type,
                src: s,
                dst: d,
                attrs: e.attrs,
            };
            lemma_add_edges_nodes_fixed(
                SpecGraph { nodes: g.nodes, edges: g.edges.push(fresh) },
                re,
                m,
                map,
                (ne + 1) as u64,
                i + 1,
            );
        }
    }
}

proof fn lemma_kept_nodes_presence(ns: Seq<SpecNode>, dead: Seq<char>, i: int, j: int)
    requires
        0 <= j < i <= ns.len(),
        ns[j].id != dead,
    ensures
        spec_node_present(crate::sim::spec_kept_nodes(ns, dead, i), ns[j].id, ns[j].node_type),
    decreases i,
{
    let kept = crate::sim::spec_kept_nodes(ns, dead, i);
    if j == i - 1 {
        assert(kept[kept.len() - 1] == ns[j]);
    } else {
        lemma_kept_nodes_presence(ns, dead, i - 1, j);
        let prev = crate::sim::spec_kept_nodes(ns, dead, i - 1);
        let w = choose|w: int|
            0 <= w < prev.len() && #[trigger] prev[w].id == ns[j].id && prev[w].node_type == ns[j].node_type;
        assert(kept[w] == prev[w]);
    }
}

proof fn lemma_del_nodes_keeps(
    g: SpecGraph,
    l: SpecPattern,
    kp: SpecPattern,
    m: SpecMatch,
    i: int,
    id: Seq<char>,
    ty: Seq<char>,
)
    requires
        spec_del_nodes(g, l, kp, m, i) is Ok,
        spec_node_present(g.nodes, id, ty),
        forall|x: int|
            0 <= x < l.nodes.len() && !spec_pattern_has_node_var(kp, (#[trigger] l.nodes[x]).var)
                ==> bind_get(m.nodes, l.nodes[x].var) != Some(id),
    ensures
        spec_node_present(spec_del_nodes(g, l, kp, m, i)->Ok_0.nodes, id, ty),
    decreases l.nodes.len() - i,
{
    if 0 <= i < l.nodes.len() {
        let v = l.nodes[i].var;
        if spec_pattern_has_node_var(kp, v) {
            lemma_del_nodes_keeps(g, l, kp, m, i + 1, id, ty);
        } else {
            let did = bind_get(m.nodes, v)->0;
            assert(did != id);
            let g2 = crate::sim::spec_remove_node(g, did);
            let j = choose|j: int|
                0 <= j < g.nodes.len() && #[trigger] g.nodes[j].id == id && g.nodes[j].node_type == ty;
            lemma_kept_nodes_presence(g.nodes, did, g.nodes.len() as int, j);
            lemma_del_nodes_keeps(g2, l, kp, m, i + 1, id, ty);
        }
    }
}

proof fn lemma_del_edges_nodes_fixed(g: SpecGraph, l: SpecPattern, kp: SpecPattern, m: SpecMatch, i: int)
    requires
        spec_del_edges(g, l, kp, m, i) is Ok,
    ensures
        spec_del_edges(g, l, kp, m, i)->Ok_0.nodes == g.nodes,
    decreases l.edges.len() - i,
{
    if 0 <= i < l.edges.len() {
        let v = l.edges[i].var;
        if spec_pattern_has_edge_var(kp, v) {
            lemma_del_edges_nodes_fixed(g, l, kp, m, i + 1);
        } else {
            let did = bind_get(m.edges, v)->0;
            lemma_del_edges_nodes_fixed(crate::sim::spec_remove_edge(g, did), l, kp, m, i + 1);
        }
    }
}

/// History preservation: a successful apply of a rule whose left node
/// variables all carry declared types keeps every `Message` node of a
/// live graph with unique node ids, under its id and type.  (An untyped
/// variable outside the interface could bind — and so delete — a message
/// that the rule-level check cannot see.)
#[verifier::rlimit(100)]
pub proof fn lemma_message_preserved(c: SpecCore, rule: SpecRule, i: int)
    requires
        spec_apply(c, rule) is Ok,
        forall|a: int, b: int|
            0 <= a < b < c.snapshot.graph.nodes.len() ==> (#[trigger] c.snapshot.graph.nodes[a]).id != (
            #[trigger] c.snapshot.graph.nodes[b]).id,
        forall|x: int|
            0 <= x < rule.left.nodes.len() ==> (#[trigger] rule.left.nodes[x]).node_type is Some,
        0 <= i < c.snapshot.graph.nodes.len(),
        c.snapshot.graph.nodes[i].node_type == "Message"@,
    ensures
        spec_node_present(
            spec_apply(c, rule)->Ok_0.0.snapshot.graph.nodes,
            c.snapshot.graph.nodes[i].id,
            "Message"@,
        ),
{
    let g0 = c.snapshot.graph;
    let m = spec_find_match(g0, rule.left)->0;
    let id = g0.nodes[i].id;
    let rep = spec_validate(c, rule)->Ok_0;
    let gs = spec_sandbox(c, rule).0;
    assert(rep == spec_report(gs, rule));
    assert(rep.invariants[3] == spec_history_result(rule));
    assert(rep.invariants[3].passed);
    assert(crate::invariants::spec_history_kept(rule));
    crate::matcher::lemma_find_match_sound(g0, rule.left);
    assert forall|x: int|
        0 <= x < rule.left.nodes.len() && !spec_pattern_has_node_var(
            rule.interface,
            (#[trigger] rule.left.nodes[x]).var,
        ) implies bind_get(m.nodes, rule.left.nodes[x].var) != Some(id) by {
        let t = rule.left.nodes[x].node_type->0;
        assert(t != "Message"@) by {
            if t == "Message"@ {
                assert(crate::invariants::spec_message_var_kept(rule, rule.left.nodes[x].var));
            }
        }
        assert(crate::matcher::spec_nodes_sound_upto(g0, rule.left, m.nodes, rule.left.nodes.len() as int));
        if bind_get(m.nodes, rule.left.nodes[x].var) == Some(id) {
            let w = choose|w: int|
                0 <= w < g0.nodes.len() && #[trigger] g0.nodes[w].id == id && crate::matcher::spec_node_matches(
                    g0.nodes[w],
                    rule.left.nodes[x],
                );
            assert(w == i);
            assert(g0.nodes[w].node_type == t);
        }
    }
    assert(spec_node_present(g0.nodes, id, "Message"@));
    lemma_del_nodes_keeps(g0, rule.left, rule.interface, m, 0, id, "Message"@);
    let g1 = spec_del_nodes(g0, rule.left, rule.interface, m, 0)->Ok_0;
    lemma_del_edges_nodes_fixed(g1, rule.left, rule.interface, m, 0);
    let g2 = spec_del_edges(g1, rule.left, rule.interface, m, 0)->Ok_0;
    let map = spec_seed_map(m.nodes, m.nodes.len() as int);
    lemma_add_nodes_keeps(g2, rule.right.nodes, m, map, c.next_node_id, 0, id, "Message"@);
    let t3 = spec_add_nodes(g2, rule.right.nodes, m, map, c.next_node_id, 0)->Ok_0;
    lemma_add_edges_nodes_fixed(t3.0, rule.right.edges, m, t3.1, c.next_edge_id, 0);
}

/// History preservation, for rules that delete nothing (every variable of
/// `L` reappears in `K`): a successful apply keeps every node of the live
/// graph — in particular every `Message` node — under its id and type.
pub proof fn lemma_history_preserved(c: SpecCore, rule: SpecRule, i: int)
    requires
        spec_apply(c, rule) is Ok,
        forall|k: int|
            0 <= k < rule.left.nodes.len() ==> spec_pattern_has_node_var(
                rule.interface,
                (#[trigger] rule.left.nodes[k]).var,
            ),
        forall|k: int|
            0 <= k < rule.left.edges.len() ==> spec_pattern_has_edge_var(
                rule.interface,
                (#[trigger] rule.left.edges[k]).var,
            ),
        0 <= i < c.snapshot.graph.nodes.len(),
    ensures
        spec_node_present(
            spec_apply(c, rule)->Ok_0.0.snapshot.graph.nodes,
            c.snapshot.graph.nodes[i].id,
            c.snapshot.graph.nodes[i].node_type,
        ),
{
    let g0 = c.snapshot.graph;
    let m = spec_find_match(g0, rule.left)->0;
    lemma_del_nodes_noop(g0, rule.left, rule.interface, m, 0);
    lemma_del_edges_noop(g0, rule.left, rule.interface, m, 0);
    let map = spec_seed_map(m.nodes, m.nodes.len() as int);
    let id = g0.nodes[i].id;
    let ty = g0.nodes[i].node_type;
    assert(spec_node_present(g0.nodes, id, ty));
    lemma_add_nodes_keeps(g0, rule.right.nodes, m, map, c.next_node_id, 0, id, ty);
    let t3 = spec_add_nodes(g0, rule.right.nodes, m, map, c.next_node_id, 0)->Ok_0;
    lemma_add_edges_nodes_fixed(t3.0, rule.right.edges, m, t3.1, c.next_edge_id, 0);
}

} // verus!
