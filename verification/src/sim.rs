//! The sandboxed simulator: a pure function from the current graph, a rule
//! and a binding to the rewritten graph, never touching the live state.
//!
//! The delete step removes what `L` binds beyond `K` (with incident edges),
//! the preserve step keeps `K`'s bindings, and the add step walks `R` in
//! order: `new:` elements get fresh ids from scratch counters, `var:`
//! elements resolve through the binding and may update attributes.

use vstd::prelude::*;
use crate::errors::{CoreError, SpecCoreError};
use crate::graph::{Edge, Graph, Node, SpecEdge, SpecGraph, SpecNode};
use crate::matcher::{find_edge_index, find_node_index, spec_find_edge_from, spec_find_node_from};
use crate::rule::{bind_get, DpoRule, GraphPattern, Match, SpecBindings, SpecMatch, SpecPattern, SpecRule, VarMap};
use crate::text::{
    edge_id_view, has_prefix, node_id_view, render_edge_id, render_node_id, str_eq, strip_prefix,
    strip_prefix_view,
};
use crate::value::{attrs_insert, SpecValue};

verus! {

/// Whether the pattern names a node variable `v`.
pub open spec fn spec_pattern_has_node_var(p: SpecPattern, v: Seq<char>) -> bool {
    exists|i: int| 0 <= i < p.nodes.len() && #[trigger] p.nodes[i].var == v
}

/// Whether the pattern names an edge variable `v`.
pub open spec fn spec_pattern_has_edge_var(p: SpecPattern, v: Seq<char>) -> bool {
    exists|i: int| 0 <= i < p.edges.len() && #[trigger] p.edges[i].var == v
}

pub fn pattern_has_node_var(p: &GraphPattern, v: &str) -> (r: bool)
    ensures
        r == spec_pattern_has_node_var(p@, v@),
{
    let mut i: usize = 0;
    while i < p.nodes.len()
        invariant
            i <= p.nodes.len(),
            forall|j: int| 0 <= j < i ==> #[trigger] p@.nodes[j].var != v@,
    decreases p.nodes.len() - i,
    {
        if str_eq(p.nodes[i].var.as_str(), v) {
            proof {
                assert(p@.nodes[i as int].var == v@);
            }
            return true;
        }
        i = i + 1;
    }
    false
}

pub fn pattern_has_edge_var(p: &GraphPattern, v: &str) -> (r: bool)
    ensures
        r == spec_pattern_has_edge_var(p@, v@),
{
    let mut i: usize = 0;
    while i < p.edges.len()
        invariant
            i <= p.edges.len(),
            forall|j: int| 0 <= j < i ==> #[trigger] p@.edges[j].var != v@,
    decreases p.edges.len() - i,
    {
        if str_eq(p.edges[i].var.as_str(), v) {
            proof {
                assert(p@.edges[i as int].var == v@);
            }
            return true;
        }
        i = i + 1;
    }
    false
}

/// The nodes among `ns[..i]` whose id is not `id`, in order.
pub open spec fn spec_kept_nodes(ns: Seq<SpecNode>, id: Seq<char>, i: int) -> Seq<SpecNode>
    decreases i,
{
    if i <= 0 || i > ns.len() {
        Seq::empty()
    } else if ns[i - 1].id == id {
        spec_kept_nodes(ns, id, i - 1)
    } else {
        spec_kept_nodes(ns, id, i - 1).push(ns[i - 1])
    }
}

/// The edges among `es[..i]` that do not touch the node `id`, in order.
pub open spec fn spec_kept_edges_detached(es: Seq<SpecEdge>, id: Seq<char>, i: int) -> Seq<SpecEdge>
    decreases i,
{
    if i <= 0 || i > es.len() {
        Seq::empty()
    } else if es[i - 1].src == id || es[i - 1].dst == id {
        spec_kept_edges_detached(es, id, i - 1)
    } else {
        spec_kept_edges_detached(es, id, i - 1).push(es[i - 1])
    }
}

/// The edges among `es[..i]` whose id is not `eid`, in order.
pub open spec fn spec_kept_edges(es: Seq<SpecEdge>, eid: Seq<char>, i: int) -> Seq<SpecEdge>
    decreases i,
{
    if i <= 0 || i > es.len() {
        Seq::empty()
    } else if es[i - 1].id == eid {
        spec_kept_edges(es, eid, i - 1)
    } else {
        spec_kept_edges(es, eid, i - 1).push(es[i - 1])
    }
}

/// Removing the node `id` and every edge incident to it.
pub open spec fn spec_remove_node(g: SpecGraph, id: Seq<char>) -> SpecGraph {
    SpecGraph {
        nodes: spec_kept_nodes(g.nodes, id, g.nodes.len() as int),
        edges: spec_kept_edges_detached(g.edges, id, g.edges.len() as int),
    }
}

/// Removing the edge `eid`.
pub open spec fn spec_remove_edge(g: SpecGraph, eid: Seq<char>) -> SpecGraph {
    SpecGraph { nodes: g.nodes, edges: spec_kept_edges(g.edges, eid, g.edges.len() as int) }
}

#[verifier::loop_isolation(false)]
fn remove_node(g: &Graph, id: &str) -> (r: Graph)
    ensures
        r@ == spec_remove_node(g@, id@),
{
    let mut nodes: Vec<Node> = Vec::new();
    let mut i: usize = 0;
    while i < g.nodes.len()
        invariant
            i <= g.nodes.len(),
            crate::graph::nodes_view(nodes) =~= spec_kept_nodes(g@.nodes, id@, i as int),
        decreases g.nodes.len() - i,
    {
        if !str_eq(g.nodes[i].id.as_str(), id) {
            nodes.push(g.nodes[i].duplicate());
        }
        proof {
            assert(crate::graph::nodes_view(nodes) =~= spec_kept_nodes(g@.nodes, id@, i + 1));
        }
        i = i + 1;
    }
    let mut edges: Vec<Edge> = Vec::new();
    let mut k: usize = 0;
    while k < g.edges.len()
        invariant
            k <= g.edges.len(),
            crate::graph::edges_view(edges) =~= spec_kept_edges_detached(g@.edges, id@, k as int),
        decreases g.edges.len() - k,
    {
        if !str_eq(g.edges[k].src.as_str(), id) && !str_eq(g.edges[k].dst.as_str(), id) {
            edges.push(g.edges[k].duplicate());
        }
        proof {
            assert(crate::graph::edges_view(edges) =~= spec_kept_edges_detached(g@.edges, id@, k + 1));
        }
        k = k + 1;
    }
    Graph { nodes, edges }
}

#[verifier::loop_isolation(false)]
fn remove_edge(g: Graph, eid: &str) -> (r: Graph)
    ensures
        r@ == spec_remove_edge(g@, eid@),
{
    let mut edges: Vec<Edge> = Vec::new();
    let mut k: usize = 0;
    while k < g.edges.len()
        invariant
            k <= g.edges.len(),
            crate::graph::edges_view(edges) =~= spec_kept_edges(g@.edges, eid@, k as int),
        decreases g.edges.len() - k,
    {
        if !str_eq(g.edges[k].id.as_str(), eid) {
            edges.push(g.edges[k].duplicate());
        }
        proof {
            assert(crate::graph::edges_view(edges) =~= spec_kept_edges(g@.edges, eid@, k + 1));
        }
        k = k + 1;
    }
    Graph { nodes: g.nodes, edges }
}

/// The delete step over node variables `i..` of `L`: a variable absent
/// from `K` deletes its bound node together with all incident edges.
pub open spec fn spec_del_nodes(g: SpecGraph, l: SpecPattern, kp: SpecPattern, m: SpecMatch, i: int)
    -> Result<SpecGraph, SpecCoreError>
    decreases l.nodes.len() - i,
{
    if i < 0 || i >= l.nodes.len() {
        Ok(g)
    } else {
        let v = l.nodes[i].var;
        if spec_pattern_has_node_var(kp, v) {
            spec_del_nodes(g, l, kp, m, i + 1)
        } else {
            match bind_get(m.nodes, v) {
                Some(id) => spec_del_nodes(spec_remove_node(g, id), l, kp, m, i + 1),
                None => Err(SpecCoreError::InternalError("unbound node variable in delete step"@)),
            }
        }
    }
}

/// The delete step over edge variables `i..` of `L`.
pub open spec fn spec_del_edges(g: SpecGraph, l: SpecPattern, kp: SpecPattern, m: SpecMatch, i: int)
    -> Result<SpecGraph, SpecCoreError>
    decreases l.edges.len() - i,
{
    if i < 0 || i >= l.edges.len() {
        Ok(g)
    } else {
        let v = l.edges[i].var;
        if spec_pattern_has_edge_var(kp, v) {
            spec_del_edges(g, l, kp, m, i + 1)
        } else {
            match bind_get(m.edges, v) {
                Some(id) => spec_del_edges(spec_remove_edge(g, id), l, kp, m, i + 1),
                None => Err(SpecCoreError::InternalError("unbound edge variable in delete step"@)),
            }
        }
    }
}

/// Applying the replacement attributes `upd[..i]` over `base`, key by key.
pub open spec fn spec_merge_attrs(
    base: Seq<(Seq<char>, SpecValue)>,
    upd: Seq<(Seq<char>, SpecValue)>,
    i: int,
) -> Seq<(Seq<char>, SpecValue)>
    decreases i,
{
    if i <= 0 || i > upd.len() {
        base
    } else {
        attrs_insert(spec_merge_attrs(base, upd, i - 1), upd[i - 1].0, upd[i - 1].1)
    }
}

/// The node bindings `bs[..i]` rendered as an id map keyed by `var:NAME`.
pub open spec fn spec_seed_map(bs: SpecBindings, i: int) -> SpecBindings
    decreases i,
{
    if i <= 0 || i > bs.len() {
        Seq::empty()
    } else {
        spec_seed_map(bs, i - 1).push(("var:"@ + bs[i - 1].0, bs[i - 1].1))
    }
}

/// The add step over replacement nodes `rn[i..]`: `new:` nodes get fresh
/// ids, `var:` nodes must be present and take the listed attribute keys.
pub open spec fn spec_add_nodes(
    g: SpecGraph,
    rn: Seq<SpecNode>,
    m: SpecMatch,
    map: SpecBindings,
    nn: u64,
    i: int,
) -> Result<(SpecGraph, SpecBindings, u64), SpecCoreError>
    decreases rn.len() - i,
{
    if i < 0 || i >= rn.len() {
        Ok((g, map, nn))
    } else {
        let n = rn[i];
        if has_prefix(n.id, "var:"@) {
            match bind_get(m.nodes, strip_prefix_view(n.id, "var:"@)) {
                Some(cid) => {
                    match spec_find_node_from(g.nodes, cid, 0) {
                        Some(k) => {
                            let old = g.nodes[k];
                            let merged = SpecNode {
                                id: old.id,
                                node_type: old.node_type,
                                attrs: spec_merge_attrs(old.attrs, n.attrs, n.attrs.len() as int),
                            };
                            spec_add_nodes(
                                SpecGraph { nodes: g.nodes.update(k, merged), edges: g.edges },
                                rn,
                                m,
                                map,
                                nn,
                                i + 1,
                            )
                        }
                        None => Err(SpecCoreError::MalformedRule("replacement names a variable whose node is absent"@)),
                    }
                }
                None => Err(SpecCoreError::MalformedRule("replacement names an unbound node variable"@)),
            }
        } else if has_prefix(n.id, "new:"@) {
            if nn == u64::MAX {
                Err(SpecCoreError::InternalError("node id counter exhausted"@))
            } else {
                let fid = node_id_view(nn);
                let fresh = SpecNode { id: fid, node_type: n.node_type, attrs: n.attrs };
                spec_add_nodes(
                    SpecGraph { nodes: g.nodes.push(fresh), edges: g.edges },
                    rn,
                    m,
                    map.push((n.id, fid)),
                    (nn + 1) as u64,
                    i + 1,
                )
            }
        } else {
            Err(SpecCoreError::MalformedRule("replacement node id lacks a sentinel prefix"@))
        }
    }
}

/// The add step over replacement edges `re[i..]`: `new:` edges get fresh
/// ids with endpoints resolved through the id map, `var:` edges must exist
/// and take the listed attribute keys.
pub open spec fn spec_add_edges(
    g: SpecGraph,
    re: Seq<SpecEdge>,
    m: SpecMatch,
    map: SpecBindings,
    ne: u64,
    i: int,
) -> Result<(SpecGraph, u64), SpecCoreError>
    decreases re.len() - i,
{
    if i < 0 || i >= re.len() {
        Ok((g, ne))
    } else {
        let e = re[i];
        if has_prefix(e.id, "var:"@) {
            match bind_get(m.edges, strip_prefix_view(e.id, "var:"@)) {
                Some(cid) => {
                    match spec_find_edge_from(g.edges, cid, 0) {
                        Some(k) => {
                            let old = g.edges[k];
                            let merged = SpecEdge {
                                id: old.id,
                                edge_type: old.edge_type,
                                src: old.src,
                                dst: old.dst,
                                attrs: spec_merge_attrs(old.attrs, e.attrs, e.attrs.len() as int),
                            };
                            spec_add_edges(
                                SpecGraph { nodes: g.nodes, edges: g.edges.update(k, merged) },
                                re,
                                m,
                                map,
                                ne,
                                i + 1,
                            )
                        }
                        None => Err(SpecCoreError::MalformedRule("replacement names a variable whose edge is absent"@)),
                    }
                }
                None => Err(SpecCoreError::MalformedRule("replacement names an unbound edge variable"@)),
            }
        } else if has_prefix(e.id, "new:"@) {
            if ne == u64::MAX {
                Err(SpecCoreError::InternalError("edge id counter exhausted"@))
            } else {
                match (bind_get(map, e.src), bind_get(map, e.dst)) {
                    (Some(s), Some(d)) => {
                        let fresh = SpecEdge {
                            id: edge_id_view(ne),
                            edge_type: e.edge_type,
                            src: s,
                            dst: d,
                            attrs: e.attrs,
                        };
                        spec_add_edges(
                            SpecGraph { nodes: g.nodes, edges: g.edges.push(fresh) },
                            re,
                            m,
                            map,
                            (ne + 1) as u64,
                            i + 1,
                        )
                    }
                    _ => Err(SpecCoreError::MalformedRule("replacement edge endpoint does not resolve"@)),
                }
            }
        } else {
            Err(SpecCoreError::MalformedRule("replacement edge id lacks a sentinel prefix"@))
        }
    }
}

/// The whole simulation: delete `L \ K`, keep `K`, then add `R`, threading
/// the scratch counters through.
pub open spec fn spec_simulate(g: SpecGraph, rule: SpecRule, m: SpecMatch, nn: u64, ne: u64)
    -> Result<(SpecGraph, u64, u64), SpecCoreError> {
    match spec_del_nodes(g, rule.left, rule.interface, m, 0) {
        Err(e) => Err(e),
        Ok(g1) => match spec_del_edges(g1, rule.left, rule.interface, m, 0) {
            Err(e) => Err(e),
            Ok(g2) => {
                let map = spec_seed_map(m.nodes, m.nodes.len() as int);
                match spec_add_nodes(g2, rule.right.nodes, m, map, nn, 0) {
                    Err(e) => Err(e),
                    Ok((g3, map2, nn2)) => match spec_add_edges(g3, rule.right.edges, m, map2, ne, 0) {
                        Err(e) => Err(e),
                        Ok((g4, ne2)) => Ok((g4, nn2, ne2)),
                    },
                }
            }
        },
    }
}

#[verifier::loop_isolation(false)]
fn exec_del_nodes(g: Graph, l: &GraphPattern, kp: &GraphPattern, m: &Match) -> (r: Result<
    Graph,
    CoreError,
>)
    ensures
        match r {
            Ok(gg) => spec_del_nodes(g@, l@, kp@, m@, 0) == Ok::<SpecGraph, SpecCoreError>(gg@),
            Err(e) => spec_del_nodes(g@, l@, kp@, m@, 0) == Err::<SpecGraph, SpecCoreError>(e@),
        },
{
    let ghost g0 = g@;
    let mut cur = g;
    let mut i: usize = 0;
    while i < l.nodes.len()
        invariant
            i <= l.nodes.len(),
            spec_del_nodes(cur@, l@, kp@, m@, i as int) == spec_del_nodes(g0, l@, kp@, m@, 0),
        decreases l.nodes.len() - i,
    {
        let v: &String = &l.nodes[i].var;
        if !pattern_has_node_var(kp, v.as_str()) {
            match m.node_bindings.get(v.as_str()) {
                Some(id) => {
                    let id2 = id.clone();
                    cur = remove_node(&cur, id2.as_str());
                }
                None => {
                    return Err(CoreError::InternalError(String::from_str("unbound node variable in delete step")));
                }
            }
        }
        i = i + 1;
    }
    Ok(cur)
}

#[verifier::loop_isolation(false)]
fn exec_del_edges(g: Graph, l: &GraphPattern, kp: &GraphPattern, m: &Match) -> (r: Result<
    Graph,
    CoreError,
>)
    ensures
        match r {
            Ok(gg) => spec_del_edges(g@, l@, kp@, m@, 0) == Ok::<SpecGraph, SpecCoreError>(gg@),
            Err(e) => spec_del_edges(g@, l@, kp@, m@, 0) == Err::<SpecGraph, SpecCoreError>(e@),
        },
{
    let ghost g0 = g@;
    let mut cur = g;
    let mut i: usize = 0;
    while i < l.edges.len()
        invariant
            i <= l.edges.len(),
            spec_del_edges(cur@, l@, kp@, m@, i as int) == spec_del_edges(g0, l@, kp@, m@, 0),
        decreases l.edges.len() - i,
    {
        let v: &String = &l.edges[i].var;
        if !pattern_has_edge_var(kp, v.as_str()) {
            match m.edge_bindings.get(v.as_str()) {
                Some(id) => {
                    let id2 = id.clone();
                    cur = remove_edge(cur, id2.as_str());
                }
                None => {
                    return Err(CoreError::InternalError(String::from_str("unbound edge variable in delete step")));
                }
            }
        }
        i = i + 1;
    }
    Ok(cur)
}

#[verifier::loop_isolation(false)]
fn seed_map(m: &Match) -> (r: VarMap)
    ensures
        r@ == spec_seed_map(m@.nodes, m@.nodes.len() as int),
{
    let mut map = VarMap::new();
    let n = m.node_bindings.len();
    let mut i: usize = 0;
    while i < n
        invariant
            i <= n,
            n == m@.nodes.len(),
            map@ == spec_seed_map(m@.nodes, i as int),
        decreases n - i,
    {
        let mut key = String::from_str("var:");
        key.append(m.node_bindings.key_at(i).as_str());
        map.push(key, m.node_bindings.val_at(i).clone());
        i = i + 1;
    }
    map
}

#[verifier::loop_isolation(false)]
fn exec_add_nodes(g: Graph, rn: &Vec<Node>, m: &Match, map: VarMap, nn: u64) -> (r: Result<
    (Graph, VarMap, u64),
    CoreError,
>)
    ensures
        match r {
            Ok(t) => spec_add_nodes(g@, crate::graph::nodes_view(*rn), m@, map@, nn, 0)
                == Ok::<(SpecGraph, SpecBindings, u64), SpecCoreError>((t.0@, t.1@, t.2)),
            Err(e) => spec_add_nodes(g@, crate::graph::nodes_view(*rn), m@, map@, nn, 0)
                == Err::<(SpecGraph, SpecBindings, u64), SpecCoreError>(e@),
        },
{
    let ghost g0 = g@;
    let ghost map0 = map@;
    let ghost rv = crate::graph::nodes_view(*rn);
    let mut cur = g;
    let mut curmap = map;
    let mut curn = nn;
    let mut i: usize = 0;
    while i < rn.len()
        invariant
            i <= rn.len(),
            spec_add_nodes(cur@, rv, m@, curmap@, curn, i as int) == spec_add_nodes(g0, rv, m@, map0, nn, 0),
        decreases rn.len() - i,
    {
        let ghost prev = cur@;
        let n = &rn[i];
        if let Some(name) = strip_prefix(n.id.as_str(), "var:") {
            match m.node_bindings.get(name.as_str()) {
                Some(cid) => {
                    match find_node_index(&cur, cid.as_str()) {
                        Some(k) => {
                            let mut node = cur.nodes[k].duplicate();
                            let upd = &n.attrs;
                            let mut a: usize = 0;
                            while a < upd.len()
                                invariant
                                    a <= upd@.len(),
                                    k < cur.nodes@.len(),
                                    node@.id == prev.nodes[k as int].id,
                                    node@.node_type == prev.nodes[k as int].node_type,
                                    node@.attrs == spec_merge_attrs(prev.nodes[k as int].attrs, rv[i as int].attrs, a as int),
                                decreases upd@.len() - a,
                            {
                                node.attrs.insert(upd.key_at(a).clone(), upd.val_at(a).clone());
                                a = a + 1;
                            }
                            let ghost merged = node@;
                            cur.nodes[k] = node;
                            proof {
                                assert(cur@ =~= (SpecGraph { nodes: prev.nodes.update(k as int, merged), edges: prev.edges }));
                            }
                        }
                        None => {
                            return Err(CoreError::MalformedRule(String::from_str("replacement names a variable whose node is absent")));
                        }
                    }
                }
                None => {
                    return Err(CoreError::MalformedRule(String::from_str("replacement names an unbound node variable")));
                }
            }
        } else if let Some(_name) = strip_prefix(n.id.as_str(), "new:") {
            if curn == u64::MAX {
                return Err(CoreError::InternalError(String::from_str("node id counter exhausted")));
            }
            let fid = render_node_id(curn);
            let fresh = Node { id: fid.clone(), node_type: n.node_type.clone(), attrs: n.attrs.clone() };
            cur.nodes.push(fresh);
            curmap.push(n.id.clone(), fid);
            curn = curn + 1;
            proof {
                assert(cur@ =~= (SpecGraph { nodes: prev.nodes.push(fresh@), edges: prev.edges }));
            }
        } else {
            return Err(CoreError::MalformedRule(String::from_str("replacement node id lacks a sentinel prefix")));
        }
        i = i + 1;
    }
    Ok((cur, curmap, curn))
}

#[verifier::loop_isolation(false)]
fn exec_add_edges(g: Graph, re: &Vec<Edge>, m: &Match, map: &VarMap, ne: u64) -> (r: Result<
    (Graph, u64),
    CoreError,
>)
    ensures
        match r {
            Ok(t) => spec_add_edges(g@, crate::graph::edges_view(*re), m@, map@, ne, 0)
                == Ok::<(SpecGraph, u64), SpecCoreError>((t.0@, t.1)),
            Err(e) => spec_add_edges(g@, crate::graph::edges_view(*re), m@, map@, ne, 0)
                == Err::<(SpecGraph, u64), SpecCoreError>(e@),
        },
{
    let ghost g0 = g@;
    let ghost rv = crate::graph::edges_view(*re);
    let mut cur = g;
    let mut curn = ne;
    let mut i: usize = 0;
    while i < re.len()
        invariant
            i <= re.len(),
            spec_add_edges(cur@, rv, m@, map@, curn, i as int) == spec_add_edges(g0, rv, m@, map@, ne, 0),
        decreases re.len() - i,
    {
        let ghost prev = cur@;
        let e = &re[i];
        if let Some(name) = strip_prefix(e.id.as_str(), "var:") {
            match m.edge_bindings.get(name.as_str()) {
                Some(cid) => {
                    match find_edge_index(&cur, cid.as_str()) {
                        Some(k) => {
                            let mut edge = cur.edges[k].duplicate();
                            let upd = &e.attrs;
                            let mut a: usize = 0;
                            while a < upd.len()
                                invariant
                                    a <= upd@.len(),
                                    k < cur.edges@.len(),
                                    edge@.id == prev.edges[k as int].id,
                                    edge@.edge_type == prev.edges[k as int].edge_type,
                                    edge@.src == prev.edges[k as int].src,
                                    edge@.dst == prev.edges[k as int].dst,
                                    edge@.attrs == spec_merge_attrs(prev.edges[k as int].attrs, rv[i as int].attrs, a as int),
                                decreases upd@.len() - a,
                            {
                                edge.attrs.insert(upd.key_at(a).clone(), upd.val_at(a).clone());
                                a = a + 1;
                            }
                            let ghost merged = edge@;
                            cur.edges[k] = edge;
                            proof {
                                assert(cur@ =~= (SpecGraph { nodes: prev.nodes, edges: prev.edges.update(k as int, merged) }));
                                assert(spec_add_edges(prev, rv, m@, map@, curn, i as int)
                                    == spec_add_edges(cur@, rv, m@, map@, curn, i + 1));
                            }
                        }
                        None => {
                            return Err(CoreError::MalformedRule(String::from_str("replacement names a variable whose edge is absent")));
                        }
                    }
                }
                None => {
                    return Err(CoreError::MalformedRule(String::from_str("replacement names an unbound edge variable")));
                }
            }
        } else if let Some(_name) = strip_prefix(e.id.as_str(), "new:") {
            if curn == u64::MAX {
                return Err(CoreError::InternalError(String::from_str("edge id counter exhausted")));
            }
            let src = match map.get(e.src.as_str()) {
                Some(s) => s.clone(),
                None => {
                    return Err(CoreError::MalformedRule(String::from_str("replacement edge endpoint does not resolve")));
                }
            };
            let dst = match map.get(e.dst.as_str()) {
                Some(d) => d.clone(),
                None => {
                    return Err(CoreError::MalformedRule(String::from_str("replacement edge endpoint does not resolve")));
                }
            };
            let fid = render_edge_id(curn);
            let fresh = Edge {
                id: fid,
                edge_type: e.edge_type.clone(),
                src,
                dst,
                attrs: e.attrs.clone(),
            };
            let ghost freshv = fresh@;
            cur.edges.push(fresh);
            let ghost oldn = curn;
            curn = curn + 1;
            proof {
                assert(cur@ =~= (SpecGraph { nodes: prev.nodes, edges: prev.edges.push(freshv) }));
                assert(freshv == (SpecEdge {
                    id: edge_id_view(oldn),
                    edge_type: rv[i as int].edge_type,
                    src: src@,
                    dst: dst@,
                    attrs: rv[i as int].attrs,
                }));
                assert(spec_add_edges(prev, rv, m@, map@, oldn, i as int)
                    == spec_add_edges(cur@, rv, m@, map@, curn, i + 1));
            }
        } else {
            return Err(CoreError::MalformedRule(String::from_str("replacement edge id lacks a sentinel prefix")));
        }
        i = i + 1;
    }
    Ok((cur, curn))
}

/// Runs the rewrite in a sandbox: deletes what `L` binds beyond `K`, keeps
/// `K`, adds `R`, and returns the new graph with the advanced scratch
/// counters.  The live graph is never touched.
pub fn simulate(g: &Graph, rule: &DpoRule, m: &Match, nn: u64, ne: u64) -> (r: Result<
    (Graph, u64, u64),
    CoreError,
>)
    ensures
        match r {
            Ok(t) => spec_simulate(g@, rule@, m@, nn, ne) == Ok::<(SpecGraph, u64, u64), SpecCoreError>(
                (t.0@, t.1, t.2),
            ),
            Err(e) => spec_simulate(g@, rule@, m@, nn, ne) == Err::<(SpecGraph, u64, u64), SpecCoreError>(e@),
        },
{
    let work = g.duplicate();
    let g1 = match exec_del_nodes(work, &rule.left, &rule.interface, m) {
        Ok(gg) => gg,
        Err(e) => {
            return Err(e);
        }
    };
    let g2 = match exec_del_edges(g1, &rule.left, &rule.interface, m) {
        Ok(gg) => gg,
        Err(e) => {
            return Err(e);
        }
    };
    let map = seed_map(m);
    let (g3, map2, nn2) = match exec_add_nodes(g2, &rule.right.nodes, m, map, nn) {
        Ok(t) => t,
        Err(e) => {
            return Err(e);
        }
    };
    let (g4, ne2) = match exec_add_edges(g3, &rule.right.edges, m, &map2, ne) {
        Ok(t) => t,
        Err(e) => {
            return Err(e);
        }
    };
    Ok((g4, nn2, ne2))
}

} // verus!
