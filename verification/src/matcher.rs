//! The pattern matcher: finds an injective binding of a pattern's node and
//! edge variables to live graph elements, satisfying type names, attribute
//! constraints and structural constraints.
//!
//! Enumeration order is fixed — variables in pattern order, candidates in
//! graph insertion order — so the first binding found is deterministic.

use vstd::prelude::*;
use crate::graph::{Graph, Node, SpecEdge, SpecGraph, SpecNode};
use crate::rule::{
    bind_get, bind_get_from, bind_has_id, constraints_view, AttrOp, GraphPattern, Match, SpecAttrOp,
    SpecBindings, SpecEdgePattern, SpecMatch, SpecNodePattern, SpecPattern,
    SpecStructuralConstraint,
};
use crate::text::{lex_lt, str_eq, str_lt};
use crate::value::{attrs_get, value_eq, AttrMap, SpecValue, Value};

verus! {

/// Whether the pattern `pattern` compiles as a regular expression.  The
/// regex crate accepts or rejects a pattern as a function of the pattern
/// alone (its syntax and the default size limit).
pub uninterp spec fn regex_syntax_ok(pattern: Seq<char>) -> bool;

/// Whether the regular expression `pattern` matches anywhere in `text`.
/// The result depends on the pattern and the text alone.
pub uninterp spec fn regex_match(pattern: Seq<char>, text: Seq<char>) -> bool;

/// Relies on `regex::Regex::new` and `regex::Regex::is_match`: compiling a
/// pattern succeeds or fails as a function of the pattern alone, and
/// `is_match` is true exactly when the expression matches anywhere in the
/// text — a pure function of pattern and text.
#[verifier::external_body]
fn regex_is_match(pattern: &str, text: &str) -> (r: Option<bool>)
    ensures
        r is Some <==> regex_syntax_ok(pattern@),
        r is Some ==> r->0 == regex_match(pattern@, text@),
{
    match regex::Regex::new(pattern) {
        Ok(re) => Some(re.is_match(text)),
        Err(_) => None,
    }
}

/// Whether `pattern` compiles and matches somewhere in `text`; a pattern
/// that does not compile matches nothing.
pub fn pii_text_match(pattern: &str, text: &str) -> (r: bool)
    ensures
        r == (regex_syntax_ok(pattern@) && regex_match(pattern@, text@)),
{
    match regex_is_match(pattern, text) {
        Some(b) => b,
        None => false,
    }
}

/// Strict order on two values: integers by numeric order, strings by
/// lexicographic order; values of any other shapes do not compare.
pub open spec fn sv_lt(a: SpecValue, b: SpecValue) -> bool {
    match (a, b) {
        (SpecValue::Int(x), SpecValue::Int(y)) => x < y,
        (SpecValue::Str(x), SpecValue::Str(y)) => lex_lt(x, y),
        _ => false,
    }
}

/// Non-strict order on two values, defined only on two integers or two
/// strings; values of any other shapes do not compare.
pub open spec fn sv_lte(a: SpecValue, b: SpecValue) -> bool {
    match (a, b) {
        (SpecValue::Int(x), SpecValue::Int(y)) => x <= y,
        (SpecValue::Str(x), SpecValue::Str(y)) => lex_lt(x, y) || x == y,
        _ => false,
    }
}

/// Whether the attribute value `v` satisfies one constraint.
pub open spec fn spec_eval_op(v: SpecValue, op: SpecAttrOp) -> bool {
    match op {
        SpecAttrOp::Eq(w) => v == w,
        SpecAttrOp::Neq(w) => v != w,
        SpecAttrOp::Lt(w) => sv_lt(v, w),
        SpecAttrOp::Lte(w) => sv_lte(v, w),
        SpecAttrOp::Gt(w) => sv_lt(w, v),
        SpecAttrOp::Gte(w) => sv_lte(w, v),
        SpecAttrOp::Regex(p) => v is Str && regex_syntax_ok(p) && regex_match(p, v->Str_0),
        SpecAttrOp::In(ws) => exists|i: int| 0 <= i < ws.len() && ws[i] == v,
    }
}

/// Whether the attributes satisfy all constraints listed for one key: the
/// attribute must be present unless no operation is asked of it.
pub open spec fn spec_key_satisfies(
    attrs: Seq<(Seq<char>, SpecValue)>,
    key: Seq<char>,
    ops: Seq<SpecAttrOp>,
) -> bool {
    match attrs_get(attrs, key) {
        Some(v) => forall|j: int| 0 <= j < ops.len() ==> spec_eval_op(v, #[trigger] ops[j]),
        None => ops.len() == 0,
    }
}

/// Whether the attributes satisfy a whole constraint table.
pub open spec fn spec_attrs_satisfy(
    attrs: Seq<(Seq<char>, SpecValue)>,
    cs: Seq<(Seq<char>, Seq<SpecAttrOp>)>,
) -> bool {
    forall|i: int| 0 <= i < cs.len() ==> spec_key_satisfies(attrs, #[trigger] cs[i].0, cs[i].1)
}

#[verifier::loop_isolation(false)]
fn eval_op(v: &Value, op: &AttrOp) -> (r: bool)
    ensures
        r == spec_eval_op(v@, op@),
{
    match op {
        AttrOp::Eq { value } => value_eq(v, value),
        AttrOp::Neq { value } => !value_eq(v, value),
        AttrOp::Lt { value } => value_lt(v, value),
        AttrOp::Lte { value } => value_lte(v, value),
        AttrOp::Gt { value } => value_lt(value, v),
        AttrOp::Gte { value } => value_lte(value, v),
        AttrOp::Regex { pattern } => {
            match v {
                Value::Str(s) => {
                    match regex_is_match(pattern.as_str(), s.as_str()) {
                        Some(b) => b,
                        None => false,
                    }
                }
                _ => false,
            }
        }
        AttrOp::In { values } => {
            let mut i: usize = 0;
            let ghost ws = op@->In_0;
            proof {
                crate::value::lemma_vals_view_from(*values, 0);
            }
            while i < values.len()
                invariant
                    i <= values.len(),
                    ws == crate::value::vals_view_from(*values, 0),
                    ws.len() == values.len(),
                    forall|j: int| 0 <= j < ws.len() ==> ws[j] == crate::value::val_view(values@[j]),
                    forall|j: int| 0 <= j < i ==> #[trigger] ws[j] != v@,
                decreases values.len() - i,
            {
                if value_eq(v, &values[i]) {
                    proof {
                        assert(ws[i as int] == v@);
                    }
                    return true;
                }
                i = i + 1;
            }
            false
        }
    }
}

fn value_lt(a: &Value, b: &Value) -> (r: bool)
    ensures
        r == sv_lt(a@, b@),
{
    match (a, b) {
        (Value::Int(x), Value::Int(y)) => *x < *y,
        (Value::Str(x), Value::Str(y)) => str_lt(x.as_str(), y.as_str()),
        _ => false,
    }
}

fn value_lte(a: &Value, b: &Value) -> (r: bool)
    ensures
        r == sv_lte(a@, b@),
{
    match (a, b) {
        (Value::Int(x), Value::Int(y)) => *x <= *y,
        (Value::Str(x), Value::Str(y)) => str_lt(x.as_str(), y.as_str()) || str_eq(x.as_str(), y.as_str()),
        _ => false,
    }
}

#[verifier::loop_isolation(false)]
fn attrs_satisfy(attrs: &AttrMap, cs: &Vec<(String, Vec<AttrOp>)>) -> (r: bool)
    ensures
        r == spec_attrs_satisfy(attrs@, constraints_view(*cs)),
{
    let ghost cv = constraints_view(*cs);
    let mut i: usize = 0;
    while i < cs.len()
        invariant
            i <= cs.len(),
            forall|j: int| 0 <= j < i ==> spec_key_satisfies(attrs@, #[trigger] cv[j].0, cv[j].1),
        decreases cs.len() - i,
    {
        let key: &String = &cs[i].0;
        let ops: &Vec<AttrOp> = &cs[i].1;
        let ghost opsv = cv[i as int].1;
        match attrs.get(key.as_str()) {
            Some(v) => {
                let mut k: usize = 0;
                while k < ops.len()
                    invariant
                        k <= ops.len(),
                        attrs_get(attrs@, key@) == Some(v@),
                        opsv == crate::rule::ops_view(*ops),
                        forall|j: int| 0 <= j < k ==> spec_eval_op(v@, #[trigger] opsv[j]),
                    decreases ops.len() - k,
                {
                    if !eval_op(v, &ops[k]) {
                        proof {
                            assert(!spec_eval_op(v@, opsv[k as int]));
                            assert(!spec_key_satisfies(attrs@, cv[i as int].0, cv[i as int].1));
                        }
                        return false;
                    }
                    k = k + 1;
                }
                proof {
                    assert(spec_key_satisfies(attrs@, cv[i as int].0, cv[i as int].1));
                }
            }
            None => {
                if ops.len() > 0 {
                    proof {
                        assert(!spec_key_satisfies(attrs@, cv[i as int].0, cv[i as int].1));
                    }
                    return false;
                }
                proof {
                    assert(spec_key_satisfies(attrs@, cv[i as int].0, cv[i as int].1));
                }
            }
        }
        i = i + 1;
    }
    true
}

/// Whether a node satisfies a node pattern's type name and constraints.
pub open spec fn spec_node_matches(n: SpecNode, p: SpecNodePattern) -> bool {
    &&& match p.node_type {
        Some(t) => n.node_type == t,
        None => true,
    }
    &&& spec_attrs_satisfy(n.attrs, p.attr_constraints)
}

fn node_matches(n: &Node, p: &crate::rule::NodePattern) -> (r: bool)
    ensures
        r == spec_node_matches(n@, p@),
{
    let type_ok: bool = match &p.node_type {
        Some(t) => str_eq(n.node_type.as_str(), t.as_str()),
        None => true,
    };
    if !type_ok {
        return false;
    }
    attrs_satisfy(&n.attrs, &p.attr_constraints)
}

/// Whether an edge satisfies an edge pattern under the node bindings so
/// far: type name, attribute constraints, and endpoint consistency.
pub open spec fn spec_edge_matches(e: SpecEdge, p: SpecEdgePattern, nodes: SpecBindings) -> bool {
    &&& match p.edge_type {
        Some(t) => e.edge_type == t,
        None => true,
    }
    &&& spec_attrs_satisfy(e.attrs, p.attr_constraints)
    &&& bind_get(nodes, p.src_var) == Some(e.src)
    &&& bind_get(nodes, p.dst_var) == Some(e.dst)
}

fn edge_matches(e: &crate::graph::Edge, p: &crate::rule::EdgePattern, nodes: &crate::rule::VarMap) -> (r: bool)
    ensures
        r == spec_edge_matches(e@, p@, nodes@),
{
    let type_ok: bool = match &p.edge_type {
        Some(t) => str_eq(e.edge_type.as_str(), t.as_str()),
        None => true,
    };
    if !type_ok {
        return false;
    }
    let src_ok: bool = match nodes.get(p.src_var.as_str()) {
        Some(id) => str_eq(id.as_str(), e.src.as_str()),
        None => false,
    };
    if !src_ok {
        return false;
    }
    let dst_ok: bool = match nodes.get(p.dst_var.as_str()) {
        Some(id) => str_eq(id.as_str(), e.dst.as_str()),
        None => false,
    };
    if !dst_ok {
        return false;
    }
    attrs_satisfy(&e.attrs, &p.attr_constraints)
}

/// The first node with the given id, scanning from position `i`.
pub open spec fn spec_find_node_from(ns: Seq<SpecNode>, id: Seq<char>, i: int) -> Option<int>
    decreases ns.len() - i,
{
    if i < 0 || i >= ns.len() {
        None
    } else if ns[i].id == id {
        Some(i)
    } else {
        spec_find_node_from(ns, id, i + 1)
    }
}

/// The first edge with the given id, scanning from position `i`.
pub open spec fn spec_find_edge_from(es: Seq<SpecEdge>, id: Seq<char>, i: int) -> Option<int>
    decreases es.len() - i,
{
    if i < 0 || i >= es.len() {
        None
    } else if es[i].id == id {
        Some(i)
    } else {
        spec_find_edge_from(es, id, i + 1)
    }
}

/// A found node index is in bounds and names a node with the id sought.
pub proof fn lemma_find_node_bounds(ns: Seq<SpecNode>, id: Seq<char>, i: int)
    requires
        spec_find_node_from(ns, id, i) is Some,
    ensures
        i <= spec_find_node_from(ns, id, i)->0 < ns.len(),
        ns[spec_find_node_from(ns, id, i)->0].id == id,
    decreases ns.len() - i,
{
    if 0 <= i < ns.len() && ns[i].id != id {
        lemma_find_node_bounds(ns, id, i + 1);
    }
}

/// A found edge index is in bounds and names an edge with the id sought.
pub proof fn lemma_find_edge_bounds(es: Seq<SpecEdge>, id: Seq<char>, i: int)
    requires
        spec_find_edge_from(es, id, i) is Some,
    ensures
        i <= spec_find_edge_from(es, id, i)->0 < es.len(),
        es[spec_find_edge_from(es, id, i)->0].id == id,
    decreases es.len() - i,
{
    if 0 <= i < es.len() && es[i].id != id {
        lemma_find_edge_bounds(es, id, i + 1);
    }
}

/// The index of the first node with id `id` in the graph, if any.
pub fn find_node_index(g: &Graph, id: &str) -> (r: Option<usize>)
    ensures
        match r {
            Some(i) => spec_find_node_from(g@.nodes, id@, 0) == Some(i as int) && i < g@.nodes.len(),
            None => spec_find_node_from(g@.nodes, id@, 0) is None,
        },
{
    find_node_index_from(g, id, 0)
}

fn find_node_index_from(g: &Graph, id: &str, i: usize) -> (r: Option<usize>)
    requires
        i <= g@.nodes.len(),
    ensures
        match r {
            Some(k) => spec_find_node_from(g@.nodes, id@, i as int) == Some(k as int) && k < g@.nodes.len(),
            None => spec_find_node_from(g@.nodes, id@, i as int) is None,
        },
    decreases g@.nodes.len() - i,
{
    if i >= g.nodes.len() {
        None
    } else if str_eq(g.nodes[i].id.as_str(), id) {
        Some(i)
    } else {
        find_node_index_from(g, id, i + 1)
    }
}

/// The index of the first edge with id `id` in the graph, if any.
pub fn find_edge_index(g: &Graph, id: &str) -> (r: Option<usize>)
    ensures
        match r {
            Some(i) => spec_find_edge_from(g@.edges, id@, 0) == Some(i as int) && i < g@.edges.len(),
            None => spec_find_edge_from(g@.edges, id@, 0) is None,
        },
{
    find_edge_index_from(g, id, 0)
}

fn find_edge_index_from(g: &Graph, id: &str, i: usize) -> (r: Option<usize>)
    requires
        i <= g@.edges.len(),
    ensures
        match r {
            Some(k) => spec_find_edge_from(g@.edges, id@, i as int) == Some(k as int) && k < g@.edges.len(),
            None => spec_find_edge_from(g@.edges, id@, i as int) is None,
        },
    decreases g@.edges.len() - i,
{
    if i >= g.edges.len() {
        None
    } else if str_eq(g.edges[i].id.as_str(), id) {
        Some(i)
    } else {
        find_edge_index_from(g, id, i + 1)
    }
}

/// Whether all variables named by one distinctness constraint are bound,
/// pairwise to distinct ids wherever the variables differ.
pub open spec fn spec_distinct_ok(vars: Seq<Seq<char>>, b: SpecBindings) -> bool {
    &&& forall|i: int| 0 <= i < vars.len() ==> bind_get(b, #[trigger] vars[i]) is Some
    &&& forall|i: int, j: int|
        0 <= i < j < vars.len() && vars[i] != vars[j] ==> bind_get(b, #[trigger] vars[i]) != bind_get(
            b,
            #[trigger] vars[j],
        )
}

/// Whether every structural constraint holds of the finished binding.
pub open spec fn spec_constraints_ok(cs: Seq<SpecStructuralConstraint>, m: SpecMatch) -> bool {
    forall|i: int| 0 <= i < cs.len() ==> match #[trigger] cs[i] {
        SpecStructuralConstraint::DistinctNodes(vars) => spec_distinct_ok(vars, m.nodes),
        SpecStructuralConstraint::DistinctEdges(vars) => spec_distinct_ok(vars, m.edges),
    }
}

#[verifier::loop_isolation(false)]
fn distinct_ok(vars: &Vec<String>, b: &crate::rule::VarMap) -> (r: bool)
    ensures
        r == spec_distinct_ok(crate::text::strs_view(*vars), b@),
{
    let ghost vv = crate::text::strs_view(*vars);
    let mut i: usize = 0;
    while i < vars.len()
        invariant
            i <= vars.len(),
            forall|j: int| 0 <= j < i ==> bind_get(b@, #[trigger] vv[j]) is Some,
            forall|j: int, k: int|
                0 <= j < k < i && vv[j] != vv[k] ==> bind_get(b@, #[trigger] vv[j]) != bind_get(b@, #[trigger] vv[k]),
        decreases vars.len() - i,
    {
        let vi = match b.get(vars[i].as_str()) {
            Some(id) => id,
            None => {
                proof {
                    assert(bind_get(b@, vv[i as int]) is None);
                }
                return false;
            }
        };
        let mut j: usize = 0;
        while j < i
            invariant
                j <= i,
                i < vars.len(),
                bind_get(b@, vv[i as int]) == Some(vi@),
                forall|k: int|
                    0 <= k < j && vv[k] != vv[i as int] ==> bind_get(b@, #[trigger] vv[k]) != bind_get(b@, vv[i as int]),
            decreases i - j,
        {
            if !str_eq(vars[j].as_str(), vars[i].as_str()) {
                match b.get(vars[j].as_str()) {
                    Some(vj) => {
                        if str_eq(vj.as_str(), vi.as_str()) {
                            proof {
                                assert(vv[j as int] != vv[i as int]);
                                assert(bind_get(b@, vv[j as int]) == bind_get(b@, vv[i as int]));
                            }
                            return false;
                        }
                    }
                    None => {
                        proof {
                            assert(bind_get(b@, vv[j as int]) is None);
                        }
                        return false;
                    }
                }
            }
            j = j + 1;
        }
        i = i + 1;
    }
    true
}

#[verifier::loop_isolation(false)]
fn constraints_ok(cs: &Vec<crate::rule::StructuralConstraint>, m: &Match) -> (r: bool)
    ensures
        r == spec_constraints_ok(crate::rule::struct_constraints_view(*cs), m@),
{
    let ghost cv = crate::rule::struct_constraints_view(*cs);
    let mut i: usize = 0;
    while i < cs.len()
        invariant
            i <= cs.len(),
            forall|j: int| 0 <= j < i ==> match #[trigger] cv[j] {
                SpecStructuralConstraint::DistinctNodes(vars) => spec_distinct_ok(vars, m@.nodes),
                SpecStructuralConstraint::DistinctEdges(vars) => spec_distinct_ok(vars, m@.edges),
            },
        decreases cs.len() - i,
    {
        match &cs[i] {
            crate::rule::StructuralConstraint::DistinctNodes { vars } => {
                if !distinct_ok(vars, &m.node_bindings) {
                    proof {
                        assert(cv[i as int] == SpecStructuralConstraint::DistinctNodes(crate::text::strs_view(*vars)));
                        assert(!spec_constraints_ok(cv, m@));
                    }
                    return false;
                }
            }
            crate::rule::StructuralConstraint::DistinctEdges { vars } => {
                if !distinct_ok(vars, &m.edge_bindings) {
                    proof {
                        assert(cv[i as int] == SpecStructuralConstraint::DistinctEdges(crate::text::strs_view(*vars)));
                        assert(!spec_constraints_ok(cv, m@));
                    }
                    return false;
                }
            }
        }
        i = i + 1;
    }
    true
}

/// The matcher's search over node variables `i..`, extending binding `b`.
pub open spec fn spec_match_nodes(g: SpecGraph, l: SpecPattern, i: int, b: SpecMatch) -> Option<SpecMatch>
    decreases l.nodes.len() - i + l.edges.len() + 2, 1int, 0int,
    when 0 <= i <= l.nodes.len()
{
    if i >= l.nodes.len() {
        spec_match_edges(g, l, 0, b)
    } else {
        let p = l.nodes[i];
        match bind_get(b.nodes, p.var) {
            Some(id) => {
                match spec_find_node_from(g.nodes, id, 0) {
                    Some(k) => {
                        if spec_node_matches(g.nodes[k], p) {
                            spec_match_nodes(g, l, i + 1, b)
                        } else {
                            None
                        }
                    }
                    None => None,
                }
            }
            None => spec_try_nodes(g, l, i, 0, b),
        }
    }
}

/// The matcher's scan over candidate nodes `j..` for node variable `i`.
pub open spec fn spec_try_nodes(g: SpecGraph, l: SpecPattern, i: int, j: int, b: SpecMatch) -> Option<SpecMatch>
    decreases l.nodes.len() - i + l.edges.len() + 2, 0int, g.nodes.len() - j,
    when 0 <= i < l.nodes.len() && 0 <= j <= g.nodes.len()
{
    if j >= g.nodes.len() {
        None
    } else {
        let n = g.nodes[j];
        let p = l.nodes[i];
        if spec_node_matches(n, p) && !bind_has_id(b.nodes, n.id) {
            let b2 = SpecMatch { nodes: b.nodes.push((p.var, n.id)), edges: b.edges };
            match spec_match_nodes(g, l, i + 1, b2) {
                Some(m) => Some(m),
                None => spec_try_nodes(g, l, i, j + 1, b),
            }
        } else {
            spec_try_nodes(g, l, i, j + 1, b)
        }
    }
}

/// The matcher's search over edge variables `k..`, extending binding `b`.
pub open spec fn spec_match_edges(g: SpecGraph, l: SpecPattern, k: int, b: SpecMatch) -> Option<SpecMatch>
    decreases l.edges.len() - k + 1, 1int, 0int,
    when 0 <= k <= l.edges.len()
{
    if k >= l.edges.len() {
        if spec_constraints_ok(l.constraints, b) {
            Some(b)
        } else {
            None
        }
    } else {
        let p = l.edges[k];
        match bind_get(b.edges, p.var) {
            Some(id) => {
                match spec_find_edge_from(g.edges, id, 0) {
                    Some(x) => {
                        if spec_edge_matches(g.edges[x], p, b.nodes) {
                            spec_match_edges(g, l, k + 1, b)
                        } else {
                            None
                        }
                    }
                    None => None,
                }
            }
            None => spec_try_edges(g, l, k, 0, b),
        }
    }
}

/// The matcher's scan over candidate edges `j..` for edge variable `k`.
pub open spec fn spec_try_edges(g: SpecGraph, l: SpecPattern, k: int, j: int, b: SpecMatch) -> Option<SpecMatch>
    decreases l.edges.len() - k + 1, 0int, g.edges.len() - j,
    when 0 <= k < l.edges.len() && 0 <= j <= g.edges.len()
{
    if j >= g.edges.len() {
        None
    } else {
        let e = g.edges[j];
        let p = l.edges[k];
        if spec_edge_matches(e, p, b.nodes) && !bind_has_id(b.edges, e.id) {
            let b2 = SpecMatch { nodes: b.nodes, edges: b.edges.push((p.var, e.id)) };
            match spec_match_edges(g, l, k + 1, b2) {
                Some(m) => Some(m),
                None => spec_try_edges(g, l, k, j + 1, b),
            }
        } else {
            spec_try_edges(g, l, k, j + 1, b)
        }
    }
}

/// The first binding of the whole pattern under the fixed enumeration.
pub open spec fn spec_find_match(g: SpecGraph, l: SpecPattern) -> Option<SpecMatch> {
    spec_match_nodes(g, l, 0, SpecMatch { nodes: Seq::empty(), edges: Seq::empty() })
}

/// What a binding looked up after a push yields: an existing binding wins,
/// else the pushed pair answers for its own variable.
proof fn lemma_bind_get_push(b: SpecBindings, k: Seq<char>, id: Seq<char>, v: Seq<char>, i: int)
    requires
        0 <= i <= b.len(),
    ensures
        bind_get_from(b.push((k, id)), v, i) == match bind_get_from(b, v, i) {
            Some(x) => Some(x),
            None => if k == v {
                Some(id)
            } else {
                None::<Seq<char>>
            },
        },
    decreases b.len() - i,
{
    if i < b.len() {
        assert(b.push((k, id))[i] == b[i]);
        if b[i].0 != v {
            lemma_bind_get_push(b, k, id, v, i + 1);
        }
    } else {
        assert(b.push((k, id))[i] == (k, id));
        assert(bind_get_from(b, v, i) == None::<Seq<char>>);
        if k != v {
            assert(bind_get_from(b.push((k, id)), v, i + 1) == None::<Seq<char>>);
        }
    }
}

/// Soundness of the node phase for the patterns `[0, i)`: every bound
/// variable of a pattern already visited names a node of the graph that
/// satisfies that pattern.
pub open spec fn spec_nodes_sound_upto(g: SpecGraph, l: SpecPattern, b: SpecBindings, i: int) -> bool {
    forall|k: int|
        0 <= k < i && k < l.nodes.len() ==> match bind_get(b, (#[trigger] l.nodes[k]).var) {
            Some(id) => exists|j: int|
                0 <= j < g.nodes.len() && (#[trigger] g.nodes[j]).id == id && spec_node_matches(
                    g.nodes[j],
                    l.nodes[k],
                ),
            None => false,
        }
}

proof fn lemma_match_edges_nodes_const(g: SpecGraph, l: SpecPattern, k: int, b: SpecMatch)
    requires
        0 <= k <= l.edges.len(),
        spec_match_edges(g, l, k, b) is Some,
    ensures
        spec_match_edges(g, l, k, b)->0.nodes == b.nodes,
    decreases l.edges.len() - k + 1, 1int, 0int,
{
    if k < l.edges.len() {
        let p = l.edges[k];
        match bind_get(b.edges, p.var) {
            Some(_) => {
                lemma_match_edges_nodes_const(g, l, k + 1, b);
            }
            None => {
                lemma_try_edges_nodes_const(g, l, k, 0, b);
            }
        }
    }
}

proof fn lemma_try_edges_nodes_const(g: SpecGraph, l: SpecPattern, k: int, j: int, b: SpecMatch)
    requires
        0 <= k < l.edges.len(),
        0 <= j <= g.edges.len(),
        spec_try_edges(g, l, k, j, b) is Some,
    ensures
        spec_try_edges(g, l, k, j, b)->0.nodes == b.nodes,
    decreases l.edges.len() - k + 1, 0int, g.edges.len() - j,
{
    if j < g.edges.len() {
        let e = g.edges[j];
        let p = l.edges[k];
        if spec_edge_matches(e, p, b.nodes) && !bind_has_id(b.edges, e.id) {
            let b2 = SpecMatch { nodes: b.nodes, edges: b.edges.push((p.var, e.id)) };
            match spec_match_edges(g, l, k + 1, b2) {
                Some(_) => {
                    lemma_match_edges_nodes_const(g, l, k + 1, b2);
                }
                None => {
                    lemma_try_edges_nodes_const(g, l, k, j + 1, b);
                }
            }
        } else {
            lemma_try_edges_nodes_const(g, l, k, j + 1, b);
        }
    }
}

proof fn lemma_match_nodes_sound(g: SpecGraph, l: SpecPattern, i: int, b: SpecMatch)
    requires
        0 <= i <= l.nodes.len(),
        spec_match_nodes(g, l, i, b) is Some,
        spec_nodes_sound_upto(g, l, b.nodes, i),
    ensures
        spec_nodes_sound_upto(g, l, spec_match_nodes(g, l, i, b)->0.nodes, l.nodes.len() as int),
    decreases l.nodes.len() - i + l.edges.len() + 2, 1int, 0int,
{
    if i >= l.nodes.len() {
        lemma_match_edges_nodes_const(g, l, 0, b);
    } else {
        let p = l.nodes[i];
        match bind_get(b.nodes, p.var) {
            Some(id) => {
                lemma_find_node_bounds(g.nodes, id, 0);
                let k = spec_find_node_from(g.nodes, id, 0)->0;
                assert(spec_nodes_sound_upto(g, l, b.nodes, i + 1));
                lemma_match_nodes_sound(g, l, i + 1, b);
            }
            None => {
                lemma_try_nodes_sound(g, l, i, 0, b);
            }
        }
    }
}

proof fn lemma_try_nodes_sound(g: SpecGraph, l: SpecPattern, i: int, j: int, b: SpecMatch)
    requires
        0 <= i < l.nodes.len(),
        0 <= j <= g.nodes.len(),
        spec_try_nodes(g, l, i, j, b) is Some,
        spec_nodes_sound_upto(g, l, b.nodes, i),
        bind_get(b.nodes, l.nodes[i].var) is None,
    ensures
        spec_nodes_sound_upto(g, l, spec_try_nodes(g, l, i, j, b)->0.nodes, l.nodes.len() as int),
    decreases l.nodes.len() - i + l.edges.len() + 2, 0int, g.nodes.len() - j,
{
    if j < g.nodes.len() {
        let n = g.nodes[j];
        let p = l.nodes[i];
        if spec_node_matches(n, p) && !bind_has_id(b.nodes, n.id) {
            let b2 = SpecMatch { nodes: b.nodes.push((p.var, n.id)), edges: b.edges };
            match spec_match_nodes(g, l, i + 1, b2) {
                Some(_) => {
                    assert forall|v: Seq<char>| true implies bind_get(b2.nodes, v) == (match bind_get(
                        b.nodes,
                        v,
                    ) {
                        Some(x) => Some(x),
                        None => if p.var == v {
                            Some(n.id)
                        } else {
                            None::<Seq<char>>
                        },
                    }) by {
                        lemma_bind_get_push(b.nodes, p.var, n.id, v, 0);
                    }
                    assert(bind_get(b2.nodes, p.var) == Some(n.id));
                    assert(spec_nodes_sound_upto(g, l, b2.nodes, i + 1));
                    lemma_match_nodes_sound(g, l, i + 1, b2);
                }
                None => {
                    lemma_try_nodes_sound(g, l, i, j + 1, b);
                }
            }
        } else {
            lemma_try_nodes_sound(g, l, i, j + 1, b);
        }
    }
}

/// Soundness of the matcher: in a found match, every node variable of the
/// pattern is bound to the id of some node of the graph that satisfies the
/// variable's type name and attribute constraints.
pub proof fn lemma_find_match_sound(g: SpecGraph, l: SpecPattern)
    requires
        spec_find_match(g, l) is Some,
    ensures
        spec_nodes_sound_upto(g, l, spec_find_match(g, l)->0.nodes, l.nodes.len() as int),
{
    lemma_match_nodes_sound(g, l, 0, SpecMatch { nodes: Seq::empty(), edges: Seq::empty() });
}

fn exec_match_nodes(g: &Graph, l: &GraphPattern, i: usize, b: &Match) -> (r: Option<Match>)
    requires
        i <= l@.nodes.len(),
    ensures
        match r {
            Some(m) => spec_match_nodes(g@, l@, i as int, b@) == Some(m@),
            None => spec_match_nodes(g@, l@, i as int, b@) is None,
        },
    decreases l@.nodes.len() - i + l@.edges.len() + 2, 1int, 0int,
{
    if i >= l.nodes.len() {
        exec_match_edges(g, l, 0, b)
    } else {
        let p = &l.nodes[i];
        let bound = match b.node_bindings.get(p.var.as_str()) {
            Some(id) => Some(id.clone()),
            None => None,
        };
        match bound {
            Some(id) => {
                match find_node_index(g, id.as_str()) {
                    Some(k) => {
                        if node_matches(&g.nodes[k], p) {
                            exec_match_nodes(g, l, i + 1, b)
                        } else {
                            None
                        }
                    }
                    None => None,
                }
            }
            None => exec_try_nodes(g, l, i, 0, b),
        }
    }
}

fn exec_try_nodes(g: &Graph, l: &GraphPattern, i: usize, j: usize, b: &Match) -> (r: Option<Match>)
    requires
        i < l@.nodes.len(),
        j <= g@.nodes.len(),
    ensures
        match r {
            Some(m) => spec_try_nodes(g@, l@, i as int, j as int, b@) == Some(m@),
            None => spec_try_nodes(g@, l@, i as int, j as int, b@) is None,
        },
    decreases l@.nodes.len() - i + l@.edges.len() + 2, 0int, g@.nodes.len() - j,
{
    let _nlen = l.nodes.len();
    if j >= g.nodes.len() {
        None
    } else {
        let n = &g.nodes[j];
        let p = &l.nodes[i];
        if node_matches(n, p) && !b.node_bindings.binds_id(n.id.as_str()) {
            let mut b2 = b.duplicate();
            b2.node_bindings.push(p.var.clone(), n.id.clone());
            match exec_match_nodes(g, l, i + 1, &b2) {
                Some(m) => Some(m),
                None => exec_try_nodes(g, l, i, j + 1, b),
            }
        } else {
            exec_try_nodes(g, l, i, j + 1, b)
        }
    }
}

fn exec_match_edges(g: &Graph, l: &GraphPattern, k: usize, b: &Match) -> (r: Option<Match>)
    requires
        k <= l@.edges.len(),
    ensures
        match r {
            Some(m) => spec_match_edges(g@, l@, k as int, b@) == Some(m@),
            None => spec_match_edges(g@, l@, k as int, b@) is None,
        },
    decreases l@.edges.len() - k + 1, 1int, 0int,
{
    if k >= l.edges.len() {
        if constraints_ok(&l.constraints, b) {
            Some(b.duplicate())
        } else {
            None
        }
    } else {
        let p = &l.edges[k];
        let bound = match b.edge_bindings.get(p.var.as_str()) {
            Some(id) => Some(id.clone()),
            None => None,
        };
        match bound {
            Some(id) => {
                match find_edge_index(g, id.as_str()) {
                    Some(x) => {
                        if edge_matches(&g.edges[x], p, &b.node_bindings) {
                            exec_match_edges(g, l, k + 1, b)
                        } else {
                            None
                        }
                    }
                    None => None,
                }
            }
            None => exec_try_edges(g, l, k, 0, b),
        }
    }
}

fn exec_try_edges(g: &Graph, l: &GraphPattern, k: usize, j: usize, b: &Match) -> (r: Option<Match>)
    requires
        k < l@.edges.len(),
        j <= g@.edges.len(),
    ensures
        match r {
            Some(m) => spec_try_edges(g@, l@, k as int, j as int, b@) == Some(m@),
            None => spec_try_edges(g@, l@, k as int, j as int, b@) is None,
        },
    decreases l@.edges.len() - k + 1, 0int, g@.edges.len() - j,
{
    let _elen = l.edges.len();
    if j >= g.edges.len() {
        None
    } else {
        let e = &g.edges[j];
        let p = &l.edges[k];
        if edge_matches(e, p, &b.node_bindings) && !b.edge_bindings.binds_id(e.id.as_str()) {
            let mut b2 = b.duplicate();
            b2.edge_bindings.push(p.var.clone(), e.id.clone());
            match exec_match_edges(g, l, k + 1, &b2) {
                Some(m) => Some(m),
                None => exec_try_edges(g, l, k, j + 1, b),
            }
        } else {
            exec_try_edges(g, l, k, j + 1, b)
        }
    }
}

/// Finds the first binding of `left` in `g` under the fixed enumeration:
/// node variables in pattern order, candidates in graph insertion order.
pub fn find_match(g: &Graph, left: &GraphPattern) -> (r: Option<Match>)
    ensures
        match r {
            Some(m) => spec_find_match(g@, left@) == Some(m@),
            None => spec_find_match(g@, left@) is None,
        },
{
    let b = Match::new();
    proof {
        assert(b@ =~= (SpecMatch { nodes: Seq::empty(), edges: Seq::empty() }));
    }
    exec_match_nodes(g, left, 0, &b)
}

} // verus!
