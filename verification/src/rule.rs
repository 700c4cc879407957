//! The double-pushout rule representation: attribute constraints, node and
//! edge patterns, structural constraints, rule metadata, and the binding
//! that a successful match produces.

use vstd::prelude::*;
use crate::graph::{Graph, SpecGraph, Timestamp};
use crate::text::{clone_strings, str_eq, strs_view};
use crate::value::{clone_values, vals_view_from, SpecValue, Value};

verus! {

/// The model of an attribute constraint.
#[verifier::ext_equal]
pub enum SpecAttrOp {
    Eq(SpecValue),
    Neq(SpecValue),
    Lt(SpecValue),
    Lte(SpecValue),
    Gt(SpecValue),
    Gte(SpecValue),
    Regex(Seq<char>),
    In(Seq<SpecValue>),
}

/// A single constraint on one attribute of a matched node or edge.
#[derive(Debug)]
pub enum AttrOp {
    Eq { value: Value },
    Neq { value: Value },
    Lt { value: Value },
    Lte { value: Value },
    Gt { value: Value },
    Gte { value: Value },
    Regex { pattern: String },
    In { values: Vec<Value> },
}

impl View for AttrOp {
    type V = SpecAttrOp;

    open spec fn view(&self) -> SpecAttrOp {
        match self {
            AttrOp::Eq { value } => SpecAttrOp::Eq(value@),
            AttrOp::Neq { value } => SpecAttrOp::Neq(value@),
            AttrOp::Lt { value } => SpecAttrOp::Lt(value@),
            AttrOp::Lte { value } => SpecAttrOp::Lte(value@),
            AttrOp::Gt { value } => SpecAttrOp::Gt(value@),
            AttrOp::Gte { value } => SpecAttrOp::Gte(value@),
            AttrOp::Regex { pattern } => SpecAttrOp::Regex(pattern@),
            AttrOp::In { values } => SpecAttrOp::In(vals_view_from(*values, 0)),
        }
    }
}

impl AttrOp {
    /// A deep copy with the same model.
    pub fn duplicate(&self) -> (r: AttrOp)
        ensures
            r@ == self@,
    {
        match self {
            AttrOp::Eq { value } => AttrOp::Eq { value: value.clone() },
            AttrOp::Neq { value } => AttrOp::Neq { value: value.clone() },
            AttrOp::Lt { value } => AttrOp::Lt { value: value.clone() },
            AttrOp::Lte { value } => AttrOp::Lte { value: value.clone() },
            AttrOp::Gt { value } => AttrOp::Gt { value: value.clone() },
            AttrOp::Gte { value } => AttrOp::Gte { value: value.clone() },
            AttrOp::Regex { pattern } => AttrOp::Regex { pattern: pattern.clone() },
            AttrOp::In { values } => AttrOp::In { values: clone_values(values) },
        }
    }
}

/// The models of the constraints `(key, ops)` on one pattern element.
pub open spec fn constraints_view(cs: Vec<(String, Vec<AttrOp>)>) -> Seq<(Seq<char>, Seq<SpecAttrOp>)> {
    Seq::new(cs@.len(), |i: int| (cs@[i].0@, ops_view(cs@[i].1)))
}

/// The models of an attribute operation sequence, in order.
pub open spec fn ops_view(ops: Vec<AttrOp>) -> Seq<SpecAttrOp> {
    Seq::new(ops@.len(), |i: int| ops@[i]@)
}

/// A deep copy of a constraint list with the same model.
pub fn clone_constraints(cs: &Vec<(String, Vec<AttrOp>)>) -> (r: Vec<(String, Vec<AttrOp>)>)
    ensures
        constraints_view(r) == constraints_view(*cs),
{
    let mut out: Vec<(String, Vec<AttrOp>)> = Vec::new();
    let mut i: usize = 0;
    while i < cs.len()
        invariant
            i <= cs.len(),
            out@.len() == i,
            forall|j: int| 0 <= j < i ==> out@[j].0@ == #[trigger] cs@[j].0@ && ops_view(out@[j].1) == ops_view(cs@[j].1),
        decreases cs.len() - i,
    {
        let mut ops: Vec<AttrOp> = Vec::new();
        let mut k: usize = 0;
        let cur: &Vec<AttrOp> = &cs[i].1;
        while k < cur.len()
            invariant
                k <= cur.len(),
                ops@.len() == k,
                forall|j: int| 0 <= j < k ==> ops@[j]@ == #[trigger] cur@[j]@,
            decreases cur.len() - k,
        {
            ops.push(cur[k].duplicate());
            k = k + 1;
        }
        proof {
            assert(ops_view(ops) =~= ops_view(*cur));
        }
        out.push((cs[i].0.clone(), ops));
        i = i + 1;
    }
    proof {
        assert(constraints_view(out) =~= constraints_view(*cs));
    }
    out
}

/// The model of a node pattern.
#[verifier::ext_equal]
pub struct SpecNodePattern {
    pub var: Seq<char>,
    pub node_type: Option<Seq<char>>,
    pub attr_constraints: Seq<(Seq<char>, Seq<SpecAttrOp>)>,
}

/// A node variable of the left pattern or the interface: an optional type
/// name and attribute constraints, all of which must hold.
#[derive(Debug)]
pub struct NodePattern {
    pub var: String,
    pub node_type: Option<String>,
    pub attr_constraints: Vec<(String, Vec<AttrOp>)>,
}

/// The model of an optional type name.
pub open spec fn opt_str_view(s: Option<String>) -> Option<Seq<char>> {
    match s {
        Some(t) => Some(t@),
        None => None,
    }
}

impl View for NodePattern {
    type V = SpecNodePattern;

    open spec fn view(&self) -> SpecNodePattern {
        SpecNodePattern {
            var: self.var@,
            node_type: opt_str_view(self.node_type),
            attr_constraints: constraints_view(self.attr_constraints),
        }
    }
}

impl NodePattern {
    /// A deep copy with the same model.
    pub fn duplicate(&self) -> (r: NodePattern)
        ensures
            r@ == self@,
    {
        NodePattern {
            var: self.var.clone(),
            node_type: match &self.node_type {
                Some(t) => Some(t.clone()),
                None => None,
            },
            attr_constraints: clone_constraints(&self.attr_constraints),
        }
    }
}

/// The model of an edge pattern.
#[verifier::ext_equal]
pub struct SpecEdgePattern {
    pub var: Seq<char>,
    pub edge_type: Option<Seq<char>>,
    pub src_var: Seq<char>,
    pub dst_var: Seq<char>,
    pub attr_constraints: Seq<(Seq<char>, Seq<SpecAttrOp>)>,
}

/// An edge variable of a pattern: an optional type name, the node variables
/// it must connect, and attribute constraints.
#[derive(Debug)]
pub struct EdgePattern {
    pub var: String,
    pub edge_type: Option<String>,
    pub src_var: String,
    pub dst_var: String,
    pub attr_constraints: Vec<(String, Vec<AttrOp>)>,
}

impl View for EdgePattern {
    type V = SpecEdgePattern;

    open spec fn view(&self) -> SpecEdgePattern {
        SpecEdgePattern {
            var: self.var@,
            edge_type: opt_str_view(self.edge_type),
            src_var: self.src_var@,
            dst_var: self.dst_var@,
            attr_constraints: constraints_view(self.attr_constraints),
        }
    }
}

impl EdgePattern {
    /// A deep copy with the same model.
    pub fn duplicate(&self) -> (r: EdgePattern)
        ensures
            r@ == self@,
    {
        EdgePattern {
            var: self.var.clone(),
            edge_type: match &self.edge_type {
                Some(t) => Some(t.clone()),
                None => None,
            },
            src_var: self.src_var.clone(),
            dst_var: self.dst_var.clone(),
            attr_constraints: clone_constraints(&self.attr_constraints),
        }
    }
}

/// The model of a structural constraint.
#[verifier::ext_equal]
pub enum SpecStructuralConstraint {
    DistinctNodes(Seq<Seq<char>>),
    DistinctEdges(Seq<Seq<char>>),
}

/// A structural side condition of a pattern: the named variables must bind
/// to pairwise distinct nodes or edges.
#[derive(Debug)]
pub enum StructuralConstraint {
    DistinctNodes { vars: Vec<String> },
    DistinctEdges { vars: Vec<String> },
}

impl View for StructuralConstraint {
    type V = SpecStructuralConstraint;

    open spec fn view(&self) -> SpecStructuralConstraint {
        match self {
            StructuralConstraint::DistinctNodes { vars } => SpecStructuralConstraint::DistinctNodes(strs_view(*vars)),
            StructuralConstraint::DistinctEdges { vars } => SpecStructuralConstraint::DistinctEdges(strs_view(*vars)),
        }
    }
}

impl StructuralConstraint {
    /// A deep copy with the same model.
    pub fn duplicate(&self) -> (r: StructuralConstraint)
        ensures
            r@ == self@,
    {
        match self {
            StructuralConstraint::DistinctNodes { vars } => StructuralConstraint::DistinctNodes { vars: clone_strings(vars) },
            StructuralConstraint::DistinctEdges { vars } => StructuralConstraint::DistinctEdges { vars: clone_strings(vars) },
        }
    }
}

/// The model of a graph pattern.
#[verifier::ext_equal]
pub struct SpecPattern {
    pub nodes: Seq<SpecNodePattern>,
    pub edges: Seq<SpecEdgePattern>,
    pub constraints: Seq<SpecStructuralConstraint>,
}

/// A graph pattern: ordered node and edge variables plus structural
/// constraints.  The enumeration order of the variables is fixed, which
/// keeps matching deterministic.
#[derive(Debug)]
pub struct GraphPattern {
    pub nodes: Vec<NodePattern>,
    pub edges: Vec<EdgePattern>,
    pub constraints: Vec<StructuralConstraint>,
}

/// The models of a node pattern sequence, in order.
pub open spec fn node_patterns_view(ps: Vec<NodePattern>) -> Seq<SpecNodePattern> {
    Seq::new(ps@.len(), |i: int| ps@[i]@)
}

/// The models of an edge pattern sequence, in order.
pub open spec fn edge_patterns_view(ps: Vec<EdgePattern>) -> Seq<SpecEdgePattern> {
    Seq::new(ps@.len(), |i: int| ps@[i]@)
}

/// The models of a structural constraint sequence, in order.
pub open spec fn struct_constraints_view(cs: Vec<StructuralConstraint>) -> Seq<SpecStructuralConstraint> {
    Seq::new(cs@.len(), |i: int| cs@[i]@)
}

impl View for GraphPattern {
    type V = SpecPattern;

    open spec fn view(&self) -> SpecPattern {
        SpecPattern {
            nodes: node_patterns_view(self.nodes),
            edges: edge_patterns_view(self.edges),
            constraints: struct_constraints_view(self.constraints),
        }
    }
}

impl GraphPattern {
    /// A deep copy with the same model.
    pub fn duplicate(&self) -> (r: GraphPattern)
        ensures
            r@ == self@,
    {
        let mut nodes: Vec<NodePattern> = Vec::new();
        let mut i: usize = 0;
        while i < self.nodes.len()
            invariant
                i <= self.nodes.len(),
                nodes@.len() == i,
                forall|j: int| 0 <= j < i ==> nodes@[j]@ == #[trigger] self.nodes@[j]@,
            decreases self.nodes.len() - i,
        {
            nodes.push(self.nodes[i].duplicate());
            i = i + 1;
        }
        let mut edges: Vec<EdgePattern> = Vec::new();
        let mut k: usize = 0;
        while k < self.edges.len()
            invariant
                k <= self.edges.len(),
                edges@.len() == k,
                forall|j: int| 0 <= j < k ==> edges@[j]@ == #[trigger] self.edges@[j]@,
            decreases self.edges.len() - k,
        {
            edges.push(self.edges[k].duplicate());
            k = k + 1;
        }
        let mut constraints: Vec<StructuralConstraint> = Vec::new();
        let mut c: usize = 0;
        while c < self.constraints.len()
            invariant
                c <= self.constraints.len(),
                constraints@.len() == c,
                forall|j: int| 0 <= j < c ==> constraints@[j]@ == #[trigger] self.constraints@[j]@,
            decreases self.constraints.len() - c,
        {
            constraints.push(self.constraints[c].duplicate());
            c = c + 1;
        }
        let r = GraphPattern { nodes, edges, constraints };
        proof {
            assert(node_patterns_view(r.nodes) =~= node_patterns_view(self.nodes));
            assert(edge_patterns_view(r.edges) =~= edge_patterns_view(self.edges));
            assert(struct_constraints_view(r.constraints) =~= struct_constraints_view(self.constraints));
        }
        r
    }
}

/// The model of rule metadata.
#[verifier::ext_equal]
pub struct SpecRuleMetadata {
    pub id: Seq<char>,
    pub version: Seq<char>,
    pub description: Seq<char>,
    pub tags: Seq<Seq<char>>,
    pub author: Seq<char>,
    pub created_at: Timestamp,
}

/// Identity and provenance of a rule.
#[derive(Debug)]
pub struct RuleMetadata {
    pub id: String,
    pub version: String,
    pub description: String,
    pub tags: Vec<String>,
    pub author: String,
    pub created_at: Timestamp,
}

impl View for RuleMetadata {
    type V = SpecRuleMetadata;

    open spec fn view(&self) -> SpecRuleMetadata {
        SpecRuleMetadata {
            id: self.id@,
            version: self.version@,
            description: self.description@,
            tags: strs_view(self.tags),
            author: self.author@,
            created_at: self.created_at,
        }
    }
}

impl RuleMetadata {
    /// A deep copy with the same model.
    pub fn duplicate(&self) -> (r: RuleMetadata)
        ensures
            r@ == self@,
    {
        RuleMetadata {
            id: self.id.clone(),
            version: self.version.clone(),
            description: self.description.clone(),
            tags: clone_strings(&self.tags),
            author: self.author.clone(),
            created_at: self.created_at,
        }
    }
}

impl Default for RuleMetadata {
    /// Empty metadata with the zero timestamp.
    fn default() -> (r: Self)
        ensures
            r@.id == Seq::<char>::empty(),
            r@.version == Seq::<char>::empty(),
            r@.description == Seq::<char>::empty(),
            r@.tags == Seq::<Seq<char>>::empty(),
            r@.author == Seq::<char>::empty(),
            r@.created_at == (Timestamp { year: 0, month: 0, day: 0, hour: 0, minute: 0, second: 0 }),
    {
        let r = RuleMetadata {
            id: String::new(),
            version: String::new(),
            description: String::new(),
            tags: Vec::new(),
            author: String::new(),
            created_at: Timestamp::zero(),
        };
        proof {
            assert(strs_view(r.tags) =~= Seq::<Seq<char>>::empty());
        }
        r
    }
}

/// The model of a rule.
#[verifier::ext_equal]
pub struct SpecRule {
    pub metadata: SpecRuleMetadata,
    pub left: SpecPattern,
    pub interface: SpecPattern,
    pub right: SpecGraph,
}

/// A double-pushout rewrite rule: metadata, the left pattern `L`, the
/// gluing interface `K` (a subset of `L`), and the concrete replacement
/// graph `R`, whose ids carry the sentinel prefixes `var:` and `new:`.
#[derive(Debug)]
pub struct DpoRule {
    pub metadata: RuleMetadata,
    pub left: GraphPattern,
    pub interface: GraphPattern,
    pub right: Graph,
}

impl View for DpoRule {
    type V = SpecRule;

    open spec fn view(&self) -> SpecRule {
        SpecRule {
            metadata: self.metadata@,
            left: self.left@,
            interface: self.interface@,
            right: self.right@,
        }
    }
}

impl DpoRule {
    /// A deep copy with the same model.
    pub fn duplicate(&self) -> (r: DpoRule)
        ensures
            r@ == self@,
    {
        DpoRule {
            metadata: self.metadata.duplicate(),
            left: self.left.duplicate(),
            interface: self.interface.duplicate(),
            right: self.right.duplicate(),
        }
    }
}

/// The model of a variable binding: `(variable, bound id)` pairs in the
/// order in which the matcher bound them.
pub type SpecBindings = Seq<(Seq<char>, Seq<char>)>;

/// A mapping from pattern variables to concrete graph ids.
#[derive(Debug)]
pub struct VarMap {
    entries: Vec<(String, String)>,
}

impl View for VarMap {
    type V = SpecBindings;

    closed spec fn view(&self) -> SpecBindings {
        Seq::new(self.entries@.len(), |i: int| (self.entries@[i].0@, self.entries@[i].1@))
    }
}

/// Looks a variable up in a binding sequence, scanning from position `i`.
pub open spec fn bind_get_from(s: SpecBindings, k: Seq<char>, i: int) -> Option<Seq<char>>
    decreases s.len() - i,
{
    if i >= s.len() {
        None
    } else if s[i].0 == k {
        Some(s[i].1)
    } else {
        bind_get_from(s, k, i + 1)
    }
}

/// Looks a variable up in a binding sequence.
pub open spec fn bind_get(s: SpecBindings, k: Seq<char>) -> Option<Seq<char>> {
    bind_get_from(s, k, 0)
}

/// Whether some binding in `s` maps to the id `v`.
pub open spec fn bind_has_id(s: SpecBindings, v: Seq<char>) -> bool {
    exists|i: int| 0 <= i < s.len() && #[trigger] s[i].1 == v
}

impl VarMap {
    /// The empty binding.
    pub fn new() -> (m: VarMap)
        ensures
            m@ == Seq::<(Seq<char>, Seq<char>)>::empty(),
    {
        let m = VarMap { entries: Vec::new() };
        proof {
            assert(m@ =~= Seq::<(Seq<char>, Seq<char>)>::empty());
        }
        m
    }

    /// How many bindings are present.
    pub fn len(&self) -> (n: usize)
        ensures
            n == self@.len(),
    {
        self.entries.len()
    }

    /// The variable of the `i`-th binding, in binding order.
    pub fn key_at(&self, i: usize) -> (k: &String)
        requires
            i < self@.len(),
        ensures
            k@ == self@[i as int].0,
    {
        &self.entries[i].0
    }

    /// The bound id of the `i`-th binding, in binding order.
    pub fn val_at(&self, i: usize) -> (v: &String)
        requires
            i < self@.len(),
        ensures
            v@ == self@[i as int].1,
    {
        &self.entries[i].1
    }

    /// Looks up the id bound to variable `k`, if any.
    pub fn get(&self, k: &str) -> (r: Option<&String>)
        ensures
            match r {
                Some(v) => bind_get(self@, k@) == Some(v@),
                None => bind_get(self@, k@) is None,
            },
    {
        self.get_at(k, 0)
    }

    fn get_at(&self, k: &str, i: usize) -> (r: Option<&String>)
        requires
            i <= self@.len(),
        ensures
            match r {
                Some(v) => bind_get_from(self@, k@, i as int) == Some(v@),
                None => bind_get_from(self@, k@, i as int) is None,
            },
        decreases self@.len() - i,
    {
        if i >= self.entries.len() {
            None
        } else if str_eq(self.entries[i].0.as_str(), k) {
            Some(&self.entries[i].1)
        } else {
            self.get_at(k, i + 1)
        }
    }

    /// Whether some variable is bound to the id `v`.
    pub fn binds_id(&self, v: &str) -> (r: bool)
        ensures
            r == bind_has_id(self@, v@),
    {
        let mut i: usize = 0;
        while i < self.entries.len()
            invariant
                i <= self.entries.len(),
                forall|j: int| 0 <= j < i ==> #[trigger] self@[j].1 != v@,
            decreases self.entries.len() - i,
        {
            if str_eq(self.entries[i].1.as_str(), v) {
                proof {
                    assert(self@[i as int].1 == v@);
                }
                return true;
            }
            i = i + 1;
        }
        false
    }

    /// Appends the binding `(k, v)`.
    pub fn push(&mut self, k: String, v: String)
        ensures
            final(self)@ == old(self)@.push((k@, v@)),
    {
        self.entries.push((k, v));
        proof {
            assert(self@ =~= old(self)@.push((k@, v@)));
        }
    }

    /// A deep copy with the same model.
    pub fn duplicate(&self) -> (r: VarMap)
        ensures
            r@ == self@,
    {
        let mut entries: Vec<(String, String)> = Vec::new();
        let mut i: usize = 0;
        while i < self.entries.len()
            invariant
                i <= self.entries.len(),
                entries@.len() == i,
                forall|j: int| 0 <= j < i ==> entries@[j].0@ == #[trigger] self.entries@[j].0@
                    && entries@[j].1@ == self.entries@[j].1@,
            decreases self.entries.len() - i,
        {
            entries.push((self.entries[i].0.clone(), self.entries[i].1.clone()));
            i = i + 1;
        }
        let r = VarMap { entries };
        proof {
            assert(r@ =~= self@);
        }
        r
    }
}

/// The model of a match.
#[verifier::ext_equal]
pub struct SpecMatch {
    pub nodes: SpecBindings,
    pub edges: SpecBindings,
}

/// A successful binding of a pattern: one concrete node id per node
/// variable and one concrete edge id per edge variable.
#[derive(Debug)]
pub struct Match {
    pub node_bindings: VarMap,
    pub edge_bindings: VarMap,
}

impl View for Match {
    type V = SpecMatch;

    open spec fn view(&self) -> SpecMatch {
        SpecMatch { nodes: self.node_bindings@, edges: self.edge_bindings@ }
    }
}

impl Match {
    /// The empty match.
    pub fn new() -> (m: Match)
        ensures
            m@.nodes == Seq::<(Seq<char>, Seq<char>)>::empty(),
            m@.edges == Seq::<(Seq<char>, Seq<char>)>::empty(),
    {
        Match { node_bindings: VarMap::new(), edge_bindings: VarMap::new() }
    }

    /// A deep copy with the same model.
    pub fn duplicate(&self) -> (r: Match)
        ensures
            r@ == self@,
    {
        Match {
            node_bindings: self.node_bindings.duplicate(),
            edge_bindings: self.edge_bindings.duplicate(),
        }
    }
}

} // verus!
