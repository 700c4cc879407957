//! The typed property graph: nodes and edges with attribute maps, the graph
//! container, snapshots with revision metadata, and the closed sets of
//! recognized node and edge types.

use vstd::prelude::*;
use crate::text::str_eq;
use crate::value::{AttrMap, SpecValue};

verus! {

/// The model of a node.
#[verifier::ext_equal]
pub struct SpecNode {
    pub id: Seq<char>,
    pub node_type: Seq<char>,
    pub attrs: Seq<(Seq<char>, SpecValue)>,
}

/// A graph node: a unique id, a free-form type name, and attributes.
#[derive(Debug, Clone)]
pub struct Node {
    pub id: String,
    pub node_type: String,
    pub attrs: AttrMap,
}

impl View for Node {
    type V = SpecNode;

    open spec fn view(&self) -> SpecNode {
        SpecNode { id: self.id@, node_type: self.node_type@, attrs: self.attrs@ }
    }
}

/// The model of an edge.
#[verifier::ext_equal]
pub struct SpecEdge {
    pub id: Seq<char>,
    pub edge_type: Seq<char>,
    pub src: Seq<char>,
    pub dst: Seq<char>,
    pub attrs: Seq<(Seq<char>, SpecValue)>,
}

/// A directed edge between two nodes, with attributes of its own.
#[derive(Debug, Clone)]
pub struct Edge {
    pub id: String,
    pub edge_type: String,
    pub src: String,
    pub dst: String,
    pub attrs: AttrMap,
}

impl View for Edge {
    type V = SpecEdge;

    open spec fn view(&self) -> SpecEdge {
        SpecEdge {
            id: self.id@,
            edge_type: self.edge_type@,
            src: self.src@,
            dst: self.dst@,
            attrs: self.attrs@,
        }
    }
}

/// The model of a graph: node and edge sequences in insertion order.
#[verifier::ext_equal]
pub struct SpecGraph {
    pub nodes: Seq<SpecNode>,
    pub edges: Seq<SpecEdge>,
}

/// A graph: ordered nodes and ordered edges.  Insertion order is the
/// iteration order, which keeps every traversal deterministic.
#[derive(Debug, Clone)]
pub struct Graph {
    pub nodes: Vec<Node>,
    pub edges: Vec<Edge>,
}

/// The models of a node sequence, in order.
pub open spec fn nodes_view(ns: Vec<Node>) -> Seq<SpecNode> {
    Seq::new(ns@.len(), |i: int| ns@[i]@)
}

/// The models of an edge sequence, in order.
pub open spec fn edges_view(es: Vec<Edge>) -> Seq<SpecEdge> {
    Seq::new(es@.len(), |i: int| es@[i]@)
}

impl View for Graph {
    type V = SpecGraph;

    open spec fn view(&self) -> SpecGraph {
        SpecGraph { nodes: nodes_view(self.nodes), edges: edges_view(self.edges) }
    }
}

impl Graph {
    /// The empty graph.
    pub fn new() -> (g: Graph)
        ensures
            g@.nodes =~= Seq::<SpecNode>::empty(),
            g@.edges =~= Seq::<SpecEdge>::empty(),
    {
        Graph { nodes: Vec::new(), edges: Vec::new() }
    }

    /// A deep copy with the same model.
    pub fn duplicate(&self) -> (r: Graph)
        ensures
            r@ == self@,
    {
        let mut nodes: Vec<Node> = Vec::new();
        let mut i: usize = 0;
        while i < self.nodes.len()
            invariant
                i <= self.nodes.len(),
                nodes@.len() == i,
                forall|j: int| 0 <= j < i ==> nodes@[j]@ == #[trigger] self.nodes@[j]@,
            decreases self.nodes.len() - i,
        {
            nodes.push(self.nodes[i].duplicate());
            i = i + 1;
        }
        let mut edges: Vec<Edge> = Vec::new();
        let mut k: usize = 0;
        while k < self.edges.len()
            invariant
                k <= self.edges.len(),
                edges@.len() == k,
                forall|j: int| 0 <= j < k ==> edges@[j]@ == #[trigger] self.edges@[j]@,
            decreases self.edges.len() - k,
        {
            edges.push(self.edges[k].duplicate());
            k = k + 1;
        }
        let r = Graph { nodes, edges };
        proof {
            assert(nodes_view(r.nodes) =~= nodes_view(self.nodes));
            assert(edges_view(r.edges) =~= edges_view(self.edges));
        }
        r
    }
}

impl Node {
    /// A deep copy with the same model.
    pub fn duplicate(&self) -> (r: Node)
        ensures
            r@ == self@,
    {
        Node { id: self.id.clone(), node_type: self.node_type.clone(), attrs: self.attrs.clone() }
    }
}

impl Edge {
    /// A deep copy with the same model.
    pub fn duplicate(&self) -> (r: Edge)
        ensures
            r@ == self@,
    {
        Edge {
            id: self.id.clone(),
            edge_type: self.edge_type.clone(),
            src: self.src.clone(),
            dst: self.dst.clone(),
            attrs: self.attrs.clone(),
        }
    }
}

/// A timestamp as plain calendar fields, rendered in canonical form as
/// `YYYY-MM-DDTHH:MM:SSZ`.
#[derive(Debug, Clone, Copy, PartialEq, Eq, Structural)]
pub struct Timestamp {
    pub year: u32,
    pub month: u32,
    pub day: u32,
    pub hour: u32,
    pub minute: u32,
    pub second: u32,
}

impl Timestamp {
    /// The calendar zero point: all fields zero.
    pub fn zero() -> (t: Timestamp)
        ensures
            t == (Timestamp { year: 0, month: 0, day: 0, hour: 0, minute: 0, second: 0 }),
    {
        Timestamp { year: 0, month: 0, day: 0, hour: 0, minute: 0, second: 0 }
    }
}

/// The model of snapshot metadata.
#[verifier::ext_equal]
pub struct SpecMeta {
    pub revision: Seq<char>,
    pub timestamp: Timestamp,
    pub actor_id: Seq<char>,
    pub description: Seq<char>,
}

/// Revision, timestamp, actor and description attached to a snapshot.
#[derive(Debug, Clone)]
pub struct SnapshotMetadata {
    pub revision: String,
    pub timestamp: Timestamp,
    pub actor_id: String,
    pub description: String,
}

impl View for SnapshotMetadata {
    type V = SpecMeta;

    open spec fn view(&self) -> SpecMeta {
        SpecMeta {
            revision: self.revision@,
            timestamp: self.timestamp,
            actor_id: self.actor_id@,
            description: self.description@,
        }
    }
}

impl SnapshotMetadata {
    /// A deep copy with the same model.
    pub fn duplicate(&self) -> (r: SnapshotMetadata)
        ensures
            r@ == self@,
    {
        SnapshotMetadata {
            revision: self.revision.clone(),
            timestamp: self.timestamp,
            actor_id: self.actor_id.clone(),
            description: self.description.clone(),
        }
    }
}

/// The model of a snapshot.
#[verifier::ext_equal]
pub struct SpecSnapshot {
    pub graph: SpecGraph,
    pub metadata: SpecMeta,
}

/// A frozen value copy of the graph together with its metadata.
#[derive(Debug, Clone)]
pub struct GraphSnapshot {
    pub graph: Graph,
    pub metadata: SnapshotMetadata,
}

impl View for GraphSnapshot {
    type V = SpecSnapshot;

    open spec fn view(&self) -> SpecSnapshot {
        SpecSnapshot { graph: self.graph@, metadata: self.metadata@ }
    }
}

impl GraphSnapshot {
    /// A deep copy with the same model.
    pub fn duplicate(&self) -> (r: GraphSnapshot)
        ensures
            r@ == self@,
    {
        GraphSnapshot { graph: self.graph.duplicate(), metadata: self.metadata.duplicate() }
    }
}

/// The closed set of node types that the invariant battery recognizes.
#[derive(Debug, Clone, Copy, PartialEq, Eq, Hash, Structural)]
pub enum NodeType {
    Thread,
    Turn,
    Message,
    Actor,
    Concept,
    Decision,
    Task,
}

/// The closed set of edge types that the invariant battery recognizes.
#[derive(Debug, Clone, Copy, PartialEq, Eq, Hash, Structural)]
pub enum EdgeType {
    HasTurn,
    HasMessage,
    AuthoredBy,
    RespondsTo,
    Mentions,
    RelatesTo,
    Decides,
    BlockedBy,
    AppliesTo,
    CreatesTask,
}

/// Which recognized node type, if any, a type name denotes.
pub open spec fn spec_node_type(s: Seq<char>) -> Option<NodeType> {
    if s == "Thread"@ {
        Some(NodeType::Thread)
    } else if s == "Turn"@ {
        Some(NodeType::Turn)
    } else if s == "Message"@ {
        Some(NodeType::Message)
    } else if s == "Actor"@ {
        Some(NodeType::Actor)
    } else if s == "Concept"@ {
        Some(NodeType::Concept)
    } else if s == "Decision"@ {
        Some(NodeType::Decision)
    } else if s == "Task"@ {
        Some(NodeType::Task)
    } else {
        None
    }
}

/// Which recognized edge type, if any, a type name denotes.
pub open spec fn spec_edge_type(s: Seq<char>) -> Option<EdgeType> {
    if s == "HAS_TURN"@ {
        Some(EdgeType::HasTurn)
    } else if s == "HAS_MESSAGE"@ {
        Some(EdgeType::HasMessage)
    } else if s == "AUTHORED_BY"@ {
        Some(EdgeType::AuthoredBy)
    } else if s == "RESPONDS_TO"@ {
        Some(EdgeType::RespondsTo)
    } else if s == "MENTIONS"@ {
        Some(EdgeType::Mentions)
    } else if s == "RELATES_TO"@ {
        Some(EdgeType::RelatesTo)
    } else if s == "DECIDES"@ {
        Some(EdgeType::Decides)
    } else if s == "BLOCKED_BY"@ {
        Some(EdgeType::BlockedBy)
    } else if s == "APPLIES_TO"@ {
        Some(EdgeType::AppliesTo)
    } else if s == "CREATES_TASK"@ {
        Some(EdgeType::CreatesTask)
    } else {
        None
    }
}

/// The canonical name of an edge type.
pub open spec fn spec_edge_type_name(t: EdgeType) -> Seq<char> {
    match t {
        EdgeType::HasTurn => "HAS_TURN"@,
        EdgeType::HasMessage => "HAS_MESSAGE"@,
        EdgeType::AuthoredBy => "AUTHORED_BY"@,
        EdgeType::RespondsTo => "RESPONDS_TO"@,
        EdgeType::Mentions => "MENTIONS"@,
        EdgeType::RelatesTo => "RELATES_TO"@,
        EdgeType::Decides => "DECIDES"@,
        EdgeType::BlockedBy => "BLOCKED_BY"@,
        EdgeType::AppliesTo => "APPLIES_TO"@,
        EdgeType::CreatesTask => "CREATES_TASK"@,
    }
}

impl NodeType {
    /// Parses a recognized node type name.
    pub fn from_str(s: &str) -> (r: Option<NodeType>)
        ensures
            r == spec_node_type(s@),
    {
        if str_eq(s, "Thread") {
            Some(NodeType::Thread)
        } else if str_eq(s, "Turn") {
            Some(NodeType::Turn)
        } else if str_eq(s, "Message") {
            Some(NodeType::Message)
        } else if str_eq(s, "Actor") {
            Some(NodeType::Actor)
        } else if str_eq(s, "Concept") {
            Some(NodeType::Concept)
        } else if str_eq(s, "Decision") {
            Some(NodeType::Decision)
        } else if str_eq(s, "Task") {
            Some(NodeType::Task)
        } else {
            None
        }
    }
}

impl EdgeType {
    /// Parses a recognized edge type name.
    pub fn from_str(s: &str) -> (r: Option<EdgeType>)
        ensures
            r == spec_edge_type(s@),
    {
        if str_eq(s, "HAS_TURN") {
            Some(EdgeType::HasTurn)
        } else if str_eq(s, "HAS_MESSAGE") {
            Some(EdgeType::HasMessage)
        } else if str_eq(s, "AUTHORED_BY") {
            Some(EdgeType::AuthoredBy)
        } else if str_eq(s, "RESPONDS_TO") {
            Some(EdgeType::RespondsTo)
        } else if str_eq(s, "MENTIONS") {
            Some(EdgeType::Mentions)
        } else if str_eq(s, "RELATES_TO") {
            Some(EdgeType::RelatesTo)
        } else if str_eq(s, "DECIDES") {
            Some(EdgeType::Decides)
        } else if str_eq(s, "BLOCKED_BY") {
            Some(EdgeType::BlockedBy)
        } else if str_eq(s, "APPLIES_TO") {
            Some(EdgeType::AppliesTo)
        } else if str_eq(s, "CREATES_TASK") {
            Some(EdgeType::CreatesTask)
        } else {
            None
        }
    }

    /// The canonical name of this edge type.
    pub fn as_str(&self) -> (r: &'static str)
        ensures
            r@ == spec_edge_type_name(*self),
    {
        match self {
            EdgeType::HasTurn => "HAS_TURN",
            EdgeType::HasMessage => "HAS_MESSAGE",
            EdgeType::AuthoredBy => "AUTHORED_BY",
            EdgeType::RespondsTo => "RESPONDS_TO",
            EdgeType::Mentions => "MENTIONS",
            EdgeType::RelatesTo => "RELATES_TO",
            EdgeType::Decides => "DECIDES",
            EdgeType::BlockedBy => "BLOCKED_BY",
            EdgeType::AppliesTo => "APPLIES_TO",
            EdgeType::CreatesTask => "CREATES_TASK",
        }
    }
}

} // verus!
