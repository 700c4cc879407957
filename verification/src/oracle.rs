//! A mock rule proposer: for a command that asks (in any letter case) to
//! create a task, it proposes the fixed create-task rule; it refuses any
//! other command.  The core validates its proposals like any other rule.

use vstd::prelude::*;
use crate::engine::{ExecutionProof, SpecExecutionProof};
use crate::errors::{CoreError, SpecCoreError};
use crate::graph::{Edge, Graph, GraphSnapshot, Node, SpecEdge, SpecGraph, SpecNode, Timestamp};
use crate::invariants::ValidationReport;
use crate::rule::{
    DpoRule, GraphPattern, NodePattern, RuleMetadata, SpecNodePattern, SpecPattern, SpecRule,
    SpecRuleMetadata,
};
use crate::value::{attrs_insert, AttrMap, SpecValue, Value};

verus! {

/// The code point of a character with an upper-case ASCII letter lowered.
pub open spec fn lower_u32(c: char) -> u32 {
    if 65 <= (c as u32) && (c as u32) <= 90 {
        ((c as u32) + 32) as u32
    } else {
        c as u32
    }
}

fn lower_u32_exec(c: char) -> (r: u32)
    ensures
        r == lower_u32(c),
{
    let u: u32 = c as u32;
    if 65 <= u && u <= 90 {
        u + 32
    } else {
        u
    }
}

/// Whether `p` occurs at offset `o` of `t`, ignoring ASCII letter case.
pub open spec fn spec_ci_match_at(t: Seq<char>, p: Seq<char>, o: int) -> bool {
    forall|j: int| 0 <= j < p.len() ==> lower_u32(t[o + j]) == lower_u32(#[trigger] p[j])
}

/// Whether `p` occurs anywhere in `t`, ignoring ASCII letter case.
pub open spec fn spec_contains_ci(t: Seq<char>, p: Seq<char>) -> bool {
    exists|o: int| 0 <= o <= t.len() - p.len() && spec_ci_match_at(t, p, o)
}

/// Case-insensitive (ASCII) substring search.
#[verifier::loop_isolation(false)]
pub fn contains_ci(t: &str, p: &str) -> (r: bool)
    ensures
        r == spec_contains_ci(t@, p@),
{
    let tlen = t.unicode_len();
    let plen = p.unicode_len();
    if plen > tlen {
        return false;
    }
    let mut o: usize = 0;
    while o <= tlen - plen
        invariant
            plen <= tlen,
            o <= tlen - plen + 1,
            tlen == t@.len(),
            plen == p@.len(),
            forall|q: int| 0 <= q < o ==> !spec_ci_match_at(t@, p@, q),
        decreases tlen - plen - o + 1,
    {
        let mut j: usize = 0;
        let mut hit: bool = true;
        while j < plen
            invariant
                j <= plen,
                o + plen <= tlen,
                hit == (forall|k: int| 0 <= k < j ==> lower_u32(t@[o + k]) == lower_u32(#[trigger] p@[k])),
            decreases plen - j,
        {
            if lower_u32_exec(t.get_char(o + j)) != lower_u32_exec(p.get_char(j)) {
                proof {
                    assert(lower_u32(t@[o + j]) != lower_u32(p@[j as int]));
                }
                hit = false;
                j = plen;
            } else {
                j = j + 1;
            }
        }
        if hit {
            proof {
                assert(spec_ci_match_at(t@, p@, o as int));
            }
            return true;
        }
        o = o + 1;
    }
    false
}

/// The attributes of the fresh task node of the fixed create-task rule.
pub open spec fn spec_mock_task_attrs() -> Seq<(Seq<char>, SpecValue)> {
    attrs_insert(
        attrs_insert(Seq::empty(), "title"@, SpecValue::Str("Write the report"@)),
        "status"@,
        SpecValue::Str("Pending"@),
    )
}

/// The fixed create-task rule that the mock oracle proposes: `L` and `K`
/// bind one `Message` node, and `R` keeps it and attaches a fresh `Task`
/// through a `CREATES_TASK` edge.
pub open spec fn spec_mock_rule() -> SpecRule {
    SpecRule {
        metadata: SpecRuleMetadata {
            id: "rho_create_task_from_message_mock"@,
            version: "0.1.0"@,
            description: "Creates a new Task node from a user message."@,
            tags: seq!["task"@, "creation"@],
            author: "mock-oracle"@,
            created_at: Timestamp { year: 2025, month: 11, day: 15, hour: 12, minute: 0, second: 0 },
        },
        left: SpecPattern {
            nodes: seq![
                SpecNodePattern { var: "msg"@, node_type: Some("Message"@), attr_constraints: Seq::empty() },
            ],
            edges: Seq::empty(),
            constraints: Seq::empty(),
        },
        interface: SpecPattern {
            nodes: seq![
                SpecNodePattern { var: "msg"@, node_type: Some("Message"@), attr_constraints: Seq::empty() },
            ],
            edges: Seq::empty(),
            constraints: Seq::empty(),
        },
        right: SpecGraph {
            nodes: seq![
                SpecNode { id: "var:msg"@, node_type: "Message"@, attrs: Seq::empty() },
                SpecNode { id: "new:task"@, node_type: "Task"@, attrs: spec_mock_task_attrs() },
            ],
            edges: seq![
                SpecEdge {
                    id: "new:edge"@,
                    edge_type: "CREATES_TASK"@,
                    src: "var:msg"@,
                    dst: "new:task"@,
                    attrs: Seq::empty(),
                },
            ],
        },
    }
}

fn mock_message_pattern() -> (p: NodePattern)
    ensures
        p@ == (SpecNodePattern { var: "msg"@, node_type: Some("Message"@), attr_constraints: Seq::empty() }),
{
    let p = NodePattern {
        var: String::from_str("msg"),
        node_type: Some(String::from_str("Message")),
        attr_constraints: Vec::new(),
    };
    proof {
        assert(crate::rule::constraints_view(p.attr_constraints) =~= Seq::<(Seq<char>, Seq<crate::rule::SpecAttrOp>)>::empty());
    }
    p
}

fn build_mock_rule() -> (r: DpoRule)
    ensures
        r@ == spec_mock_rule(),
{
    let mut task_attrs = AttrMap::new();
    task_attrs.insert(String::from_str("title"), Value::Str(String::from_str("Write the report")));
    task_attrs.insert(String::from_str("status"), Value::Str(String::from_str("Pending")));
    let mut left_nodes: Vec<NodePattern> = Vec::new();
    left_nodes.push(mock_message_pattern());
    let mut interface_nodes: Vec<NodePattern> = Vec::new();
    interface_nodes.push(mock_message_pattern());
    let mut right_nodes: Vec<Node> = Vec::new();
    right_nodes.push(Node {
        id: String::from_str("var:msg"),
        node_type: String::from_str("Message"),
        attrs: AttrMap::new(),
    });
    right_nodes.push(Node {
        id: String::from_str("new:task"),
        node_type: String::from_str("Task"),
        attrs: task_attrs,
    });
    let mut right_edges: Vec<Edge> = Vec::new();
    right_edges.push(Edge {
        id: String::from_str("new:edge"),
        edge_type: String::from_str("CREATES_TASK"),
        src: String::from_str("var:msg"),
        dst: String::from_str("new:task"),
        attrs: AttrMap::new(),
    });
    let mut tags: Vec<String> = Vec::new();
    tags.push(String::from_str("task"));
    tags.push(String::from_str("creation"));
    let r = DpoRule {
        metadata: RuleMetadata {
            id: String::from_str("rho_create_task_from_message_mock"),
            version: String::from_str("0.1.0"),
            description: String::from_str("Creates a new Task node from a user message."),
            tags,
            author: String::from_str("mock-oracle"),
            created_at: Timestamp { year: 2025, month: 11, day: 15, hour: 12, minute: 0, second: 0 },
        },
        left: GraphPattern { nodes: left_nodes, edges: Vec::new(), constraints: Vec::new() },
        interface: GraphPattern { nodes: interface_nodes, edges: Vec::new(), constraints: Vec::new() },
        right: Graph { nodes: right_nodes, edges: right_edges },
    };
    proof {
        assert(r@ =~~= spec_mock_rule());
    }
    r
}

/// A rule proposer that understands exactly one command shape.
#[derive(Debug)]
pub struct MockOracle;

impl MockOracle {
    /// Read patterns are not part of this version.
    pub fn propose_query(&self, _natural_language: &str) -> (r: Result<GraphPattern, CoreError>)
        ensures
            r matches Err(e) && e@ == SpecCoreError::InternalError("pattern queries are not part of this version"@),
    {
        Err(CoreError::InternalError(String::from_str("pattern queries are not part of this version")))
    }

    /// Proposes the fixed create-task rule for any command that contains
    /// `create a task` in any letter case; refuses everything else.
    pub fn propose_rule(&self, natural_language: &str, _context: &GraphSnapshot) -> (r: Result<
        DpoRule,
        CoreError,
    >)
        ensures
            spec_contains_ci(natural_language@, "create a task"@) ==> (r matches Ok(rule) && rule@
                == spec_mock_rule()),
            !spec_contains_ci(natural_language@, "create a task"@) ==> (r matches Err(e) && e@
                == SpecCoreError::InternalError("the mock oracle does not understand this command"@)),
    {
        if contains_ci(natural_language, "create a task") {
            Ok(build_mock_rule())
        } else {
            Err(CoreError::InternalError(String::from_str("the mock oracle does not understand this command")))
        }
    }

    /// A fixed explanation of a committed rewrite.
    pub fn explain_proof(&self, _proof: &ExecutionProof) -> (r: Result<String, CoreError>)
        ensures
            r matches Ok(s) && s@ == "The rule was applied successfully."@,
    {
        Ok(String::from_str("The rule was applied successfully."))
    }

    /// This version proposes the previous rule again, unchanged.
    pub fn refine_with_feedback(
        &self,
        _command: &str,
        _context: &GraphSnapshot,
        previous_proposal: &DpoRule,
        _report: &ValidationReport,
    ) -> (r: Result<DpoRule, CoreError>)
        ensures
            r matches Ok(rule) && rule@ == previous_proposal@,
    {
        Ok(previous_proposal.duplicate())
    }
}

impl crate::engine::LlmOracle for MockOracle {
    fn propose_query(&self, natural_language: &str) -> Result<GraphPattern, CoreError> {
        MockOracle::propose_query(self, natural_language)
    }

    fn propose_rule(&self, natural_language: &str, context: &GraphSnapshot) -> Result<DpoRule, CoreError> {
        MockOracle::propose_rule(self, natural_language, context)
    }

    fn explain_proof(&self, proof: &ExecutionProof) -> Result<String, CoreError> {
        MockOracle::explain_proof(self, proof)
    }

    fn refine_with_feedback(
        &self,
        command: &str,
        context: &GraphSnapshot,
        previous_proposal: &DpoRule,
        report: &ValidationReport,
    ) -> Result<DpoRule, CoreError> {
        MockOracle::refine_with_feedback(self, command, context, previous_proposal, report)
    }
}

} // verus!
