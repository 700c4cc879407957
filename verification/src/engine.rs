//! The core engine: it owns the live snapshot and the monotonic id
//! counters, orchestrates validate → simulate → commit, and documents each
//! committed rewrite with an execution proof.
//!
//! `apply` is atomic: it either advances the revision and returns a proof,
//! or leaves the state byte-identical and returns an error.

use vstd::prelude::*;
use crate::digest::{rule_hash, spec_rule_hash};
use crate::errors::{CoreError, SpecCoreError};
use crate::graph::{Graph, GraphSnapshot, SnapshotMetadata, SpecGraph, SpecMeta, SpecSnapshot, Timestamp};
use crate::invariants::{
    check_immutable_history, check_no_assistant_pii_leak, check_no_orphan_messages,
    check_well_typed_edges, invs_view, spec_all_passed, spec_failed_errors, spec_history_result,
    spec_orphan_result, spec_pii_result, spec_well_typed_result, InvariantResult, SpecInvariantResult,
    SpecValidationReport, ValidationReport,
};
use crate::json::spec_timestamp_text;
use crate::matcher::{find_match, spec_find_match, spec_find_node_from, spec_find_edge_from, find_node_index, find_edge_index};
use crate::rule::{DpoRule, GraphPattern, Match, SpecMatch, SpecPattern, SpecRule, SpecRuleMetadata};
use crate::sim::{simulate, spec_pattern_has_edge_var, spec_pattern_has_node_var, spec_simulate,
    pattern_has_node_var, pattern_has_edge_var};
use crate::text::{rev_num, rev_string, spec_rev_num, spec_rev_string, strs_view};

verus! {

/// A count of added and removed nodes and edges between two snapshots.
#[derive(Debug, Clone, Copy, PartialEq, Eq, Structural)]
pub struct DiffSummary {
    pub nodes_added: usize,
    pub nodes_removed: usize,
    pub edges_added: usize,
    pub edges_removed: usize,
}

/// The model of a confluence argument (deferred in this version).
#[verifier::ext_equal]
pub struct SpecConfluenceProof {
    pub method: Seq<char>,
    pub details: Seq<char>,
}

/// A record of a confluence argument; analysis is deferred, so none is
/// produced by this version.
#[derive(Debug)]
pub struct ConfluenceProof {
    pub method: String,
    pub details: String,
}

impl View for ConfluenceProof {
    type V = SpecConfluenceProof;

    open spec fn view(&self) -> SpecConfluenceProof {
        SpecConfluenceProof { method: self.method@, details: self.details@ }
    }
}

/// The model of an execution proof.
#[verifier::ext_equal]
pub struct SpecExecutionProof {
    pub rule_metadata: SpecRuleMetadata,
    pub rule_hash: Seq<char>,
    pub before_revision: Seq<char>,
    pub after_revision: Seq<char>,
    pub before_snapshot: Option<SpecSnapshot>,
    pub after_snapshot: Option<SpecSnapshot>,
    pub confluence_proof: Option<SpecConfluenceProof>,
    pub diff_summary: DiffSummary,
    pub actor_id: Seq<char>,
    pub timestamp: Seq<char>,
}

/// The record of a committed rewrite: rule identity and hash, the two
/// revisions, both snapshots, and the structural diff.
#[derive(Debug)]
pub struct ExecutionProof {
    pub rule_metadata: crate::rule::RuleMetadata,
    pub rule_hash: String,
    pub before_revision: String,
    pub after_revision: String,
    pub before_snapshot: Option<GraphSnapshot>,
    pub after_snapshot: Option<GraphSnapshot>,
    pub confluence_proof: Option<ConfluenceProof>,
    pub diff_summary: DiffSummary,
    pub actor_id: String,
    pub timestamp: String,
}

impl View for ExecutionProof {
    type V = SpecExecutionProof;

    open spec fn view(&self) -> SpecExecutionProof {
        SpecExecutionProof {
            rule_metadata: self.rule_metadata@,
            rule_hash: self.rule_hash@,
            before_revision: self.before_revision@,
            after_revision: self.after_revision@,
            before_snapshot: match self.before_snapshot {
                Some(s) => Some(s@),
                None => None,
            },
            after_snapshot: match self.after_snapshot {
                Some(s) => Some(s@),
                None => None,
            },
            confluence_proof: match self.confluence_proof {
                Some(c) => Some(c@),
                None => None,
            },
            diff_summary: self.diff_summary,
            actor_id: self.actor_id@,
            timestamp: self.timestamp@,
        }
    }
}

/// How many nodes of `after[..i]` have an id that `before` lacks.
pub open spec fn spec_nodes_added(before: Seq<crate::graph::SpecNode>, after: Seq<crate::graph::SpecNode>, i: int) -> int
    decreases i,
{
    if i <= 0 || i > after.len() {
        0
    } else if spec_find_node_from(before, after[i - 1].id, 0) is None {
        spec_nodes_added(before, after, i - 1) + 1
    } else {
        spec_nodes_added(before, after, i - 1)
    }
}

/// How many edges of `after[..i]` have an id that `before` lacks.
pub open spec fn spec_edges_added(before: Seq<crate::graph::SpecEdge>, after: Seq<crate::graph::SpecEdge>, i: int) -> int
    decreases i,
{
    if i <= 0 || i > after.len() {
        0
    } else if spec_find_edge_from(before, after[i - 1].id, 0) is None {
        spec_edges_added(before, after, i - 1) + 1
    } else {
        spec_edges_added(before, after, i - 1)
    }
}

/// The structural diff between two graphs, counted by element ids.
pub open spec fn spec_diff(before: SpecGraph, after: SpecGraph) -> DiffSummary {
    DiffSummary {
        nodes_added: spec_nodes_added(before.nodes, after.nodes, after.nodes.len() as int) as usize,
        nodes_removed: spec_nodes_added(after.nodes, before.nodes, before.nodes.len() as int) as usize,
        edges_added: spec_edges_added(before.edges, after.edges, after.edges.len() as int) as usize,
        edges_removed: spec_edges_added(after.edges, before.edges, before.edges.len() as int) as usize,
    }
}

#[verifier::loop_isolation(false)]
fn count_new_nodes(before: &Graph, after: &Graph) -> (r: usize)
    ensures
        r == spec_nodes_added(before@.nodes, after@.nodes, after@.nodes.len() as int),
        r <= after@.nodes.len(),
{
    let mut count: usize = 0;
    let mut i: usize = 0;
    while i < after.nodes.len()
        invariant
            i <= after.nodes.len(),
            count == spec_nodes_added(before@.nodes, after@.nodes, i as int),
            count <= i,
        decreases after.nodes.len() - i,
    {
        if find_node_index(before, after.nodes[i].id.as_str()).is_none() {
            count = count + 1;
        }
        proof {
            assert(count == spec_nodes_added(before@.nodes, after@.nodes, i + 1));
        }
        i = i + 1;
    }
    count
}

#[verifier::loop_isolation(false)]
fn count_new_edges(before: &Graph, after: &Graph) -> (r: usize)
    ensures
        r == spec_edges_added(before@.edges, after@.edges, after@.edges.len() as int),
        r <= after@.edges.len(),
{
    let mut count: usize = 0;
    let mut i: usize = 0;
    while i < after.edges.len()
        invariant
            i <= after.edges.len(),
            count == spec_edges_added(before@.edges, after@.edges, i as int),
            count <= i,
        decreases after.edges.len() - i,
    {
        if find_edge_index(before, after.edges[i].id.as_str()).is_none() {
            count = count + 1;
        }
        proof {
            assert(count == spec_edges_added(before@.edges, after@.edges, i + 1));
        }
        i = i + 1;
    }
    count
}

/// Computes the structural diff between two graphs.
pub fn diff_graphs(before: &Graph, after: &Graph) -> (r: DiffSummary)
    ensures
        r == spec_diff(before@, after@),
{
    DiffSummary {
        nodes_added: count_new_nodes(before, after),
        nodes_removed: count_new_nodes(after, before),
        edges_added: count_new_edges(before, after),
        edges_removed: count_new_edges(after, before),
    }
}

/// Whether every variable of the interface also appears in the left
/// pattern, for nodes and edges alike.
pub open spec fn spec_interface_in_left(rule: SpecRule) -> bool {
    &&& forall|i: int|
        0 <= i < rule.interface.nodes.len() ==> spec_pattern_has_node_var(
            rule.left,
            (#[trigger] rule.interface.nodes[i]).var,
        )
    &&& forall|i: int|
        0 <= i < rule.interface.edges.len() ==> spec_pattern_has_edge_var(
            rule.left,
            (#[trigger] rule.interface.edges[i]).var,
        )
}

#[verifier::loop_isolation(false)]
fn interface_in_left(rule: &DpoRule) -> (r: bool)
    ensures
        r == spec_interface_in_left(rule@),
{
    let mut i: usize = 0;
    while i < rule.interface.nodes.len()
        invariant
            i <= rule.interface.nodes.len(),
            forall|j: int|
                0 <= j < i ==> spec_pattern_has_node_var(rule@.left, (#[trigger] rule@.interface.nodes[j]).var),
        decreases rule.interface.nodes.len() - i,
    {
        if !pattern_has_node_var(&rule.left, rule.interface.nodes[i].var.as_str()) {
            proof {
                assert(!spec_pattern_has_node_var(rule@.left, rule@.interface.nodes[i as int].var));
            }
            return false;
        }
        i = i + 1;
    }
    let mut k: usize = 0;
    while k < rule.interface.edges.len()
        invariant
            k <= rule.interface.edges.len(),
            forall|j: int|
                0 <= j < k ==> spec_pattern_has_edge_var(rule@.left, (#[trigger] rule@.interface.edges[j]).var),
        decreases rule.interface.edges.len() - k,
    {
        if !pattern_has_edge_var(&rule.left, rule.interface.edges[k].var.as_str()) {
            proof {
                assert(!spec_pattern_has_edge_var(rule@.left, rule@.interface.edges[k as int].var));
            }
            return false;
        }
        k = k + 1;
    }
    true
}

/// The outcomes of the invariant battery over a sandbox graph and a rule,
/// in the order in which they are run.
pub open spec fn spec_battery(g: SpecGraph, rule: SpecRule) -> Seq<SpecInvariantResult> {
    seq![
        spec_orphan_result(g),
        spec_pii_result(g),
        spec_well_typed_result(g),
        spec_history_result(rule),
    ]
}

/// The validation report over a sandbox graph and a rule.
pub open spec fn spec_report(g: SpecGraph, rule: SpecRule) -> SpecValidationReport {
    let invs = spec_battery(g, rule);
    SpecValidationReport {
        is_valid: spec_all_passed(invs),
        is_confluent: true,
        schema_valid: spec_all_passed(invs),
        invariants: invs,
        warnings: Seq::empty(),
        errors: spec_failed_errors(invs, invs.len() as int),
    }
}

/// The model of the engine state.
#[verifier::ext_equal]
pub struct SpecCore {
    pub snapshot: SpecSnapshot,
    pub next_node_id: u64,
    pub next_edge_id: u64,
}

/// The in-memory engine: the live snapshot and the two monotonic id
/// counters for fresh nodes and edges.
#[derive(Debug)]
pub struct InMemoryCore {
    pub snapshot: GraphSnapshot,
    next_node_id: u64,
    next_edge_id: u64,
}

impl View for InMemoryCore {
    type V = SpecCore;

    closed spec fn view(&self) -> SpecCore {
        SpecCore {
            snapshot: self.snapshot@,
            next_node_id: self.next_node_id,
            next_edge_id: self.next_edge_id,
        }
    }
}

/// What validation decides for a core state and a rule: a malformed-rule
/// error, a match failure, a simulation error, or the battery's report
/// over the sandbox graph.
pub open spec fn spec_validate(c: SpecCore, rule: SpecRule) -> Result<SpecValidationReport, SpecCoreError> {
    if !spec_interface_in_left(rule) {
        Err(SpecCoreError::MalformedRule("interface names a variable not in the left pattern"@))
    } else {
        match spec_find_match(c.snapshot.graph, rule.left) {
            None => Err(SpecCoreError::MatchFailed("left pattern has no match in the live graph"@)),
            Some(m) => match spec_simulate(c.snapshot.graph, rule, m, c.next_node_id, c.next_edge_id) {
                Err(e) => Err(e),
                Ok(t) => Ok(spec_report(t.0, rule)),
            },
        }
    }
}

/// The sandbox outcome that validation is based on, where it exists.
pub open spec fn spec_sandbox(c: SpecCore, rule: SpecRule) -> (SpecGraph, u64, u64)
    recommends
        spec_validate(c, rule) is Ok,
{
    let m = spec_find_match(c.snapshot.graph, rule.left)->0;
    match spec_simulate(c.snapshot.graph, rule, m, c.next_node_id, c.next_edge_id) {
        Ok(t) => t,
        Err(_) => (c.snapshot.graph, c.next_node_id, c.next_edge_id),
    }
}

/// What a successful apply commits and returns for a core state and a
/// rule, or the error that leaves the state untouched.
pub open spec fn spec_apply(c: SpecCore, rule: SpecRule) -> Result<(SpecCore, SpecExecutionProof), SpecCoreError> {
    match spec_validate(c, rule) {
        Err(e) => Err(e),
        Ok(report) => {
            if !report.is_valid {
                Err(SpecCoreError::InvalidRule(report.errors))
            } else if spec_rev_num(c.snapshot.metadata.revision) == u64::MAX {
                Err(SpecCoreError::InternalError("revision counter exhausted"@))
            } else {
                let t = spec_sandbox(c, rule);
                let new_rev = spec_rev_string((spec_rev_num(c.snapshot.metadata.revision) + 1) as u64);
                let after_meta = SpecMeta {
                    revision: new_rev,
                    timestamp: c.snapshot.metadata.timestamp,
                    actor_id: c.snapshot.metadata.actor_id,
                    description: c.snapshot.metadata.description,
                };
                let after_snapshot = SpecSnapshot { graph: t.0, metadata: after_meta };
                let c2 = SpecCore { snapshot: after_snapshot, next_node_id: t.1, next_edge_id: t.2 };
                let proof_record = SpecExecutionProof {
                    rule_metadata: rule.metadata,
                    rule_hash: spec_rule_hash(rule),
                    before_revision: c.snapshot.metadata.revision,
                    after_revision: new_rev,
                    before_snapshot: Some(c.snapshot),
                    after_snapshot: Some(after_snapshot),
                    confluence_proof: None,
                    diff_summary: spec_diff(c.snapshot.graph, t.0),
                    actor_id: c.snapshot.metadata.actor_id,
                    timestamp: spec_timestamp_text(c.snapshot.metadata.timestamp),
                };
                Ok((c2, proof_record))
            }
        },
    }
}

impl InMemoryCore {
    /// A fresh engine: empty graph, revision `rev-0`, counters at one,
    /// actor `system`, and the zero timestamp.
    pub fn new() -> (c: InMemoryCore)
        ensures
            c@.snapshot.graph.nodes == Seq::<crate::graph::SpecNode>::empty(),
            c@.snapshot.graph.edges == Seq::<crate::graph::SpecEdge>::empty(),
            c@.snapshot.metadata.revision == "rev-0"@,
            c@.snapshot.metadata.actor_id == "system"@,
            c@.snapshot.metadata.description == "Initial empty state"@,
            c@.snapshot.metadata.timestamp == (Timestamp { year: 0, month: 0, day: 0, hour: 0, minute: 0, second: 0 }),
            c@.next_node_id == 1,
            c@.next_edge_id == 1,
    {
        InMemoryCore {
            snapshot: GraphSnapshot {
                graph: Graph::new(),
                metadata: SnapshotMetadata {
                    revision: String::from_str("rev-0"),
                    timestamp: Timestamp::zero(),
                    actor_id: String::from_str("system"),
                    description: String::from_str("Initial empty state"),
                },
            },
            next_node_id: 1,
            next_edge_id: 1,
        }
    }

    /// A deep value copy of the live snapshot: holders see a frozen graph
    /// unaffected by later applies.
    pub fn snapshot(&self) -> (r: GraphSnapshot)
        ensures
            r@ == self@.snapshot,
    {
        self.snapshot.duplicate()
    }

    /// Pattern queries outside rewriting are not part of this version.
    pub fn query(&self, _pattern: &GraphPattern) -> (r: Result<Vec<Match>, CoreError>)
        ensures
            r matches Err(e) && e@ == SpecCoreError::InternalError("pattern queries are not part of this version"@),
    {
        Err(CoreError::InternalError(String::from_str("pattern queries are not part of this version")))
    }

    fn validate_inner(&self, rule: &DpoRule) -> (r: Result<(ValidationReport, Graph, u64, u64), CoreError>)
        ensures
            match r {
                Ok(t) => spec_validate(self@, rule@) == Ok::<SpecValidationReport, SpecCoreError>(t.0@)
                    && (t.1@, t.2, t.3) == spec_sandbox(self@, rule@),
                Err(e) => spec_validate(self@, rule@) == Err::<SpecValidationReport, SpecCoreError>(e@),
            },
    {
        if !interface_in_left(rule) {
            return Err(CoreError::MalformedRule(String::from_str(
                "interface names a variable not in the left pattern",
            )));
        }
        let m = match find_match(&self.snapshot.graph, &rule.left) {
            Some(m) => m,
            None => {
                return Err(CoreError::MatchFailed(String::from_str(
                    "left pattern has no match in the live graph",
                )));
            }
        };
        let (sandbox, nn, ne) = match simulate(&self.snapshot.graph, rule, &m, self.next_node_id, self.next_edge_id) {
            Ok(t) => t,
            Err(e) => {
                return Err(e);
            }
        };
        let mut invs: Vec<InvariantResult> = Vec::new();
        invs.push(check_no_orphan_messages(&sandbox));
        invs.push(check_no_assistant_pii_leak(&sandbox));
        invs.push(check_well_typed_edges(&sandbox));
        invs.push(check_immutable_history(rule));
        proof {
            assert(invs_view(invs) =~= spec_battery(sandbox@, rule@));
        }
        let report = ValidationReport::from_invariants(invs);
        proof {
            assert(report@ =~= spec_report(sandbox@, rule@));
        }
        Ok((report, sandbox, nn, ne))
    }

    /// Validates a rule without touching state: runs the matcher, the
    /// simulator, and the invariant battery over the sandbox graph.
    pub fn validate(&self, rule: &DpoRule) -> (r: Result<ValidationReport, CoreError>)
        ensures
            match r {
                Ok(rep) => spec_validate(self@, rule@) == Ok::<SpecValidationReport, SpecCoreError>(rep@),
                Err(e) => spec_validate(self@, rule@) == Err::<SpecValidationReport, SpecCoreError>(e@),
            },
    {
        match self.validate_inner(rule) {
            Ok((report, _, _, _)) => Ok(report),
            Err(e) => Err(e),
        }
    }

    /// Applies a rule atomically: on success the sandbox graph becomes the
    /// live graph, the revision advances by one and a proof is returned;
    /// on any error the engine state is unchanged.
    #[verifier::rlimit(100)]
    pub fn apply(&mut self, rule: &DpoRule) -> (r: Result<ExecutionProof, CoreError>)
        ensures
            match r {
                Ok(p) => spec_apply(old(self)@, rule@) == Ok::<(SpecCore, SpecExecutionProof), SpecCoreError>(
                    (final(self)@, p@),
                ),
                Err(e) => spec_apply(old(self)@, rule@) == Err::<(SpecCore, SpecExecutionProof), SpecCoreError>(e@)
                    && final(self)@ == old(self)@,
            },
    {
        let (report, sandbox, nn, ne) = match self.validate_inner(rule) {
            Ok(t) => t,
            Err(e) => {
                return Err(e);
            }
        };
        if !report.is_valid {
            return Err(CoreError::InvalidRule(report.errors));
        }
        let n = rev_num(self.snapshot.metadata.revision.as_str());
        if n == u64::MAX {
            return Err(CoreError::InternalError(String::from_str("revision counter exhausted")));
        }
        let new_rev = rev_string(n + 1);
        let before = self.snapshot();
        let diff = diff_graphs(&before.graph, &sandbox);
        self.snapshot.graph = sandbox;
        self.snapshot.metadata.revision = new_rev.clone();
        self.next_node_id = nn;
        self.next_edge_id = ne;
        let after = self.snapshot();
        let hash = rule_hash(rule);
        let actor = after.metadata.actor_id.clone();
        let stamp = crate::json::timestamp_text(&after.metadata.timestamp);
        let proof_record = ExecutionProof {
            rule_metadata: rule.metadata.duplicate(),
            rule_hash: hash,
            before_revision: before.metadata.revision.clone(),
            after_revision: new_rev,
            before_snapshot: Some(before),
            after_snapshot: Some(after),
            confluence_proof: None,
            diff_summary: diff,
            actor_id: actor,
            timestamp: stamp,
        };
        proof {
            assert(final(self)@.snapshot =~= spec_apply(old(self)@, rule@)->Ok_0.0.snapshot);
            assert(final(self)@ =~= spec_apply(old(self)@, rule@)->Ok_0.0);
            assert(proof_record@ =~= spec_apply(old(self)@, rule@)->Ok_0.1);
        }
        Ok(proof_record)
    }
}

/// The abstract interface of a rewrite core.
pub trait RmgCore {
    /// Finds bindings of a pattern in the live graph.
    fn query(&self, pattern: &GraphPattern) -> Result<Vec<Match>, CoreError>;

    /// A deep value copy of the live snapshot.
    fn snapshot(&self) -> GraphSnapshot;

    /// Validates a rule without touching state.
    fn validate(&self, rule: &DpoRule) -> Result<ValidationReport, CoreError>;

    /// Applies a rule atomically.
    fn apply(&mut self, rule: &DpoRule) -> Result<ExecutionProof, CoreError>;
}

impl RmgCore for InMemoryCore {
    fn query(&self, pattern: &GraphPattern) -> Result<Vec<Match>, CoreError> {
        InMemoryCore::query(self, pattern)
    }

    fn snapshot(&self) -> GraphSnapshot {
        InMemoryCore::snapshot(self)
    }

    fn validate(&self, rule: &DpoRule) -> Result<ValidationReport, CoreError> {
        InMemoryCore::validate(self, rule)
    }

    fn apply(&mut self, rule: &DpoRule) -> Result<ExecutionProof, CoreError> {
        InMemoryCore::apply(self, rule)
    }
}

/// The contract of an external rule proposer.  The core never trusts it:
/// every proposed rule passes the same validation as any other.
pub trait LlmOracle {
    /// Proposes a read pattern for a natural-language request.
    fn propose_query(&self, natural_language: &str) -> Result<GraphPattern, CoreError>;

    /// Proposes a rewrite rule for a natural-language command.
    fn propose_rule(&self, natural_language: &str, context: &GraphSnapshot) -> Result<DpoRule, CoreError>;

    /// Explains a committed rewrite in prose.
    fn explain_proof(&self, proof: &ExecutionProof) -> Result<String, CoreError>;

    /// Proposes a corrected rule after a failed validation.
    fn refine_with_feedback(
        &self,
        command: &str,
        context: &GraphSnapshot,
        previous_proposal: &DpoRule,
        report: &ValidationReport,
    ) -> Result<DpoRule, CoreError>;
}

} // verus!
