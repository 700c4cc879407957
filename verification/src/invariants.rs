//! The invariant battery: graph-level checks (typed edges, no orphan
//! messages, no assistant PII leak) and the rule-level history-preservation
//! check, aggregated into a validation report.

use vstd::prelude::*;
use crate::graph::{EdgeType, Graph, NodeType, SpecEdge, SpecGraph, SpecNode, spec_edge_type, spec_node_type};
use crate::matcher::{regex_match, regex_syntax_ok};
use crate::rule::{DpoRule, SpecRule};
use crate::text::{str_eq, strs_view};
use crate::value::{attrs_get, SpecValue, Value};

verus! {

broadcast use vstd::std_specs::vec::axiom_vec_index_decreases;

/// The model of one invariant's outcome.
#[verifier::ext_equal]
pub struct SpecInvariantResult {
    pub name: Seq<char>,
    pub passed: bool,
    pub message: Seq<char>,
}

/// One invariant's outcome: its name, whether it passed, and a message
/// naming the offenders when it did not.
#[derive(Debug)]
pub struct InvariantResult {
    pub name: String,
    pub passed: bool,
    pub message: String,
}

impl View for InvariantResult {
    type V = SpecInvariantResult;

    open spec fn view(&self) -> SpecInvariantResult {
        SpecInvariantResult { name: self.name@, passed: self.passed, message: self.message@ }
    }
}

/// The models of an invariant result sequence, in order.
pub open spec fn invs_view(rs: Vec<InvariantResult>) -> Seq<SpecInvariantResult> {
    Seq::new(rs@.len(), |i: int| rs@[i]@)
}

/// The model of a validation report.
#[verifier::ext_equal]
pub struct SpecValidationReport {
    pub is_valid: bool,
    pub is_confluent: bool,
    pub schema_valid: bool,
    pub invariants: Seq<SpecInvariantResult>,
    pub warnings: Seq<Seq<char>>,
    pub errors: Seq<Seq<char>>,
}

/// The aggregated outcome of the invariant battery.
#[derive(Debug)]
pub struct ValidationReport {
    pub is_valid: bool,
    pub is_confluent: bool,
    pub schema_valid: bool,
    pub invariants: Vec<InvariantResult>,
    pub warnings: Vec<String>,
    pub errors: Vec<String>,
}

impl View for ValidationReport {
    type V = SpecValidationReport;

    open spec fn view(&self) -> SpecValidationReport {
        SpecValidationReport {
            is_valid: self.is_valid,
            is_confluent: self.is_confluent,
            schema_valid: self.schema_valid,
            invariants: invs_view(self.invariants),
            warnings: strs_view(self.warnings),
            errors: strs_view(self.errors),
        }
    }
}

/// The error line recorded for one failed invariant.
pub open spec fn spec_error_line(name: Seq<char>, message: Seq<char>) -> Seq<char> {
    "Invariant '"@ + name + "' failed: "@ + message
}

/// The error lines of the failed results among `rs[..i]`, in order.
pub open spec fn spec_failed_errors(rs: Seq<SpecInvariantResult>, i: int) -> Seq<Seq<char>>
    decreases i,
{
    if i <= 0 || i > rs.len() {
        Seq::empty()
    } else if rs[i - 1].passed {
        spec_failed_errors(rs, i - 1)
    } else {
        spec_failed_errors(rs, i - 1).push(spec_error_line(rs[i - 1].name, rs[i - 1].message))
    }
}

/// Whether every result in `rs` passed.
pub open spec fn spec_all_passed(rs: Seq<SpecInvariantResult>) -> bool {
    forall|i: int| 0 <= i < rs.len() ==> (#[trigger] rs[i]).passed
}

impl ValidationReport {
    /// Aggregates invariant outcomes: the report is valid exactly when
    /// every invariant passed; each failure contributes one error line.
    /// Confluence analysis is deferred, so `is_confluent` is reported true.
    #[verifier::loop_isolation(false)]
    pub fn from_invariants(invs: Vec<InvariantResult>) -> (r: ValidationReport)
        ensures
            r@.is_valid == spec_all_passed(invs_view(invs)),
            r@.schema_valid == r@.is_valid,
            r@.is_confluent == true,
            r@.invariants == invs_view(invs),
            r@.warnings == Seq::<Seq<char>>::empty(),
            r@.errors == spec_failed_errors(invs_view(invs), invs_view(invs).len() as int),
            r@.is_valid <==> r@.errors.len() == 0,
    {
        let ghost iv = invs_view(invs);
        let mut errors: Vec<String> = Vec::new();
        let mut all_passed: bool = true;
        let mut i: usize = 0;
        while i < invs.len()
            invariant
                i <= invs.len(),
                strs_view(errors) =~= spec_failed_errors(iv, i as int),
                all_passed == (forall|j: int| 0 <= j < i ==> (#[trigger] iv[j]).passed),
                all_passed ==> strs_view(errors).len() == 0,
                !all_passed ==> strs_view(errors).len() > 0,
            decreases invs.len() - i,
        {
            if !invs[i].passed {
                let mut line = String::from_str("Invariant '");
                line.append(invs[i].name.as_str());
                line.append("' failed: ");
                line.append(invs[i].message.as_str());
                proof {
                    assert(line@ == spec_error_line(iv[i as int].name, iv[i as int].message));
                }
                errors.push(line);
                all_passed = false;
            }
            proof {
                assert(strs_view(errors) =~= spec_failed_errors(iv, i + 1));
            }
            i = i + 1;
        }
        let is_valid = all_passed;
        let r = ValidationReport {
            is_valid,
            is_confluent: true,
            schema_valid: is_valid,
            invariants: invs,
            warnings: Vec::new(),
            errors,
        };
        proof {
            assert(strs_view(r.warnings) =~= Seq::<Seq<char>>::empty());
        }
        r
    }
}

/// Joins offender names with `"; "`.
pub open spec fn spec_join(ids: Seq<Seq<char>>, i: int) -> Seq<char>
    decreases i,
{
    if i <= 0 || i > ids.len() {
        Seq::empty()
    } else if i == 1 {
        ids[0]
    } else {
        spec_join(ids, i - 1) + "; "@ + ids[i - 1]
    }
}

#[verifier::loop_isolation(false)]
fn join_ids(ids: &Vec<String>) -> (r: String)
    ensures
        r@ == spec_join(strs_view(*ids), strs_view(*ids).len() as int),
{
    let mut out = String::new();
    let mut i: usize = 0;
    while i < ids.len()
        invariant
            i <= ids.len(),
            out@ == spec_join(strs_view(*ids), i as int),
        decreases ids.len() - i,
    {
        if i > 0 {
            out.append("; ");
        }
        out.append(ids[i].as_str());
        proof {
            assert(out@ == spec_join(strs_view(*ids), i + 1));
        }
        i = i + 1;
    }
    out
}

/// Builds an invariant result with the fixed success message on a pass and
/// a prefixed offender list on a failure.
#[verifier::loop_isolation(false)]
fn finish_check(
    name: &str,
    passed: bool,
    ok_message: &str,
    fail_prefix: &str,
    offenders: &Vec<String>,
) -> (r: InvariantResult)
    ensures
        r@.name == name@,
        r@.passed == passed,
        r@.message == (if passed {
            ok_message@
        } else {
            fail_prefix@ + spec_join(strs_view(*offenders), strs_view(*offenders).len() as int)
        }),
{
    if passed {
        InvariantResult {
            name: name.to_owned(),
            passed: true,
            message: ok_message.to_owned(),
        }
    } else {
        let mut message = fail_prefix.to_owned();
        let joined = join_ids(offenders);
        message.append(joined.as_str());
        InvariantResult { name: name.to_owned(), passed: false, message }
    }
}

/// The first node with id `id` whose type name is recognized, from `i` on.
pub open spec fn spec_typed_node_from(ns: Seq<SpecNode>, id: Seq<char>, i: int) -> Option<NodeType>
    decreases ns.len() - i,
{
    if i < 0 || i >= ns.len() {
        None
    } else if ns[i].id == id && spec_node_type(ns[i].node_type) is Some {
        spec_node_type(ns[i].node_type)
    } else {
        spec_typed_node_from(ns, id, i + 1)
    }
}

fn typed_node_lookup(g: &Graph, id: &str) -> (r: Option<NodeType>)
    ensures
        r == spec_typed_node_from(g@.nodes, id@, 0),
{
    typed_node_lookup_from(g, id, 0)
}

fn typed_node_lookup_from(g: &Graph, id: &str, i: usize) -> (r: Option<NodeType>)
    requires
        i <= g@.nodes.len(),
    ensures
        r == spec_typed_node_from(g@.nodes, id@, i as int),
    decreases g@.nodes.len() - i,
{
    if i >= g.nodes.len() {
        None
    } else {
        if str_eq(g.nodes[i].id.as_str(), id) {
            match NodeType::from_str(g.nodes[i].node_type.as_str()) {
                Some(t) => {
                    return Some(t);
                }
                None => {}
            }
        }
        typed_node_lookup_from(g, id, i + 1)
    }
}

/// The typed-edge table: which source and destination node types each
/// recognized edge type may connect.
pub open spec fn spec_typed_pair_ok(et: EdgeType, st: NodeType, dt: NodeType) -> bool {
    match (et, st, dt) {
        (EdgeType::HasTurn, NodeType::Thread, NodeType::Turn) => true,
        (EdgeType::HasMessage, NodeType::Turn, NodeType::Message) => true,
        (EdgeType::AuthoredBy, NodeType::Message, NodeType::Actor) => true,
        (EdgeType::RespondsTo, NodeType::Message, NodeType::Message) => true,
        (EdgeType::Mentions, NodeType::Message, NodeType::Concept) => true,
        (EdgeType::RelatesTo, NodeType::Concept, NodeType::Concept) => true,
        (EdgeType::Decides, NodeType::Decision, NodeType::Concept) => true,
        (EdgeType::Decides, NodeType::Decision, NodeType::Task) => true,
        (EdgeType::BlockedBy, NodeType::Task, NodeType::Task) => true,
        (EdgeType::BlockedBy, NodeType::Task, NodeType::Concept) => true,
        (EdgeType::AppliesTo, NodeType::Decision, NodeType::Thread) => true,
        (EdgeType::CreatesTask, NodeType::Message, NodeType::Task) => true,
        _ => false,
    }
}

fn typed_pair_ok(et: EdgeType, st: NodeType, dt: NodeType) -> (r: bool)
    ensures
        r == spec_typed_pair_ok(et, st, dt),
{
    match (et, st, dt) {
        (EdgeType::HasTurn, NodeType::Thread, NodeType::Turn) => true,
        (EdgeType::HasMessage, NodeType::Turn, NodeType::Message) => true,
        (EdgeType::AuthoredBy, NodeType::Message, NodeType::Actor) => true,
        (EdgeType::RespondsTo, NodeType::Message, NodeType::Message) => true,
        (EdgeType::Mentions, NodeType::Message, NodeType::Concept) => true,
        (EdgeType::RelatesTo, NodeType::Concept, NodeType::Concept) => true,
        (EdgeType::Decides, NodeType::Decision, NodeType::Concept) => true,
        (EdgeType::Decides, NodeType::Decision, NodeType::Task) => true,
        (EdgeType::BlockedBy, NodeType::Task, NodeType::Task) => true,
        (EdgeType::BlockedBy, NodeType::Task, NodeType::Concept) => true,
        (EdgeType::AppliesTo, NodeType::Decision, NodeType::Thread) => true,
        (EdgeType::CreatesTask, NodeType::Message, NodeType::Task) => true,
        _ => false,
    }
}

/// Whether one edge is well typed in `g`: a recognized edge type, both
/// endpoints resolving to recognized node types, and the triple in the
/// typed-edge table.
pub open spec fn spec_edge_well_typed(g: SpecGraph, e: SpecEdge) -> bool {
    match spec_edge_type(e.edge_type) {
        None => false,
        Some(et) => match (spec_typed_node_from(g.nodes, e.src, 0), spec_typed_node_from(g.nodes, e.dst, 0)) {
            (Some(st), Some(dt)) => spec_typed_pair_ok(et, st, dt),
            _ => false,
        },
    }
}

/// Whether every edge of `g` is well typed.
pub open spec fn spec_well_typed(g: SpecGraph) -> bool {
    forall|i: int| 0 <= i < g.edges.len() ==> spec_edge_well_typed(g, #[trigger] g.edges[i])
}

/// The ids of the edges among `es[..i]` that are not well typed.
pub open spec fn spec_bad_edges(g: SpecGraph, i: int) -> Seq<Seq<char>>
    decreases i,
{
    if i <= 0 || i > g.edges.len() {
        Seq::empty()
    } else if spec_edge_well_typed(g, g.edges[i - 1]) {
        spec_bad_edges(g, i - 1)
    } else {
        spec_bad_edges(g, i - 1).push(g.edges[i - 1].id)
    }
}

/// Checks that every edge's type is recognized, both endpoints resolve to
/// recognized node types, and the triple is in the typed-edge table.
#[verifier::loop_isolation(false)]
pub fn check_well_typed_edges(g: &Graph) -> (r: InvariantResult)
    ensures
        r@.name == "well_typed_edges"@,
        r@.passed == spec_well_typed(g@),
        r@.message == (if spec_well_typed(g@) {
            "All edges respect allowed src/dst types."@
        } else {
            "edges violating the typed-edge table: "@ + spec_join(
                spec_bad_edges(g@, g@.edges.len() as int),
                spec_bad_edges(g@, g@.edges.len() as int).len() as int,
            )
        }),
{
    let mut offenders: Vec<String> = Vec::new();
    let mut all_ok: bool = true;
    let mut i: usize = 0;
    while i < g.edges.len()
        invariant
            i <= g.edges.len(),
            strs_view(offenders) =~= spec_bad_edges(g@, i as int),
            all_ok == (forall|j: int| 0 <= j < i ==> spec_edge_well_typed(g@, #[trigger] g@.edges[j])),
        decreases g.edges.len() - i,
    {
        let e = &g.edges[i];
        let ok: bool = match EdgeType::from_str(e.edge_type.as_str()) {
            None => false,
            Some(et) => {
                let st = typed_node_lookup(g, e.src.as_str());
                let dt = typed_node_lookup(g, e.dst.as_str());
                match (st, dt) {
                    (Some(s), Some(d)) => typed_pair_ok(et, s, d),
                    _ => false,
                }
            }
        };
        proof {
            assert(ok == spec_edge_well_typed(g@, g@.edges[i as int]));
        }
        if !ok {
            offenders.push(e.id.clone());
            all_ok = false;
        }
        proof {
            assert(strs_view(offenders) =~= spec_bad_edges(g@, i + 1));
        }
        i = i + 1;
    }
    finish_check(
        "well_typed_edges",
        all_ok,
        "All edges respect allowed src/dst types.",
        "edges violating the typed-edge table: ",
        &offenders,
    )
}

/// How many edges among `es[..i]` are recognized as `HAS_MESSAGE` into the
/// node `id`.
pub open spec fn spec_has_message_count(es: Seq<SpecEdge>, id: Seq<char>, i: int) -> int
    decreases i,
{
    if i <= 0 || i > es.len() {
        0
    } else if spec_edge_type(es[i - 1].edge_type) == Some(EdgeType::HasMessage) && es[i - 1].dst == id {
        spec_has_message_count(es, id, i - 1) + 1
    } else {
        spec_has_message_count(es, id, i - 1)
    }
}

/// How many edges among `es[..i]` are recognized as `AUTHORED_BY` out of
/// the node `id`.
pub open spec fn spec_authored_by_count(es: Seq<SpecEdge>, id: Seq<char>, i: int) -> int
    decreases i,
{
    if i <= 0 || i > es.len() {
        0
    } else if spec_edge_type(es[i - 1].edge_type) == Some(EdgeType::AuthoredBy) && es[i - 1].src == id {
        spec_authored_by_count(es, id, i - 1) + 1
    } else {
        spec_authored_by_count(es, id, i - 1)
    }
}

/// Whether a node is a recognized `Message` node.
pub open spec fn spec_is_message(n: SpecNode) -> bool {
    spec_node_type(n.node_type) == Some(NodeType::Message)
}

/// Whether the message node `n` has exactly one incoming `HAS_MESSAGE`
/// edge and exactly one outgoing `AUTHORED_BY` edge in `g`.
pub open spec fn spec_message_wired(g: SpecGraph, n: SpecNode) -> bool {
    spec_has_message_count(g.edges, n.id, g.edges.len() as int) == 1
        && spec_authored_by_count(g.edges, n.id, g.edges.len() as int) == 1
}

/// Whether no message node of `g` is orphaned.
pub open spec fn spec_no_orphans(g: SpecGraph) -> bool {
    forall|i: int|
        0 <= i < g.nodes.len() && spec_is_message(#[trigger] g.nodes[i]) ==> spec_message_wired(g, g.nodes[i])
}

/// The ids of the orphaned message nodes among `ns[..i]`.
pub open spec fn spec_orphan_ids(g: SpecGraph, i: int) -> Seq<Seq<char>>
    decreases i,
{
    if i <= 0 || i > g.nodes.len() {
        Seq::empty()
    } else if spec_is_message(g.nodes[i - 1]) && !spec_message_wired(g, g.nodes[i - 1]) {
        spec_orphan_ids(g, i - 1).push(g.nodes[i - 1].id)
    } else {
        spec_orphan_ids(g, i - 1)
    }
}

#[verifier::loop_isolation(false)]
fn count_has_message(g: &Graph, id: &str) -> (r: usize)
    ensures
        r == spec_has_message_count(g@.edges, id@, g@.edges.len() as int),
{
    let mut count: usize = 0;
    let mut i: usize = 0;
    while i < g.edges.len()
        invariant
            i <= g.edges.len(),
            count == spec_has_message_count(g@.edges, id@, i as int),
            count <= i,
        decreases g.edges.len() - i,
    {
        let e = &g.edges[i];
        let is_hit: bool = match EdgeType::from_str(e.edge_type.as_str()) {
            Some(EdgeType::HasMessage) => str_eq(e.dst.as_str(), id),
            _ => false,
        };
        if is_hit {
            count = count + 1;
        }
        proof {
            assert(count == spec_has_message_count(g@.edges, id@, i + 1));
        }
        i = i + 1;
    }
    count
}

#[verifier::loop_isolation(false)]
fn count_authored_by(g: &Graph, id: &str) -> (r: usize)
    ensures
        r == spec_authored_by_count(g@.edges, id@, g@.edges.len() as int),
{
    let mut count: usize = 0;
    let mut i: usize = 0;
    while i < g.edges.len()
        invariant
            i <= g.edges.len(),
            count == spec_authored_by_count(g@.edges, id@, i as int),
            count <= i,
        decreases g.edges.len() - i,
    {
        let e = &g.edges[i];
        let is_hit: bool = match EdgeType::from_str(e.edge_type.as_str()) {
            Some(EdgeType::AuthoredBy) => str_eq(e.src.as_str(), id),
            _ => false,
        };
        if is_hit {
            count = count + 1;
        }
        proof {
            assert(count == spec_authored_by_count(g@.edges, id@, i + 1));
        }
        i = i + 1;
    }
    count
}

/// Checks that every `Message` node has exactly one incoming `HAS_MESSAGE`
/// edge and exactly one outgoing `AUTHORED_BY` edge.
#[verifier::loop_isolation(false)]
pub fn check_no_orphan_messages(g: &Graph) -> (r: InvariantResult)
    ensures
        r@.name == "no_orphan_messages"@,
        r@.passed == spec_no_orphans(g@),
        r@.message == (if spec_no_orphans(g@) {
            "All messages have exactly one HAS_MESSAGE and one AUTHORED_BY."@
        } else {
            "messages without exactly one HAS_MESSAGE and one AUTHORED_BY: "@ + spec_join(
                spec_orphan_ids(g@, g@.nodes.len() as int),
                spec_orphan_ids(g@, g@.nodes.len() as int).len() as int,
            )
        }),
{
    let mut offenders: Vec<String> = Vec::new();
    let mut all_ok: bool = true;
    let mut i: usize = 0;
    while i < g.nodes.len()
        invariant
            i <= g.nodes.len(),
            strs_view(offenders) =~= spec_orphan_ids(g@, i as int),
            all_ok == (forall|j: int|
                0 <= j < i && spec_is_message(#[trigger] g@.nodes[j]) ==> spec_message_wired(g@, g@.nodes[j])),
        decreases g.nodes.len() - i,
    {
        let n = &g.nodes[i];
        let is_msg: bool = match NodeType::from_str(n.node_type.as_str()) {
            Some(NodeType::Message) => true,
            _ => false,
        };
        if is_msg {
            let hm = count_has_message(g, n.id.as_str());
            let ab = count_authored_by(g, n.id.as_str());
            if hm != 1 || ab != 1 {
                offenders.push(n.id.clone());
                all_ok = false;
            }
        }
        proof {
            assert(strs_view(offenders) =~= spec_orphan_ids(g@, i + 1));
        }
        i = i + 1;
    }
    finish_check(
        "no_orphan_messages",
        all_ok,
        "All messages have exactly one HAS_MESSAGE and one AUTHORED_BY.",
        "messages without exactly one HAS_MESSAGE and one AUTHORED_BY: ",
        &offenders,
    )
}

/// The email-like pattern of the PII guard.
pub open spec fn spec_email_pattern() -> Seq<char> {
    "[a-zA-Z0-9_.+-]+@[a-zA-Z0-9-]+\\.[a-zA-Z0-9-.]+"@
}

/// The phone-like pattern of the PII guard.
pub open spec fn spec_phone_pattern() -> Seq<char> {
    "(\\+?\\d{1,3}[-.\\s]?)?(\\(?\\d{3}\\)?[-.\\s]?)\\d{3}[-.\\s]?\\d{4}"@
}

fn email_pattern() -> (s: &'static str)
    ensures
        s@ == spec_email_pattern(),
{
    "[a-zA-Z0-9_.+-]+@[a-zA-Z0-9-]+\\.[a-zA-Z0-9-.]+"
}

fn phone_pattern() -> (s: &'static str)
    ensures
        s@ == spec_phone_pattern(),
{
    "(\\+?\\d{1,3}[-.\\s]?)?(\\(?\\d{3}\\)?[-.\\s]?)\\d{3}[-.\\s]?\\d{4}"
}

/// Whether `text` looks like it contains an email address or a phone
/// number, as the two guard patterns decide.
pub open spec fn spec_pii_match(text: Seq<char>) -> bool {
    (regex_syntax_ok(spec_email_pattern()) && regex_match(spec_email_pattern(), text)) || (
    regex_syntax_ok(spec_phone_pattern()) && regex_match(spec_phone_pattern(), text))
}

/// Whether a node is an assistant-authored message with string content
/// that the PII guard flags.
pub open spec fn spec_node_leaks_pii(n: SpecNode) -> bool {
    &&& spec_is_message(n)
    &&& attrs_get(n.attrs, "author"@) == Some(SpecValue::Str("assistant"@))
    &&& match attrs_get(n.attrs, "content"@) {
        Some(SpecValue::Str(text)) => spec_pii_match(text),
        _ => false,
    }
}

/// Whether no assistant-authored message of `g` leaks PII.
pub open spec fn spec_no_pii_leak(g: SpecGraph) -> bool {
    forall|i: int| 0 <= i < g.nodes.len() ==> !spec_node_leaks_pii(#[trigger] g.nodes[i])
}

/// The ids of the leaking nodes among `ns[..i]`.
pub open spec fn spec_pii_ids(g: SpecGraph, i: int) -> Seq<Seq<char>>
    decreases i,
{
    if i <= 0 || i > g.nodes.len() {
        Seq::empty()
    } else if spec_node_leaks_pii(g.nodes[i - 1]) {
        spec_pii_ids(g, i - 1).push(g.nodes[i - 1].id)
    } else {
        spec_pii_ids(g, i - 1)
    }
}

/// Checks that no assistant-authored message contains email- or
/// phone-like text in its `content` attribute.
#[verifier::loop_isolation(false)]
pub fn check_no_assistant_pii_leak(g: &Graph) -> (r: InvariantResult)
    ensures
        r@.name == "no_assistant_pii_leak"@,
        r@.passed == spec_no_pii_leak(g@),
        r@.message == (if spec_no_pii_leak(g@) {
            "No assistant messages contain obvious PII."@
        } else {
            "assistant messages that appear to contain PII: "@ + spec_join(
                spec_pii_ids(g@, g@.nodes.len() as int),
                spec_pii_ids(g@, g@.nodes.len() as int).len() as int,
            )
        }),
{
    let mut offenders: Vec<String> = Vec::new();
    let mut all_ok: bool = true;
    let mut i: usize = 0;
    while i < g.nodes.len()
        invariant
            i <= g.nodes.len(),
            strs_view(offenders) =~= spec_pii_ids(g@, i as int),
            all_ok == (forall|j: int| 0 <= j < i ==> !spec_node_leaks_pii(#[trigger] g@.nodes[j])),
        decreases g.nodes.len() - i,
    {
        let n = &g.nodes[i];
        let is_msg: bool = match NodeType::from_str(n.node_type.as_str()) {
            Some(NodeType::Message) => true,
            _ => false,
        };
        let mut leaks: bool = false;
        if is_msg {
            let is_assistant: bool = match n.attrs.get("author") {
                Some(Value::Str(a)) => str_eq(a.as_str(), "assistant"),
                _ => false,
            };
            if is_assistant {
                match n.attrs.get("content") {
                    Some(Value::Str(text)) => {
                        leaks = crate::matcher::pii_text_match(email_pattern(), text.as_str())
                            || crate::matcher::pii_text_match(phone_pattern(), text.as_str());
                    }
                    _ => {}
                }
            }
        }
        proof {
            assert(leaks == spec_node_leaks_pii(g@.nodes[i as int]));
        }
        if leaks {
            offenders.push(n.id.clone());
            all_ok = false;
        }
        proof {
            assert(strs_view(offenders) =~= spec_pii_ids(g@, i + 1));
        }
        i = i + 1;
    }
    finish_check(
        "no_assistant_pii_leak",
        all_ok,
        "No assistant messages contain obvious PII.",
        "assistant messages that appear to contain PII: ",
        &offenders,
    )
}

/// The outcome of the orphan-message check over `g`.
pub open spec fn spec_orphan_result(g: SpecGraph) -> SpecInvariantResult {
    SpecInvariantResult {
        name: "no_orphan_messages"@,
        passed: spec_no_orphans(g),
        message: if spec_no_orphans(g) {
            "All messages have exactly one HAS_MESSAGE and one AUTHORED_BY."@
        } else {
            "messages without exactly one HAS_MESSAGE and one AUTHORED_BY: "@ + spec_join(
                spec_orphan_ids(g, g.nodes.len() as int),
                spec_orphan_ids(g, g.nodes.len() as int).len() as int,
            )
        },
    }
}

/// The outcome of the PII check over `g`.
pub open spec fn spec_pii_result(g: SpecGraph) -> SpecInvariantResult {
    SpecInvariantResult {
        name: "no_assistant_pii_leak"@,
        passed: spec_no_pii_leak(g),
        message: if spec_no_pii_leak(g) {
            "No assistant messages contain obvious PII."@
        } else {
            "assistant messages that appear to contain PII: "@ + spec_join(
                spec_pii_ids(g, g.nodes.len() as int),
                spec_pii_ids(g, g.nodes.len() as int).len() as int,
            )
        },
    }
}

/// The outcome of the typed-edge check over `g`.
pub open spec fn spec_well_typed_result(g: SpecGraph) -> SpecInvariantResult {
    SpecInvariantResult {
        name: "well_typed_edges"@,
        passed: spec_well_typed(g),
        message: if spec_well_typed(g) {
            "All edges respect allowed src/dst types."@
        } else {
            "edges violating the typed-edge table: "@ + spec_join(
                spec_bad_edges(g, g.edges.len() as int),
                spec_bad_edges(g, g.edges.len() as int).len() as int,
            )
        },
    }
}

/// The outcome of the history-preservation check over a rule.
pub open spec fn spec_history_result(rule: SpecRule) -> SpecInvariantResult {
    SpecInvariantResult {
        name: "immutable_history"@,
        passed: spec_history_kept(rule),
        message: if spec_history_kept(rule) {
            "All Messages in L are preserved via K and R; no deletions."@
        } else {
            "message variables that the rule would delete: "@ + spec_join(
                spec_lost_vars(rule, rule.left.nodes.len() as int),
                spec_lost_vars(rule, rule.left.nodes.len() as int).len() as int,
            )
        },
    }
}

/// Whether the replacement graph contains a node `var:NAME` for `v`.
pub open spec fn spec_right_preserves(r: SpecGraph, v: Seq<char>) -> bool {
    exists|i: int| 0 <= i < r.nodes.len() && #[trigger] r.nodes[i].id == "var:"@ + v
}

/// Whether a message variable of `L` is preserved: it appears in `K` and
/// the replacement keeps a `var:` node for it.
pub open spec fn spec_message_var_kept(rule: SpecRule, v: Seq<char>) -> bool {
    crate::sim::spec_pattern_has_node_var(rule.interface, v) && spec_right_preserves(rule.right, v)
}

/// Whether the rule preserves every message node that its left pattern
/// names with the `Message` type.
pub open spec fn spec_history_kept(rule: SpecRule) -> bool {
    forall|i: int|
        0 <= i < rule.left.nodes.len() && (#[trigger] rule.left.nodes[i]).node_type == Some("Message"@)
            ==> spec_message_var_kept(rule, rule.left.nodes[i].var)
}

/// The message variables of `L[..i]` that the rule fails to preserve.
pub open spec fn spec_lost_vars(rule: SpecRule, i: int) -> Seq<Seq<char>>
    decreases i,
{
    if i <= 0 || i > rule.left.nodes.len() {
        Seq::empty()
    } else if rule.left.nodes[i - 1].node_type == Some("Message"@) && !spec_message_var_kept(
        rule,
        rule.left.nodes[i - 1].var,
    ) {
        spec_lost_vars(rule, i - 1).push(rule.left.nodes[i - 1].var)
    } else {
        spec_lost_vars(rule, i - 1)
    }
}

#[verifier::loop_isolation(false)]
fn right_preserves(rg: &Graph, v: &str) -> (r: bool)
    ensures
        r == spec_right_preserves(rg@, v@),
{
    let mut key = String::from_str("var:");
    key.append(v);
    let mut i: usize = 0;
    while i < rg.nodes.len()
        invariant
            i <= rg.nodes.len(),
            key@ == "var:"@ + v@,
            forall|j: int| 0 <= j < i ==> #[trigger] rg@.nodes[j].id != "var:"@ + v@,
        decreases rg.nodes.len() - i,
    {
        if str_eq(rg.nodes[i].id.as_str(), key.as_str()) {
            proof {
                assert(rg@.nodes[i as int].id == "var:"@ + v@);
            }
            return true;
        }
        i = i + 1;
    }
    false
}

/// Checks that the rule cannot delete a `Message` node: every message
/// variable of `L` must appear in `K` and be kept by a `var:` node in `R`.
#[verifier::loop_isolation(false)]
pub fn check_immutable_history(rule: &DpoRule) -> (r: InvariantResult)
    ensures
        r@.name == "immutable_history"@,
        r@.passed == spec_history_kept(rule@),
        r@.message == (if spec_history_kept(rule@) {
            "All Messages in L are preserved via K and R; no deletions."@
        } else {
            "message variables that the rule would delete: "@ + spec_join(
                spec_lost_vars(rule@, rule@.left.nodes.len() as int),
                spec_lost_vars(rule@, rule@.left.nodes.len() as int).len() as int,
            )
        }),
{
    let mut offenders: Vec<String> = Vec::new();
    let mut all_ok: bool = true;
    let mut i: usize = 0;
    while i < rule.left.nodes.len()
        invariant
            i <= rule.left.nodes.len(),
            strs_view(offenders) =~= spec_lost_vars(rule@, i as int),
            all_ok == (forall|j: int|
                0 <= j < i && (#[trigger] rule@.left.nodes[j]).node_type == Some("Message"@)
                    ==> spec_message_var_kept(rule@, rule@.left.nodes[j].var)),
        decreases rule.left.nodes.len() - i,
    {
        let p = &rule.left.nodes[i];
        let is_msg_var: bool = match &p.node_type {
            Some(t) => str_eq(t.as_str(), "Message"),
            None => false,
        };
        if is_msg_var {
            let in_k = crate::sim::pattern_has_node_var(&rule.interface, p.var.as_str());
            let in_r = right_preserves(&rule.right, p.var.as_str());
            if !(in_k && in_r) {
                offenders.push(p.var.clone());
                all_ok = false;
            }
        }
        proof {
            assert(strs_view(offenders) =~= spec_lost_vars(rule@, i + 1));
        }
        i = i + 1;
    }
    finish_check(
        "immutable_history",
        all_ok,
        "All Messages in L are preserved via K and R; no deletions.",
        "message variables that the rule would delete: ",
        &offenders,
    )
}

} // verus!
