//! The canonical JSON rendering of every data type: mapping keys are kept
//! in sorted order by construction, strings are escaped, and two equal
//! values always render to the same text.  This rendering is the byte-level
//! definition of snapshot equality and the input of the rule hash.

use vstd::prelude::*;
use crate::graph::{Edge, Graph, GraphSnapshot, Node, SnapshotMetadata, SpecEdge, SpecGraph, SpecMeta, SpecNode, SpecSnapshot, Timestamp};
use crate::rule::{
    constraints_view, ops_view, AttrOp, DpoRule, EdgePattern, GraphPattern, NodePattern,
    RuleMetadata, SpecAttrOp, SpecEdgePattern, SpecNodePattern, SpecPattern, SpecRule,
    SpecRuleMetadata, SpecStructuralConstraint, StructuralConstraint,
};
use crate::text::{dec_seq, push_char, strs_view, u64_to_dec};
use crate::value::{val_view, vals_view_from, AttrMap, SpecValue, Value};

verus! {

broadcast use vstd::std_specs::vec::axiom_vec_index_decreases;

/// The lower-case hexadecimal digit for `d` (below sixteen).
pub open spec fn hex_digit(d: nat) -> char {
    if d < 10 {
        crate::text::dec_digit(d)
    } else if d == 10 {
        'a'
    } else if d == 11 {
        'b'
    } else if d == 12 {
        'c'
    } else if d == 13 {
        'd'
    } else if d == 14 {
        'e'
    } else {
        'f'
    }
}

pub fn hex_digit_exec(d: u8) -> (c: char)
    requires
        d < 16,
    ensures
        c == hex_digit(d as nat),
{
    if d < 10 {
        crate::text::dec_digit_exec8(d)
    } else if d == 10 {
        'a'
    } else if d == 11 {
        'b'
    } else if d == 12 {
        'c'
    } else if d == 13 {
        'd'
    } else if d == 14 {
        'e'
    } else {
        'f'
    }
}

/// How one character is escaped inside a JSON string literal.
pub open spec fn spec_escaped_char(c: char) -> Seq<char> {
    if c == '"' {
        seq!['\\', '"']
    } else if c == '\\' {
        seq!['\\', '\\']
    } else if (c as u32) < 32 {
        seq!['\\', 'u', '0', '0', hex_digit(((c as u32) / 16) as nat), hex_digit(((c as u32) % 16) as nat)]
    } else {
        seq![c]
    }
}

/// The escaped form of `s[..i]`.
pub open spec fn spec_escaped(s: Seq<char>, i: int) -> Seq<char>
    decreases i,
{
    if i <= 0 || i > s.len() {
        Seq::empty()
    } else {
        spec_escaped(s, i - 1) + spec_escaped_char(s[i - 1])
    }
}

/// The JSON string literal for `s`: quoted and escaped.
pub open spec fn spec_json_str(s: Seq<char>) -> Seq<char> {
    seq!['"'] + spec_escaped(s, s.len() as int) + seq!['"']
}

/// Renders a JSON string literal.
#[verifier::loop_isolation(false)]
pub fn json_str(s: &str) -> (r: String)
    ensures
        r@ == spec_json_str(s@),
{
    let mut out = String::new();
    push_char(&mut out, '"');
    let n = s.unicode_len();
    let mut i: usize = 0;
    while i < n
        invariant
            i <= n,
            n == s@.len(),
            out@ == seq!['"'] + spec_escaped(s@, i as int),
        decreases n - i,
    {
        let c = s.get_char(i);
        if c == '"' {
            push_char(&mut out, '\\');
            push_char(&mut out, '"');
        } else if c == '\\' {
            push_char(&mut out, '\\');
            push_char(&mut out, '\\');
        } else if (c as u32) < 32 {
            push_char(&mut out, '\\');
            push_char(&mut out, 'u');
            push_char(&mut out, '0');
            push_char(&mut out, '0');
            let u = c as u32;
            push_char(&mut out, hex_digit_exec((u / 16) as u8));
            push_char(&mut out, hex_digit_exec((u % 16) as u8));
        } else {
            push_char(&mut out, c);
        }
        proof {
            assert(out@ =~= seq!['"'] + spec_escaped(s@, i + 1));
        }
        i = i + 1;
    }
    push_char(&mut out, '"');
    proof {
        assert(out@ =~= spec_json_str(s@));
    }
    out
}

/// The decimal JSON form of a signed integer.
pub open spec fn spec_json_int(n: i64) -> Seq<char> {
    if n >= 0 {
        dec_seq(n as nat)
    } else {
        seq!['-'] + dec_seq((-(n as int)) as nat)
    }
}

/// Renders a signed integer in decimal.
pub fn json_int(n: i64) -> (r: String)
    ensures
        r@ == spec_json_int(n),
{
    if n >= 0 {
        u64_to_dec(n as u64)
    } else {
        let mag: u64 = if n == i64::MIN {
            9223372036854775808u64
        } else {
            (-n) as u64
        };
        let mut out = String::new();
        push_char(&mut out, '-');
        let digits = u64_to_dec(mag);
        out.append(digits.as_str());
        proof {
            assert(mag as nat == (-(n as int)) as nat);
            assert(out@ =~= spec_json_int(n));
        }
        out
    }
}

/// The canonical JSON of a value: a tagged object whose `kind` names the
/// variant; mapping keys appear in their stored (sorted) order.
pub open spec fn spec_json_value(v: SpecValue) -> Seq<char>
    decreases v, 1int, 0int,
{
    match v {
        SpecValue::Str(s) => "{\"kind\":\"Str\",\"value\":"@ + spec_json_str(s) + "}"@,
        SpecValue::Int(n) => "{\"kind\":\"Int\",\"value\":"@ + spec_json_int(n) + "}"@,
        SpecValue::Bool(b) => if b {
            "{\"kind\":\"Bool\",\"value\":true}"@
        } else {
            "{\"kind\":\"Bool\",\"value\":false}"@
        },
        SpecValue::Null => "{\"kind\":\"Null\"}"@,
        SpecValue::List(vs) => "{\"kind\":\"List\",\"value\":["@ + spec_json_vals(vs, vs.len() as int) + "]}"@,
        SpecValue::Obj(es) => "{\"kind\":\"Obj\",\"value\":{"@ + spec_json_obj_entries(es, es.len() as int)
            + "}}"@,
    }
}

/// The comma-joined canonical JSON of the values `vs[..i]`.
pub open spec fn spec_json_vals(vs: Seq<SpecValue>, i: int) -> Seq<char>
    decreases vs, 0int, i,
{
    if i <= 0 || i > vs.len() {
        Seq::empty()
    } else if i == 1 {
        spec_json_value(vs[0])
    } else {
        spec_json_vals(vs, i - 1) + ","@ + spec_json_value(vs[i - 1])
    }
}

pub open spec fn spec_json_obj_entry(e: (Seq<char>, SpecValue)) -> Seq<char>
    decreases e, 2int, 0int,
{
    spec_json_str(e.0) + ":"@ + spec_json_value(e.1)
}

/// The comma-joined `"key":value` pairs of the entries `es[..i]`.
pub open spec fn spec_json_obj_entries(es: Seq<(Seq<char>, SpecValue)>, i: int) -> Seq<char>
    decreases es, 0int, i,
{
    if i <= 0 || i > es.len() {
        Seq::empty()
    } else if i == 1 {
        spec_json_obj_entry(es[0])
    } else {
        spec_json_obj_entries(es, i - 1) + ","@ + spec_json_obj_entry(es[i - 1])
    }
}

/// Renders the canonical JSON of a value.
#[verifier::loop_isolation(false)]
pub fn json_value(v: &Value) -> (r: String)
    ensures
        r@ == spec_json_value(v@),
    decreases v, 1int, 0int,
{
    match v {
        Value::Str(s) => {
            let mut out = String::from_str("{\"kind\":\"Str\",\"value\":");
            let lit = json_str(s.as_str());
            out.append(lit.as_str());
            out.append("}");
            proof {
                assert(out@ =~= spec_json_value(v@));
            }
            out
        }
        Value::Int(n) => {
            let mut out = String::from_str("{\"kind\":\"Int\",\"value\":");
            let num = json_int(*n);
            out.append(num.as_str());
            out.append("}");
            proof {
                assert(out@ =~= spec_json_value(v@));
            }
            out
        }
        Value::Bool(b) => {
            if *b {
                String::from_str("{\"kind\":\"Bool\",\"value\":true}")
            } else {
                String::from_str("{\"kind\":\"Bool\",\"value\":false}")
            }
        }
        Value::Null => String::from_str("{\"kind\":\"Null\"}"),
        Value::List(vs) => {
            let ghost vv = vals_view_from(*vs, 0);
            proof {
                crate::value::lemma_vals_view_from(*vs, 0);
            }
            let mut out = String::from_str("{\"kind\":\"List\",\"value\":[");
            let mut i: usize = 0;
            while i < vs.len()
                invariant
                    i <= vs.len(),
                    out@ == "{\"kind\":\"List\",\"value\":["@ + spec_json_vals(vv, i as int),
                decreases vs.len() - i,
            {
                proof {
                    assert(decreases_to!(*v => vs[i as int]));
                }
                if i > 0 {
                    out.append(",");
                }
                let piece = json_value(&vs[i]);
                out.append(piece.as_str());
                proof {
                    assert(out@ =~= "{\"kind\":\"List\",\"value\":["@ + spec_json_vals(vv, i + 1));
                }
                i = i + 1;
            }
            out.append("]}");
            proof {
                assert(out@ =~= spec_json_value(v@));
            }
            out
        }
        Value::Obj(m) => {
            let ghost es = m@;
            let mut out = String::from_str("{\"kind\":\"Obj\",\"value\":{");
            let n = m.len();
            let mut i: usize = 0;
            while i < n
                invariant
                    i <= n,
                    n == es.len(),
                    out@ == "{\"kind\":\"Obj\",\"value\":{"@ + spec_json_obj_entries(es, i as int),
                decreases n - i,
            {
                if i > 0 {
                    out.append(",");
                }
                let key = json_str(m.key_at(i).as_str());
                out.append(key.as_str());
                out.append(":");
                let value_ref = m.val_at(i);
                proof {
                    assert(decreases_to!(*v => *m));
                    assert(decreases_to!(*v => *value_ref));
                }
                let piece = json_value(value_ref);
                out.append(piece.as_str());
                proof {
                    assert(spec_json_obj_entry(es[i as int]) == spec_json_str(es[i as int].0) + ":"@
                        + spec_json_value(es[i as int].1));
                    assert(out@ =~= "{\"kind\":\"Obj\",\"value\":{"@ + spec_json_obj_entries(es, i + 1));
                }
                i = i + 1;
            }
            out.append("}}");
            proof {
                assert(out@ =~= spec_json_value(v@));
            }
            out
        }
    }
}

/// The canonical JSON of an attribute map: an object with its keys in the
/// stored sorted order.
pub open spec fn spec_json_attrs(es: Seq<(Seq<char>, SpecValue)>) -> Seq<char> {
    "{"@ + spec_json_obj_entries(es, es.len() as int) + "}"@
}

/// Renders the canonical JSON of an attribute map.
#[verifier::loop_isolation(false)]
pub fn json_attrs(m: &AttrMap) -> (r: String)
    ensures
        r@ == spec_json_attrs(m@),
{
    let ghost es = m@;
    let mut out = String::from_str("{");
    let n = m.len();
    let mut i: usize = 0;
    while i < n
        invariant
            i <= n,
            n == es.len(),
            out@ == "{"@ + spec_json_obj_entries(es, i as int),
        decreases n - i,
    {
        if i > 0 {
            out.append(",");
        }
        let key = json_str(m.key_at(i).as_str());
        out.append(key.as_str());
        out.append(":");
        let piece = json_value(m.val_at(i));
        out.append(piece.as_str());
        proof {
            assert(spec_json_obj_entry(es[i as int]) == spec_json_str(es[i as int].0) + ":"@
                + spec_json_value(es[i as int].1));
            assert(out@ =~= "{"@ + spec_json_obj_entries(es, i + 1));
        }
        i = i + 1;
    }
    out.append("}");
    proof {
        assert(out@ =~= spec_json_attrs(es));
    }
    out
}

/// The canonical JSON of a node.
pub open spec fn spec_json_node(n: SpecNode) -> Seq<char> {
    "{\"id\":"@ + spec_json_str(n.id) + ",\"node_type\":"@ + spec_json_str(n.node_type) + ",\"attrs\":"@
        + spec_json_attrs(n.attrs) + "}"@
}

/// Renders the canonical JSON of a node.
pub fn json_node(n: &Node) -> (r: String)
    ensures
        r@ == spec_json_node(n@),
{
    let mut out = String::from_str("{\"id\":");
    let id = json_str(n.id.as_str());
    out.append(id.as_str());
    out.append(",\"node_type\":");
    let nt = json_str(n.node_type.as_str());
    out.append(nt.as_str());
    out.append(",\"attrs\":");
    let attrs = json_attrs(&n.attrs);
    out.append(attrs.as_str());
    out.append("}");
    proof {
        assert(out@ =~= spec_json_node(n@));
    }
    out
}

/// The canonical JSON of an edge.
pub open spec fn spec_json_edge(e: SpecEdge) -> Seq<char> {
    "{\"id\":"@ + spec_json_str(e.id) + ",\"edge_type\":"@ + spec_json_str(e.edge_type) + ",\"src\":"@
        + spec_json_str(e.src) + ",\"dst\":"@ + spec_json_str(e.dst) + ",\"attrs\":"@ + spec_json_attrs(
        e.attrs,
    ) + "}"@
}

/// Renders the canonical JSON of an edge.
pub fn json_edge(e: &Edge) -> (r: String)
    ensures
        r@ == spec_json_edge(e@),
{
    let mut out = String::from_str("{\"id\":");
    let id = json_str(e.id.as_str());
    out.append(id.as_str());
    out.append(",\"edge_type\":");
    let et = json_str(e.edge_type.as_str());
    out.append(et.as_str());
    out.append(",\"src\":");
    let src = json_str(e.src.as_str());
    out.append(src.as_str());
    out.append(",\"dst\":");
    let dst = json_str(e.dst.as_str());
    out.append(dst.as_str());
    out.append(",\"attrs\":");
    let attrs = json_attrs(&e.attrs);
    out.append(attrs.as_str());
    out.append("}");
    proof {
        assert(out@ =~= spec_json_edge(e@));
    }
    out
}

/// The comma-joined canonical JSON of the nodes `ns[..i]`.
pub open spec fn spec_json_nodes(ns: Seq<SpecNode>, i: int) -> Seq<char>
    decreases i,
{
    if i <= 0 || i > ns.len() {
        Seq::empty()
    } else if i == 1 {
        spec_json_node(ns[0])
    } else {
        spec_json_nodes(ns, i - 1) + ","@ + spec_json_node(ns[i - 1])
    }
}

/// The comma-joined canonical JSON of the edges `es[..i]`.
pub open spec fn spec_json_edges(es: Seq<SpecEdge>, i: int) -> Seq<char>
    decreases i,
{
    if i <= 0 || i > es.len() {
        Seq::empty()
    } else if i == 1 {
        spec_json_edge(es[0])
    } else {
        spec_json_edges(es, i - 1) + ","@ + spec_json_edge(es[i - 1])
    }
}

/// The canonical JSON of a graph.
pub open spec fn spec_json_graph(g: SpecGraph) -> Seq<char> {
    "{\"nodes\":["@ + spec_json_nodes(g.nodes, g.nodes.len() as int) + "],\"edges\":["@ + spec_json_edges(
        g.edges,
        g.edges.len() as int,
    ) + "]}"@
}

/// Renders the canonical JSON of a graph.
#[verifier::loop_isolation(false)]
#[verifier::rlimit(80)]
pub fn json_graph(g: &Graph) -> (r: String)
    ensures
        r@ == spec_json_graph(g@),
{
    let mut out = String::from_str("{\"nodes\":[");
    let mut i: usize = 0;
    while i < g.nodes.len()
        invariant
            i <= g.nodes.len(),
            out@ == "{\"nodes\":["@ + spec_json_nodes(g@.nodes, i as int),
        decreases g.nodes.len() - i,
    {
        if i > 0 {
            out.append(",");
        }
        let piece = json_node(&g.nodes[i]);
        out.append(piece.as_str());
        proof {
            assert(out@ =~= "{\"nodes\":["@ + spec_json_nodes(g@.nodes, i + 1));
        }
        i = i + 1;
    }
    out.append("],\"edges\":[");
    let ghost mid = out@;
    let mut k: usize = 0;
    while k < g.edges.len()
        invariant
            k <= g.edges.len(),
            out@ == mid + spec_json_edges(g@.edges, k as int),
        decreases g.edges.len() - k,
    {
        if k > 0 {
            out.append(",");
        }
        let piece = json_edge(&g.edges[k]);
        out.append(piece.as_str());
        proof {
            assert(out@ =~= mid + spec_json_edges(g@.edges, k + 1));
        }
        k = k + 1;
    }
    out.append("]}");
    proof {
        assert(out@ =~= spec_json_graph(g@));
    }
    out
}

/// A decimal number left-padded with zeros to two digits.
pub open spec fn spec_pad2(n: u32) -> Seq<char> {
    if n < 10 {
        seq!['0'] + dec_seq(n as nat)
    } else {
        dec_seq(n as nat)
    }
}

/// A decimal number left-padded with zeros to four digits.
pub open spec fn spec_pad4(n: u32) -> Seq<char> {
    if n < 10 {
        seq!['0', '0', '0'] + dec_seq(n as nat)
    } else if n < 100 {
        seq!['0', '0'] + dec_seq(n as nat)
    } else if n < 1000 {
        seq!['0'] + dec_seq(n as nat)
    } else {
        dec_seq(n as nat)
    }
}

fn pad2(n: u32) -> (r: String)
    ensures
        r@ == spec_pad2(n),
{
    let mut out = String::new();
    if n < 10 {
        push_char(&mut out, '0');
    }
    let digits = u64_to_dec(n as u64);
    out.append(digits.as_str());
    proof {
        assert(out@ =~= spec_pad2(n));
    }
    out
}

fn pad4(n: u32) -> (r: String)
    ensures
        r@ == spec_pad4(n),
{
    let mut out = String::new();
    if n < 10 {
        out.append("000");
        proof {
            reveal_strlit("000");
            assert(out@ =~= seq!['0', '0', '0']);
        }
    } else if n < 100 {
        out.append("00");
        proof {
            reveal_strlit("00");
            assert(out@ =~= seq!['0', '0']);
        }
    } else if n < 1000 {
        push_char(&mut out, '0');
    }
    let digits = u64_to_dec(n as u64);
    out.append(digits.as_str());
    proof {
        assert(out@ =~= spec_pad4(n));
    }
    out
}

/// The canonical timestamp rendering: `YYYY-MM-DDTHH:MM:SSZ`.
pub open spec fn spec_timestamp_text(t: Timestamp) -> Seq<char> {
    spec_pad4(t.year) + "-"@ + spec_pad2(t.month) + "-"@ + spec_pad2(t.day) + "T"@ + spec_pad2(t.hour)
        + ":"@ + spec_pad2(t.minute) + ":"@ + spec_pad2(t.second) + "Z"@
}

/// Renders a timestamp as `YYYY-MM-DDTHH:MM:SSZ`.
pub fn timestamp_text(t: &Timestamp) -> (r: String)
    ensures
        r@ == spec_timestamp_text(*t),
{
    let mut out = pad4(t.year);
    out.append("-");
    let mo = pad2(t.month);
    out.append(mo.as_str());
    out.append("-");
    let d = pad2(t.day);
    out.append(d.as_str());
    out.append("T");
    let h = pad2(t.hour);
    out.append(h.as_str());
    out.append(":");
    let mi = pad2(t.minute);
    out.append(mi.as_str());
    out.append(":");
    let s = pad2(t.second);
    out.append(s.as_str());
    out.append("Z");
    proof {
        assert(out@ =~= spec_timestamp_text(*t));
    }
    out
}

/// The canonical JSON of snapshot metadata.
pub open spec fn spec_json_metadata(m: SpecMeta) -> Seq<char> {
    "{\"revision\":"@ + spec_json_str(m.revision) + ",\"timestamp\":\""@ + spec_timestamp_text(m.timestamp)
        + "\",\"actor_id\":"@ + spec_json_str(m.actor_id) + ",\"description\":"@ + spec_json_str(
        m.description,
    ) + "}"@
}

/// Renders the canonical JSON of snapshot metadata.
pub fn json_metadata(m: &SnapshotMetadata) -> (r: String)
    ensures
        r@ == spec_json_metadata(m@),
{
    let mut out = String::from_str("{\"revision\":");
    let rev = json_str(m.revision.as_str());
    out.append(rev.as_str());
    out.append(",\"timestamp\":\"");
    let ts = timestamp_text(&m.timestamp);
    out.append(ts.as_str());
    out.append("\",\"actor_id\":");
    let actor = json_str(m.actor_id.as_str());
    out.append(actor.as_str());
    out.append(",\"description\":");
    let desc = json_str(m.description.as_str());
    out.append(desc.as_str());
    out.append("}");
    proof {
        assert(out@ =~= spec_json_metadata(m@));
    }
    out
}

/// The canonical JSON of a snapshot: the byte-level definition of snapshot
/// equality.
pub open spec fn spec_json_snapshot(s: SpecSnapshot) -> Seq<char> {
    "{\"graph\":"@ + spec_json_graph(s.graph) + ",\"metadata\":"@ + spec_json_metadata(s.metadata) + "}"@
}

/// Renders the canonical JSON of a snapshot.
pub fn json_snapshot(s: &GraphSnapshot) -> (r: String)
    ensures
        r@ == spec_json_snapshot(s@),
{
    let mut out = String::from_str("{\"graph\":");
    let g = json_graph(&s.graph);
    out.append(g.as_str());
    out.append(",\"metadata\":");
    let m = json_metadata(&s.metadata);
    out.append(m.as_str());
    out.append("}");
    proof {
        assert(out@ =~= spec_json_snapshot(s@));
    }
    out
}

/// The canonical JSON of one attribute constraint.
pub open spec fn spec_json_op(op: SpecAttrOp) -> Seq<char>
    decreases op, 1int, 0int,
{
    match op {
        SpecAttrOp::Eq(v) => "{\"op\":\"eq\",\"value\":"@ + spec_json_value(v) + "}"@,
        SpecAttrOp::Neq(v) => "{\"op\":\"neq\",\"value\":"@ + spec_json_value(v) + "}"@,
        SpecAttrOp::Lt(v) => "{\"op\":\"lt\",\"value\":"@ + spec_json_value(v) + "}"@,
        SpecAttrOp::Lte(v) => "{\"op\":\"lte\",\"value\":"@ + spec_json_value(v) + "}"@,
        SpecAttrOp::Gt(v) => "{\"op\":\"gt\",\"value\":"@ + spec_json_value(v) + "}"@,
        SpecAttrOp::Gte(v) => "{\"op\":\"gte\",\"value\":"@ + spec_json_value(v) + "}"@,
        SpecAttrOp::Regex(p) => "{\"op\":\"regex\",\"pattern\":"@ + spec_json_str(p) + "}"@,
        SpecAttrOp::In(vs) => "{\"op\":\"in\",\"values\":["@ + spec_json_vals(vs, vs.len() as int) + "]}"@,
    }
}

/// The comma-joined canonical JSON of the constraints `ops[..i]`.
pub open spec fn spec_json_ops(ops: Seq<SpecAttrOp>, i: int) -> Seq<char>
    decreases ops, 0int, i,
{
    if i <= 0 || i > ops.len() {
        Seq::empty()
    } else if i == 1 {
        spec_json_op(ops[0])
    } else {
        spec_json_ops(ops, i - 1) + ","@ + spec_json_op(ops[i - 1])
    }
}

/// Renders the canonical JSON of one attribute constraint.
#[verifier::loop_isolation(false)]
pub fn json_op(op: &AttrOp) -> (r: String)
    ensures
        r@ == spec_json_op(op@),
{
    match op {
        AttrOp::Eq { value } => {
            let mut out = String::from_str("{\"op\":\"eq\",\"value\":");
            let piece = json_value(value);
            out.append(piece.as_str());
            out.append("}");
            proof {
                assert(out@ =~= spec_json_op(op@));
            }
            out
        }
        AttrOp::Neq { value } => {
            let mut out = String::from_str("{\"op\":\"neq\",\"value\":");
            let piece = json_value(value);
            out.append(piece.as_str());
            out.append("}");
            proof {
                assert(out@ =~= spec_json_op(op@));
            }
            out
        }
        AttrOp::Lt { value } => {
            let mut out = String::from_str("{\"op\":\"lt\",\"value\":");
            let piece = json_value(value);
            out.append(piece.as_str());
            out.append("}");
            proof {
                assert(out@ =~= spec_json_op(op@));
            }
            out
        }
        AttrOp::Lte { value } => {
            let mut out = String::from_str("{\"op\":\"lte\",\"value\":");
            let piece = json_value(value);
            out.append(piece.as_str());
            out.append("}");
            proof {
                assert(out@ =~= spec_json_op(op@));
            }
            out
        }
        AttrOp::Gt { value } => {
            let mut out = String::from_str("{\"op\":\"gt\",\"value\":");
            let piece = json_value(value);
            out.append(piece.as_str());
            out.append("}");
            proof {
                assert(out@ =~= spec_json_op(op@));
            }
            out
        }
        AttrOp::Gte { value } => {
            let mut out = String::from_str("{\"op\":\"gte\",\"value\":");
            let piece = json_value(value);
            out.append(piece.as_str());
            out.append("}");
            proof {
                assert(out@ =~= spec_json_op(op@));
            }
            out
        }
        AttrOp::Regex { pattern } => {
            let mut out = String::from_str("{\"op\":\"regex\",\"pattern\":");
            let piece = json_str(pattern.as_str());
            out.append(piece.as_str());
            out.append("}");
            proof {
                assert(out@ =~= spec_json_op(op@));
            }
            out
        }
        AttrOp::In { values } => {
            let ghost vv = vals_view_from(*values, 0);
            proof {
                crate::value::lemma_vals_view_from(*values, 0);
            }
            let mut out = String::from_str("{\"op\":\"in\",\"values\":[");
            let mut i: usize = 0;
            while i < values.len()
                invariant
                    i <= values.len(),
                    out@ == "{\"op\":\"in\",\"values\":["@ + spec_json_vals(vv, i as int),
                decreases values.len() - i,
            {
                if i > 0 {
                    out.append(",");
                }
                let piece = json_value(&values[i]);
                out.append(piece.as_str());
                proof {
                    assert(out@ =~= "{\"op\":\"in\",\"values\":["@ + spec_json_vals(vv, i + 1));
                }
                i = i + 1;
            }
            out.append("]}");
            proof {
                assert(out@ =~= spec_json_op(op@));
            }
            out
        }
    }
}

pub open spec fn spec_json_constraint_entry(c: (Seq<char>, Seq<SpecAttrOp>)) -> Seq<char>
    decreases c, 2int, 0int,
{
    spec_json_str(c.0) + ":["@ + spec_json_ops(c.1, c.1.len() as int) + "]"@
}

/// The comma-joined `"key":[ops]` pairs of the constraint table `cs[..i]`.
pub open spec fn spec_json_constraint_entries(cs: Seq<(Seq<char>, Seq<SpecAttrOp>)>, i: int) -> Seq<char>
    decreases cs, 0int, i,
{
    if i <= 0 || i > cs.len() {
        Seq::empty()
    } else if i == 1 {
        spec_json_constraint_entry(cs[0])
    } else {
        spec_json_constraint_entries(cs, i - 1) + ","@ + spec_json_constraint_entry(cs[i - 1])
    }
}

/// The canonical JSON of a constraint table.
pub open spec fn spec_json_constraints(cs: Seq<(Seq<char>, Seq<SpecAttrOp>)>) -> Seq<char> {
    "{"@ + spec_json_constraint_entries(cs, cs.len() as int) + "}"@
}

/// Renders the canonical JSON of a constraint table.
#[verifier::loop_isolation(false)]
pub fn json_constraints(cs: &Vec<(String, Vec<AttrOp>)>) -> (r: String)
    ensures
        r@ == spec_json_constraints(constraints_view(*cs)),
{
    let ghost cv = constraints_view(*cs);
    let mut out = String::from_str("{");
    let mut i: usize = 0;
    while i < cs.len()
        invariant
            i <= cs.len(),
            out@ == "{"@ + spec_json_constraint_entries(cv, i as int),
        decreases cs.len() - i,
    {
        if i > 0 {
            out.append(",");
        }
        let key = json_str(cs[i].0.as_str());
        out.append(key.as_str());
        out.append(":[");
        let ops: &Vec<AttrOp> = &cs[i].1;
        let ghost before = out@;
        let mut k: usize = 0;
        while k < ops.len()
            invariant
                k <= ops.len(),
                out@ == before + spec_json_ops(ops_view(*ops), k as int),
            decreases ops.len() - k,
        {
            if k > 0 {
                out.append(",");
            }
            let piece = json_op(&ops[k]);
            out.append(piece.as_str());
            proof {
                assert(out@ =~= before + spec_json_ops(ops_view(*ops), k + 1));
            }
            k = k + 1;
        }
        out.append("]");
        proof {
            assert(out@ =~= "{"@ + spec_json_constraint_entries(cv, i + 1));
        }
        i = i + 1;
    }
    out.append("}");
    proof {
        assert(out@ =~= spec_json_constraints(cv));
    }
    out
}

/// The canonical JSON of an optional type name.
pub open spec fn spec_json_opt_str(s: Option<Seq<char>>) -> Seq<char> {
    match s {
        Some(t) => spec_json_str(t),
        None => "null"@,
    }
}

fn json_opt_str(s: &Option<String>) -> (r: String)
    ensures
        r@ == spec_json_opt_str(crate::rule::opt_str_view(*s)),
{
    match s {
        Some(t) => json_str(t.as_str()),
        None => String::from_str("null"),
    }
}

/// The canonical JSON of a node pattern.
pub open spec fn spec_json_node_pattern(p: SpecNodePattern) -> Seq<char> {
    "{\"var\":"@ + spec_json_str(p.var) + ",\"node_type\":"@ + spec_json_opt_str(p.node_type)
        + ",\"attr_constraints\":"@ + spec_json_constraints(p.attr_constraints) + "}"@
}

/// Renders the canonical JSON of a node pattern.
pub fn json_node_pattern(p: &NodePattern) -> (r: String)
    ensures
        r@ == spec_json_node_pattern(p@),
{
    let mut out = String::from_str("{\"var\":");
    let var = json_str(p.var.as_str());
    out.append(var.as_str());
    out.append(",\"node_type\":");
    let nt = json_opt_str(&p.node_type);
    out.append(nt.as_str());
    out.append(",\"attr_constraints\":");
    let cs = json_constraints(&p.attr_constraints);
    out.append(cs.as_str());
    out.append("}");
    proof {
        assert(out@ =~= spec_json_node_pattern(p@));
    }
    out
}

/// The canonical JSON of an edge pattern.
pub open spec fn spec_json_edge_pattern(p: SpecEdgePattern) -> Seq<char> {
    "{\"var\":"@ + spec_json_str(p.var) + ",\"edge_type\":"@ + spec_json_opt_str(p.edge_type)
        + ",\"src_var\":"@ + spec_json_str(p.src_var) + ",\"dst_var\":"@ + spec_json_str(p.dst_var)
        + ",\"attr_constraints\":"@ + spec_json_constraints(p.attr_constraints) + "}"@
}

/// Renders the canonical JSON of an edge pattern.
pub fn json_edge_pattern(p: &EdgePattern) -> (r: String)
    ensures
        r@ == spec_json_edge_pattern(p@),
{
    let mut out = String::from_str("{\"var\":");
    let var = json_str(p.var.as_str());
    out.append(var.as_str());
    out.append(",\"edge_type\":");
    let et = json_opt_str(&p.edge_type);
    out.append(et.as_str());
    out.append(",\"src_var\":");
    let sv = json_str(p.src_var.as_str());
    out.append(sv.as_str());
    out.append(",\"dst_var\":");
    let dv = json_str(p.dst_var.as_str());
    out.append(dv.as_str());
    out.append(",\"attr_constraints\":");
    let cs = json_constraints(&p.attr_constraints);
    out.append(cs.as_str());
    out.append("}");
    proof {
        assert(out@ =~= spec_json_edge_pattern(p@));
    }
    out
}

/// The comma-joined JSON string literals of `ss[..i]`.
pub open spec fn spec_json_strs(ss: Seq<Seq<char>>, i: int) -> Seq<char>
    decreases i,
{
    if i <= 0 || i > ss.len() {
        Seq::empty()
    } else if i == 1 {
        spec_json_str(ss[0])
    } else {
        spec_json_strs(ss, i - 1) + ","@ + spec_json_str(ss[i - 1])
    }
}

#[verifier::loop_isolation(false)]
fn json_strs(ss: &Vec<String>) -> (r: String)
    ensures
        r@ == spec_json_strs(strs_view(*ss), strs_view(*ss).len() as int),
{
    let mut out = String::new();
    let mut i: usize = 0;
    while i < ss.len()
        invariant
            i <= ss.len(),
            out@ == spec_json_strs(strs_view(*ss), i as int),
        decreases ss.len() - i,
    {
        if i > 0 {
            out.append(",");
        }
        let piece = json_str(ss[i].as_str());
        out.append(piece.as_str());
        proof {
            assert(out@ =~= spec_json_strs(strs_view(*ss), i + 1));
        }
        i = i + 1;
    }
    proof {
        assert(out@ =~= spec_json_strs(strs_view(*ss), strs_view(*ss).len() as int));
    }
    out
}

/// The canonical JSON of a structural constraint.
pub open spec fn spec_json_struct_constraint(c: SpecStructuralConstraint) -> Seq<char> {
    match c {
        SpecStructuralConstraint::DistinctNodes(vars) => "{\"kind\":\"distinct_nodes\",\"vars\":["@
            + spec_json_strs(vars, vars.len() as int) + "]}"@,
        SpecStructuralConstraint::DistinctEdges(vars) => "{\"kind\":\"distinct_edges\",\"vars\":["@
            + spec_json_strs(vars, vars.len() as int) + "]}"@,
    }
}

/// Renders the canonical JSON of a structural constraint.
pub fn json_struct_constraint(c: &StructuralConstraint) -> (r: String)
    ensures
        r@ == spec_json_struct_constraint(c@),
{
    match c {
        StructuralConstraint::DistinctNodes { vars } => {
            let mut out = String::from_str("{\"kind\":\"distinct_nodes\",\"vars\":[");
            let vs = json_strs(vars);
            out.append(vs.as_str());
            out.append("]}");
            proof {
                assert(out@ =~= spec_json_struct_constraint(c@));
            }
            out
        }
        StructuralConstraint::DistinctEdges { vars } => {
            let mut out = String::from_str("{\"kind\":\"distinct_edges\",\"vars\":[");
            let vs = json_strs(vars);
            out.append(vs.as_str());
            out.append("]}");
            proof {
                assert(out@ =~= spec_json_struct_constraint(c@));
            }
            out
        }
    }
}

/// The comma-joined canonical JSON of the node patterns `ps[..i]`.
pub open spec fn spec_json_node_patterns(ps: Seq<SpecNodePattern>, i: int) -> Seq<char>
    decreases i,
{
    if i <= 0 || i > ps.len() {
        Seq::empty()
    } else if i == 1 {
        spec_json_node_pattern(ps[0])
    } else {
        spec_json_node_patterns(ps, i - 1) + ","@ + spec_json_node_pattern(ps[i - 1])
    }
}

/// The comma-joined canonical JSON of the edge patterns `ps[..i]`.
pub open spec fn spec_json_edge_patterns(ps: Seq<SpecEdgePattern>, i: int) -> Seq<char>
    decreases i,
{
    if i <= 0 || i > ps.len() {
        Seq::empty()
    } else if i == 1 {
        spec_json_edge_pattern(ps[0])
    } else {
        spec_json_edge_patterns(ps, i - 1) + ","@ + spec_json_edge_pattern(ps[i - 1])
    }
}

/// The comma-joined canonical JSON of the structural constraints `cs[..i]`.
pub open spec fn spec_json_struct_constraints(cs: Seq<SpecStructuralConstraint>, i: int) -> Seq<char>
    decreases i,
{
    if i <= 0 || i > cs.len() {
        Seq::empty()
    } else if i == 1 {
        spec_json_struct_constraint(cs[0])
    } else {
        spec_json_struct_constraints(cs, i - 1) + ","@ + spec_json_struct_constraint(cs[i - 1])
    }
}

/// The canonical JSON of a graph pattern.
pub open spec fn spec_json_pattern(p: SpecPattern) -> Seq<char> {
    "{\"nodes\":["@ + spec_json_node_patterns(p.nodes, p.nodes.len() as int) + "],\"edges\":["@
        + spec_json_edge_patterns(p.edges, p.edges.len() as int) + "],\"constraints\":["@
        + spec_json_struct_constraints(p.constraints, p.constraints.len() as int) + "]}"@
}

#[verifier::loop_isolation(false)]
fn json_node_patterns(ps: &Vec<NodePattern>) -> (r: String)
    ensures
        r@ == spec_json_node_patterns(crate::rule::node_patterns_view(*ps), ps@.len() as int),
{
    let ghost pv = crate::rule::node_patterns_view(*ps);
    let mut out = String::new();
    let mut i: usize = 0;
    while i < ps.len()
        invariant
            i <= ps.len(),
            out@ == spec_json_node_patterns(pv, i as int),
        decreases ps.len() - i,
    {
        if i > 0 {
            out.append(",");
        }
        let piece = json_node_pattern(&ps[i]);
        out.append(piece.as_str());
        proof {
            assert(out@ =~= spec_json_node_patterns(pv, i + 1));
        }
        i = i + 1;
    }
    out
}

#[verifier::loop_isolation(false)]
fn json_edge_patterns(ps: &Vec<EdgePattern>) -> (r: String)
    ensures
        r@ == spec_json_edge_patterns(crate::rule::edge_patterns_view(*ps), ps@.len() as int),
{
    let ghost pv = crate::rule::edge_patterns_view(*ps);
    let mut out = String::new();
    let mut i: usize = 0;
    while i < ps.len()
        invariant
            i <= ps.len(),
            out@ == spec_json_edge_patterns(pv, i as int),
        decreases ps.len() - i,
    {
        if i > 0 {
            out.append(",");
        }
        let piece = json_edge_pattern(&ps[i]);
        out.append(piece.as_str());
        proof {
            assert(out@ =~= spec_json_edge_patterns(pv, i + 1));
        }
        i = i + 1;
    }
    out
}

#[verifier::loop_isolation(false)]
fn json_struct_constraints(cs: &Vec<StructuralConstraint>) -> (r: String)
    ensures
        r@ == spec_json_struct_constraints(crate::rule::struct_constraints_view(*cs), cs@.len() as int),
{
    let ghost cv = crate::rule::struct_constraints_view(*cs);
    let mut out = String::new();
    let mut i: usize = 0;
    while i < cs.len()
        invariant
            i <= cs.len(),
            out@ == spec_json_struct_constraints(cv, i as int),
        decreases cs.len() - i,
    {
        if i > 0 {
            out.append(",");
        }
        let piece = json_struct_constraint(&cs[i]);
        out.append(piece.as_str());
        proof {
            assert(out@ =~= spec_json_struct_constraints(cv, i + 1));
        }
        i = i + 1;
    }
    out
}

/// Renders the canonical JSON of a graph pattern.
pub fn json_pattern(p: &GraphPattern) -> (r: String)
    ensures
        r@ == spec_json_pattern(p@),
{
    let mut out = String::from_str("{\"nodes\":[");
    let nodes = json_node_patterns(&p.nodes);
    out.append(nodes.as_str());
    out.append("],\"edges\":[");
    let edges = json_edge_patterns(&p.edges);
    out.append(edges.as_str());
    out.append("],\"constraints\":[");
    let constraints = json_struct_constraints(&p.constraints);
    out.append(constraints.as_str());
    out.append("]}");
    proof {
        assert(out@ =~= spec_json_pattern(p@));
    }
    out
}

/// The canonical JSON of rule metadata.
pub open spec fn spec_json_rule_metadata(m: SpecRuleMetadata) -> Seq<char> {
    "{\"id\":"@ + spec_json_str(m.id) + ",\"version\":"@ + spec_json_str(m.version) + ",\"description\":"@
        + spec_json_str(m.description) + ",\"tags\":["@ + spec_json_strs(m.tags, m.tags.len() as int)
        + "],\"author\":"@ + spec_json_str(m.author) + ",\"created_at\":\""@ + spec_timestamp_text(
        m.created_at,
    ) + "\"}"@
}

/// Renders the canonical JSON of rule metadata.
pub fn json_rule_metadata(m: &RuleMetadata) -> (r: String)
    ensures
        r@ == spec_json_rule_metadata(m@),
{
    let mut out = String::from_str("{\"id\":");
    let id = json_str(m.id.as_str());
    out.append(id.as_str());
    out.append(",\"version\":");
    let ver = json_str(m.version.as_str());
    out.append(ver.as_str());
    out.append(",\"description\":");
    let desc = json_str(m.description.as_str());
    out.append(desc.as_str());
    out.append(",\"tags\":[");
    let tags = json_strs(&m.tags);
    out.append(tags.as_str());
    out.append("],\"author\":");
    let author = json_str(m.author.as_str());
    out.append(author.as_str());
    out.append(",\"created_at\":\"");
    let ts = timestamp_text(&m.created_at);
    out.append(ts.as_str());
    out.append("\"}");
    proof {
        assert(out@ =~= spec_json_rule_metadata(m@));
    }
    out
}

/// The canonical JSON of a whole rule: the input of the rule hash.
pub open spec fn spec_json_rule(r: SpecRule) -> Seq<char> {
    "{\"metadata\":"@ + spec_json_rule_metadata(r.metadata) + ",\"left\":"@ + spec_json_pattern(r.left)
        + ",\"interface\":"@ + spec_json_pattern(r.interface) + ",\"right\":"@ + spec_json_graph(r.right)
        + "}"@
}

/// Renders the canonical JSON of a whole rule.
pub fn json_rule(r: &DpoRule) -> (out: String)
    ensures
        out@ == spec_json_rule(r@),
{
    let mut out = String::from_str("{\"metadata\":");
    let meta = json_rule_metadata(&r.metadata);
    out.append(meta.as_str());
    out.append(",\"left\":");
    let left = json_pattern(&r.left);
    out.append(left.as_str());
    out.append(",\"interface\":");
    let interface = json_pattern(&r.interface);
    out.append(interface.as_str());
    out.append(",\"right\":");
    let right = json_graph(&r.right);
    out.append(right.as_str());
    out.append("}");
    proof {
        assert(out@ =~= spec_json_rule(r@));
    }
    out
}

} // verus!
