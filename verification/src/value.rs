//! The immutable attribute value type and the sorted attribute map.
//!
//! A `Value` is a tagged union over strings, signed integers, booleans,
//! null, ordered lists and string-keyed mappings.  Equality is structural,
//! and mappings keep their keys in strictly ascending lexicographic order,
//! so equal values are rendered identically by the canonical serializer.

use vstd::prelude::*;
use crate::text::{lex_lt, str_eq, str_lt, lemma_lex_order};

verus! {

broadcast use vstd::std_specs::vec::axiom_vec_index_decreases;

/// The mathematical model of a `Value`.
#[verifier::ext_equal]
pub enum SpecValue {
    Str(Seq<char>),
    Int(i64),
    Bool(bool),
    Null,
    List(Seq<SpecValue>),
    Obj(Seq<(Seq<char>, SpecValue)>),
}

/// An attribute value: a tagged union with structural equality.
#[derive(Debug, PartialEq)]
pub enum Value {
    Str(String),
    Int(i64),
    Bool(bool),
    Null,
    List(Vec<Value>),
    Obj(AttrMap),
}

#[derive(Debug, PartialEq)]
struct AttrEntry {
    key: String,
    val: Value,
}

/// A mapping from strings to values whose entries are kept in strictly
/// ascending key order, so that iteration and serialization are canonical.
#[derive(Debug, PartialEq)]
pub struct AttrMap {
    entries: Vec<AttrEntry>,
}

/// The model of a single `Value`.
pub open spec fn val_view(v: Value) -> SpecValue
    decreases v, 1int, 0int,
{
    match v {
        Value::Str(s) => SpecValue::Str(s@),
        Value::Int(n) => SpecValue::Int(n),
        Value::Bool(b) => SpecValue::Bool(b),
        Value::Null => SpecValue::Null,
        Value::List(vs) => SpecValue::List(vals_view_from(vs, 0)),
        Value::Obj(m) => SpecValue::Obj(m.view()),
    }
}

/// The models of the values `vs[i..]`, in order.
pub open spec fn vals_view_from(vs: Vec<Value>, i: int) -> Seq<SpecValue>
    decreases vs, 0int, vs.len() - i,
{
    if i < 0 || i >= vs.len() {
        Seq::empty()
    } else {
        seq![val_view(vs[i])] + vals_view_from(vs, i + 1)
    }
}

spec fn entry_view(e: AttrEntry) -> (Seq<char>, SpecValue)
    decreases e, 2int, 0int,
{
    (e.key@, val_view(e.val))
}

spec fn entries_view_from(es: Vec<AttrEntry>, i: int) -> Seq<(Seq<char>, SpecValue)>
    decreases es, 0int, es.len() - i,
{
    if i < 0 || i >= es.len() {
        Seq::empty()
    } else {
        seq![entry_view(es[i])] + entries_view_from(es, i + 1)
    }
}

impl View for Value {
    type V = SpecValue;

    open spec fn view(&self) -> SpecValue {
        val_view(*self)
    }
}

impl View for AttrMap {
    type V = Seq<(Seq<char>, SpecValue)>;

    closed spec fn view(&self) -> Seq<(Seq<char>, SpecValue)>
        decreases self, 1int, 0int,
    {
        entries_view_from(self.entries, 0)
    }
}

/// Pointwise reading of `vals_view_from`.
pub proof fn lemma_vals_view_from(vs: Vec<Value>, i: int)
    requires
        0 <= i <= vs.len(),
    ensures
        vals_view_from(vs, i).len() == vs.len() - i,
        forall|j: int| 0 <= j < vs.len() - i ==> vals_view_from(vs, i)[j] == val_view(vs[i + j]),
    decreases vs.len() - i,
{
    if i < vs.len() {
        lemma_vals_view_from(vs, i + 1);
    }
}

proof fn lemma_entries_view_from(es: Vec<AttrEntry>, i: int)
    requires
        0 <= i <= es.len(),
    ensures
        entries_view_from(es, i).len() == es.len() - i,
        forall|j: int| 0 <= j < es.len() - i ==> entries_view_from(es, i)[j] == entry_view(es[i + j]),
    decreases es.len() - i,
{
    if i < es.len() {
        lemma_entries_view_from(es, i + 1);
    }
}

/// Keys strictly ascend: the well-formedness invariant of an `AttrMap`.
pub open spec fn attrs_sorted(s: Seq<(Seq<char>, SpecValue)>) -> bool {
    forall|i: int, j: int| 0 <= i < j < s.len() ==> lex_lt(#[trigger] s[i].0, #[trigger] s[j].0)
}

/// Looks a key up in an entry sequence, scanning from position `i`.
pub open spec fn attrs_get_from(s: Seq<(Seq<char>, SpecValue)>, k: Seq<char>, i: int) -> Option<SpecValue>
    decreases s.len() - i,
{
    if i >= s.len() {
        None
    } else if s[i].0 == k {
        Some(s[i].1)
    } else {
        attrs_get_from(s, k, i + 1)
    }
}

/// Looks a key up in an entry sequence.
pub open spec fn attrs_get(s: Seq<(Seq<char>, SpecValue)>, k: Seq<char>) -> Option<SpecValue> {
    attrs_get_from(s, k, 0)
}

/// The position at which `k` belongs in the sorted entry sequence: the
/// first index whose key is not below `k`.
pub open spec fn attrs_pos_from(s: Seq<(Seq<char>, SpecValue)>, k: Seq<char>, i: int) -> int
    decreases s.len() - i,
{
    if i >= s.len() {
        i
    } else if lex_lt(s[i].0, k) {
        attrs_pos_from(s, k, i + 1)
    } else {
        i
    }
}

/// Inserting or replacing a binding in a sorted entry sequence.
pub open spec fn attrs_insert(s: Seq<(Seq<char>, SpecValue)>, k: Seq<char>, v: SpecValue)
    -> Seq<(Seq<char>, SpecValue)> {
    let p = attrs_pos_from(s, k, 0);
    if p < s.len() && s[p].0 == k {
        s.update(p, (k, v))
    } else {
        s.insert(p, (k, v))
    }
}

proof fn lemma_attrs_pos_from(s: Seq<(Seq<char>, SpecValue)>, k: Seq<char>, i: int)
    requires
        0 <= i <= s.len(),
    ensures
        i <= attrs_pos_from(s, k, i) <= s.len(),
        forall|j: int| i <= j < attrs_pos_from(s, k, i) ==> lex_lt(#[trigger] s[j].0, k),
        attrs_pos_from(s, k, i) < s.len() ==> !lex_lt(s[attrs_pos_from(s, k, i)].0, k),
    decreases s.len() - i,
{
    if i < s.len() && lex_lt(s[i].0, k) {
        lemma_attrs_pos_from(s, k, i + 1);
    }
}

/// Insertion keeps the entries sorted.
proof fn lemma_attrs_insert_sorted(s: Seq<(Seq<char>, SpecValue)>, k: Seq<char>, v: SpecValue)
    requires
        attrs_sorted(s),
    ensures
        attrs_sorted(attrs_insert(s, k, v)),
{
    let p = attrs_pos_from(s, k, 0);
    lemma_attrs_pos_from(s, k, 0);
    let t = attrs_insert(s, k, v);
    if p < s.len() && s[p].0 == k {
        assert forall|i: int, j: int| 0 <= i < j < t.len() implies lex_lt(#[trigger] t[i].0, #[trigger] t[j].0) by {
            assert(s[i].0 == t[i].0 || i == p);
            assert(s[j].0 == t[j].0 || j == p);
        }
    } else {
        if p < s.len() {
            lemma_lex_order(k, s[p].0, s[p].0);
            assert(lex_lt(k, s[p].0));
        }
        assert forall|i: int, j: int| 0 <= i < j < t.len() implies lex_lt(#[trigger] t[i].0, #[trigger] t[j].0) by {
            if i < p && j == p {
                assert(t[i].0 == s[i].0 && lex_lt(s[i].0, k));
            } else if i == p && j > p {
                assert(t[j].0 == s[j - 1].0);
                if j - 1 > p {
                    lemma_lex_order(k, s[p].0, s[j - 1].0);
                }
            } else if i < p && j > p {
                assert(t[i].0 == s[i].0 && t[j].0 == s[j - 1].0);
                if j - 1 > i {
                    assert(lex_lt(s[i].0, s[j - 1].0));
                } else {
                    assert(lex_lt(s[i].0, k));
                    lemma_lex_order(s[i].0, k, s[p].0);
                }
            } else if i > p {
                assert(t[i].0 == s[i - 1].0 && t[j].0 == s[j - 1].0 && lex_lt(s[i - 1].0, s[j - 1].0));
            } else {
                assert(t[i].0 == s[i].0 && t[j].0 == s[j].0 && lex_lt(s[i].0, s[j].0));
            }
        }
    }
}

impl AttrMap {
    /// Entries strictly ascend by key.
    #[verifier::type_invariant]
    spec fn wf(self) -> bool {
        attrs_sorted(self@)
    }

    /// The empty attribute map.
    pub fn new() -> (m: AttrMap)
        ensures
            m@ == Seq::<(Seq<char>, SpecValue)>::empty(),
    {
        let m = AttrMap { entries: Vec::new() };
        assert(m@ =~= Seq::<(Seq<char>, SpecValue)>::empty());
        m
    }

    /// How many bindings the map holds.
    pub fn len(&self) -> (n: usize)
        ensures
            n == self@.len(),
    {
        proof {
            lemma_entries_view_from(self.entries, 0);
        }
        self.entries.len()
    }

    /// The key of the `i`-th binding, in ascending key order.
    pub fn key_at(&self, i: usize) -> (k: &String)
        requires
            i < self@.len(),
        ensures
            k@ == self@[i as int].0,
    {
        proof {
            lemma_entries_view_from(self.entries, 0);
        }
        &self.entries[i].key
    }

    /// The value of the `i`-th binding, in ascending key order.
    pub fn val_at(&self, i: usize) -> (v: &Value)
        requires
            i < self@.len(),
        ensures
            v@ == self@[i as int].1,
            decreases_to!(*self => *v),
    {
        proof {
            lemma_entries_view_from(self.entries, 0);
        }
        &self.entries[i].val
    }

    /// Looks up the value bound to `k`, if any.
    pub fn get(&self, k: &str) -> (r: Option<&Value>)
        ensures
            match r {
                Some(v) => attrs_get(self@, k@) == Some(v@),
                None => attrs_get(self@, k@) is None,
            },
    {
        self.get_at(k, 0)
    }

    fn get_at(&self, k: &str, i: usize) -> (r: Option<&Value>)
        requires
            i <= self@.len(),
        ensures
            match r {
                Some(v) => attrs_get_from(self@, k@, i as int) == Some(v@),
                None => attrs_get_from(self@, k@, i as int) is None,
            },
        decreases self@.len() - i,
    {
        proof {
            lemma_entries_view_from(self.entries, 0);
        }
        if i >= self.entries.len() {
            None
        } else if str_eq(self.entries[i].key.as_str(), k) {
            Some(&self.entries[i].val)
        } else {
            self.get_at(k, i + 1)
        }
    }

    /// Binds `k` to `v`, replacing any existing binding, and keeps the
    /// entries in ascending key order.
    pub fn insert(&mut self, k: String, v: Value)
        ensures
            final(self)@ == attrs_insert(old(self)@, k@, v@),
    {
        proof {
            use_type_invariant(&*self);
        }
        let ghost s = self@;
        let mut es: Vec<AttrEntry> = Vec::new();
        core::mem::swap(&mut self.entries, &mut es);
        assert(self@ =~= Seq::<(Seq<char>, SpecValue)>::empty());
        proof {
            lemma_entries_view_from(es, 0);
        }
        let mut p: usize = 0;
        while p < es.len() && str_lt(es[p].key.as_str(), k.as_str())
            invariant
                p <= es.len(),
                entries_view_from(es, 0) == s,
                s.len() == es.len(),
                forall|j: int| 0 <= j < s.len() ==> s[j] == entry_view(es[j]),
                attrs_sorted(s),
                forall|j: int| 0 <= j < p ==> lex_lt(#[trigger] s[j].0, k@),
                attrs_pos_from(s, k@, p as int) == attrs_pos_from(s, k@, 0),
            decreases es.len() - p,
        {
            assert(lex_lt(s[p as int].0, k@));
            p = p + 1;
        }
        proof {
            lemma_attrs_pos_from(s, k@, p as int);
            assert(attrs_pos_from(s, k@, 0) == p as int);
        }
        if p < es.len() && str_eq(es[p].key.as_str(), k.as_str()) {
            es[p] = AttrEntry { key: k, val: v };
            proof {
                lemma_entries_view_from(es, 0);
                assert(entries_view_from(es, 0) =~= attrs_insert(s, k@, v@));
            }
        } else {
            es.insert(p, AttrEntry { key: k, val: v });
            proof {
                lemma_entries_view_from(es, 0);
                assert(entries_view_from(es, 0) =~= attrs_insert(s, k@, v@));
            }
        }
        proof {
            lemma_attrs_insert_sorted(s, k@, v@);
        }
        core::mem::swap(&mut self.entries, &mut es);
    }
}

impl Clone for Value {
    /// A deep copy with the same model.
    #[verifier::loop_isolation(false)]
    fn clone(&self) -> (r: Self)
        ensures
            r@ == self@,
        decreases self,
    {
        match self {
            Value::Str(s) => Value::Str(s.clone()),
            Value::Int(n) => Value::Int(*n),
            Value::Bool(b) => Value::Bool(*b),
            Value::Null => Value::Null,
            Value::List(vs) => {
                let mut out: Vec<Value> = Vec::new();
                let mut i: usize = 0;
                while i < vs.len()
                    invariant
                        i <= vs.len(),
                        out@.len() == i,
                        forall|j: int| 0 <= j < i ==> val_view(out@[j]) == val_view(vs@[j]),
                    decreases vs.len() - i,
                {
                    proof {
                        assert(decreases_to!(*self => vs[i as int]));
                    }
                    out.push(vs[i].clone());
                    i = i + 1;
                }
                proof {
                    lemma_vals_view_from(*vs, 0);
                    lemma_vals_view_from(out, 0);
                    assert(vals_view_from(out, 0) =~= vals_view_from(*vs, 0));
                }
                Value::List(out)
            }
            Value::Obj(m) => Value::Obj(m.clone()),
        }
    }
}

impl Clone for AttrMap {
    /// A deep copy with the same model.
    #[verifier::loop_isolation(false)]
    fn clone(&self) -> (r: Self)
        ensures
            r@ == self@,
        decreases self,
    {
        proof {
            use_type_invariant(&*self);
            lemma_entries_view_from(self.entries, 0);
        }
        let mut out: Vec<AttrEntry> = Vec::new();
        let mut i: usize = 0;
        while i < self.entries.len()
            invariant
                i <= self.entries.len(),
                out@.len() == i,
                forall|j: int| 0 <= j < i ==> entry_view(out@[j]) == entry_view(self.entries@[j]),
            decreases self.entries.len() - i,
        {
            proof {
                assert(decreases_to!(*self => self.entries[i as int].val));
            }
            out.push(AttrEntry { key: self.entries[i].key.clone(), val: self.entries[i].val.clone() });
            i = i + 1;
        }
        proof {
            lemma_entries_view_from(out, 0);
            assert(entries_view_from(out, 0) =~= self@);
        }
        AttrMap { entries: out }
    }
}

/// A deep copy of a value vector with the same model.
pub fn clone_values(v: &Vec<Value>) -> (r: Vec<Value>)
    ensures
        vals_view_from(r, 0) == vals_view_from(*v, 0),
{
    let mut out: Vec<Value> = Vec::new();
    let mut i: usize = 0;
    while i < v.len()
        invariant
            i <= v.len(),
            out@.len() == i,
            forall|j: int| 0 <= j < i ==> val_view(out@[j]) == val_view(v@[j]),
        decreases v.len() - i,
    {
        out.push(v[i].clone());
        i = i + 1;
    }
    proof {
        lemma_vals_view_from(*v, 0);
        lemma_vals_view_from(out, 0);
        assert(vals_view_from(out, 0) =~= vals_view_from(*v, 0));
    }
    out
}

/// Structural equality of two values, exactly the equality of their models.
#[verifier::loop_isolation(false)]
pub fn value_eq(a: &Value, b: &Value) -> (r: bool)
    ensures
        r == (a@ == b@),
    decreases a,
{
    match (a, b) {
        (Value::Str(x), Value::Str(y)) => str_eq(x.as_str(), y.as_str()),
        (Value::Int(x), Value::Int(y)) => *x == *y,
        (Value::Bool(x), Value::Bool(y)) => *x == *y,
        (Value::Null, Value::Null) => true,
        (Value::List(xs), Value::List(ys)) => {
            proof {
                lemma_vals_view_from(*xs, 0);
                lemma_vals_view_from(*ys, 0);
            }
            if xs.len() != ys.len() {
                return false;
            }
            let mut i: usize = 0;
            while i < xs.len()
                invariant
                    i <= xs.len(),
                    xs.len() == ys.len(),
                    forall|j: int| 0 <= j < i ==> val_view(xs@[j]) == val_view(ys@[j]),
                decreases xs.len() - i,
            {
                proof {
                    assert(decreases_to!(*a => xs[i as int]));
                }
                if !value_eq(&xs[i], &ys[i]) {
                    proof {
                        lemma_vals_view_from(*xs, 0);
                        lemma_vals_view_from(*ys, 0);
                        assert(vals_view_from(*xs, 0)[i as int] != vals_view_from(*ys, 0)[i as int]);
                    }
                    return false;
                }
                i = i + 1;
            }
            proof {
                lemma_vals_view_from(*xs, 0);
                lemma_vals_view_from(*ys, 0);
                assert(vals_view_from(*xs, 0) =~= vals_view_from(*ys, 0));
            }
            true
        }
        (Value::Obj(x), Value::Obj(y)) => {
            proof {
                lemma_entries_view_from(x.entries, 0);
                lemma_entries_view_from(y.entries, 0);
            }
            if x.entries.len() != y.entries.len() {
                return false;
            }
            let mut i: usize = 0;
            while i < x.entries.len()
                invariant
                    i <= x.entries.len(),
                    x.entries.len() == y.entries.len(),
                    forall|j: int| 0 <= j < i ==> entry_view(x.entries@[j]) == entry_view(y.entries@[j]),
                decreases x.entries.len() - i,
            {
                if !str_eq(x.entries[i].key.as_str(), y.entries[i].key.as_str()) {
                    proof {
                        lemma_entries_view_from(x.entries, 0);
                        lemma_entries_view_from(y.entries, 0);
                        assert(x@[i as int] != y@[i as int]);
                    }
                    return false;
                }
                proof {
                    assert(decreases_to!(*a => x.entries[i as int].val));
                }
                if !value_eq(&x.entries[i].val, &y.entries[i].val) {
                    proof {
                        lemma_entries_view_from(x.entries, 0);
                        lemma_entries_view_from(y.entries, 0);
                        assert(x@[i as int] != y@[i as int]);
                    }
                    return false;
                }
                i = i + 1;
            }
            proof {
                lemma_entries_view_from(x.entries, 0);
                lemma_entries_view_from(y.entries, 0);
                assert(x@ =~= y@);
            }
            true
        }
        _ => false,
    }
}

} // verus!
