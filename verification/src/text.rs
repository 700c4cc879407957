//! Small string utilities shared by the whole crate: character-exact string
//! equality and lexicographic order, decimal rendering of counters, and a
//! trusted single-character append.

use vstd::prelude::*;

verus! {

/// Relies on std's `String::push`: appends exactly the given character.
#[verifier::external_body]
pub fn push_char(s: &mut String, c: char)
    ensures
        final(s)@ == old(s)@ + seq![c],
{
    s.push(c);
}

/// Character-exact equality of two string slices.
pub fn str_eq(a: &str, b: &str) -> (r: bool)
    ensures
        r == (a@ == b@),
{
    let sa: String = a.to_owned();
    let sb: String = b.to_owned();
    sa == sb
}

/// Strict lexicographic order on character sequences, comparing from
/// position `i` on (positions before `i` are assumed equal).
pub open spec fn lex_lt_from(a: Seq<char>, b: Seq<char>, i: int) -> bool
    decreases a.len() - i,
{
    if i >= b.len() {
        false
    } else if i >= a.len() {
        true
    } else if (a[i] as u32) < (b[i] as u32) {
        true
    } else if a[i] == b[i] {
        lex_lt_from(a, b, i + 1)
    } else {
        false
    }
}

/// Strict lexicographic order on character sequences.
pub open spec fn lex_lt(a: Seq<char>, b: Seq<char>) -> bool {
    lex_lt_from(a, b, 0)
}

fn str_lt_from(a: &str, b: &str, i: usize) -> (r: bool)
    requires
        i <= a@.len(),
        i <= b@.len(),
    ensures
        r == lex_lt_from(a@, b@, i as int),
    decreases a@.len() - i,
{
    let alen = a.unicode_len();
    let blen = b.unicode_len();
    if i >= blen {
        false
    } else if i >= alen {
        true
    } else {
        let ca = a.get_char(i);
        let cb = b.get_char(i);
        if (ca as u32) < (cb as u32) {
            true
        } else if ca == cb {
            str_lt_from(a, b, i + 1)
        } else {
            false
        }
    }
}

/// Character-exact strict lexicographic comparison of two string slices.
pub fn str_lt(a: &str, b: &str) -> (r: bool)
    ensures
        r == lex_lt(a@, b@),
{
    str_lt_from(a, b, 0)
}

/// The models of a string sequence, in order.
pub open spec fn strs_view(v: Vec<String>) -> Seq<Seq<char>> {
    Seq::new(v@.len(), |i: int| v@[i]@)
}

/// A deep copy of a string vector with the same model.
pub fn clone_strings(v: &Vec<String>) -> (r: Vec<String>)
    ensures
        strs_view(*v) == strs_view(r),
{
    let mut out: Vec<String> = Vec::new();
    let mut i: usize = 0;
    while i < v.len()
        invariant
            i <= v.len(),
            out@.len() == i,
            forall|j: int| 0 <= j < i ==> out@[j]@ == #[trigger] v@[j]@,
        decreases v.len() - i,
    {
        out.push(v[i].clone());
        i = i + 1;
    }
    proof {
        assert(strs_view(*v) =~= strs_view(out));
    }
    out
}

/// Lexicographic order is irreflexive.
pub proof fn lemma_lex_irrefl_from(a: Seq<char>, i: int)
    ensures
        !lex_lt_from(a, a, i),
    decreases a.len() - i,
{
    if i < a.len() {
        lemma_lex_irrefl_from(a, i + 1);
    }
}

/// Lexicographic order is transitive.
pub proof fn lemma_lex_trans_from(a: Seq<char>, b: Seq<char>, c: Seq<char>, i: int)
    requires
        lex_lt_from(a, b, i),
        lex_lt_from(b, c, i),
    ensures
        lex_lt_from(a, c, i),
    decreases a.len() - i,
{
    if i < a.len() && i < b.len() && i < c.len() {
        if a[i] == b[i] && b[i] == c[i] {
            lemma_lex_trans_from(a, b, c, i + 1);
        }
    }
}

/// Two sequences neither of which precedes the other are equal from `i` on.
pub proof fn lemma_lex_connected_from(a: Seq<char>, b: Seq<char>, i: int)
    requires
        i <= a.len(),
        i <= b.len(),
        !lex_lt_from(a, b, i),
        !lex_lt_from(b, a, i),
    ensures
        a.len() == b.len(),
        forall|k: int| i <= k < a.len() ==> a[k] == b[k],
    decreases a.len() - i,
{
    if i < a.len() && i < b.len() {
        assert(a[i] == b[i]) by {
            assert(!((a[i] as u32) < (b[i] as u32)));
            assert(!((b[i] as u32) < (a[i] as u32)));
            vstd::utf8::char_u32_cast(a[i], a[i] as u32);
            vstd::utf8::char_u32_cast(b[i], b[i] as u32);
        }
        lemma_lex_connected_from(a, b, i + 1);
    }
}

/// Strict lexicographic order is irreflexive, transitive, and total.
pub proof fn lemma_lex_order(a: Seq<char>, b: Seq<char>, c: Seq<char>)
    ensures
        !lex_lt(a, a),
        lex_lt(a, b) && lex_lt(b, c) ==> lex_lt(a, c),
        !lex_lt(a, b) && !lex_lt(b, a) ==> a == b,
{
    lemma_lex_irrefl_from(a, 0);
    if lex_lt(a, b) && lex_lt(b, c) {
        lemma_lex_trans_from(a, b, c, 0);
    }
    if !lex_lt(a, b) && !lex_lt(b, a) {
        lemma_lex_connected_from(a, b, 0);
        assert(a =~= b);
    }
}

/// The decimal digit character for `d` (which must be below ten).
pub open spec fn dec_digit(d: nat) -> char {
    if d == 0 {
        '0'
    } else if d == 1 {
        '1'
    } else if d == 2 {
        '2'
    } else if d == 3 {
        '3'
    } else if d == 4 {
        '4'
    } else if d == 5 {
        '5'
    } else if d == 6 {
        '6'
    } else if d == 7 {
        '7'
    } else if d == 8 {
        '8'
    } else {
        '9'
    }
}

/// The usual decimal rendering of a natural number, without leading zeros.
pub open spec fn dec_seq(n: nat) -> Seq<char>
    decreases n,
{
    if n < 10 {
        seq![dec_digit(n)]
    } else {
        dec_seq(n / 10) + seq![dec_digit(n % 10)]
    }
}

fn dec_digit_exec(d: u64) -> (c: char)
    requires
        d < 10,
    ensures
        c == dec_digit(d as nat),
{
    if d == 0 {
        '0'
    } else if d == 1 {
        '1'
    } else if d == 2 {
        '2'
    } else if d == 3 {
        '3'
    } else if d == 4 {
        '4'
    } else if d == 5 {
        '5'
    } else if d == 6 {
        '6'
    } else if d == 7 {
        '7'
    } else if d == 8 {
        '8'
    } else {
        '9'
    }
}

/// The decimal digit character for a byte-sized `d` (below ten).
pub fn dec_digit_exec8(d: u8) -> (c: char)
    requires
        d < 10,
    ensures
        c == dec_digit(d as nat),
{
    dec_digit_exec(d as u64)
}

/// Renders `n` in decimal, without leading zeros.
pub fn u64_to_dec(n: u64) -> (s: String)
    ensures
        s@ == dec_seq(n as nat),
    decreases n,
{
    if n < 10 {
        let mut s = String::new();
        push_char(&mut s, dec_digit_exec(n));
        assert(s@ =~= dec_seq(n as nat));
        s
    } else {
        let mut s = u64_to_dec(n / 10);
        push_char(&mut s, dec_digit_exec(n % 10));
        assert(s@ =~= dec_seq(n as nat));
        s
    }
}

/// Whether `s` begins with the prefix `p`.
pub open spec fn has_prefix(s: Seq<char>, p: Seq<char>) -> bool {
    p.len() <= s.len() && s.subrange(0, p.len() as int) == p
}

/// What remains of `s` after the prefix `p`.
pub open spec fn strip_prefix_view(s: Seq<char>, p: Seq<char>) -> Seq<char> {
    s.subrange(p.len() as int, s.len() as int)
}

/// Splits the prefix `p` off `s`, if `s` begins with it.
pub fn strip_prefix(s: &str, p: &str) -> (r: Option<String>)
    ensures
        match r {
            Some(t) => has_prefix(s@, p@) && t@ == strip_prefix_view(s@, p@),
            None => !has_prefix(s@, p@),
        },
{
    let slen = s.unicode_len();
    let plen = p.unicode_len();
    if plen > slen {
        return None;
    }
    let mut i: usize = 0;
    while i < plen
        invariant
            i <= plen,
            plen <= slen,
            plen == p@.len(),
            slen == s@.len(),
            forall|j: int| 0 <= j < i ==> s@[j] == p@[j],
        decreases plen - i,
    {
        if s.get_char(i) != p.get_char(i) {
            proof {
                assert(s@.subrange(0, p@.len() as int)[i as int] != p@[i as int]);
            }
            return None;
        }
        i = i + 1;
    }
    let rest = s.substring_char(plen, slen);
    proof {
        assert(s@.subrange(0, p@.len() as int) =~= p@);
    }
    Some(rest.to_owned())
}

/// The numeric value of a decimal digit character, if it is one.
pub open spec fn spec_digit_val(c: char) -> Option<u64> {
    if 48 <= (c as u32) && (c as u32) <= 57 {
        Some(((c as u32) - 48) as u64)
    } else {
        None
    }
}

/// Parses the decimal digits `s[i..]` onto the accumulator `acc`; `None`
/// on a non-digit or on overflow.
pub open spec fn spec_parse_u64_from(s: Seq<char>, i: int, acc: u64) -> Option<u64>
    decreases s.len() - i,
{
    if i < 0 || i >= s.len() {
        Some(acc)
    } else {
        match spec_digit_val(s[i]) {
            None => None,
            Some(d) => if acc > (u64::MAX - d) / 10 {
                None
            } else {
                spec_parse_u64_from(s, i + 1, (acc * 10 + d) as u64)
            },
        }
    }
}

fn parse_u64_from(s: &str, i: usize, acc: u64) -> (r: Option<u64>)
    requires
        i <= s@.len(),
    ensures
        r == spec_parse_u64_from(s@, i as int, acc),
    decreases s@.len() - i,
{
    if i >= s.unicode_len() {
        Some(acc)
    } else {
        let u: u32 = s.get_char(i) as u32;
        if u < 48 || u > 57 {
            None
        } else {
            let d: u64 = (u - 48) as u64;
            if acc > (u64::MAX - d) / 10 {
                None
            } else {
                proof {
                    assert(acc * 10 + d <= u64::MAX) by (nonlinear_arith)
                        requires
                            acc <= (u64::MAX - d) / 10,
                            d <= 9,
                    ;
                }
                parse_u64_from(s, i + 1, acc * 10 + d)
            }
        }
    }
}

/// The number of a revision string: `rev-N` yields `N`; any string not of
/// that shape (or whose number overflows) counts as zero.
pub open spec fn spec_rev_num(s: Seq<char>) -> u64 {
    if has_prefix(s, "rev-"@) && strip_prefix_view(s, "rev-"@).len() > 0 {
        match spec_parse_u64_from(strip_prefix_view(s, "rev-"@), 0, 0) {
            Some(v) => v,
            None => 0,
        }
    } else {
        0
    }
}

/// Reads the number out of a revision string.
pub fn rev_num(s: &str) -> (r: u64)
    ensures
        r == spec_rev_num(s@),
{
    match strip_prefix(s, "rev-") {
        Some(rest) => {
            if rest.as_str().unicode_len() == 0 {
                0
            } else {
                match parse_u64_from(rest.as_str(), 0, 0) {
                    Some(v) => v,
                    None => 0,
                }
            }
        }
        None => 0,
    }
}

/// The rendered revision string for number `n`.
pub open spec fn spec_rev_string(n: u64) -> Seq<char> {
    "rev-"@ + dec_seq(n as nat)
}

/// Renders the revision string for number `n`.
pub fn rev_string(n: u64) -> (s: String)
    ensures
        s@ == spec_rev_string(n),
{
    let mut s = String::from_str("rev-");
    let digits = u64_to_dec(n);
    s.append(digits.as_str());
    s
}

/// Parsing a sequence extended by one character takes one more step on the
/// parsed value.
proof fn lemma_parse_push(s: Seq<char>, c: char, acc: u64, i: int)
    requires
        0 <= i <= s.len(),
    ensures
        spec_parse_u64_from(s.push(c), i, acc) == match spec_parse_u64_from(s, i, acc) {
            None => None::<u64>,
            Some(a) => match spec_digit_val(c) {
                None => None::<u64>,
                Some(d) => if a > (u64::MAX - d) / 10 {
                    None::<u64>
                } else {
                    Some((a * 10 + d) as u64)
                },
            },
        },
    decreases s.len() - i,
{
    if i == s.len() {
        assert(s.push(c)[i] == c);
        match spec_digit_val(c) {
            Some(d) => {
                if !(acc > (u64::MAX - d) / 10) {
                    assert(spec_parse_u64_from(s.push(c), i + 1, (acc * 10 + d) as u64) == Some(
                        (acc * 10 + d) as u64,
                    ));
                }
            }
            None => {}
        }
    } else {
        assert(s.push(c)[i] == s[i]);
        match spec_digit_val(s[i]) {
            Some(d) => {
                if !(acc > (u64::MAX - d) / 10) {
                    lemma_parse_push(s, c, (acc * 10 + d) as u64, i + 1);
                }
            }
            None => {}
        }
    }
}

/// Rendering a number in decimal and parsing it back yields the number.
pub proof fn lemma_dec_roundtrip(n: u64)
    ensures
        spec_parse_u64_from(dec_seq(n as nat), 0, 0) == Some(n),
    decreases n,
{
    if n < 10 {
        assert(spec_digit_val(dec_digit(n as nat)) == Some(n));
        assert(dec_seq(n as nat) =~= seq![dec_digit(n as nat)]);
        assert(spec_parse_u64_from(dec_seq(n as nat), 1, n) == Some(n));
    } else {
        let q: u64 = n / 10;
        let d: u64 = n % 10;
        lemma_dec_roundtrip(q);
        assert(dec_seq(n as nat) =~= dec_seq(q as nat).push(dec_digit(d as nat)));
        lemma_parse_push(dec_seq(q as nat), dec_digit(d as nat), 0, 0);
        assert(spec_digit_val(dec_digit(d as nat)) == Some(d));
        assert(q * 10 + d == n) by (nonlinear_arith)
            requires
                q == n / 10,
                d == n % 10,
        ;
        assert(!(q > (u64::MAX - d) / 10)) by (nonlinear_arith)
            requires
                q * 10 + d == n,
                d < 10,
                n <= u64::MAX,
        ;
    }
}

/// A revision string renders and reads back consistently.
pub proof fn lemma_rev_roundtrip(n: u64)
    ensures
        spec_rev_num(spec_rev_string(n)) == n,
{
    let s = spec_rev_string(n);
    assert(has_prefix(s, "rev-"@)) by {
        reveal_strlit("rev-");
        assert(s.subrange(0, 4) =~= "rev-"@);
    }
    assert(strip_prefix_view(s, "rev-"@) =~= dec_seq(n as nat)) by {
        reveal_strlit("rev-");
    }
    lemma_dec_roundtrip(n);
    assert(dec_seq(n as nat).len() > 0);
}

/// The rendered id of the `n`-th allocated node.
pub open spec fn node_id_view(n: u64) -> Seq<char> {
    seq!['n'] + dec_seq(n as nat)
}

/// The rendered id of the `n`-th allocated edge.
pub open spec fn edge_id_view(n: u64) -> Seq<char> {
    seq!['e'] + dec_seq(n as nat)
}

/// Renders the id of the `n`-th allocated node.
pub fn render_node_id(n: u64) -> (s: String)
    ensures
        s@ == node_id_view(n),
{
    let mut s = String::new();
    push_char(&mut s, 'n');
    let digits = u64_to_dec(n);
    s.append(digits.as_str());
    proof {
        assert(s@ =~= node_id_view(n));
    }
    s
}

/// Renders the id of the `n`-th allocated edge.
pub fn render_edge_id(n: u64) -> (s: String)
    ensures
        s@ == edge_id_view(n),
{
    let mut s = String::new();
    push_char(&mut s, 'e');
    let digits = u64_to_dec(n);
    s.append(digits.as_str());
    proof {
        assert(s@ =~= edge_id_view(n));
    }
    s
}

} // verus!
