//! The rule hash: the SHA-256 digest of a rule's canonical JSON, encoded
//! in lower-case hexadecimal.

use vstd::prelude::*;
use crate::json::{hex_digit, json_rule, spec_json_rule};
use crate::rule::{DpoRule, SpecRule};
use crate::text::push_char;

verus! {

/// The SHA-256 digest of a byte sequence.  The digest is a function of the
/// bytes alone.
pub uninterp spec fn sha256_of(bytes: Seq<u8>) -> Seq<u8>;

/// Relies on `sha2::Sha256::digest`: the digest depends on the input bytes
/// alone and is 32 bytes long.
#[verifier::external_body]
fn sha256(bytes: &[u8]) -> (r: Vec<u8>)
    ensures
        r@ == sha256_of(bytes@),
        r@.len() == 32,
{
    <sha2::Sha256 as sha2::Digest>::digest(bytes).as_slice().to_vec()
}

/// The lower-case hexadecimal rendering of `bytes[..i]`.
pub open spec fn spec_hex(bytes: Seq<u8>, i: int) -> Seq<char>
    decreases i,
{
    if i <= 0 || i > bytes.len() {
        Seq::empty()
    } else {
        spec_hex(bytes, i - 1) + seq![
            hex_digit((bytes[i - 1] / 16) as nat),
            hex_digit((bytes[i - 1] % 16) as nat),
        ]
    }
}

/// Renders bytes in lower-case hexadecimal, two digits per byte.
#[verifier::loop_isolation(false)]
pub fn hex_encode(bytes: &Vec<u8>) -> (r: String)
    ensures
        r@ == spec_hex(bytes@, bytes@.len() as int),
        r@.len() == 2 * bytes@.len(),
{
    let mut out = String::new();
    let mut i: usize = 0;
    while i < bytes.len()
        invariant
            i <= bytes.len(),
            out@ == spec_hex(bytes@, i as int),
            out@.len() == 2 * i,
        decreases bytes.len() - i,
    {
        let b = bytes[i];
        push_char(&mut out, crate::json::hex_digit_exec(b / 16));
        push_char(&mut out, crate::json::hex_digit_exec(b % 16));
        proof {
            assert(out@ =~= spec_hex(bytes@, i + 1));
        }
        i = i + 1;
    }
    out
}

/// The rule hash: hexadecimal SHA-256 of the rule's canonical JSON bytes.
pub open spec fn spec_rule_hash(r: SpecRule) -> Seq<char> {
    let digest = sha256_of(vstd::utf8::encode_utf8(spec_json_rule(r)));
    spec_hex(digest, digest.len() as int)
}

/// Computes the rule hash.
pub fn rule_hash(r: &DpoRule) -> (out: String)
    ensures
        out@ == spec_rule_hash(r@),
        out@.len() == 64,
{
    let js = json_rule(r);
    let digest = sha256(js.as_str().as_bytes());
    hex_encode(&digest)
}

} // verus!
