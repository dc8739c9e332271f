//! The digest deriver: a canonical signature is hashed with Keccak-256 (the
//! legacy Keccak padding that contract ecosystems standardized on, not the
//! later SHA-3 padding), and the identifier is read off the digest. A
//! function selector is the first four digest bytes; an event topic is the
//! whole 32-byte digest; both are rendered as `0x`-prefixed lowercase hex.

use vstd::prelude::*;
use vstd::slice::slice_subrange;

use sha3::Digest;

verus! {

/// The Keccak-256 digest of the UTF-8 bytes of a string, as the 32 output
/// bytes. The digest is a pure function of the input; its value is not
/// stated here, only used as a name.
pub uninterp spec fn keccak256_of(s: Seq<char>) -> Seq<u8>;

/// Relies on sha3's `Keccak256` (the legacy 0x01 Keccak padding, not the
/// SHA-3 padding): a 32-byte digest of the UTF-8 bytes of the input,
/// depending on those bytes alone.
#[verifier::external_body]
fn keccak256(s: &str) -> (r: Vec<u8>)
    ensures
        r@ == keccak256_of(s@),
        r@.len() == 32,
{
    sha3::Keccak256::digest(s.as_bytes()).to_vec()
}

/// The lowercase hexadecimal digit for a nibble.
pub open spec fn spec_hex_digit(n: u8) -> char
    recommends
        n < 16,
{
    if n == 0 {
        '0'
    } else if n == 1 {
        '1'
    } else if n == 2 {
        '2'
    } else if n == 3 {
        '3'
    } else if n == 4 {
        '4'
    } else if n == 5 {
        '5'
    } else if n == 6 {
        '6'
    } else if n == 7 {
        '7'
    } else if n == 8 {
        '8'
    } else if n == 9 {
        '9'
    } else if n == 10 {
        'a'
    } else if n == 11 {
        'b'
    } else if n == 12 {
        'c'
    } else if n == 13 {
        'd'
    } else if n == 14 {
        'e'
    } else {
        'f'
    }
}

/// The two lowercase hexadecimal digits of a byte, high nibble first.
pub open spec fn spec_hex_byte(b: u8) -> Seq<char> {
    seq![spec_hex_digit(b / 16), spec_hex_digit(b % 16)]
}

/// The lowercase hexadecimal rendering of a byte sequence: two digits per
/// byte, in order.
pub open spec fn spec_hex(bytes: Seq<u8>) -> Seq<char>
    decreases bytes.len(),
{
    if bytes.len() == 0 {
        Seq::empty()
    } else {
        spec_hex_byte(bytes.first()) + spec_hex(bytes.drop_first())
    }
}

/// A hexadecimal rendering has two characters per byte.
pub proof fn lemma_spec_hex_len(bytes: Seq<u8>)
    ensures
        spec_hex(bytes).len() == 2 * bytes.len(),
    decreases bytes.len(),
{
    if bytes.len() > 0 {
        lemma_spec_hex_len(bytes.drop_first());
    }
}

/// Relies on hex::encode: lowercase hexadecimal, two digits per byte, high
/// nibble first.
#[verifier::external_body]
fn hex_encode(bytes: &[u8]) -> (r: String)
    ensures
        r@ == spec_hex(bytes@),
{
    hex::encode(bytes)
}

/// The selector identifier of a signature: `0x` followed by the lowercase
/// hex of the first four bytes of the signature's Keccak-256 digest.
pub open spec fn spec_selector_ident(sig: Seq<char>) -> Seq<char> {
    "0x"@ + spec_hex(keccak256_of(sig).take(4))
}

/// The topic identifier of a signature: `0x` followed by the lowercase hex
/// of the signature's whole Keccak-256 digest.
pub open spec fn spec_topic_ident(sig: Seq<char>) -> Seq<char> {
    "0x"@ + spec_hex(keccak256_of(sig))
}

/// Derives a function selector: `0x` plus the hex of the first four bytes
/// of the signature's Keccak-256 digest — always exactly 10 characters.
pub fn derive_selector(signature: &str) -> (r: String)
    ensures
        r@ == spec_selector_ident(signature@),
        r@.len() == 10,
{
    let digest = keccak256(signature);
    let head = slice_subrange(digest.as_slice(), 0, 4);
    let hex_part = hex_encode(head);
    let mut r = String::from_str("0x");
    r.append(hex_part.as_str());
    proof {
        reveal_strlit("0x");
        assert(head@ =~= keccak256_of(signature@).take(4));
        lemma_spec_hex_len(head@);
    }
    r
}

/// Derives an event topic: `0x` plus the hex of the signature's whole
/// 32-byte Keccak-256 digest — always exactly 66 characters.
pub fn derive_topic(signature: &str) -> (r: String)
    ensures
        r@ == spec_topic_ident(signature@),
        r@.len() == 66,
{
    let digest = keccak256(signature);
    let hex_part = hex_encode(digest.as_slice());
    let mut r = String::from_str("0x");
    r.append(hex_part.as_str());
    proof {
        reveal_strlit("0x");
        lemma_spec_hex_len(digest@);
    }
    r
}

/// Law: derivation is deterministic. Equal names and equal ordered input
/// types give the same canonical signature, and from it the same selector
/// and the same topic — the whole derivation is a pure function of those
/// inputs, with no hidden state.
pub proof fn lemma_derivation_deterministic(
    name1: Option<Seq<char>>,
    types1: Seq<Seq<char>>,
    name2: Option<Seq<char>>,
    types2: Seq<Seq<char>>,
)
    requires
        name1 == name2,
        types1 == types2,
    ensures
        crate::sig::spec_signature(name1, types1) == crate::sig::spec_signature(name2, types2),
        spec_selector_ident(crate::sig::spec_signature(name1, types1)) == spec_selector_ident(
            crate::sig::spec_signature(name2, types2),
        ),
        spec_topic_ident(crate::sig::spec_signature(name1, types1)) == spec_topic_ident(
            crate::sig::spec_signature(name2, types2),
        ),
{
}

} // verus!
