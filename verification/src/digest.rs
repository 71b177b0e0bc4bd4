//! Digests and their text.
use crate::text::add_bytes;
use vstd::bytes::{lemma_auto_spec_u64_to_from_le_bytes, spec_u64_to_le_bytes, u64_to_le_bytes};
use vstd::prelude::*;

verus! {

/// The SHA-256 digest of some bytes.
pub uninterp spec fn sha256(bytes: Seq<u8>) -> Seq<u8>;

/// `Sha256::digest` hashes bytes to a digest of 32 bytes.
#[verifier::external_body]
pub(crate) fn sha256_of(bytes: &[u8]) -> (r: Vec<u8>)
    ensures
        r@ == sha256(bytes@),
        r@.len() == 32,
{
    <sha2::Sha256 as sha2::Digest>::digest(bytes).to_vec()
}

/// The hexadecimal digit of a value below 16, in lower case.
pub open spec fn hex_digit(value: int) -> char {
    if value < 10 {
        (48 + value) as char
    } else {
        (87 + value) as char
    }
}

/// Bytes as lower-case hexadecimal text, two digits to a byte.
pub open spec fn hex_text(bytes: Seq<u8>) -> Seq<char> {
    Seq::new(
        2 * bytes.len(),
        |i: int|
            if i % 2 == 0 {
                hex_digit(bytes[i / 2] as int / 16)
            } else {
                hex_digit(bytes[i / 2] as int % 16)
            },
    )
}

fn hex_digit_of(value: u8) -> (r: char)
    requires
        value < 16,
    ensures
        r == hex_digit(value as int),
{
    if value < 10 {
        (48 + value) as char
    } else {
        (87 + value) as char
    }
}

/// Bytes as lower-case hexadecimal text.
pub fn hex_of(bytes: &[u8]) -> (r: String)
    ensures
        r@ == hex_text(bytes@),
{
    let mut out = String::new();
    let mut i: usize = 0;
    while i < bytes.len()
        invariant
            i <= bytes@.len(),
            out@ == hex_text(bytes@.take(i as int)),
        decreases bytes@.len() - i,
    {
        let byte: u8 = bytes[i];
        out.push(hex_digit_of(byte / 16));
        out.push(hex_digit_of(byte % 16));
        proof {
            let before = hex_text(bytes@.take(i as int));
            let after = hex_text(bytes@.take(i + 1));
            assert(out@ =~= before.push(hex_digit(byte as int / 16)).push(
                hex_digit(byte as int % 16),
            ));
            assert(out@ =~= after);
        }
        i = i + 1;
    }
    assert(bytes@.take(bytes@.len() as int) =~= bytes@);
    out
}

/// Bytes with their number ahead of them.
pub open spec fn sized(bytes: Seq<u8>) -> Seq<u8> {
    spec_u64_to_le_bytes(bytes.len() as u64) + bytes
}

/// Appends bytes with their number ahead of them.
pub fn add_sized(out: &mut Vec<u8>, bytes: &[u8])
    ensures
        final(out)@ == old(out)@ + sized(bytes@),
{
    let length = u64_to_le_bytes(bytes.len() as u64);
    add_bytes(out, length.as_slice());
    add_bytes(out, bytes);
    assert(out@ =~= old(out)@ + sized(bytes@));
}

/// Sized bytes are told from any others, whatever follows them.
pub proof fn lemma_sized_injective(left: Seq<u8>, right: Seq<u8>, a: Seq<u8>, b: Seq<u8>)
    requires
        left.len() <= u64::MAX,
        right.len() <= u64::MAX,
        sized(left) + a == sized(right) + b,
    ensures
        left == right,
        a == b,
{
    lemma_auto_spec_u64_to_from_le_bytes();
    let first = sized(left) + a;
    let second = sized(right) + b;
    let x = left.len() as u64;
    let y = right.len() as u64;
    assert(first.subrange(0, 8) =~= spec_u64_to_le_bytes(x));
    assert(second.subrange(0, 8) =~= spec_u64_to_le_bytes(y));
    assert(x == y);
    assert(first.subrange(8, 8 + x as int) =~= left);
    assert(second.subrange(8, 8 + y as int) =~= right);
    assert(first.subrange(8 + x as int, first.len() as int) =~= a);
    assert(second.subrange(8 + y as int, second.len() as int) =~= b);
}

} // verus!
