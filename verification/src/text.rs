//! Comparison of byte strings and of text.

use vstd::prelude::*;
use vstd::string::StringSliceAdditionalSpecFns;
use vstd::utf8::encode_utf8_decode_utf8;

verus! {

/// Folding one more pair of bytes into the collected difference: the
/// difference stays zero exactly if it was zero and the two bytes agree.
proof fn lemma_fold_difference(difference: u8, x: u8, y: u8)
    ensures
        (difference | (x ^ y)) == 0 <==> (difference == 0 && x == y),
{
    assert((difference | (x ^ y)) == 0 <==> (difference == 0 && x == y)) by (bit_vector);
}

/// Whether two byte strings are the same.
///
/// For strings of one length the whole of both is always read, so that the
/// time taken does not tell where they first differ.
pub fn same_bytes(left: &[u8], right: &[u8]) -> (same: bool)
    ensures
        same == (left@ == right@),
{
    if left.len() != right.len() {
        return false;
    }
    let mut difference: u8 = 0;
    let mut i: usize = 0;
    while i < left.len()
        invariant
            left@.len() == right@.len(),
            i <= left@.len(),
            difference == 0 <==> (forall|j: int| 0 <= j < i ==> left@[j] == right@[j]),
        decreases left@.len() - i,
    {
        proof {
            lemma_fold_difference(difference, left@[i as int], right@[i as int]);
        }
        difference = difference | (left[i] ^ right[i]);
        i = i + 1;
    }
    assert((left@ =~= right@) <==> (forall|j: int| 0 <= j < i ==> left@[j] == right@[j]));
    difference == 0
}

/// Whether two texts are the same, character for character.
pub fn same_text(left: &str, right: &str) -> (same: bool)
    ensures
        same == (left@ == right@),
{
    proof {
        encode_utf8_decode_utf8(left@);
        encode_utf8_decode_utf8(right@);
    }
    same_bytes(left.as_bytes(), right.as_bytes())
}

} // verus!
