//! Collision-resistant hashing for the protocol, built on BLAKE2s with
//! domain-separation personalizations, plus the SHA-256 one-shot used for the
//! phantom byte sentinel.

use vstd::prelude::*;
use vstd::arithmetic::power::pow;
use crate::bytes::{le_val, lemma_le_val_digit_lower, lemma_le_val_last, lemma_le_val_upper};
use crate::field::{fe_wf, field_modulus, modulus_le, FieldElement};
use sha2::Digest;

verus! {

/// The BLAKE2s-256 digest of `data` under an 8-byte personalization.
pub uninterp spec fn blake2s_of(personal: Seq<u8>, data: Seq<u8>) -> Seq<u8>;

/// Relies on blake2s_simd::Params / State: a 32-byte BLAKE2s digest of
/// `data` under the given 8-byte personalization, a function of the two
/// arguments alone.
#[verifier::external_body]
pub fn blake2s_personal(personal: &[u8; 8], data: &Vec<u8>) -> (r: [u8; 32])
    ensures
        r@ == blake2s_of(personal@, data@),
        r@.len() == 32,
{
    let hash = blake2s_simd::Params::new()
        .hash_length(32)
        .personal(personal)
        .to_state()
        .update(data.as_slice())
        .finalize();
    let mut r = [0u8; 32];
    r.copy_from_slice(hash.as_bytes());
    r
}

/// The SHA-256 digest of `data`.
pub uninterp spec fn sha256_of(data: Seq<u8>) -> Seq<u8>;

/// Relies on sha2::Sha256 (FIPS 180-4): a 32-byte digest that is a function
/// of `data` alone.
#[verifier::external_body]
pub fn sha256(data: &Vec<u8>) -> (r: [u8; 32])
    ensures
        r@ == sha256_of(data@),
        r@.len() == 32,
{
    let mut h = sha2::Sha256::new();
    h.update(data.as_slice());
    let out = h.finalize();
    let mut r = [0u8; 32];
    r.copy_from_slice(&out);
    r
}

/// Personalization of the fixed-arity field-element hash.
pub open spec fn field_hash_personal() -> Seq<u8> {
    seq![67u8, 115u8, 119u8, 70u8, 108u8, 100u8, 72u8, 115u8]  // "CswFldHs"
}

pub fn field_hash_personal_bytes() -> (r: [u8; 8])
    ensures
        r@ == field_hash_personal(),
{
    let r: [u8; 8] = [67u8, 115, 119, 70, 108, 100, 72, 115];
    proof {
        assert(r@ =~= field_hash_personal());
    }
    r
}

/// The concatenation of the canonical bytes of a list of field elements.
pub open spec fn concat_fe(s: Seq<FieldElement>) -> Seq<u8>
    decreases s.len(),
{
    if s.len() == 0 {
        Seq::empty()
    } else {
        concat_fe(s.drop_last()) + s.last()@
    }
}

/// Clearing the top two bits of the last byte, so a 32-byte digest reads as a
/// value below the 255-bit modulus.
pub open spec fn mask_to_field(d: Seq<u8>) -> Seq<u8> {
    d.update(31, d[31] & 0x3f)
}

/// The protocol's fixed-arity, order-sensitive hash of field elements: the
/// personalized BLAKE2s digest of their concatenated bytes, truncated into
/// the field.
pub open spec fn hash_fes(s: Seq<FieldElement>) -> Seq<u8> {
    mask_to_field(blake2s_of(field_hash_personal(), concat_fe(s)))
}

/// A 32-byte string whose last byte has its top two bits clear denotes a
/// value below the modulus.
pub proof fn lemma_masked_in_field(d: Seq<u8>)
    requires
        d.len() == 32,
        d[31] & 0x3f < 64,
    ensures
        le_val(d.update(31, d[31] & 0x3f)) < field_modulus(),
{
    let m = d.update(31, d[31] & 0x3f);
    lemma_le_val_last(m);
    lemma_le_val_upper(m.take(31));
    lemma_le_val_digit_lower(modulus_le(), 31);
    assert(modulus_le()[31] == 64);
    assert(m[31] * pow(256, 31) <= 63 * pow(256, 31)) by (nonlinear_arith)
        requires m[31] <= 63, pow(256, 31) >= 0;
    vstd::arithmetic::power::lemma_pow_positive(256, 31);
}

/// Masking a byte with 0x3f keeps it below 64.
pub proof fn lemma_mask_small(b: u8)
    ensures
        b & 0x3f < 64,
{
    assert(b & 0x3f < 64) by (bit_vector);
}

/// Hashes an ordered, fixed-length list of field elements into the field.
pub fn hash_field_elements(inputs: &Vec<FieldElement>) -> (r: FieldElement)
    ensures
        fe_wf(r),
        r@ == hash_fes(inputs@),
{
    let mut data: Vec<u8> = Vec::new();
    let n = inputs.len();
    let mut i: usize = 0;
    while i < n
        invariant
            0 <= i <= n,
            n == inputs@.len(),
            data@ == concat_fe(inputs@.take(i as int)),
        decreases n - i,
    {
        crate::bytes::extend_from_array(&mut data, &inputs[i].le);
        proof {
            assert(inputs@.take(i + 1).drop_last() =~= inputs@.take(i as int));
            assert(inputs@.take(i + 1).last() == inputs@[i as int]);
        }
        i += 1;
    }
    proof {
        assert(inputs@.take(n as int) =~= inputs@);
    }
    let personal = field_hash_personal_bytes();
    let digest = blake2s_personal(&personal, &data);
    let mut le = digest;
    le[31] = le[31] & 0x3f;
    let r = FieldElement { le };
    proof {
        assert(le@ =~= digest@.update(31, digest@[31] & 0x3f));
        lemma_mask_small(digest@[31]);
        lemma_masked_in_field(digest@);
    }
    r
}

/// The phantom 32-byte sentinel for a given tag: its SHA-256 digest.
pub fn derive_phantom_bytes(tag: &Vec<u8>) -> (r: [u8; 32])
    ensures
        r@ == sha256_of(tag@),
{
    sha256(tag)
}

} // verus!
