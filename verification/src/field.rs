//! The circuit's prime field: elements are canonical little-endian bytes of a
//! value below the 255-bit modulus.  Addition and subtraction are verified
//! byte arithmetic; multiplication and exponentiation come from the
//! `num-bigint` crate through trusted wrappers with exact contracts.

use vstd::prelude::*;
use vstd::arithmetic::power::pow;
use crate::bytes::{
    le_val, lemma_le_val_digit_lower, lemma_le_val_parity, lemma_le_val_upper,
    lemma_le_val_zero_suffix, u64_to_le_bytes,
};
use crate::error::CswError;
use num_bigint::BigUint;

verus! {

/// Little-endian bytes of the field modulus
/// 28948022309329048855892746252171976963322203655955319056773317069363642105857,
/// a 255-bit prime.
pub open spec fn modulus_le() -> Seq<u8> {
    seq![
        1u8, 0u8, 0u8, 0u8, 226u8, 100u8, 64u8, 161u8, 185u8, 89u8, 63u8, 108u8, 39u8, 161u8,
        138u8, 3u8, 0u8, 0u8, 0u8, 0u8, 0u8, 0u8, 0u8, 0u8, 0u8, 0u8, 0u8, 0u8, 0u8, 0u8, 0u8,
        64u8,
    ]
}

pub open spec fn field_modulus() -> nat {
    le_val(modulus_le())
}

pub fn modulus_bytes() -> (r: [u8; 32])
    ensures
        r@ == modulus_le(),
{
    let r: [u8; 32] = [
        1u8, 0, 0, 0, 226, 100, 64, 161, 185, 89, 63, 108, 39, 161, 138, 3, 0, 0, 0, 0, 0, 0, 0,
        0, 0, 0, 0, 0, 0, 0, 0, 64,
    ];
    proof {
        assert(r@ =~= modulus_le());
    }
    r
}

/// Facts about the modulus that the rest of the crate leans on.
pub proof fn lemma_modulus_facts()
    ensures
        field_modulus() > 0xffffffffffffffff,
        field_modulus() > pow(256, 16),
        field_modulus() % 2 == 1,
        2 * field_modulus() < pow(256, 32),
{
    let m = modulus_le();
    crate::bytes::lemma_le_val_last(m);
    crate::bytes::lemma_le_val_upper(m.take(31));
    assert(pow(256, 32) == 256 * pow(256, 31)) by {
        reveal(pow);
    }
    lemma_le_val_digit_lower(m, 8);
    assert(pow(256, 8) == 0x10000000000000000) by {
        reveal_with_fuel(pow, 9);
    }
    assert(le_val(m) >= 185 * 0x10000000000000000);
    lemma_le_val_digit_lower(m, 31);
    assert(m[31] == 64);
    assert(pow(256, 16) < pow(256, 31)) by {
        vstd::arithmetic::power::lemma_pow_strictly_increases(256, 16, 31);
    }
    vstd::arithmetic::power::lemma_pow_positive(256, 31);
    assert(64 * pow(256, 31) > pow(256, 31)) by (nonlinear_arith)
        requires pow(256, 31) > 0;
    lemma_le_val_parity(m);
}

// ---------------------------------------------------------------------------
// Trusted wrappers around num-bigint's modular arithmetic.
// ---------------------------------------------------------------------------

/// Relies on num_bigint::BigUint: `*` multiplies and `%` reduces; the result
/// is the product of the operands reduced modulo `m`.
#[verifier::external_body]
fn nb_mulmod(a: &[u8; 32], b: &[u8; 32], m: &[u8; 32]) -> (r: [u8; 32])
    requires
        le_val(m@) > 0,
    ensures
        le_val(r@) == (le_val(a@) * le_val(b@)) % le_val(m@),
{
    let v = (BigUint::from_bytes_le(a) * BigUint::from_bytes_le(b)) % BigUint::from_bytes_le(m);
    let bytes = v.to_bytes_le();
    let mut r = [0u8; 32];
    r[..bytes.len()].copy_from_slice(&bytes);
    r
}

/// Relies on num_bigint::BigUint::modpow, which returns
/// `(self ^ exponent) % modulus` and panics only on a zero modulus.
#[verifier::external_body]
fn nb_modpow(a: &[u8; 32], e: &[u8; 32], m: &[u8; 32]) -> (r: [u8; 32])
    requires
        le_val(m@) > 0,
    ensures
        le_val(r@) as int == pow(le_val(a@) as int, le_val(e@)) % (le_val(m@) as int),
{
    let v = BigUint::from_bytes_le(a).modpow(&BigUint::from_bytes_le(e), &BigUint::from_bytes_le(m));
    let bytes = v.to_bytes_le();
    let mut r = [0u8; 32];
    r[..bytes.len()].copy_from_slice(&bytes);
    r
}

// ---------------------------------------------------------------------------
// Field element
// ---------------------------------------------------------------------------

/// Addition in the field.
pub open spec fn fadd(a: nat, b: nat) -> nat {
    (a + b) % field_modulus()
}

/// Subtraction in the field.
pub open spec fn fsub(a: nat, b: nat) -> nat {
    ((field_modulus() + a - b) % (field_modulus() as int)) as nat
}

/// Multiplication in the field.
pub open spec fn fmul(a: nat, b: nat) -> nat {
    (a * b) % field_modulus()
}

/// An element of the circuit's prime field, as the canonical little-endian
/// bytes of its value.
#[derive(Clone, Copy, PartialEq, Eq, Debug)]
pub struct FieldElement {
    pub le: [u8; 32],
}

impl View for FieldElement {
    type V = Seq<u8>;

    open spec fn view(&self) -> Seq<u8> {
        self.le@
    }
}

/// The value a field element stands for.
pub open spec fn fe_val(x: FieldElement) -> nat {
    le_val(x@)
}

/// Canonical form: 32 bytes holding a value below the modulus.
pub open spec fn fe_wf(x: FieldElement) -> bool {
    x@.len() == 32 && fe_val(x) < field_modulus()
}

impl FieldElement {
    /// The element of a small value.
    pub fn from_u64(v: u64) -> (r: FieldElement)
        ensures
            fe_wf(r),
            fe_val(r) == v,
    {
        let b8 = u64_to_le_bytes(v);
        let mut le = [0u8; 32];
        let mut i: usize = 0;
        while i < 8
            invariant
                0 <= i <= 8,
                b8@.len() == 8,
                le@.len() == 32,
                forall|j: int| 0 <= j < i ==> le@[j] == b8@[j],
                forall|j: int| i <= j < 32 ==> le@[j] == 0,
            decreases 8 - i,
        {
            le[i] = b8[i];
            i += 1;
        }
        let r = FieldElement { le };
        proof {
            lemma_le_val_zero_suffix(r@, 8);
            assert(r@.take(8) =~= b8@);
            lemma_modulus_facts();
        }
        r
    }

    pub fn zero() -> (r: FieldElement)
        ensures
            fe_wf(r),
            fe_val(r) == 0,
    {
        FieldElement::from_u64(0)
    }

    pub fn one() -> (r: FieldElement)
        ensures
            fe_wf(r),
            fe_val(r) == 1,
    {
        FieldElement::from_u64(1)
    }

    /// Whether this element is canonical (its value lies below the
    /// modulus), at run time.
    pub fn is_canonical(&self) -> (r: bool)
        ensures
            r == fe_wf(*self),
    {
        bytes_below_modulus(&self.le)
    }

    /// Byte-for-byte equality, which on canonical elements is value equality.
    pub fn eq_fe(&self, other: &FieldElement) -> (r: bool)
        ensures
            r == (self@ == other@),
    {
        let mut i: usize = 0;
        while i < 32
            invariant
                0 <= i <= 32,
                forall|j: int| 0 <= j < i ==> self.le@[j] == other.le@[j],
            decreases 32 - i,
        {
            if self.le[i] != other.le[i] {
                return false;
            }
            i += 1;
        }
        proof {
            assert(self@ =~= other@);
        }
        true
    }

    pub fn add(&self, other: &FieldElement) -> (r: FieldElement)
        requires
            fe_wf(*self),
            fe_wf(*other),
        ensures
            fe_wf(r),
            fe_val(r) == fadd(fe_val(*self), fe_val(*other)),
    {
        proof {
            lemma_modulus_facts();
        }
        let ghost q = field_modulus() as int;
        let ghost total = fe_val(*self) + fe_val(*other);
        let m = modulus_bytes();
        let (s, carry) = crate::bytes::add_le_bytes(&self.le, &other.le);
        proof {
            assert(!carry);
        }
        if crate::bytes::le_bytes_lt(&s, &m) {
            proof {
                vstd::arithmetic::div_mod::lemma_small_mod(total, field_modulus());
            }
            FieldElement { le: s }
        } else {
            let (d, borrow) = crate::bytes::sub_le_bytes(&s, &m);
            proof {
                assert(!borrow);
                vstd::arithmetic::div_mod::lemma_fundamental_div_mod_converse(
                    total as int,
                    q,
                    1,
                    total - q,
                );
            }
            FieldElement { le: d }
        }
    }

    pub fn sub(&self, other: &FieldElement) -> (r: FieldElement)
        requires
            fe_wf(*self),
            fe_wf(*other),
        ensures
            fe_wf(r),
            fe_val(r) == fsub(fe_val(*self), fe_val(*other)),
    {
        proof {
            lemma_modulus_facts();
        }
        let ghost q = field_modulus() as int;
        let ghost va = fe_val(*self) as int;
        let ghost vb = fe_val(*other) as int;
        let (d, borrow) = crate::bytes::sub_le_bytes(&self.le, &other.le);
        if borrow {
            let m = modulus_bytes();
            let (s, carry) = crate::bytes::add_le_bytes(&d, &m);
            proof {
                crate::bytes::lemma_le_val_upper(s@);
                assert(carry);
                assert(le_val(s@) as int == q + va - vb);
                vstd::arithmetic::div_mod::lemma_small_mod((q + va - vb) as nat, field_modulus());
            }
            FieldElement { le: s }
        } else {
            proof {
                vstd::arithmetic::div_mod::lemma_fundamental_div_mod_converse(
                    q + va - vb,
                    q,
                    1,
                    va - vb,
                );
            }
            FieldElement { le: d }
        }
    }

    pub fn mul(&self, other: &FieldElement) -> (r: FieldElement)
        requires
            fe_wf(*self),
            fe_wf(*other),
        ensures
            fe_wf(r),
            fe_val(r) == fmul(fe_val(*self), fe_val(*other)),
    {
        proof {
            lemma_modulus_facts();
        }
        let m = modulus_bytes();
        let r = FieldElement { le: nb_mulmod(&self.le, &other.le, &m) };
        proof {
            vstd::arithmetic::div_mod::lemma_mod_bound(
                (fe_val(*self) * fe_val(*other)) as int,
                field_modulus() as int,
            );
        }
        r
    }

    /// `self ^ e` in the field, for a 256-bit exponent given in little-endian
    /// bytes.
    pub fn pow_fe(&self, e: &[u8; 32]) -> (r: FieldElement)
        requires
            fe_wf(*self),
        ensures
            fe_wf(r),
            fe_val(r) as int == pow(fe_val(*self) as int, le_val(e@)) % (field_modulus() as int),
    {
        proof {
            lemma_modulus_facts();
        }
        let m = modulus_bytes();
        let r = FieldElement { le: nb_modpow(&self.le, e, &m) };
        proof {
            if fe_val(*self) == 0 {
                if le_val(e@) == 0 {
                    vstd::arithmetic::power::lemma_pow0(0);
                } else {
                    vstd::arithmetic::power::lemma0_pow(le_val(e@));
                }
            } else {
                vstd::arithmetic::power::lemma_pow_positive(fe_val(*self) as int, le_val(e@));
            }
            vstd::arithmetic::div_mod::lemma_mod_bound(
                pow(fe_val(*self) as int, le_val(e@)),
                field_modulus() as int,
            );
        }
        r
    }

    /// Whether the value's low bit is clear.
    pub fn is_even(&self) -> (r: bool)
        ensures
            r == (fe_val(*self) % 2 == 0),
    {
        proof {
            lemma_le_val_parity(self@);
        }
        self.le[0] % 2 == 0
    }
}

/// Canonical elements of equal value have equal bytes, so the byte
/// equality `eq_fe` decides is value equality.
pub proof fn lemma_fe_value_determines_bytes(a: FieldElement, b: FieldElement)
    requires
        fe_wf(a),
        fe_wf(b),
        fe_val(a) == fe_val(b),
    ensures
        a@ == b@,
        a == b,
{
    crate::bytes::lemma_le_val_injective(a@, b@);
    assert(a.le =~= b.le);
}

/// Whether 32 little-endian bytes denote a value below the field modulus.
pub fn bytes_below_modulus(b: &[u8; 32]) -> (r: bool)
    ensures
        r == (le_val(b@) < field_modulus()),
{
    let m = modulus_bytes();
    crate::bytes::le_bytes_lt(b, &m)
}

/// Reads a field element from at most 32 little-endian bytes, padding the
/// high bytes with zeros; rejects longer buffers and non-canonical values.
pub fn read_field_element_from_buffer_with_padding(buf: &Vec<u8>) -> (r: Result<
    FieldElement,
    CswError,
>)
    ensures
        r is Ok <==> (buf@.len() <= 32 && le_val(buf@) < field_modulus()),
        r matches Ok(fe) ==> fe_wf(fe) && fe_val(fe) == le_val(buf@),
        r is Err ==> r == Err::<FieldElement, CswError>(CswError::SerializationError),
{
    if buf.len() > 32 {
        return Err(CswError::SerializationError);
    }
    let mut le = [0u8; 32];
    let n = buf.len();
    let mut i: usize = 0;
    while i < n
        invariant
            0 <= i <= n,
            n == buf@.len() <= 32,
            le@.len() == 32,
            forall|j: int| 0 <= j < i ==> le@[j] == buf@[j],
            forall|j: int| i <= j < 32 ==> le@[j] == 0,
        decreases n - i,
    {
        le[i] = buf[i];
        i += 1;
    }
    let fe = FieldElement { le };
    proof {
        lemma_le_val_zero_suffix(fe@, n as int);
        assert(fe@.take(n as int) =~= buf@);
    }
    let m = modulus_bytes();
    if crate::bytes::le_bytes_lt(&fe.le, &m) {
        Ok(fe)
    } else {
        Err(CswError::SerializationError)
    }
}

/// Little-endian bytes of the protocol's phantom ("absent") field element:
/// the tag `Krypton 36` read as a padded little-endian value.
pub open spec fn phantom_fe_bytes() -> Seq<u8> {
    seq![
        75u8, 114u8, 121u8, 112u8, 116u8, 111u8, 110u8, 32u8, 51u8, 54u8, 0u8, 0u8, 0u8, 0u8, 0u8,
        0u8, 0u8, 0u8, 0u8, 0u8, 0u8, 0u8, 0u8, 0u8, 0u8, 0u8, 0u8, 0u8, 0u8, 0u8, 0u8, 0u8,
    ]
}

/// The sentinel field element that marks an absent structured input.
pub fn phantom_field_element() -> (r: FieldElement)
    ensures
        fe_wf(r),
        r@ == phantom_fe_bytes(),
{
    let r = FieldElement {
        le: [
            75u8, 114, 121, 112, 116, 111, 110, 32, 51, 54, 0, 0, 0, 0, 0, 0, 0, 0, 0, 0, 0, 0, 0,
            0, 0, 0, 0, 0, 0, 0, 0, 0,
        ],
    };
    proof {
        assert(r@ =~= phantom_fe_bytes());
        lemma_le_val_zero_suffix(r@, 10);
        lemma_le_val_upper(r@.take(10));
        lemma_modulus_facts();
        assert(pow(256, 16) > pow(256, 10)) by {
            vstd::arithmetic::power::lemma_pow_strictly_increases(256, 10, 16);
        }
    }
    r
}

} // verus!
