//! Little-endian byte strings as natural numbers, and the lemmas the rest of
//! the crate needs about that encoding.

use vstd::prelude::*;
use vstd::arithmetic::power::pow;

verus! {

/// The number denoted by a little-endian byte string.
pub open spec fn le_val(s: Seq<u8>) -> nat
    decreases s.len(),
{
    if s.len() == 0 {
        0
    } else {
        s[0] as nat + 256 * le_val(s.skip(1))
    }
}

pub proof fn lemma_le_val_upper(s: Seq<u8>)
    ensures
        le_val(s) < pow(256, s.len() as nat),
    decreases s.len(),
{
    vstd::arithmetic::power::lemma_pow0(256);
    if s.len() == 0 {
    } else {
        lemma_le_val_upper(s.skip(1));
        assert(pow(256, s.len() as nat) == 256 * pow(256, (s.len() - 1) as nat)) by {
            reveal(pow);
        }
        assert(le_val(s) == s[0] as nat + 256 * le_val(s.skip(1)));
        assert(256 * le_val(s.skip(1)) <= 256 * (pow(256, (s.len() - 1) as nat) - 1))
            by (nonlinear_arith)
            requires le_val(s.skip(1)) <= pow(256, (s.len() - 1) as nat) - 1;
    }
}

pub proof fn lemma_le_val_digit_lower(s: Seq<u8>, i: int)
    requires
        0 <= i < s.len(),
    ensures
        le_val(s) >= s[i] * pow(256, i as nat),
    decreases i,
{
    vstd::arithmetic::power::lemma_pow0(256);
    if i == 0 {
    } else {
        lemma_le_val_digit_lower(s.skip(1), i - 1);
        assert(s.skip(1)[i - 1] == s[i]);
        assert(pow(256, i as nat) == 256 * pow(256, (i - 1) as nat)) by {
            reveal(pow);
        }
        assert(256 * le_val(s.skip(1)) >= s[i] * (256 * pow(256, (i - 1) as nat)))
            by (nonlinear_arith)
            requires le_val(s.skip(1)) >= s[i] * pow(256, (i - 1) as nat);
    }
}

/// Trailing zero bytes do not change the value.
pub proof fn lemma_le_val_zero_suffix(s: Seq<u8>, k: int)
    requires
        0 <= k <= s.len(),
        forall|i: int| k <= i < s.len() ==> s[i] == 0,
    ensures
        le_val(s) == le_val(s.take(k)),
    decreases s.len(),
{
    if s.len() == 0 {
        assert(s.take(k) =~= s);
    } else if k == 0 {
        assert(forall|i: int| 0 <= i < s.skip(1).len() ==> s.skip(1)[i] == 0);
        lemma_le_val_zero_suffix(s.skip(1), 0);
        assert(s.skip(1).take(0) =~= Seq::<u8>::empty());
        assert(s.take(0) =~= Seq::<u8>::empty());
    } else {
        assert(forall|i: int| k - 1 <= i < s.skip(1).len() ==> s.skip(1)[i] == 0);
        lemma_le_val_zero_suffix(s.skip(1), k - 1);
        assert(s.take(k).skip(1) =~= s.skip(1).take(k - 1));
        assert(le_val(s.take(k)) == s[0] as nat + 256 * le_val(s.take(k).skip(1)));
    }
}

/// Splitting off the most significant byte.
pub proof fn lemma_le_val_last(s: Seq<u8>)
    requires
        s.len() > 0,
    ensures
        le_val(s) == le_val(s.take(s.len() - 1)) + s[s.len() - 1] * pow(
            256,
            (s.len() - 1) as nat,
        ),
    decreases s.len(),
{
    vstd::arithmetic::power::lemma_pow0(256);
    if s.len() == 1 {
        assert(s.skip(1) =~= Seq::<u8>::empty());
        assert(s.take(0) =~= Seq::<u8>::empty());
    } else {
        let n = s.len() as int;
        lemma_le_val_last(s.skip(1));
        assert(s.skip(1).take(n - 2) =~= s.take(n - 1).skip(1));
        assert(s.skip(1)[n - 2] == s[n - 1]);
        assert(le_val(s.take(n - 1)) == s[0] as nat + 256 * le_val(s.take(n - 1).skip(1)));
        assert(pow(256, (n - 1) as nat) == 256 * pow(256, (n - 2) as nat)) by {
            reveal(pow);
        }
        assert(256 * (le_val(s.take(n - 1).skip(1)) + s[n - 1] * pow(256, (n - 2) as nat)) == 256
            * le_val(s.take(n - 1).skip(1)) + s[n - 1] * (256 * pow(256, (n - 2) as nat)))
            by (nonlinear_arith);
    }
}

/// Prefix form of the most-significant-byte split, phrased for a growing
/// prefix of a fixed string.
pub proof fn lemma_le_val_take_step(s: Seq<u8>, i: int)
    requires
        0 <= i < s.len(),
    ensures
        le_val(s.take(i + 1)) == le_val(s.take(i)) + s[i] * pow(256, i as nat),
{
    lemma_le_val_last(s.take(i + 1));
    assert(s.take(i + 1).take(i) =~= s.take(i));
}

/// 256-bit addition: the low 32 bytes of the sum and its carry bit.
pub fn add_le_bytes(a: &[u8; 32], b: &[u8; 32]) -> (r: ([u8; 32], bool))
    ensures
        le_val(r.0@) + (if r.1 {
            pow(256, 32) as nat
        } else {
            0nat
        }) == le_val(a@) + le_val(b@),
{
    let mut out = [0u8; 32];
    let mut carry: u16 = 0;
    let mut i: usize = 0;
    while i < 32
        invariant
            0 <= i <= 32,
            carry <= 1,
            out@.len() == 32,
            le_val(out@.take(i as int)) + (carry as nat) * pow(256, i as nat) == le_val(
                a@.take(i as int),
            ) + le_val(b@.take(i as int)),
        decreases 32 - i,
    {
        let ghost prev_out = out@;
        let ghost prev_carry = carry as nat;
        let sum: u16 = a[i] as u16 + b[i] as u16 + carry;
        let low = #[verifier::truncate] ((sum % 256) as u8);
        out[i] = low;
        carry = sum / 256;
        proof {
            let p = pow(256, i as nat);
            vstd::arithmetic::power::lemma_pow_positive(256, i as nat);
            assert(out@.take(i as int) =~= prev_out.take(i as int));
            lemma_le_val_take_step(a@, i as int);
            lemma_le_val_take_step(b@, i as int);
            lemma_le_val_take_step(out@, i as int);
            assert(pow(256, (i + 1) as nat) == 256 * p) by {
                reveal(pow);
            }
            vstd::arithmetic::div_mod::lemma_fundamental_div_mod(sum as int, 256);
            assert(sum as nat == low as nat + 256 * (carry as nat));
            assert(carry <= 1) by {
                assert(sum < 512);
            }
            assert(le_val(out@.take(i + 1)) + (carry as nat) * (256 * p) == le_val(
                a@.take(i + 1),
            ) + le_val(b@.take(i + 1))) by (nonlinear_arith)
                requires
                    le_val(out@.take(i + 1)) == le_val(prev_out.take(i as int)) + (low as nat) * p,
                    le_val(a@.take(i + 1)) == le_val(a@.take(i as int)) + (a@[i as int] as nat)
                        * p,
                    le_val(b@.take(i + 1)) == le_val(b@.take(i as int)) + (b@[i as int] as nat)
                        * p,
                    le_val(prev_out.take(i as int)) + prev_carry * p == le_val(a@.take(i as int))
                        + le_val(b@.take(i as int)),
                    (a@[i as int] as nat) + (b@[i as int] as nat) + prev_carry == low as nat + 256
                        * (carry as nat);
        }
        i += 1;
    }
    proof {
        assert(a@.take(32) =~= a@);
        assert(b@.take(32) =~= b@);
        assert(out@.take(32) =~= out@);
        vstd::arithmetic::power::lemma_pow_positive(256, 32);
    }
    (out, carry == 1)
}

/// 256-bit subtraction: the low 32 bytes of the difference and its borrow
/// bit, set exactly when the first value is the smaller.
pub fn sub_le_bytes(a: &[u8; 32], b: &[u8; 32]) -> (r: ([u8; 32], bool))
    ensures
        le_val(r.0@) as int == le_val(a@) + (if r.1 {
            pow(256, 32)
        } else {
            0int
        }) - le_val(b@),
        r.1 == (le_val(a@) < le_val(b@)),
{
    let mut out = [0u8; 32];
    let mut borrow: u16 = 0;
    let mut i: usize = 0;
    while i < 32
        invariant
            0 <= i <= 32,
            borrow <= 1,
            out@.len() == 32,
            le_val(out@.take(i as int)) as int == le_val(a@.take(i as int)) - le_val(
                b@.take(i as int),
            ) + (borrow as int) * pow(256, i as nat),
        decreases 32 - i,
    {
        let ghost prev_out = out@;
        let ghost prev_borrow = borrow as int;
        let diff: u16 = 256 + a[i] as u16 - b[i] as u16 - borrow;
        let low = #[verifier::truncate] ((diff % 256) as u8);
        out[i] = low;
        borrow = if diff < 256 {
            1
        } else {
            0
        };
        proof {
            let p = pow(256, i as nat);
            vstd::arithmetic::power::lemma_pow_positive(256, i as nat);
            assert(out@.take(i as int) =~= prev_out.take(i as int));
            lemma_le_val_take_step(a@, i as int);
            lemma_le_val_take_step(b@, i as int);
            lemma_le_val_take_step(out@, i as int);
            assert(pow(256, (i + 1) as nat) == 256 * p) by {
                reveal(pow);
            }
            vstd::arithmetic::div_mod::lemma_fundamental_div_mod(diff as int, 256);
            assert(diff as int == low as int + 256 * ((diff as int) / 256));
            assert((diff as int) / 256 == 1 - (borrow as int)) by {
                if diff < 256 {
                    vstd::arithmetic::div_mod::lemma_basic_div(diff as int, 256);
                } else {
                    vstd::arithmetic::div_mod::lemma_fundamental_div_mod_converse(
                        diff as int,
                        256,
                        1,
                        diff as int - 256,
                    );
                }
            }
            assert(le_val(out@.take(i + 1)) as int == le_val(a@.take(i + 1)) - le_val(
                b@.take(i + 1),
            ) + (borrow as int) * (256 * p)) by (nonlinear_arith)
                requires
                    le_val(out@.take(i + 1)) == le_val(prev_out.take(i as int)) + (low as nat) * p,
                    le_val(a@.take(i + 1)) == le_val(a@.take(i as int)) + (a@[i as int] as nat)
                        * p,
                    le_val(b@.take(i + 1)) == le_val(b@.take(i as int)) + (b@[i as int] as nat)
                        * p,
                    le_val(prev_out.take(i as int)) as int == le_val(a@.take(i as int)) - le_val(
                        b@.take(i as int),
                    ) + prev_borrow * p,
                    (a@[i as int] as int) - (b@[i as int] as int) - prev_borrow == low as int - 256
                        * (borrow as int);
        }
        i += 1;
    }
    proof {
        assert(a@.take(32) =~= a@);
        assert(b@.take(32) =~= b@);
        assert(out@.take(32) =~= out@);
        vstd::arithmetic::power::lemma_pow_positive(256, 32);
        lemma_le_val_upper(out@);
        lemma_le_val_upper(a@);
        if (le_val(a@) >= le_val(b@)) && borrow == 1 {
            assert((le_val(out@) as int) >= pow(256, 32));
        }
        if (le_val(a@) < le_val(b@)) && borrow == 0 {
            assert((le_val(out@) as int) < 0);
        }
    }
    (out, borrow == 1)
}

/// Equal-length byte strings of equal value are equal: the encoding is
/// canonical.
pub proof fn lemma_le_val_injective(a: Seq<u8>, b: Seq<u8>)
    requires
        a.len() == b.len(),
        le_val(a) == le_val(b),
    ensures
        a == b,
    decreases a.len(),
{
    if a.len() == 0 {
        assert(a =~= b);
    } else {
        let ra = le_val(a.skip(1));
        let rb = le_val(b.skip(1));
        assert(le_val(a) == a[0] as nat + 256 * ra);
        assert(le_val(b) == b[0] as nat + 256 * rb);
        assert((a[0] as nat + 256 * ra) % 256 == a[0] as nat) by (nonlinear_arith)
            requires a[0] < 256;
        assert((b[0] as nat + 256 * rb) % 256 == b[0] as nat) by (nonlinear_arith)
            requires b[0] < 256;
        assert(a[0] == b[0]);
        assert(ra == rb);
        lemma_le_val_injective(a.skip(1), b.skip(1));
        assert forall|i: int| 0 <= i < a.len() implies a[i] == b[i] by {
            if i > 0 {
                assert(a.skip(1)[i - 1] == b.skip(1)[i - 1]);
            }
        }
        assert(a =~= b);
    }
}

/// A byte-wise comparison decides the value order: with the bytes above
/// position `i` equal and byte `i` smaller, the value is smaller.
pub proof fn lemma_le_val_lt(a: Seq<u8>, b: Seq<u8>, i: int)
    requires
        a.len() == b.len(),
        0 <= i < a.len(),
        a[i] < b[i],
        forall|j: int| i < j < a.len() ==> a[j] == b[j],
    ensures
        le_val(a) < le_val(b),
    decreases a.len(),
{
    let n = a.len() as int;
    if i == n - 1 {
        lemma_le_val_last(a);
        lemma_le_val_last(b);
        lemma_le_val_upper(a.take(n - 1));
        vstd::arithmetic::power::lemma_pow_positive(256, (n - 1) as nat);
        let p = pow(256, (n - 1) as nat);
        assert(le_val(a) < (a[i] + 1) * p) by (nonlinear_arith)
            requires
                le_val(a) == le_val(a.take(n - 1)) + a[i] * p,
                le_val(a.take(n - 1)) < p;
        assert((a[i] + 1) * p <= b[i] * p) by (nonlinear_arith)
            requires a[i] + 1 <= b[i], p > 0;
        lemma_le_val_digit_lower(b, n - 1);
    } else {
        lemma_le_val_last(a);
        lemma_le_val_last(b);
        assert(a[n - 1] == b[n - 1]);
        lemma_le_val_lt(a.take(n - 1), b.take(n - 1), i);
    }
}

/// Compares the values of two equal-length little-endian byte arrays.
pub fn le_bytes_lt<const N: usize>(a: &[u8; N], b: &[u8; N]) -> (r: bool)
    ensures
        r == (le_val(a@) < le_val(b@)),
{
    let mut i: usize = N;
    while i > 0
        invariant
            0 <= i <= N,
            forall|j: int| i <= j < N ==> a@[j] == b@[j],
        decreases i,
    {
        i = i - 1;
        if a[i] < b[i] {
            proof {
                lemma_le_val_lt(a@, b@, i as int);
            }
            return true;
        }
        if a[i] > b[i] {
            proof {
                lemma_le_val_lt(b@, a@, i as int);
            }
            return false;
        }
    }
    proof {
        assert(a@ =~= b@);
    }
    false
}

/// Copies a fixed-size byte array into a vector.
pub fn bytes_to_vec<const N: usize>(a: &[u8; N]) -> (r: Vec<u8>)
    ensures
        r@ == a@,
{
    let mut r: Vec<u8> = Vec::new();
    let mut i: usize = 0;
    while i < N
        invariant
            0 <= i <= N,
            r@.len() == i,
            forall|j: int| 0 <= j < i ==> r@[j] == a@[j],
        decreases N - i,
    {
        r.push(a[i]);
        i += 1;
    }
    proof {
        assert(r@ =~= a@);
    }
    r
}

/// Byte-for-byte equality of two fixed-size arrays.
pub fn bytes_eq<const N: usize>(a: &[u8; N], b: &[u8; N]) -> (r: bool)
    ensures
        r == (a@ == b@),
{
    let mut i: usize = 0;
    while i < N
        invariant
            0 <= i <= N,
            forall|j: int| 0 <= j < i ==> a@[j] == b@[j],
        decreases N - i,
    {
        if a[i] != b[i] {
            return false;
        }
        i += 1;
    }
    proof {
        assert(a@ =~= b@);
    }
    true
}

/// Appends a fixed-size byte array to a vector.
pub fn extend_from_array<const N: usize>(v: &mut Vec<u8>, a: &[u8; N])
    ensures
        final(v)@ == old(v)@ + a@,
{
    let ghost orig = v@;
    let mut i: usize = 0;
    while i < N
        invariant
            0 <= i <= N,
            v@.len() == orig.len() + i,
            forall|j: int| 0 <= j < orig.len() ==> v@[j] == orig[j],
            forall|j: int| 0 <= j < i ==> v@[orig.len() + j] == a@[j],
        decreases N - i,
    {
        v.push(a[i]);
        i += 1;
    }
    proof {
        assert(v@ =~= orig + a@);
    }
}

/// The low bit of the value is the low bit of the first byte.
pub proof fn lemma_le_val_parity(s: Seq<u8>)
    requires
        s.len() > 0,
    ensures
        le_val(s) % 2 == (s[0] as nat) % 2,
{
    let r = le_val(s.skip(1));
    assert(le_val(s) == s[0] as nat + 256 * r);
    assert((s[0] as nat + 256 * r) % 2 == (s[0] as nat) % 2) by (nonlinear_arith);
}

/// Unrolled value of an 8-byte string; shared by the integer conversions.
pub proof fn lemma_le_val_unfold8(s: Seq<u8>)
    requires
        s.len() == 8,
    ensures
        le_val(s) == s[0] as nat + 0x100 * (s[1] as nat) + 0x10000 * (s[2] as nat)
            + 0x1000000 * (s[3] as nat) + 0x100000000 * (s[4] as nat)
            + 0x10000000000 * (s[5] as nat) + 0x1000000000000 * (s[6] as nat)
            + 0x100000000000000 * (s[7] as nat),
{
    let s1 = s.skip(1);
    let s2 = s1.skip(1);
    let s3 = s2.skip(1);
    let s4 = s3.skip(1);
    let s5 = s4.skip(1);
    let s6 = s5.skip(1);
    let s7 = s6.skip(1);
    let s8 = s7.skip(1);
    assert(s8 =~= Seq::<u8>::empty());
    assert(le_val(s8) == 0);
    assert(s7[0] == s[7]);
    assert(s6[0] == s[6]);
    assert(s5[0] == s[5]);
    assert(s4[0] == s[4]);
    assert(s3[0] == s[3]);
    assert(s2[0] == s[2]);
    assert(s1[0] == s[1]);
    assert(le_val(s7) == s[7] as nat);
    assert(le_val(s6) == s[6] as nat + 256 * le_val(s7));
    assert(le_val(s5) == s[5] as nat + 256 * le_val(s6));
    assert(le_val(s4) == s[4] as nat + 256 * le_val(s5));
    assert(le_val(s3) == s[3] as nat + 256 * le_val(s4));
    assert(le_val(s2) == s[2] as nat + 256 * le_val(s3));
    assert(le_val(s1) == s[1] as nat + 256 * le_val(s2));
    assert(le_val(s) == s[0] as nat + 256 * le_val(s1));
}

/// Little-endian encoding of a 64-bit integer.
pub fn u64_to_le_bytes(v: u64) -> (r: [u8; 8])
    ensures
        le_val(r@) == v,
        r@.len() == 8,
{
    let b0 = #[verifier::truncate] ((v & 0xff) as u8);
    let b1 = #[verifier::truncate] (((v >> 8) & 0xff) as u8);
    let b2 = #[verifier::truncate] (((v >> 16) & 0xff) as u8);
    let b3 = #[verifier::truncate] (((v >> 24) & 0xff) as u8);
    let b4 = #[verifier::truncate] (((v >> 32) & 0xff) as u8);
    let b5 = #[verifier::truncate] (((v >> 40) & 0xff) as u8);
    let b6 = #[verifier::truncate] (((v >> 48) & 0xff) as u8);
    let b7 = #[verifier::truncate] (((v >> 56) & 0xff) as u8);
    let r = [b0, b1, b2, b3, b4, b5, b6, b7];
    proof {
        assert(v as nat == (v & 0xff) as nat + 0x100 * (((v >> 8) & 0xff) as nat)
            + 0x10000 * (((v >> 16) & 0xff) as nat) + 0x1000000 * (((v >> 24) & 0xff) as nat)
            + 0x100000000 * (((v >> 32) & 0xff) as nat)
            + 0x10000000000 * (((v >> 40) & 0xff) as nat)
            + 0x1000000000000 * (((v >> 48) & 0xff) as nat)
            + 0x100000000000000 * (((v >> 56) & 0xff) as nat)) by (bit_vector);
        assert((v & 0xff) < 0x100 && ((v >> 8) & 0xff) < 0x100 && ((v >> 16) & 0xff) < 0x100
            && ((v >> 24) & 0xff) < 0x100 && ((v >> 32) & 0xff) < 0x100
            && ((v >> 40) & 0xff) < 0x100 && ((v >> 48) & 0xff) < 0x100
            && ((v >> 56) & 0xff) < 0x100) by (bit_vector);
        assert(r@[0] == b0 && r@[1] == b1 && r@[2] == b2 && r@[3] == b3 && r@[4] == b4
            && r@[5] == b5 && r@[6] == b6 && r@[7] == b7);
        lemma_le_val_unfold8(r@);
    }
    r
}

/// The 64-bit integer denoted by an 8-byte little-endian string.
pub fn u64_from_le_bytes(b: &[u8; 8]) -> (r: u64)
    ensures
        r == le_val(b@),
{
    let b0 = b[0] as u64;
    let b1 = b[1] as u64;
    let b2 = b[2] as u64;
    let b3 = b[3] as u64;
    let b4 = b[4] as u64;
    let b5 = b[5] as u64;
    let b6 = b[6] as u64;
    let b7 = b[7] as u64;
    let r = b0 | (b1 << 8) | (b2 << 16) | (b3 << 24) | (b4 << 32) | (b5 << 40) | (b6 << 48)
        | (b7 << 56);
    proof {
        assert(b0 | (b1 << 8) | (b2 << 16) | (b3 << 24) | (b4 << 32) | (b5 << 40) | (b6 << 48)
            | (b7 << 56) == b0 + 0x100 * b1 + 0x10000 * b2 + 0x1000000 * b3 + 0x100000000 * b4
            + 0x10000000000 * b5 + 0x1000000000000 * b6 + 0x100000000000000 * b7) by (bit_vector)
            requires
                b0 < 0x100 && b1 < 0x100 && b2 < 0x100 && b3 < 0x100 && b4 < 0x100 && b5 < 0x100
                    && b6 < 0x100 && b7 < 0x100;
        lemma_le_val_unfold8(b@);
    }
    r
}

} // verus!
