//! The elliptic-curve group used for the protocol's generated parameters:
//! the short-Weierstrass curve `y^2 = x^3 + 5` over the circuit field, with
//! points held in Jacobian projective coordinates.
//!
//! The square-root search is specified as a function of its input
//! (`sqrt_even_spec`), and the executable Tonelli-Shanks code is proved to
//! compute exactly that function, so decompression succeeds and fails
//! deterministically.

use vstd::prelude::*;
use crate::bytes::le_val;
use crate::field::{
    fadd, fe_val, fe_wf, field_modulus, fmul, fsub, lemma_fe_value_determines_bytes,
    lemma_modulus_facts, FieldElement,
};
use vstd::arithmetic::div_mod::{
    lemma_fundamental_div_mod, lemma_mod_multiples_basic, lemma_mod_multiples_vanish,
    lemma_small_mod,
};
use vstd::arithmetic::power::pow;

verus! {

/// A curve point in Jacobian projective coordinates.
#[derive(Clone, Copy, PartialEq, Eq, Debug)]
pub struct Point {
    pub x: FieldElement,
    pub y: FieldElement,
    pub z: FieldElement,
}

pub open spec fn pt_wf(p: Point) -> bool {
    fe_wf(p.x) && fe_wf(p.y) && fe_wf(p.z)
}

pub open spec fn pt_vals(p: Point) -> (nat, nat, nat) {
    (fe_val(p.x), fe_val(p.y), fe_val(p.z))
}

/// An affine point on `y^2 = x^3 + 5`.
pub open spec fn on_curve_affine(x: nat, y: nat) -> bool {
    fmul(y, y) == fadd(fmul(fmul(x, x), x), 5)
}

/// One Jacobian doubling on `y^2 = x^3 + b` with `a = 0` (the `dbl-2009-l`
/// formulas).
pub open spec fn pt_double_vals(v: (nat, nat, nat)) -> (nat, nat, nat) {
    let (x, y, z) = v;
    let a = fmul(x, x);
    let b = fmul(y, y);
    let c = fmul(b, b);
    let xb = fadd(x, b);
    let t = fsub(fsub(fmul(xb, xb), a), c);
    let d = fadd(t, t);
    let e = fadd(fadd(a, a), a);
    let f = fmul(e, e);
    let x3 = fsub(f, fadd(d, d));
    let c2 = fadd(c, c);
    let c4 = fadd(c2, c2);
    let c8 = fadd(c4, c4);
    let y3 = fsub(fmul(e, fsub(d, x3)), c8);
    let z3 = fmul(fadd(y, y), z);
    (x3, y3, z3)
}

/// `n` successive doublings.
pub open spec fn pt_double_n(v: (nat, nat, nat), n: nat) -> (nat, nat, nat)
    decreases n,
{
    if n == 0 {
        v
    } else {
        pt_double_vals(pt_double_n(v, (n - 1) as nat))
    }
}

impl Point {
    /// The point doubled.
    pub fn double(&self) -> (r: Point)
        requires
            pt_wf(*self),
        ensures
            pt_wf(r),
            pt_vals(r) == pt_double_vals(pt_vals(*self)),
    {
        let a = self.x.mul(&self.x);
        let b = self.y.mul(&self.y);
        let c = b.mul(&b);
        let xb = self.x.add(&b);
        let t = xb.mul(&xb).sub(&a).sub(&c);
        let d = t.add(&t);
        let e = a.add(&a).add(&a);
        let f = e.mul(&e);
        let x3 = f.sub(&d.add(&d));
        let c2 = c.add(&c);
        let c4 = c2.add(&c2);
        let c8 = c4.add(&c4);
        let y3 = e.mul(&d.sub(&x3)).sub(&c8);
        let z3 = self.y.add(&self.y).mul(&self.z);
        Point { x: x3, y: y3, z: z3 }
    }
}

/// Squaring is unchanged by field negation.
proof fn lemma_neg_square(v: nat)
    requires
        0 < v < field_modulus(),
    ensures
        fmul(fsub(0, v), fsub(0, v)) == fmul(v, v),
        v % 2 == 1 ==> fsub(0, v) % 2 == 0,
{
    let q = field_modulus() as int;
    lemma_modulus_facts();
    lemma_small_mod((q - v) as nat, q as nat);
    assert(fsub(0, v) == q - v);
    assert((q - v) * (q - v) == q * (q - 2 * v) + v * v) by (nonlinear_arith);
    lemma_mod_multiples_vanish(q - 2 * v, (v * v) as int, q);
    assert(((q - v) * (q - v)) % q == ((v * v) as int) % q);
    if v % 2 == 1 {
        lemma_fundamental_div_mod(q, 2);
        lemma_fundamental_div_mod(v as int, 2);
        assert(q - v == 2 * (q / 2 - v / 2));
        lemma_mod_multiples_basic(q / 2 - (v as int) / 2, 2);
        assert((2 * (q / 2 - v / 2)) % 2 == 0) by {
            assert(2 * (q / 2 - v / 2) == (q / 2 - (v as int) / 2) * 2);
        }
    }
}

// ---------------------------------------------------------------------------
// The square-root search, as a function of its input
// ---------------------------------------------------------------------------

/// Exponentiation in the field.
pub open spec fn fpow(a: nat, e: nat) -> nat {
    (pow(a as int, e) % (field_modulus() as int)) as nat
}

/// Little-endian bytes of `t`, the odd part of the modulus minus one
/// (`q - 1 = 2^33 * t`).
pub open spec fn sqrt_t_exp() -> Seq<u8> {
    seq![
        113u8, 50u8, 160u8, 208u8, 220u8, 172u8, 31u8, 182u8, 147u8, 80u8, 197u8, 1u8, 0u8, 0u8,
        0u8, 0u8, 0u8, 0u8, 0u8, 0u8, 0u8, 0u8, 0u8, 0u8, 0u8, 0u8, 0u8, 32u8, 0u8, 0u8, 0u8, 0u8,
    ]
}

/// Little-endian bytes of `(t + 1) / 2`.
pub open spec fn sqrt_t1h_exp() -> Seq<u8> {
    seq![
        57u8, 25u8, 80u8, 104u8, 110u8, 214u8, 15u8, 219u8, 73u8, 168u8, 226u8, 0u8, 0u8, 0u8,
        0u8, 0u8, 0u8, 0u8, 0u8, 0u8, 0u8, 0u8, 0u8, 0u8, 0u8, 0u8, 0u8, 16u8, 0u8, 0u8, 0u8, 0u8,
    ]
}

pub open spec fn t_val() -> nat {
    le_val(sqrt_t_exp())
}

pub open spec fn t1h_val() -> nat {
    le_val(sqrt_t1h_exp())
}

/// `w` squared `k` times in the field, that is `w^(2^k)`.
pub open spec fn fsq_iter(w: nat, k: nat) -> nat
    decreases k,
{
    if k == 0 {
        w
    } else {
        let p = fsq_iter(w, (k - 1) as nat);
        fmul(p, p)
    }
}

/// The least exponent `i` in `start..m` with `w^(2^i) == 1`, if any.
pub open spec fn ts_find_i(w: nat, start: nat, m: nat) -> Option<nat>
    decreases m - start,
{
    if start >= m {
        None
    } else if fsq_iter(w, start) == 1 {
        Some(start)
    } else {
        ts_find_i(w, start + 1, m)
    }
}

proof fn lemma_ts_find_found(w: nat, start: nat, m: nat, i: nat)
    requires
        start <= i < m,
        fsq_iter(w, i) == 1,
        forall|j: nat| start <= j < i ==> #[trigger] fsq_iter(w, j) != 1,
    ensures
        ts_find_i(w, start, m) == Some(i),
    decreases i - start,
{
    if start < i {
        assert(fsq_iter(w, start) != 1);
        lemma_ts_find_found(w, start + 1, m, i);
    }
}

proof fn lemma_ts_find_none(w: nat, start: nat, m: nat)
    requires
        forall|j: nat| start <= j < m ==> #[trigger] fsq_iter(w, j) != 1,
    ensures
        ts_find_i(w, start, m) == None::<nat>,
    decreases m - start,
{
    if start < m {
        assert(fsq_iter(w, start) != 1);
        lemma_ts_find_none(w, start + 1, m);
    }
}

/// One full Tonelli-Shanks descent from the state `(x, w, c, m)`: the
/// candidate root once `w` reaches one, or nothing when no reducing
/// exponent exists.
pub open spec fn ts_loop(x: nat, w: nat, c: nat, m: nat) -> Option<nat>
    decreases m,
{
    if w == 1 {
        Some(x)
    } else {
        match ts_find_i(w, 1, m) {
            Option::None => None,
            Option::Some(i) => if i < m {
                let b = fsq_iter(c, (m - i - 1) as nat);
                ts_loop(fmul(x, b), fmul(w, fmul(b, b)), fmul(b, b), i)
            } else {
                None
            },
        }
    }
}

/// The candidate the descent produced, kept only if it actually squares to
/// `a`, even-ized by negation.
pub open spec fn sqrt_result(search: Option<nat>, a: nat) -> Option<nat> {
    match search {
        Option::None => None,
        Option::Some(x) => if fmul(x, x) == a {
            if x % 2 == 0 {
                Some(x)
            } else {
                Some(fsub(0, x))
            }
        } else {
            None
        },
    }
}

/// The even square root of `a` the search finds: a function of `a` alone,
/// so regeneration is deterministic.
pub open spec fn sqrt_even_spec(a: nat) -> Option<nat> {
    if a == 0 {
        Some(0nat)
    } else {
        sqrt_result(
            ts_loop(fpow(a, t1h_val()), fpow(a, t_val()), fpow(5, t_val()), 33),
            a,
        )
    }
}

/// The even square root of `a` in the field, if the search finds one: a
/// Tonelli-Shanks descent whose candidate is checked by an explicit
/// squaring, proved equal to `sqrt_even_spec`.
pub fn sqrt_even(a: &FieldElement) -> (r: Option<FieldElement>)
    requires
        fe_wf(*a),
    ensures
        r matches Some(y) ==> fe_wf(y) && fmul(fe_val(y), fe_val(y)) == fe_val(*a) && fe_val(y) % 2
            == 0,
        r matches Some(y) ==> sqrt_even_spec(fe_val(*a)) == Some(fe_val(y)),
        r is None ==> sqrt_even_spec(fe_val(*a)) is None,
{
    let ghost av = fe_val(*a);
    let zero = FieldElement::zero();
    if a.eq_fe(&zero) {
        proof {
            lemma_modulus_facts();
            lemma_small_mod(0, field_modulus());
        }
        return Some(zero);
    }
    proof {
        if av == 0 {
            lemma_fe_value_determines_bytes(*a, zero);
        }
    }
    let t_exp: [u8; 32] = [
        113u8, 50, 160, 208, 220, 172, 31, 182, 147, 80, 197, 1, 0, 0, 0, 0, 0, 0, 0, 0, 0, 0, 0,
        0, 0, 0, 0, 32, 0, 0, 0, 0,
    ];
    let t1h_exp: [u8; 32] = [
        57u8, 25, 80, 104, 110, 214, 15, 219, 73, 168, 226, 0, 0, 0, 0, 0, 0, 0, 0, 0, 0, 0, 0, 0,
        0, 0, 0, 16, 0, 0, 0, 0,
    ];
    proof {
        assert(t_exp@ =~= sqrt_t_exp());
        assert(t1h_exp@ =~= sqrt_t1h_exp());
    }
    let one = FieldElement::one();
    // 5 is the smallest quadratic non-residue of this field.
    let nonres = FieldElement::from_u64(5);
    let mut c = nonres.pow_fe(&t_exp);
    let mut w = a.pow_fe(&t_exp);
    let mut x = a.pow_fe(&t1h_exp);
    let mut m: usize = 33;
    let ghost x0v = fe_val(x);
    let ghost w0v = fe_val(w);
    let ghost c0v = fe_val(c);
    loop
        invariant
            fe_wf(c),
            fe_wf(w),
            fe_wf(x),
            fe_wf(one),
            fe_val(one) == 1,
            fe_wf(zero),
            fe_val(zero) == 0,
            fe_wf(*a),
            m <= 33,
            av == fe_val(*a),
            av != 0,
            x0v == fpow(av, t1h_val()),
            w0v == fpow(av, t_val()),
            c0v == fpow(5, t_val()),
            ts_loop(fe_val(x), fe_val(w), fe_val(c), m as nat) == ts_loop(x0v, w0v, c0v, 33),
        decreases m,
    {
        let ghost xv = fe_val(x);
        let ghost wv = fe_val(w);
        let ghost cv = fe_val(c);
        let ghost mv = m as nat;
        if w.eq_fe(&one) {
            proof {
                assert(wv == 1);
                assert(ts_loop(xv, wv, cv, mv) == Some(xv));
                assert(sqrt_even_spec(av) == sqrt_result(Some(xv), av));
            }
            let sq = x.mul(&x);
            if sq.eq_fe(a) {
                if x.is_even() {
                    return Some(x);
                } else {
                    let y = zero.sub(&x);
                    proof {
                        lemma_neg_square(fe_val(x));
                    }
                    return Some(y);
                }
            } else {
                proof {
                    if fmul(xv, xv) == av {
                        lemma_fe_value_determines_bytes(sq, *a);
                    }
                }
                return None;
            }
        }
        proof {
            if wv == 1 {
                lemma_fe_value_determines_bytes(w, one);
            }
        }
        // Least exponent i in 1..m with w^(2^i) == 1.
        let mut w2 = w.mul(&w);
        let mut i: usize = 1;
        proof {
            assert(fsq_iter(wv, 0) == wv);
            assert(fsq_iter(wv, 1) == fmul(wv, wv));
        }
        while i < m && !w2.eq_fe(&one)
            invariant
                fe_wf(w2),
                fe_wf(one),
                fe_val(one) == 1,
                1 <= i <= 33,
                m <= 33,
                wv == fe_val(w),
                fe_val(w2) == fsq_iter(wv, i as nat),
                forall|j: nat| 1 <= j < i ==> #[trigger] fsq_iter(wv, j) != 1,
            decreases m - i,
        {
            proof {
                if fe_val(w2) == 1 {
                    lemma_fe_value_determines_bytes(w2, one);
                }
            }
            proof {
                assert(fsq_iter(wv, (i + 1) as nat) == fmul(
                    fsq_iter(wv, i as nat),
                    fsq_iter(wv, i as nat),
                ));
            }
            w2 = w2.mul(&w2);
            i += 1;
        }
        if i >= m {
            proof {
                if fe_val(w2) == 1 {
                    lemma_fe_value_determines_bytes(w2, one);
                }
                assert(forall|j: nat| 1 <= j < mv ==> #[trigger] fsq_iter(wv, j) != 1);
                lemma_ts_find_none(wv, 1, mv);
                assert(ts_loop(xv, wv, cv, mv) is None);
                assert(sqrt_even_spec(av) == sqrt_result(None, av));
            }
            return None;
        }
        proof {
            assert(fe_val(w2) == 1);
            lemma_ts_find_found(wv, 1, mv, i as nat);
        }
        let mut b = c;
        let steps = m - i - 1;
        let mut j: usize = 0;
        while j < steps
            invariant
                fe_wf(b),
                j <= steps,
                cv == fe_val(c),
                fe_val(b) == fsq_iter(cv, j as nat),
            decreases steps - j,
        {
            b = b.mul(&b);
            j += 1;
        }
        proof {
            let bv = fe_val(b);
            assert(bv == fsq_iter(cv, (mv - i - 1) as nat));
            assert(ts_loop(xv, wv, cv, mv) == ts_loop(
                fmul(xv, bv),
                fmul(wv, fmul(bv, bv)),
                fmul(bv, bv),
                i as nat,
            ));
        }
        m = i;
        c = b.mul(&b);
        w = w.mul(&c);
        x = x.mul(&b);
    }
}

/// The even-y completion of an x-coordinate, as a function of `x` alone.
pub open spec fn decompress_even_y(x: nat) -> Option<nat> {
    sqrt_even_spec(fadd(fmul(fmul(x, x), x), 5))
}

/// Attempts to complete an x-coordinate into the affine point with the even
/// y-coordinate, as the decompression step of hash-to-curve asks; succeeds
/// and fails exactly as `decompress_even_y` says.
pub fn decompress_even(x: &FieldElement) -> (r: Option<Point>)
    requires
        fe_wf(*x),
    ensures
        r matches Some(p) ==> pt_wf(p) && p.x == *x && fe_val(p.z) == 1 && on_curve_affine(
            fe_val(p.x),
            fe_val(p.y),
        ) && fe_val(p.y) % 2 == 0,
        r matches Some(p) ==> decompress_even_y(fe_val(*x)) == Some(fe_val(p.y)),
        r is None ==> decompress_even_y(fe_val(*x)) is None,
{
    let x2 = x.mul(x);
    let x3 = x2.mul(x);
    let five = FieldElement::from_u64(5);
    let rhs = x3.add(&five);
    match sqrt_even(&rhs) {
        Some(y) => Some(Point { x: *x, y, z: FieldElement::one() }),
        None => None,
    }
}

} // verus!
