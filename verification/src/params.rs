//! Deterministic parameter generation: hash-to-curve over human-readable
//! tags, the protocol's null public key and signature, and the windowed
//! generator table of the vector-commitment scheme.

use vstd::prelude::*;
use crate::bytes::{extend_from_array, le_val};
use crate::curve::{
    decompress_even_y, on_curve_affine, pt_double_n, pt_double_vals, pt_vals, pt_wf, Point,
};
use crate::error::CswError;
use crate::field::{
    bytes_below_modulus, fe_val, field_modulus, lemma_fe_value_determines_bytes, FieldElement,
};
use crate::hashing::{blake2s_of, blake2s_personal};

verus! {

pub const SC_PUBLIC_KEY_LENGTH: usize = 32;

pub const SC_SECRET_KEY_LENGTH: usize = 32;

pub const MST_MERKLE_TREE_HEIGHT: usize = 22;

/// The fixed first block fed to every group-hash invocation, ahead of the
/// tag: an ASCII hex string with no known structure on the curve.
pub open spec fn gh_first_block() -> Seq<u8> {
    seq![
        48u8, 57u8, 54u8, 98u8, 51u8, 54u8, 97u8, 53u8, 56u8, 48u8, 52u8, 98u8, 102u8, 97u8, 99u8,
        101u8, 102u8, 49u8, 54u8, 57u8, 49u8, 101u8, 49u8, 55u8, 51u8, 99u8, 51u8, 54u8, 54u8,
        97u8, 52u8, 55u8, 102u8, 102u8, 53u8, 98u8, 97u8, 56u8, 52u8, 97u8, 52u8, 52u8, 102u8,
        50u8, 54u8, 100u8, 100u8, 100u8, 55u8, 101u8, 56u8, 100u8, 57u8, 102u8, 55u8, 57u8, 100u8,
        53u8, 98u8, 52u8, 50u8, 100u8, 102u8, 48u8,
    ]
}

pub fn gh_first_block_bytes() -> (r: [u8; 64])
    ensures
        r@ == gh_first_block(),
{
    let r: [u8; 64] = [
        48u8, 57, 54, 98, 51, 54, 97, 53, 56, 48, 52, 98, 102, 97, 99, 101, 102, 49, 54, 57, 49,
        101, 49, 55, 51, 99, 51, 54, 54, 97, 52, 55, 102, 102, 53, 98, 97, 56, 52, 97, 52, 52,
        102, 50, 54, 100, 100, 100, 55, 101, 56, 100, 57, 102, 55, 57, 100, 53, 98, 52, 50, 100,
        102, 48,
    ];
    proof {
        assert(r@ =~= gh_first_block());
    }
    r
}

/// The byte string hashed for a tag at a given retry counter.
pub open spec fn group_hash_message(tag: Seq<u8>, counter: u8) -> Seq<u8> {
    gh_first_block() + tag + seq![counter]
}

/// The candidate x-coordinate a tag yields at a retry counter: the
/// personalized digest of the counter-extended tag, its shave bit masked
/// off, accepted only when canonical in the field.
pub open spec fn htc_x_candidate(personal: Seq<u8>, tag: Seq<u8>, counter: u8) -> Option<nat> {
    let digest = blake2s_of(personal, group_hash_message(tag, counter));
    let masked = digest.update(31, digest[31] & 0x7f);
    if le_val(masked) < field_modulus() {
        Some(le_val(masked))
    } else {
        None
    }
}

/// The point a single retry counter yields, if its candidate is canonical
/// and decompresses.
pub open spec fn htc_attempt(personal: Seq<u8>, tag: Seq<u8>, c: u8) -> Option<(nat, nat)> {
    match htc_x_candidate(personal, tag, c) {
        Option::None => None,
        Option::Some(x) => match decompress_even_y(x) {
            Option::None => None,
            Option::Some(y) => Some((x, y)),
        },
    }
}

/// The first counter from `c` on that yields a point.
pub open spec fn htc_search(personal: Seq<u8>, tag: Seq<u8>, c: nat) -> Option<(nat, nat)>
    decreases 256 - c,
{
    if c >= 256 {
        None
    } else {
        match htc_attempt(personal, tag, c as u8) {
            Option::Some(p) => Some(p),
            Option::None => htc_search(personal, tag, c + 1),
        }
    }
}

/// The point hash-to-curve derives for a tag: the first counter's success,
/// a function of the tag and personalization alone.
pub open spec fn htc_point(personal: Seq<u8>, tag: Seq<u8>) -> Option<(nat, nat)> {
    htc_search(personal, tag, 0)
}

/// What the hash-to-curve procedure guarantees of a produced point for a
/// given tag: the affine even-y curve point of the first successful retry
/// counter.
pub open spec fn htc_point_ok(personal: Seq<u8>, tag: Seq<u8>, p: Point) -> bool {
    &&& pt_wf(p)
    &&& fe_val(p.z) == 1
    &&& fe_val(p.y) % 2 == 0
    &&& on_curve_affine(fe_val(p.x), fe_val(p.y))
    &&& htc_point(personal, tag) == Some((fe_val(p.x), fe_val(p.y)))
}

/// A tag exhausts only when every retry counter fails: its candidate is
/// not canonical in the field, or admits no even-y curve point.
pub proof fn lemma_htc_exhaustion(personal: Seq<u8>, tag: Seq<u8>)
    requires
        htc_point(personal, tag) is None,
    ensures
        forall|c: u8| #[trigger] htc_attempt(personal, tag, c) is None,
{
    assert forall|c: u8| #[trigger] htc_attempt(personal, tag, c) is None by {
        lemma_htc_search_none(personal, tag, 0, c as nat);
    }
}

proof fn lemma_htc_search_none(personal: Seq<u8>, tag: Seq<u8>, from: nat, c: nat)
    requires
        htc_search(personal, tag, from) is None,
        from <= c < 256,
    ensures
        htc_attempt(personal, tag, c as u8) is None,
    decreases c - from,
{
    if from < c {
        lemma_htc_search_none(personal, tag, from + 1, c);
    }
}

/// Hash-to-curve is deterministic: any two points carrying a tag's
/// guarantee are equal.
pub proof fn lemma_hash_to_curve_deterministic(
    personal: Seq<u8>,
    tag: Seq<u8>,
    p1: Point,
    p2: Point,
)
    requires
        htc_point_ok(personal, tag, p1),
        htc_point_ok(personal, tag, p2),
    ensures
        p1 == p2,
{
    lemma_fe_value_determines_bytes(p1.x, p2.x);
    lemma_fe_value_determines_bytes(p1.y, p2.y);
    lemma_fe_value_determines_bytes(p1.z, p2.z);
}

/// Deterministically maps a tag to a curve point: hash the tag under the
/// personalization with a retry counter appended, mask the digest into the
/// field, and decompress to the even-y point, retrying on failure until the
/// one-byte counter is exhausted.  The result is exactly `htc_point`: the
/// first counter's success, or exhaustion when all 256 counters fail.
///
/// The derivation chains as many 32-byte digests as the field's bit size
/// plus its shave bit demand; at 255 + 1 bits that is exactly one digest,
/// so the chain degenerates to a single hash per counter.
pub fn hash_to_curve(tag: &Vec<u8>, personal: &[u8; 8]) -> (r: Result<Point, CswError>)
    ensures
        r matches Ok(p) ==> htc_point_ok(personal@, tag@, p),
        r is Err <==> htc_point(personal@, tag@) is None,
        r is Err ==> r == Err::<Point, CswError>(CswError::ParameterGenerationExhausted),
{
    let first_block = gh_first_block_bytes();
    let mut c: usize = 0;
    while c < 256
        invariant
            c <= 256,
            first_block@ == gh_first_block(),
            htc_point(personal@, tag@) == htc_search(personal@, tag@, c as nat),
        decreases 256 - c,
    {
        let mut msg: Vec<u8> = Vec::new();
        extend_from_array(&mut msg, &first_block);
        proof {
            assert(msg@ =~= gh_first_block());
            assert(gh_first_block() + tag@.take(0) =~= gh_first_block());
        }
        let n = tag.len();
        let mut k: usize = 0;
        while k < n
            invariant
                0 <= k <= n,
                n == tag@.len(),
                msg@ == gh_first_block() + tag@.take(k as int),
            decreases n - k,
        {
            msg.push(tag[k]);
            proof {
                assert(gh_first_block() + tag@.take(k + 1) =~= (gh_first_block() + tag@.take(
                    k as int,
                )).push(tag@[k as int]));
            }
            k += 1;
        }
        let counter = c as u8;
        msg.push(counter);
        proof {
            assert(tag@.take(n as int) =~= tag@);
            assert(msg@ =~= group_hash_message(tag@, counter));
        }
        let digest = blake2s_personal(personal, &msg);
        let mut masked = digest;
        masked[31] = masked[31] & 0x7f;
        proof {
            assert(masked@ =~= digest@.update(31, digest@[31] & 0x7f));
        }
        if bytes_below_modulus(&masked) {
            let fe = FieldElement { le: masked };
            match crate::curve::decompress_even(&fe) {
                Some(p) => {
                    proof {
                        assert(htc_x_candidate(personal@, tag@, counter) == Some(fe_val(p.x)));
                        assert(htc_attempt(personal@, tag@, counter) == Some(
                            (fe_val(p.x), fe_val(p.y)),
                        ));
                    }
                    return Ok(p);
                },
                None => {
                    proof {
                        assert(htc_attempt(personal@, tag@, counter) is None);
                    }
                },
            }
        } else {
            proof {
                assert(htc_attempt(personal@, tag@, counter) is None);
            }
        }
        c += 1;
    }
    Err(CswError::ParameterGenerationExhausted)
}

// ---------------------------------------------------------------------------
// Null public key and signature
// ---------------------------------------------------------------------------

/// A Schnorr signature over field elements.
#[derive(Clone, Copy, PartialEq, Eq, Debug)]
pub struct SchnorrSig {
    pub e: FieldElement,
    pub s: FieldElement,
}

impl SchnorrSig {
    pub fn new(e: FieldElement, s: FieldElement) -> (r: SchnorrSig)
        ensures
            r.e == e,
            r.s == s,
    {
        SchnorrSig { e, s }
    }
}

/// A Schnorr public key: a point of the parameter curve.
#[derive(Clone, Copy, PartialEq, Eq, Debug)]
pub struct SchnorrPk(pub Point);

/// The tag of the protocol's null public key.
pub open spec fn null_pk_tag() -> Seq<u8> {
    seq![
        83u8, 116u8, 114u8, 111u8, 110u8, 116u8, 105u8, 117u8, 109u8, 32u8, 83u8, 114u8, 32u8,
        57u8, 48u8,
    ]  // "Strontium Sr 90"
}

/// Domain separator of null-public-key generation.
pub open spec fn null_pk_personal() -> Seq<u8> {
    seq![78u8, 117u8, 108u8, 80u8, 107u8, 71u8, 101u8, 110u8]  // "NulPkGen"
}

pub fn null_pk_personal_bytes() -> (r: [u8; 8])
    ensures
        r@ == null_pk_personal(),
{
    let r: [u8; 8] = [78u8, 117, 108, 80, 107, 71, 101, 110];
    proof {
        assert(r@ =~= null_pk_personal());
    }
    r
}

pub fn null_pk_tag_bytes() -> (r: Vec<u8>)
    ensures
        r@ == null_pk_tag(),
{
    let a: [u8; 15] = [83u8, 116, 114, 111, 110, 116, 105, 117, 109, 32, 83, 114, 32, 57, 48];
    proof {
        assert(a@ =~= null_pk_tag());
    }
    crate::bytes::bytes_to_vec(&a)
}

/// The degenerate signature paired with the null key, and the null public
/// key itself, derived once at initialization.
pub struct NaiveThresholdSigParams {
    pub null_sig: SchnorrSig,
    pub null_pk: SchnorrPk,
}

/// Everything the null-key constructor promises of a produced parameter
/// set; it pins each component, so any two such sets are equal.
pub open spec fn null_params_ok(p: NaiveThresholdSigParams) -> bool {
    &&& crate::field::fe_wf(p.null_sig.e) && fe_val(p.null_sig.e) == 1
    &&& crate::field::fe_wf(p.null_sig.s) && fe_val(p.null_sig.s) == 1
    &&& htc_point_ok(null_pk_personal(), null_pk_tag(), p.null_pk.0)
}

/// Null-key generation is deterministic (regeneration yields the same
/// signature sentinel and public key).
pub proof fn lemma_null_params_deterministic(
    p1: NaiveThresholdSigParams,
    p2: NaiveThresholdSigParams,
)
    requires
        null_params_ok(p1),
        null_params_ok(p2),
    ensures
        p1.null_sig == p2.null_sig,
        p1.null_pk == p2.null_pk,
{
    lemma_fe_value_determines_bytes(p1.null_sig.e, p2.null_sig.e);
    lemma_fe_value_determines_bytes(p1.null_sig.s, p2.null_sig.s);
    lemma_hash_to_curve_deterministic(null_pk_personal(), null_pk_tag(), p1.null_pk.0, p2.null_pk.0);
}

impl NaiveThresholdSigParams {
    /// Derives the null key pair: a sentinel signature of two field ones and
    /// the hash-to-curve point of the null-key tag.
    pub fn new() -> (r: Result<NaiveThresholdSigParams, CswError>)
        ensures
            r matches Ok(p) ==> null_params_ok(p),
            r is Err <==> htc_point(null_pk_personal(), null_pk_tag()) is None,
            r is Err ==> r == Err::<NaiveThresholdSigParams, CswError>(
                CswError::ParameterGenerationExhausted,
            ),
    {
        let e = FieldElement::one();
        let s = e;
        let null_sig = SchnorrSig::new(e, s);
        let tag = null_pk_tag_bytes();
        let personal = null_pk_personal_bytes();
        match hash_to_curve(&tag, &personal) {
            Ok(p) => Ok(NaiveThresholdSigParams { null_sig, null_pk: SchnorrPk(p) }),
            Err(e) => Err(e),
        }
    }
}

// ---------------------------------------------------------------------------
// VRF generator table
// ---------------------------------------------------------------------------

/// The fixed window shape of the vector-commitment scheme.
#[derive(Clone, Copy)]
pub struct VRFWindow {}

impl VRFWindow {
    /// Table entries per window.
    pub fn window_size() -> (r: usize)
        ensures
            r == 128,
    {
        128
    }

    /// Number of windows, one per generator.
    pub fn num_windows() -> (r: usize)
        ensures
            r == 2,
    {
        2
    }
}

/// Domain separator of VRF generator derivation.
pub open spec fn vrf_personal() -> Seq<u8> {
    seq![86u8, 114u8, 102u8, 71u8, 104u8, 71u8, 101u8, 110u8]  // "VrfGhGen"
}

pub fn vrf_personal_bytes() -> (r: [u8; 8])
    ensures
        r@ == vrf_personal(),
{
    let r: [u8; 8] = [86u8, 114, 102, 71, 104, 71, 101, 110];
    proof {
        assert(r@ =~= vrf_personal());
    }
    r
}

/// The tag of the first VRF generator.
pub open spec fn vrf_gen_1_tag() -> Seq<u8> {
    seq![
        77u8, 97u8, 103u8, 110u8, 101u8, 115u8, 105u8, 117u8, 109u8, 32u8, 77u8, 103u8, 32u8,
        49u8, 50u8,
    ]  // "Magnesium Mg 12"
}

pub fn vrf_gen_1_tag_bytes() -> (r: Vec<u8>)
    ensures
        r@ == vrf_gen_1_tag(),
{
    let a: [u8; 15] = [77u8, 97, 103, 110, 101, 115, 105, 117, 109, 32, 77, 103, 32, 49, 50];
    proof {
        assert(a@ =~= vrf_gen_1_tag());
    }
    crate::bytes::bytes_to_vec(&a)
}

/// The tag of the second VRF generator.
pub open spec fn vrf_gen_2_tag() -> Seq<u8> {
    seq![71u8, 111u8, 108u8, 100u8, 32u8, 65u8, 117u8, 32u8, 55u8, 57u8]  // "Gold Au 79"
}

pub fn vrf_gen_2_tag_bytes() -> (r: Vec<u8>)
    ensures
        r@ == vrf_gen_2_tag(),
{
    let a: [u8; 10] = [71u8, 111, 108, 100, 32, 65, 117, 32, 55, 57];
    proof {
        assert(a@ =~= vrf_gen_2_tag());
    }
    crate::bytes::bytes_to_vec(&a)
}

/// The windowed table matches the generators: entry `(i, j)` is generator
/// `i` doubled `4 * j` times.
pub open spec fn table_matches(t: Seq<Vec<Point>>, gens: Seq<Point>) -> bool {
    &&& t.len() == 2
    &&& forall|i: int| 0 <= i < 2 ==> (#[trigger] t[i])@.len() == 128
    &&& forall|i: int, j: int|
        0 <= i < 2 && 0 <= j < 128 ==> pt_wf(#[trigger] t[i]@[j]) && pt_vals(t[i]@[j])
            == pt_double_n(pt_vals(gens[i]), (4 * j) as nat)
}

/// The windowed precomputation table of the vector-commitment scheme.
pub struct VRFParams {
    pub group_hash_generators: Vec<Vec<Point>>,
}

/// Everything the VRF constructor promises of a produced table: it expands
/// the two tag-derived generators, each pinned to its tag's first
/// successful counter.
pub open spec fn vrf_params_ok(v: VRFParams) -> bool {
    exists|g1: Point, g2: Point|
        htc_point_ok(vrf_personal(), vrf_gen_1_tag(), g1) && htc_point_ok(
            vrf_personal(),
            vrf_gen_2_tag(),
            g2,
        ) && table_matches(#[trigger] v.group_hash_generators@, seq![g1, g2])
}

/// VRF-table generation is deterministic: any two produced tables hold the
/// same points entry for entry.
pub proof fn lemma_vrf_table_deterministic(v1: VRFParams, v2: VRFParams)
    requires
        vrf_params_ok(v1),
        vrf_params_ok(v2),
    ensures
        v1.group_hash_generators@.len() == v2.group_hash_generators@.len(),
        forall|i: int, j: int|
            0 <= i < 2 && 0 <= j < 128 ==> #[trigger] v1.group_hash_generators@[i]@[j]
                == v2.group_hash_generators@[i]@[j],
{
    let (g1a, g2a) = choose|g1: Point, g2: Point|
        htc_point_ok(vrf_personal(), vrf_gen_1_tag(), g1) && htc_point_ok(
            vrf_personal(),
            vrf_gen_2_tag(),
            g2,
        ) && table_matches(#[trigger] v1.group_hash_generators@, seq![g1, g2]);
    let (g1b, g2b) = choose|g1: Point, g2: Point|
        htc_point_ok(vrf_personal(), vrf_gen_1_tag(), g1) && htc_point_ok(
            vrf_personal(),
            vrf_gen_2_tag(),
            g2,
        ) && table_matches(#[trigger] v2.group_hash_generators@, seq![g1, g2]);
    lemma_hash_to_curve_deterministic(vrf_personal(), vrf_gen_1_tag(), g1a, g1b);
    lemma_hash_to_curve_deterministic(vrf_personal(), vrf_gen_2_tag(), g2a, g2b);
    assert forall|i: int, j: int| 0 <= i < 2 && 0 <= j < 128 implies #[trigger] v1
        .group_hash_generators@[i]@[j] == v2.group_hash_generators@[i]@[j] by {
        let e1 = v1.group_hash_generators@[i]@[j];
        let e2 = v2.group_hash_generators@[i]@[j];
        assert(seq![g1a, g2a][i] == seq![g1b, g2b][i]);
        assert(pt_vals(e1) == pt_vals(e2));
        lemma_fe_value_determines_bytes(e1.x, e2.x);
        lemma_fe_value_determines_bytes(e1.y, e2.y);
        lemma_fe_value_determines_bytes(e1.z, e2.z);
    }
}

impl VRFParams {
    /// Derives the two VRF generators from their tags and expands them into
    /// the windowed doubling table.
    pub fn new() -> (r: Result<VRFParams, CswError>)
        ensures
            r matches Ok(p) ==> vrf_params_ok(p),
            r is Err <==> (htc_point(vrf_personal(), vrf_gen_1_tag()) is None || htc_point(
                vrf_personal(),
                vrf_gen_2_tag(),
            ) is None),
            r is Err ==> r == Err::<VRFParams, CswError>(CswError::ParameterGenerationExhausted),
    {
        let personal = vrf_personal_bytes();
        let tag1 = vrf_gen_1_tag_bytes();
        let tag2 = vrf_gen_2_tag_bytes();
        let gen_1 = match hash_to_curve(&tag1, &personal) {
            Ok(p) => p,
            Err(e) => {
                return Err(e);
            },
        };
        let gen_2 = match hash_to_curve(&tag2, &personal) {
            Ok(p) => p,
            Err(e) => {
                return Err(e);
            },
        };
        let mut generators: Vec<Point> = Vec::new();
        generators.push(gen_1);
        generators.push(gen_2);
        let group_hash_generators = Self::compute_group_hash_table(generators);
        proof {
            assert(htc_point_ok(vrf_personal(), vrf_gen_1_tag(), gen_1) && htc_point_ok(
                vrf_personal(),
                vrf_gen_2_tag(),
                gen_2,
            ) && table_matches(group_hash_generators@, seq![gen_1, gen_2]));
        }
        Ok(VRFParams { group_hash_generators })
    }

    /// Expands generators into the windowed table: each window holds its
    /// generator doubled four more times per step.
    pub fn compute_group_hash_table(generators: Vec<Point>) -> (r: Vec<Vec<Point>>)
        requires
            generators@.len() >= 2,
            forall|i: int| 0 <= i < generators@.len() ==> pt_wf(#[trigger] generators@[i]),
        ensures
            table_matches(r@, generators@),
    {
        let mut gen_table: Vec<Vec<Point>> = Vec::new();
        let mut i: usize = 0;
        while i < 2
            invariant
                0 <= i <= 2,
                generators@.len() >= 2,
                forall|k: int| 0 <= k < generators@.len() ==> pt_wf(#[trigger] generators@[k]),
                gen_table@.len() == i,
                forall|k: int| 0 <= k < i ==> (#[trigger] gen_table@[k])@.len() == 128,
                forall|k: int, j: int|
                    0 <= k < i && 0 <= j < 128 ==> pt_wf(#[trigger] gen_table@[k]@[j]) && pt_vals(
                        gen_table@[k]@[j],
                    ) == pt_double_n(pt_vals(generators@[k]), (4 * j) as nat),
            decreases 2 - i,
        {
            let mut generators_for_segment: Vec<Point> = Vec::new();
            let mut base = generators[i];
            let mut j: usize = 0;
            while j < 128
                invariant
                    0 <= j <= 128,
                    0 <= i < generators@.len(),
                    pt_wf(generators@[i as int]),
                    pt_wf(base),
                    pt_vals(base) == pt_double_n(pt_vals(generators@[i as int]), (4 * j) as nat),
                    generators_for_segment@.len() == j,
                    forall|l: int|
                        0 <= l < j ==> pt_wf(#[trigger] generators_for_segment@[l]) && pt_vals(
                            generators_for_segment@[l],
                        ) == pt_double_n(pt_vals(generators@[i as int]), (4 * l) as nat),
                decreases 128 - j,
            {
                generators_for_segment.push(base);
                base = base.double();
                base = base.double();
                base = base.double();
                base = base.double();
                proof {
                    let v = pt_vals(generators@[i as int]);
                    let n = (4 * j) as nat;
                    assert(pt_double_n(v, n + 1) == pt_double_vals(pt_double_n(v, n)));
                    assert(pt_double_n(v, n + 2) == pt_double_vals(pt_double_n(v, n + 1)));
                    assert(pt_double_n(v, n + 3) == pt_double_vals(pt_double_n(v, n + 2)));
                    assert(pt_double_n(v, n + 4) == pt_double_vals(pt_double_n(v, n + 3)));
                    assert((4 * (j + 1)) as nat == n + 4);
                }
                j += 1;
            }
            gen_table.push(generators_for_segment);
            i += 1;
        }
        gen_table
    }
}

} // verus!
