//! The proving-system key lifecycle: the variant selector with its one-byte
//! discriminant, predicted proof and key sizes, the setup path that fails
//! fast on size overruns, and the tagged serialization of keys.

use vstd::prelude::*;
use crate::bytes::{extend_from_array, le_val, u64_from_le_bytes, u64_to_le_bytes};
use crate::csw::{csw_data_wf, CeasedSidechainWithdrawalCircuit, CswProverData};
use crate::error::CswError;
use crate::gadgets::ConstraintSystem;
use vstd::arithmetic::div_mod::{lemma_div_is_ordered, lemma_fundamental_div_mod};
use vstd::arithmetic::power2::{lemma_pow2_pos, lemma_pow2_unfold, pow2};

verus! {

/// The supported proving-system variants, with an explicit undefined
/// sentinel.
#[derive(Clone, Copy, PartialEq, Eq, Structural, Debug)]
pub enum ProvingSystem {
    Undefined,
    Darlin,
    CoboundaryMarlin,
}

/// The one-byte discriminant a serialized artifact is prefixed with.
pub open spec fn ps_tag(ps: ProvingSystem) -> u8 {
    match ps {
        ProvingSystem::Undefined => 0,
        ProvingSystem::Darlin => 1,
        ProvingSystem::CoboundaryMarlin => 2,
    }
}

/// The variant a discriminant byte denotes.
pub open spec fn parse_proving_system(b: u8) -> Option<ProvingSystem> {
    if b == 0 {
        Some(ProvingSystem::Undefined)
    } else if b == 1 {
        Some(ProvingSystem::Darlin)
    } else if b == 2 {
        Some(ProvingSystem::CoboundaryMarlin)
    } else {
        None
    }
}

/// Writing a variant's discriminant and reading it back yields the variant.
pub proof fn lemma_discriminant_round_trip(ps: ProvingSystem)
    ensures
        parse_proving_system(ps_tag(ps)) == Some(ps),
{
}

/// Maps a host-side ordinal to the proving-system selector.
pub fn get_proving_system_type(ordinal: usize) -> (r: ProvingSystem)
    requires
        ordinal <= 2,
    ensures
        ps_tag(r) == ordinal,
{
    match ordinal {
        0 => ProvingSystem::Undefined,
        1 => ProvingSystem::Darlin,
        _ => ProvingSystem::CoboundaryMarlin,
    }
}

/// Maps the proving-system selector to its host-side ordinal.
pub fn get_proving_system_type_as_jint(ps: ProvingSystem) -> (r: i32)
    ensures
        r == ps_tag(ps),
{
    match ps {
        ProvingSystem::Undefined => 0,
        ProvingSystem::Darlin => 1,
        ProvingSystem::CoboundaryMarlin => 2,
    }
}

/// Reads the proving-system discriminant from the first byte of a
/// serialized artifact, without deserializing the remainder.
pub fn read_proving_system_type(bytes: &Vec<u8>) -> (r: Result<ProvingSystem, CswError>)
    ensures
        r is Ok <==> (bytes@.len() > 0 && parse_proving_system(bytes@[0]) is Some),
        r matches Ok(ps) ==> parse_proving_system(bytes@[0]) == Some(ps),
        r is Err ==> r == Err::<ProvingSystem, CswError>(CswError::SerializationError),
{
    if bytes.len() == 0 {
        return Err(CswError::SerializationError);
    }
    let b = bytes[0];
    if b == 0 {
        Ok(ProvingSystem::Undefined)
    } else if b == 1 {
        Ok(ProvingSystem::Darlin)
    } else if b == 2 {
        Ok(ProvingSystem::CoboundaryMarlin)
    } else {
        Err(CswError::SerializationError)
    }
}

// ---------------------------------------------------------------------------
// Size bounds
// ---------------------------------------------------------------------------

/// Circuit shape: the counts SNARK setup indexes a circuit by.
#[derive(Clone, Copy, PartialEq, Eq, Structural, Debug)]
pub struct IndexInfo {
    pub num_constraints: u64,
    pub num_instance_variables: u64,
    pub num_witness_variables: u64,
}

/// The ceiling of the base-two logarithm.
pub open spec fn spec_log2_ceil(n: nat) -> nat
    decreases n,
{
    if n <= 1 {
        0
    } else {
        1 + spec_log2_ceil((n + 1) / 2)
    }
}

pub proof fn lemma_log2_ceil_le(n: nat)
    ensures
        spec_log2_ceil(n) <= n,
    decreases n,
{
    if n > 1 {
        lemma_log2_ceil_le((n + 1) / 2);
    }
}

/// Anything below `2^k` has a log ceiling of at most `k`.
pub proof fn lemma_log2_ceil_pow_bound(n: nat, k: nat)
    requires
        n <= pow2(k),
    ensures
        spec_log2_ceil(n) <= k,
    decreases k,
{
    if n <= 1 {
    } else {
        if k == 0 {
            assert(pow2(0) == 1) by {
                vstd::arithmetic::power2::lemma_pow2(0);
                vstd::arithmetic::power::lemma_pow0(2);
            }
        }
        lemma_pow2_unfold(k);
        let p = pow2((k - 1) as nat);
        lemma_pow2_pos((k - 1) as nat);
        assert(n + 1 <= 2 * p + 1);
        lemma_div_is_ordered(n as int + 1, 2 * (p as int) + 1, 2);
        assert((2 * p + 1) / 2 == p) by {
            vstd::arithmetic::div_mod::lemma_fundamental_div_mod_converse(
                2 * (p as int) + 1,
                2,
                p as int,
                1,
            );
        }
        lemma_log2_ceil_pow_bound((n + 1) / 2, (k - 1) as nat);
    }
}

/// Logs of 64-bit quantities fit far below any overflow.
pub proof fn lemma_log2_ceil_u64(n: u64)
    ensures
        spec_log2_ceil(n as nat) <= 64,
{
    assert(n as nat <= pow2(64)) by {
        vstd::arithmetic::power2::lemma2_to64();
        assert(pow2(64) == pow2(32) * pow2(32)) by {
            vstd::arithmetic::power2::lemma_pow2_adds(32, 32);
        }
    }
    lemma_log2_ceil_pow_bound(n as nat, 64);
}

/// Computes the ceiling of the base-two logarithm.
pub fn log2_ceil(n: u64) -> (r: u64)
    ensures
        r == spec_log2_ceil(n as nat),
    decreases n,
{
    if n <= 1 {
        0
    } else {
        let half = n / 2 + n % 2;
        proof {
            lemma_fundamental_div_mod(n as int, 2);
            lemma_fundamental_div_mod(n as int + 1, 2);
            assert(half as nat == (n as nat + 1) / 2) by {
                vstd::arithmetic::div_mod::lemma_fundamental_div_mod_converse(
                    n as int + 1,
                    2,
                    half as int,
                    if n % 2 == 0 { 1 } else { 0 },
                );
            }
            lemma_log2_ceil_le(half as nat);
        }
        1 + log2_ceil(half)
    }
}

/// The predicted size in bytes of a proof produced over segments of the
/// given size: the fixed commitments and evaluations, plus two group
/// elements per halving round of the opening proof, plus the hiding term.
pub open spec fn proof_size_of(segment_size: nat, zk: bool) -> nat {
    16 + 32 * (12 + 2 * spec_log2_ceil(segment_size)) + if zk {
        32nat
    } else {
        0nat
    }
}

/// The predicted size in bytes of a verification key for an indexed
/// circuit: the tagged header, the index commitments, and a term per
/// halving round of the constraint domain; the second variant carries an
/// extra accumulator commitment.
pub open spec fn vk_size_of(index: IndexInfo, ps: ProvingSystem) -> nat {
    33 + 32 * (8 + spec_log2_ceil(index.num_constraints as nat)) + if ps is Darlin {
        64nat
    } else {
        0nat
    }
}

/// Computes the expected proof and verification-key sizes ahead of setup.
pub fn compute_proof_vk_size(
    segment_size: u64,
    index: IndexInfo,
    zk: bool,
    ps: ProvingSystem,
) -> (r: (u64, u64))
    requires
        ps != ProvingSystem::Undefined,
    ensures
        r.0 == proof_size_of(segment_size as nat, zk),
        r.1 == vk_size_of(index, ps),
{
    proof {
        lemma_log2_ceil_u64(segment_size);
        lemma_log2_ceil_u64(index.num_constraints);
    }
    let log_seg = log2_ceil(segment_size);
    let log_dom = log2_ceil(index.num_constraints);
    let proof_size = 16 + 32 * (12 + 2 * log_seg) + if zk {
        32
    } else {
        0
    };
    let vk_size = 33 + 32 * (8 + log_dom) + if matches!(ps, ProvingSystem::Darlin) {
        64
    } else {
        0
    };
    (proof_size, vk_size)
}

/// Validates an externally supplied verification key's size against
/// protocol maxima by recomputing the same bound.
pub fn check_proof_vk_size(
    supported_segment_size: u64,
    index_info: IndexInfo,
    zk: bool,
    ps: ProvingSystem,
    max_proof_size: u64,
    max_vk_size: u64,
) -> (r: bool)
    requires
        ps != ProvingSystem::Undefined,
    ensures
        r == (proof_size_of(supported_segment_size as nat, zk) <= max_proof_size && vk_size_of(
            index_info,
            ps,
        ) <= max_vk_size),
{
    let (proof_size, vk_size) = compute_proof_vk_size(supported_segment_size, index_info, zk, ps);
    proof_size <= max_proof_size && vk_size <= max_vk_size
}

// ---------------------------------------------------------------------------
// Key generation
// ---------------------------------------------------------------------------

/// A proving key for one fixed circuit, tagged with its variant.
#[derive(Clone, Copy, PartialEq, Eq, Structural, Debug)]
pub struct ZendooProverKey {
    pub ps: ProvingSystem,
    pub index: IndexInfo,
}

/// A verification key for one fixed circuit, tagged with its variant.
#[derive(Clone, Copy, PartialEq, Eq, Structural, Debug)]
pub struct ZendooVerifierKey {
    pub ps: ProvingSystem,
    pub index: IndexInfo,
}

/// The index the withdrawal circuit synthesizes to.
pub open spec fn csw_index_info(d: CswProverData) -> IndexInfo {
    IndexInfo {
        num_constraints: crate::csw::csw_num_constraints() as u64,
        num_instance_variables: crate::csw::csw_instance_allocs() as u64,
        num_witness_variables: crate::csw::csw_witness_allocs(d) as u64,
    }
}

/// The cheap pre-setup test: would the circuit's proof or key outgrow the
/// caller's maxima?
pub open spec fn keypair_too_complex(
    d: CswProverData,
    segment_size: nat,
    zk: bool,
    max_proof_size: u64,
    max_vk_size: u64,
) -> bool {
    proof_size_of(segment_size, zk) > max_proof_size || vk_size_of(
        csw_index_info(d),
        ProvingSystem::CoboundaryMarlin,
    ) > max_vk_size
}

/// Derives the proving/verification key pair for a withdrawal circuit:
/// selecting the undefined variant is an error, the second variant is
/// declared but not built, and a predicted size over the caller's maxima
/// fails fast before any key material is produced.
pub fn generate_circuit_keypair(
    circ: CeasedSidechainWithdrawalCircuit,
    proving_system: ProvingSystem,
    segment_size: u64,
    max_proof_size: u64,
    max_vk_size: u64,
    zk: bool,
) -> (r: Result<(ZendooProverKey, ZendooVerifierKey), CswError>)
    requires
        csw_data_wf(circ.csw_data),
    ensures
        (proving_system == ProvingSystem::Undefined) <==> r == Err::<
            (ZendooProverKey, ZendooVerifierKey),
            CswError,
        >(CswError::UndefinedProvingSystem),
        (proving_system == ProvingSystem::Darlin) <==> r == Err::<
            (ZendooProverKey, ZendooVerifierKey),
            CswError,
        >(CswError::Unimplemented),
        (proving_system == ProvingSystem::CoboundaryMarlin && keypair_too_complex(
            circ.csw_data,
            segment_size as nat,
            zk,
            max_proof_size,
            max_vk_size,
        )) <==> r == Err::<(ZendooProverKey, ZendooVerifierKey), CswError>(
            CswError::CircuitTooComplex,
        ),
        proving_system == ProvingSystem::CoboundaryMarlin && !keypair_too_complex(
            circ.csw_data,
            segment_size as nat,
            zk,
            max_proof_size,
            max_vk_size,
        ) ==> r == Ok::<(ZendooProverKey, ZendooVerifierKey), CswError>(
            (
                ZendooProverKey {
                    ps: ProvingSystem::CoboundaryMarlin,
                    index: csw_index_info(circ.csw_data),
                },
                ZendooVerifierKey {
                    ps: ProvingSystem::CoboundaryMarlin,
                    index: csw_index_info(circ.csw_data),
                },
            ),
        ),
{
    let ghost d = circ.csw_data;
    match proving_system {
        ProvingSystem::Undefined => Err(CswError::UndefinedProvingSystem),
        ProvingSystem::Darlin => Err(CswError::Unimplemented),
        ProvingSystem::CoboundaryMarlin => {
            let mut cs = ConstraintSystem::new();
            let res = circ.generate_constraints(&mut cs);
            match res {
                Ok(_) => {},
                Err(_) => {
                    return Err(CswError::SynthesisError);
                },
            }
            let index = IndexInfo {
                num_constraints: cs.constraints.len() as u64,
                num_instance_variables: cs.num_instance_variables as u64,
                num_witness_variables: cs.num_witness_variables as u64,
            };
            proof {
                assert(index == csw_index_info(d));
            }
            let (proof_size, vk_size) = compute_proof_vk_size(
                segment_size,
                index,
                zk,
                ProvingSystem::CoboundaryMarlin,
            );
            if proof_size > max_proof_size || vk_size > max_vk_size {
                Err(CswError::CircuitTooComplex)
            } else {
                Ok(
                    (
                        ZendooProverKey { ps: ProvingSystem::CoboundaryMarlin, index },
                        ZendooVerifierKey { ps: ProvingSystem::CoboundaryMarlin, index },
                    ),
                )
            }
        },
    }
}

// ---------------------------------------------------------------------------
// Tagged serialization
// ---------------------------------------------------------------------------

/// The verification key a 25-byte artifact denotes: the discriminant byte
/// (undefined keys are rejected) followed by the three index counts as
/// little-endian 64-bit integers.
pub open spec fn parse_verifier_key(bytes: Seq<u8>) -> Option<ZendooVerifierKey> {
    if bytes.len() == 25 && (bytes[0] == 1 || bytes[0] == 2) {
        Some(
            ZendooVerifierKey {
                ps: if bytes[0] == 1 {
                    ProvingSystem::Darlin
                } else {
                    ProvingSystem::CoboundaryMarlin
                },
                index: IndexInfo {
                    num_constraints: le_val(bytes.subrange(1, 9)) as u64,
                    num_instance_variables: le_val(bytes.subrange(9, 17)) as u64,
                    num_witness_variables: le_val(bytes.subrange(17, 25)) as u64,
                },
            },
        )
    } else {
        None
    }
}

/// Serializes a verification key as its tagged 25-byte artifact; reading
/// the artifact back yields the key.
pub fn serialize_verifier_key(vk: &ZendooVerifierKey) -> (r: Vec<u8>)
    requires
        vk.ps != ProvingSystem::Undefined,
    ensures
        r@.len() == 25,
        r@[0] == ps_tag(vk.ps),
        parse_verifier_key(r@) == Some(*vk),
{
    let mut r: Vec<u8> = Vec::new();
    let tag = get_proving_system_type_as_jint(vk.ps);
    proof {
        assert(0 <= tag < 256);
    }
    r.push(#[verifier::truncate] (tag as u8));
    let b1 = u64_to_le_bytes(vk.index.num_constraints);
    extend_from_array(&mut r, &b1);
    let b2 = u64_to_le_bytes(vk.index.num_instance_variables);
    extend_from_array(&mut r, &b2);
    let b3 = u64_to_le_bytes(vk.index.num_witness_variables);
    extend_from_array(&mut r, &b3);
    proof {
        assert(r@[0] == ps_tag(vk.ps));
        assert(r@.subrange(1, 9) =~= b1@);
        assert(r@.subrange(9, 17) =~= b2@);
        assert(r@.subrange(17, 25) =~= b3@);
        assert(parse_verifier_key(r@) == Some(*vk));
    }
    r
}

/// The proving key a 25-byte artifact denotes, laid out as the
/// verification key is.
pub open spec fn parse_prover_key(bytes: Seq<u8>) -> Option<ZendooProverKey> {
    if bytes.len() == 25 && (bytes[0] == 1 || bytes[0] == 2) {
        Some(
            ZendooProverKey {
                ps: if bytes[0] == 1 {
                    ProvingSystem::Darlin
                } else {
                    ProvingSystem::CoboundaryMarlin
                },
                index: IndexInfo {
                    num_constraints: le_val(bytes.subrange(1, 9)) as u64,
                    num_instance_variables: le_val(bytes.subrange(9, 17)) as u64,
                    num_witness_variables: le_val(bytes.subrange(17, 25)) as u64,
                },
            },
        )
    } else {
        None
    }
}

/// Serializes a proving key as its tagged artifact; reading it back yields
/// the key.
pub fn serialize_prover_key(pk: &ZendooProverKey) -> (r: Vec<u8>)
    requires
        pk.ps != ProvingSystem::Undefined,
    ensures
        r@.len() == 25,
        r@[0] == ps_tag(pk.ps),
        parse_prover_key(r@) == Some(*pk),
{
    let mut r: Vec<u8> = Vec::new();
    let tag = get_proving_system_type_as_jint(pk.ps);
    proof {
        assert(0 <= tag < 256);
    }
    r.push(#[verifier::truncate] (tag as u8));
    let b1 = u64_to_le_bytes(pk.index.num_constraints);
    extend_from_array(&mut r, &b1);
    let b2 = u64_to_le_bytes(pk.index.num_instance_variables);
    extend_from_array(&mut r, &b2);
    let b3 = u64_to_le_bytes(pk.index.num_witness_variables);
    extend_from_array(&mut r, &b3);
    proof {
        assert(r@[0] == ps_tag(pk.ps));
        assert(r@.subrange(1, 9) =~= b1@);
        assert(r@.subrange(9, 17) =~= b2@);
        assert(r@.subrange(17, 25) =~= b3@);
        assert(parse_prover_key(r@) == Some(*pk));
    }
    r
}

/// Prefixes a serialized proof payload with its proving-system
/// discriminant, so the variant can be read back without deserializing the
/// remainder.
pub fn tag_proof_bytes(ps: ProvingSystem, payload: &Vec<u8>) -> (r: Vec<u8>)
    ensures
        r@.len() == payload@.len() + 1,
        r@[0] == ps_tag(ps),
        r@.skip(1) == payload@,
{
    let mut r: Vec<u8> = Vec::new();
    let tag = get_proving_system_type_as_jint(ps);
    proof {
        assert(0 <= tag < 256);
    }
    r.push(#[verifier::truncate] (tag as u8));
    let n = payload.len();
    let mut i: usize = 0;
    while i < n
        invariant
            0 <= i <= n,
            n == payload@.len(),
            r@.len() == i + 1,
            r@[0] == ps_tag(ps),
            forall|j: int| 0 <= j < i ==> r@[1 + j] == payload@[j],
        decreases n - i,
    {
        r.push(payload[i]);
        i += 1;
    }
    proof {
        assert(r@.skip(1) =~= payload@);
    }
    r
}

/// Reads a verification key back from its tagged artifact.
pub fn deserialize_verifier_key(bytes: &Vec<u8>) -> (r: Result<ZendooVerifierKey, CswError>)
    ensures
        r is Ok <==> parse_verifier_key(bytes@) is Some,
        r matches Ok(vk) ==> parse_verifier_key(bytes@) == Some(vk),
        r is Err ==> r == Err::<ZendooVerifierKey, CswError>(CswError::SerializationError),
{
    if bytes.len() != 25 {
        return Err(CswError::SerializationError);
    }
    let tag = bytes[0];
    if tag != 1 && tag != 2 {
        return Err(CswError::SerializationError);
    }
    let ps = if tag == 1 {
        ProvingSystem::Darlin
    } else {
        ProvingSystem::CoboundaryMarlin
    };
    let mut c1 = [0u8; 8];
    let mut c2 = [0u8; 8];
    let mut c3 = [0u8; 8];
    let mut i: usize = 0;
    while i < 8
        invariant
            0 <= i <= 8,
            bytes@.len() == 25,
            c1@.len() == 8 && c2@.len() == 8 && c3@.len() == 8,
            forall|j: int| 0 <= j < i ==> c1@[j] == bytes@[1 + j],
            forall|j: int| 0 <= j < i ==> c2@[j] == bytes@[9 + j],
            forall|j: int| 0 <= j < i ==> c3@[j] == bytes@[17 + j],
        decreases 8 - i,
    {
        c1[i] = bytes[1 + i];
        c2[i] = bytes[9 + i];
        c3[i] = bytes[17 + i];
        i += 1;
    }
    proof {
        assert(c1@ =~= bytes@.subrange(1, 9));
        assert(c2@ =~= bytes@.subrange(9, 17));
        assert(c3@ =~= bytes@.subrange(17, 25));
    }
    let num_constraints = u64_from_le_bytes(&c1);
    let num_instance_variables = u64_from_le_bytes(&c2);
    let num_witness_variables = u64_from_le_bytes(&c3);
    Ok(
        ZendooVerifierKey {
            ps,
            index: IndexInfo { num_constraints, num_instance_variables, num_witness_variables },
        },
    )
}

} // verus!
