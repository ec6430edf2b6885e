//! The ceased-sidechain-withdrawal claim data and the constraint graph that
//! decides whether a claim is valid: the certificate lineage hash, the
//! Merkle membership of the withdrawn output, the nullifier binding, and the
//! amount check, the last three gated by the UTXO path selector.

use vstd::prelude::*;
use crate::bytes::{bytes_eq, lemma_le_val_upper, lemma_le_val_zero_suffix};
use crate::error::CswError;
use crate::field::{
    fe_val, fe_wf, lemma_modulus_facts, phantom_fe_bytes, phantom_field_element, FieldElement,
};
use crate::gadgets::{
    alloc_field_gadget, alloc_input_field_gadget, cs_satisfied, conditional_enforce_equal,
    enforce_equal, enforce_hash_constant_length, enforce_root_from_leaf, lemma_satisfied_push,
    merkle_root_bytes_seq, path_wf, BooleanGadget, ConstraintSystem, FieldElementGadget,
    GingerMHTBinaryPath, MerklePathNode,
};
use crate::hashing::{blake2s_of, concat_fe, field_hash_personal, hash_fes, mask_to_field};
use crate::params::MST_MERKLE_TREE_HEIGHT;

verus! {

/// Number of per-epoch transaction-commitment hashes a claim carries.
pub const CSW_TRANSACTION_COMMITMENT_HASHES_NUMBER: usize = 10;

pub open spec fn zeros16() -> Seq<u8> {
    Seq::new(16, |i: int| 0u8)
}

pub open spec fn zeros32() -> Seq<u8> {
    Seq::new(32, |i: int| 0u8)
}

/// The sentinel 32-byte string that marks an absent key.
pub open spec fn phantom_u8_seq() -> Seq<u8> {
    seq![
        173u8, 74u8, 232u8, 20u8, 64u8, 86u8, 11u8, 221u8, 56u8, 37u8, 12u8, 4u8, 128u8, 12u8,
        79u8, 10u8, 24u8, 18u8, 174u8, 237u8, 68u8, 95u8, 193u8, 69u8, 196u8, 207u8, 14u8, 139u8,
        28u8, 64u8, 12u8, 26u8,
    ]
}

/// The phantom key sentinel, a protocol constant.
pub fn phantom_uint8_array() -> (r: [u8; 32])
    ensures
        r@ == phantom_u8_seq(),
{
    let r: [u8; 32] = [
        173u8, 74, 232, 20, 64, 86, 11, 221, 56, 37, 12, 4, 128, 12, 79, 10, 24, 18, 174, 237, 68,
        95, 193, 69, 196, 207, 14, 139, 28, 64, 12, 26,
    ];
    proof {
        assert(r@ =~= phantom_u8_seq());
    }
    r
}

// ---------------------------------------------------------------------------
// Claim data
// ---------------------------------------------------------------------------

/// The lineage anchor: the last certificate accepted before cessation.
#[derive(Clone, Copy, PartialEq, Eq, Debug)]
pub struct WithdrawalCertificateData {
    pub ledger_id: FieldElement,
    pub epoch_id: FieldElement,
    pub bt_list_hash: FieldElement,
    pub quality: FieldElement,
    pub mcb_sc_txs_com: FieldElement,
    pub ft_min_fee: FieldElement,
    pub btr_min_fee: FieldElement,
    pub scb_new_mst_root: FieldElement,
}

pub open spec fn cert_wf(c: WithdrawalCertificateData) -> bool {
    fe_wf(c.ledger_id) && fe_wf(c.epoch_id) && fe_wf(c.bt_list_hash) && fe_wf(c.quality) && fe_wf(
        c.mcb_sc_txs_com,
    ) && fe_wf(c.ft_min_fee) && fe_wf(c.btr_min_fee) && fe_wf(c.scb_new_mst_root)
}

/// The eight lineage fields, in hashing order.
pub open spec fn cert_hash_inputs(c: WithdrawalCertificateData) -> Seq<FieldElement> {
    seq![
        c.ledger_id, c.epoch_id, c.bt_list_hash, c.quality, c.mcb_sc_txs_com, c.ft_min_fee,
        c.btr_min_fee, c.scb_new_mst_root,
    ]
}

/// The fixed-arity, order-sensitive certificate commitment.
pub open spec fn cert_hash_bytes(c: WithdrawalCertificateData) -> Seq<u8> {
    hash_fes(cert_hash_inputs(c))
}

/// Hashes a certificate's eight lineage fields in their fixed order.
pub fn hash_certificate(c: &WithdrawalCertificateData) -> (r: FieldElement)
    ensures
        fe_wf(r),
        r@ == cert_hash_bytes(*c),
{
    let mut inputs: Vec<FieldElement> = Vec::new();
    inputs.push(c.ledger_id);
    inputs.push(c.epoch_id);
    inputs.push(c.bt_list_hash);
    inputs.push(c.quality);
    inputs.push(c.mcb_sc_txs_com);
    inputs.push(c.ft_min_fee);
    inputs.push(c.btr_min_fee);
    inputs.push(c.scb_new_mst_root);
    proof {
        assert(inputs@ =~= cert_hash_inputs(*c));
    }
    crate::hashing::hash_field_elements(&inputs)
}

/// One previously-created unspent output.
#[derive(Clone, Copy, PartialEq, Eq, Debug)]
pub struct CswUtxoOutputData {
    pub spending_pub_key: [u8; 32],
    pub amount: FieldElement,
    pub nonce: FieldElement,
    pub custom_hash: FieldElement,
}

pub open spec fn utxo_output_wf(o: CswUtxoOutputData) -> bool {
    fe_wf(o.amount) && fe_wf(o.nonce) && fe_wf(o.custom_hash)
}

/// A claimed unspent output with the secret key proving ownership.
#[derive(Clone, Copy, PartialEq, Eq, Debug)]
pub struct CswUtxoInputData {
    pub output: CswUtxoOutputData,
    pub secret_key: [u8; 32],
}

/// The all-sentinel encoding of an absent UTXO input.
pub open spec fn utxo_input_is_phantom(i: CswUtxoInputData) -> bool {
    &&& i.output.spending_pub_key@ == phantom_u8_seq()
    &&& i.output.amount@ == phantom_fe_bytes()
    &&& i.output.nonce@ == phantom_fe_bytes()
    &&& i.output.custom_hash@ == phantom_fe_bytes()
    &&& i.secret_key@ == phantom_u8_seq()
}

impl CswUtxoInputData {
    /// Whether this input is the protocol's all-sentinel absent encoding.
    pub fn is_phantom(&self) -> (r: bool)
        ensures
            r == utxo_input_is_phantom(*self),
    {
        let pk = phantom_uint8_array();
        let pfe = phantom_field_element();
        bytes_eq(&self.output.spending_pub_key, &pk) && self.output.amount.eq_fe(&pfe)
            && self.output.nonce.eq_fe(&pfe) && self.output.custom_hash.eq_fe(&pfe) && bytes_eq(
            &self.secret_key,
            &pk,
        )
    }
}

impl Default for CswUtxoInputData {
    /// The phantom (absent) input.
    fn default() -> (r: CswUtxoInputData)
        ensures
            utxo_input_is_phantom(r),
            utxo_output_wf(r.output),
    {
        let pk = phantom_uint8_array();
        let pfe = phantom_field_element();
        CswUtxoInputData {
            output: CswUtxoOutputData {
                spending_pub_key: pk,
                amount: pfe,
                nonce: pfe,
                custom_hash: pfe,
            },
            secret_key: pk,
        }
    }
}

/// The analogous structure of the forward-transfer withdrawal path.
#[derive(Clone, Copy, PartialEq, Eq, Debug)]
pub struct CswFtInputData {
    pub amount: FieldElement,
    pub receiver_pub_key: [u8; 32],
    pub payback_addr_data_hash: FieldElement,
    pub tx_hash: FieldElement,
    pub out_idx: FieldElement,
}

pub open spec fn ft_input_is_phantom(i: CswFtInputData) -> bool {
    &&& i.amount@ == phantom_fe_bytes()
    &&& i.receiver_pub_key@ == phantom_u8_seq()
    &&& i.payback_addr_data_hash@ == phantom_fe_bytes()
    &&& i.tx_hash@ == phantom_fe_bytes()
    &&& i.out_idx@ == phantom_fe_bytes()
}

impl Default for CswFtInputData {
    /// The phantom (absent) forward-transfer input.
    fn default() -> (r: CswFtInputData)
        ensures
            ft_input_is_phantom(r),
            fe_wf(r.amount) && fe_wf(r.payback_addr_data_hash) && fe_wf(r.tx_hash) && fe_wf(
                r.out_idx,
            ),
    {
        let pk = phantom_uint8_array();
        let pfe = phantom_field_element();
        CswFtInputData {
            amount: pfe,
            receiver_pub_key: pk,
            payback_addr_data_hash: pfe,
            tx_hash: pfe,
            out_idx: pfe,
        }
    }
}

impl Default for GingerMHTBinaryPath {
    /// An all-zero path of the configured tree height.
    fn default() -> (r: GingerMHTBinaryPath)
        ensures
            r.nodes@.len() == MST_MERKLE_TREE_HEIGHT,
            path_wf(r),
    {
        let zero = FieldElement::zero();
        let mut nodes: Vec<MerklePathNode> = Vec::new();
        let mut i: usize = 0;
        while i < MST_MERKLE_TREE_HEIGHT
            invariant
                0 <= i <= MST_MERKLE_TREE_HEIGHT,
                fe_wf(zero),
                nodes@.len() == i,
                forall|j: int| 0 <= j < i ==> fe_wf((#[trigger] nodes@[j]).sibling),
            decreases MST_MERKLE_TREE_HEIGHT - i,
        {
            nodes.push(MerklePathNode { sibling: zero, right: false });
            i += 1;
        }
        GingerMHTBinaryPath { nodes }
    }
}

/// The full claim: the private-plus-public witness of one withdrawal.
#[derive(Clone, PartialEq, Eq, Debug)]
pub struct CswProverData {
    pub genesis_constant: FieldElement,
    pub mcb_sc_txs_com_end: FieldElement,
    pub sc_last_wcert_hash: FieldElement,
    pub amount: FieldElement,
    pub nullifier: FieldElement,
    pub receiver: FieldElement,
    pub last_wcert: WithdrawalCertificateData,
    pub input: CswUtxoInputData,
    pub mst_path_to_output: GingerMHTBinaryPath,
    pub ft_input: CswFtInputData,
    pub ft_input_secret_key: [u8; 32],
    pub mcb_sc_txs_com_start: FieldElement,
    pub merkle_path_to_sc_hash: GingerMHTBinaryPath,
    pub ft_tree_path: GingerMHTBinaryPath,
    pub scb_btr_tree_root: FieldElement,
    pub wcert_tree_root: FieldElement,
    pub sc_txs_com_hashes: Vec<FieldElement>,
}

pub open spec fn csw_data_wf(d: CswProverData) -> bool {
    &&& fe_wf(d.genesis_constant)
    &&& fe_wf(d.mcb_sc_txs_com_end)
    &&& fe_wf(d.sc_last_wcert_hash)
    &&& fe_wf(d.amount)
    &&& fe_wf(d.nullifier)
    &&& fe_wf(d.receiver)
    &&& cert_wf(d.last_wcert)
    &&& utxo_output_wf(d.input.output)
    &&& path_wf(d.mst_path_to_output)
    &&& d.mst_path_to_output.nodes@.len() == MST_MERKLE_TREE_HEIGHT
    &&& fe_wf(d.mcb_sc_txs_com_start)
    &&& fe_wf(d.scb_btr_tree_root)
    &&& fe_wf(d.wcert_tree_root)
    &&& forall|i: int|
        0 <= i < d.sc_txs_com_hashes@.len() ==> fe_wf(#[trigger] d.sc_txs_com_hashes@[i])
}

/// The public subset of the witness, in the order the verifier re-derives
/// it: genesis constant, transaction-commitment start and end markers, the
/// certificate-lineage hash, amount, nullifier, receiver, and the
/// certificate's state-tree root.
pub open spec fn public_inputs_spec(d: CswProverData) -> Seq<FieldElement> {
    seq![
        d.genesis_constant, d.mcb_sc_txs_com_start, d.mcb_sc_txs_com_end, d.sc_last_wcert_hash,
        d.amount, d.nullifier, d.receiver, d.last_wcert.scb_new_mst_root,
    ]
}

/// Collects the claim's public inputs.
pub fn get_public_inputs(d: &CswProverData) -> (r: Vec<FieldElement>)
    ensures
        r@ == public_inputs_spec(*d),
{
    let mut r: Vec<FieldElement> = Vec::new();
    r.push(d.genesis_constant);
    r.push(d.mcb_sc_txs_com_start);
    r.push(d.mcb_sc_txs_com_end);
    r.push(d.sc_last_wcert_hash);
    r.push(d.amount);
    r.push(d.nullifier);
    r.push(d.receiver);
    r.push(d.last_wcert.scb_new_mst_root);
    proof {
        assert(r@ =~= public_inputs_spec(*d));
    }
    r
}

// ---------------------------------------------------------------------------
// The withdrawal circuit
// ---------------------------------------------------------------------------

/// Box types an output can carry; the withdrawal circuit tags coin boxes.
#[derive(Clone, Copy, PartialEq, Eq, Structural, Debug)]
pub enum BoxType {
    CoinBox,
    CustomBox,
}

impl BoxType {
    /// The field-element tag of the box type (coin boxes are tag zero).
    pub fn field_tag(&self) -> (r: FieldElement)
        ensures
            fe_wf(r),
            *self == BoxType::CoinBox ==> r@ == zeros32(),
            *self == BoxType::CustomBox ==> fe_val(r) == 1,
    {
        match self {
            BoxType::CoinBox => {
                let r = FieldElement { le: [0u8; 32] };
                proof {
                    assert(r@ =~= zeros32());
                    lemma_le_val_zero_suffix(r@, 0);
                    assert(r@.take(0) =~= Seq::<u8>::empty());
                    lemma_modulus_facts();
                }
                r
            },
            BoxType::CustomBox => FieldElement::from_u64(1),
        }
    }
}

/// Splits a 32-byte key into two field elements, each holding one 16-byte
/// little-endian half.
pub fn pack_key_halves(k: &[u8; 32]) -> (r: (FieldElement, FieldElement))
    ensures
        fe_wf(r.0),
        fe_wf(r.1),
        r.0@ == k@.take(16) + zeros16(),
        r.1@ == k@.skip(16) + zeros16(),
{
    let mut lo = [0u8; 32];
    let mut hi = [0u8; 32];
    let mut i: usize = 0;
    while i < 16
        invariant
            0 <= i <= 16,
            lo@.len() == 32,
            hi@.len() == 32,
            forall|j: int| 0 <= j < i ==> lo@[j] == k@[j],
            forall|j: int| 0 <= j < i ==> hi@[j] == k@[16 + j],
            forall|j: int| i <= j < 32 ==> lo@[j] == 0,
            forall|j: int| i <= j < 32 ==> hi@[j] == 0,
        decreases 16 - i,
    {
        lo[i] = k[i];
        hi[i] = k[16 + i];
        i += 1;
    }
    let rlo = FieldElement { le: lo };
    let rhi = FieldElement { le: hi };
    proof {
        assert(rlo@ =~= k@.take(16) + zeros16());
        assert(rhi@ =~= k@.skip(16) + zeros16());
        lemma_le_val_zero_suffix(rlo@, 16);
        lemma_le_val_zero_suffix(rhi@, 16);
        lemma_le_val_upper(rlo@.take(16));
        lemma_le_val_upper(rhi@.take(16));
        lemma_modulus_facts();
    }
    (rlo, rhi)
}

/// The byte preimage of the output leaf: the packed key halves, amount,
/// nonce, custom hash, and the coin-box tag.
pub open spec fn utxo_leaf_preimage(o: CswUtxoOutputData) -> Seq<u8> {
    (o.spending_pub_key@.take(16) + zeros16()) + (o.spending_pub_key@.skip(16) + zeros16())
        + o.amount@ + o.nonce@ + o.custom_hash@ + zeros32()
}

/// The leaf committing the output into the state tree; it is also the
/// claim's unique nullifier.
pub open spec fn utxo_leaf_bytes(o: CswUtxoOutputData) -> Seq<u8> {
    mask_to_field(blake2s_of(field_hash_personal(), utxo_leaf_preimage(o)))
}

/// The withdrawal-validity predicate the circuit enforces: the certificate
/// hash binds the lineage, and, unless the UTXO input is phantom, the
/// output leaf is a member of the committed state tree, the nullifier is
/// that leaf, and the claimed amount is the output's amount.
pub open spec fn csw_circuit_satisfied(d: CswProverData) -> bool {
    let leaf = utxo_leaf_bytes(d.input.output);
    &&& cert_hash_bytes(d.last_wcert) == d.sc_last_wcert_hash@
    &&& (!utxo_input_is_phantom(d.input) ==> merkle_root_bytes_seq(
        leaf,
        d.mst_path_to_output.nodes@,
    ) == d.last_wcert.scb_new_mst_root@)
    &&& (!utxo_input_is_phantom(d.input) ==> d.nullifier@ == leaf)
    &&& (!utxo_input_is_phantom(d.input) ==> d.input.output.amount@ == d.amount@)
}

/// A proof for a claim is accepted exactly against the claim's own public
/// inputs, and only when the circuit is satisfied.
pub open spec fn claim_accepted(d: CswProverData, pi: Seq<FieldElement>) -> bool {
    csw_circuit_satisfied(d) && pi == public_inputs_spec(d)
}

/// Witness variables the circuit allocates: eight certificate fields, the
/// certificate-hash output, the box tag, two packed key halves, amount,
/// nonce and custom hash, two packed secret-key halves, the leaf-hash
/// output, and one hash output per Merkle level.
pub open spec fn csw_witness_allocs(d: CswProverData) -> nat {
    18 + d.mst_path_to_output.nodes@.len()
}

/// Public-input variables the circuit allocates.
pub open spec fn csw_instance_allocs() -> nat {
    8
}

/// Enforcement rows the circuit records.
pub open spec fn csw_num_constraints() -> nat {
    4
}

proof fn lemma_concat6(s: Seq<FieldElement>)
    requires
        s.len() == 6,
    ensures
        concat_fe(s) == s[0]@ + s[1]@ + s[2]@ + s[3]@ + s[4]@ + s[5]@,
{
    let s5 = s.drop_last();
    let s4 = s5.drop_last();
    let s3 = s4.drop_last();
    let s2 = s3.drop_last();
    let s1 = s2.drop_last();
    let s0 = s1.drop_last();
    assert(s0 =~= Seq::<FieldElement>::empty());
    assert(concat_fe(s0) =~= Seq::<u8>::empty());
    assert(s1.last() == s[0] && s2.last() == s[1] && s3.last() == s[2] && s4.last() == s[3]
        && s5.last() == s[4] && s.last() == s[5]);
    assert(concat_fe(s1) =~= s[0]@);
    assert(concat_fe(s2) =~= s[0]@ + s[1]@);
    assert(concat_fe(s3) =~= s[0]@ + s[1]@ + s[2]@);
    assert(concat_fe(s4) =~= s[0]@ + s[1]@ + s[2]@ + s[3]@);
    assert(concat_fe(s5) =~= s[0]@ + s[1]@ + s[2]@ + s[3]@ + s[4]@);
    assert(concat_fe(s) =~= s[0]@ + s[1]@ + s[2]@ + s[3]@ + s[4]@ + s[5]@);
}

/// The one-shot constraint graph of a single withdrawal claim.
#[derive(Clone)]
pub struct CeasedSidechainWithdrawalCircuit {
    pub csw_data: CswProverData,
}

impl CeasedSidechainWithdrawalCircuit {
    pub fn new(csw_data: CswProverData) -> (r: CeasedSidechainWithdrawalCircuit)
        ensures
            r.csw_data == csw_data,
    {
        CeasedSidechainWithdrawalCircuit { csw_data }
    }

    /// Builds the withdrawal constraint graph over the claim witness.  Every
    /// enforcement row is generated unconditionally; the UTXO-path selector
    /// only nullifies the gated ones.  The system it leaves behind is
    /// satisfied exactly when the claim predicate holds.
    pub fn generate_constraints(self, cs: &mut ConstraintSystem) -> (r: Result<(), CswError>)
        requires
            csw_data_wf(self.csw_data),
            old(cs).constraints@.len() < 0x10_0000,
            old(cs).num_instance_variables < 0x10_0000,
            old(cs).num_witness_variables < 0x10_0000,
        ensures
            r == Ok::<(), CswError>(()),
            final(cs).num_instance_variables == old(cs).num_instance_variables
                + csw_instance_allocs(),
            final(cs).num_witness_variables == old(cs).num_witness_variables + csw_witness_allocs(
                self.csw_data,
            ),
            final(cs).constraints@.len() == old(cs).constraints@.len() + csw_num_constraints(),
            cs_satisfied(final(cs).constraints@) <==> (cs_satisfied(old(cs).constraints@)
                && csw_circuit_satisfied(self.csw_data)),
    {
        let d = &self.csw_data;
        // Public inputs.
        let _genesis_g = alloc_input_field_gadget(cs, &d.genesis_constant);
        let _com_start_g = alloc_input_field_gadget(cs, &d.mcb_sc_txs_com_start);
        let _com_end_g = alloc_input_field_gadget(cs, &d.mcb_sc_txs_com_end);
        let wcert_hash_g = alloc_input_field_gadget(cs, &d.sc_last_wcert_hash);
        let amount_pub_g = alloc_input_field_gadget(cs, &d.amount);
        let nullifier_g = alloc_input_field_gadget(cs, &d.nullifier);
        let _receiver_g = alloc_input_field_gadget(cs, &d.receiver);
        let _mst_root_pub_g = alloc_input_field_gadget(cs, &d.last_wcert.scb_new_mst_root);
        // Certificate witness fields.
        let ledger_g = alloc_field_gadget(cs, &d.last_wcert.ledger_id);
        let epoch_g = alloc_field_gadget(cs, &d.last_wcert.epoch_id);
        let bt_list_g = alloc_field_gadget(cs, &d.last_wcert.bt_list_hash);
        let quality_g = alloc_field_gadget(cs, &d.last_wcert.quality);
        let com_g = alloc_field_gadget(cs, &d.last_wcert.mcb_sc_txs_com);
        let ft_fee_g = alloc_field_gadget(cs, &d.last_wcert.ft_min_fee);
        let btr_fee_g = alloc_field_gadget(cs, &d.last_wcert.btr_min_fee);
        let scb_root_g = alloc_field_gadget(cs, &d.last_wcert.scb_new_mst_root);
        // last_wcert_hash = H(last_wcert), fixed arity eight.
        let mut cert_inputs: Vec<FieldElementGadget> = Vec::new();
        cert_inputs.push(ledger_g);
        cert_inputs.push(epoch_g);
        cert_inputs.push(bt_list_g);
        cert_inputs.push(quality_g);
        cert_inputs.push(com_g);
        cert_inputs.push(ft_fee_g);
        cert_inputs.push(btr_fee_g);
        cert_inputs.push(scb_root_g);
        let cert_hash_g = enforce_hash_constant_length(cs, &cert_inputs);
        proof {
            assert(cert_inputs@.map_values(|g: FieldElementGadget| g.value) =~= cert_hash_inputs(
                d.last_wcert,
            ));
        }
        // require(sc_last_wcert_hash == H(last_wcert))
        enforce_equal(cs, &cert_hash_g, &wcert_hash_g);
        let ghost b1 = (cert_hash_g.value@ == wcert_hash_g.value@);
        // The UTXO path is active unless the input is phantom.
        let should_enforce = BooleanGadget { value: d.input.is_phantom() }.not();
        // outputHash = H(input.output | BoxType.Coin), fixed arity six.
        let box_g = alloc_field_gadget(cs, &BoxType::CoinBox.field_tag());
        let (key_lo, key_hi) = pack_key_halves(&d.input.output.spending_pub_key);
        let key_lo_g = alloc_field_gadget(cs, &key_lo);
        let key_hi_g = alloc_field_gadget(cs, &key_hi);
        let amount_g = alloc_field_gadget(cs, &d.input.output.amount);
        let nonce_g = alloc_field_gadget(cs, &d.input.output.nonce);
        let custom_g = alloc_field_gadget(cs, &d.input.output.custom_hash);
        // The secret key is allocated for the ownership extension point.
        let (sk_lo, sk_hi) = pack_key_halves(&d.input.secret_key);
        let _sk_lo_g = alloc_field_gadget(cs, &sk_lo);
        let _sk_hi_g = alloc_field_gadget(cs, &sk_hi);
        let mut leaf_inputs: Vec<FieldElementGadget> = Vec::new();
        leaf_inputs.push(key_lo_g);
        leaf_inputs.push(key_hi_g);
        leaf_inputs.push(amount_g);
        leaf_inputs.push(nonce_g);
        leaf_inputs.push(custom_g);
        leaf_inputs.push(box_g);
        let output_hash_g = enforce_hash_constant_length(cs, &leaf_inputs);
        proof {
            let vals = leaf_inputs@.map_values(|g: FieldElementGadget| g.value);
            assert(vals =~= seq![
                key_lo, key_hi, d.input.output.amount, d.input.output.nonce,
                d.input.output.custom_hash, box_g.value,
            ]);
            lemma_concat6(vals);
            assert(concat_fe(vals) == utxo_leaf_preimage(d.input.output));
            assert(output_hash_g.value@ == utxo_leaf_bytes(d.input.output));
        }
        // mst_root = reconstruct_merkle_root_hash(outputHash, mst_path_to_output)
        let mst_root_g = enforce_root_from_leaf(cs, &d.mst_path_to_output, &output_hash_g);
        proof {
            crate::gadgets::lemma_merkle_root_as_seq(
                output_hash_g.value,
                d.mst_path_to_output.nodes@,
            );
        }
        // require(last_wcert.scb_new_mst_root == mst_root), gated.
        conditional_enforce_equal(cs, &mst_root_g, &scb_root_g, &should_enforce);
        let ghost b2 = (should_enforce.value ==> mst_root_g.value@ == scb_root_g.value@);
        // require(nullifier == outputHash), gated.
        conditional_enforce_equal(cs, &output_hash_g, &nullifier_g, &should_enforce);
        let ghost b3 = (should_enforce.value ==> output_hash_g.value@ == nullifier_g.value@);
        // require(input.output.amount == sys_data.amount), gated.
        conditional_enforce_equal(cs, &amount_g, &amount_pub_g, &should_enforce);
        let ghost b4 = (should_enforce.value ==> amount_g.value@ == amount_pub_g.value@);
        proof {
            let s0 = old(cs).constraints@;
            lemma_satisfied_push(s0, b1);
            lemma_satisfied_push(s0.push(b1), b2);
            lemma_satisfied_push(s0.push(b1).push(b2), b3);
            lemma_satisfied_push(s0.push(b1).push(b2).push(b3), b4);
            assert((b1 && b2 && b3 && b4) == csw_circuit_satisfied(self.csw_data));
        }
        Ok(())
    }
}

/// Checks at run time that a claim witness is well-formed: every field
/// element canonical and the state-tree path of the configured height.
/// Callers outside verified code validate a claim with this before handing
/// it to the circuit.
pub fn check_csw_data_wf(d: &CswProverData) -> (r: bool)
    ensures
        r == csw_data_wf(*d),
{
    let c = &d.last_wcert;
    let o = &d.input.output;
    let head = d.genesis_constant.is_canonical() && d.mcb_sc_txs_com_end.is_canonical()
        && d.sc_last_wcert_hash.is_canonical() && d.amount.is_canonical()
        && d.nullifier.is_canonical() && d.receiver.is_canonical()
        && d.mcb_sc_txs_com_start.is_canonical() && d.scb_btr_tree_root.is_canonical()
        && d.wcert_tree_root.is_canonical();
    let cert_ok = c.ledger_id.is_canonical() && c.epoch_id.is_canonical()
        && c.bt_list_hash.is_canonical() && c.quality.is_canonical()
        && c.mcb_sc_txs_com.is_canonical() && c.ft_min_fee.is_canonical()
        && c.btr_min_fee.is_canonical() && c.scb_new_mst_root.is_canonical();
    let output_ok = o.amount.is_canonical() && o.nonce.is_canonical()
        && o.custom_hash.is_canonical();
    if !(head && cert_ok && output_ok) {
        return false;
    }
    if d.mst_path_to_output.nodes.len() != MST_MERKLE_TREE_HEIGHT {
        return false;
    }
    let n = d.mst_path_to_output.nodes.len();
    let mut i: usize = 0;
    while i < n
        invariant
            0 <= i <= n,
            n == d.mst_path_to_output.nodes@.len(),
            forall|j: int|
                0 <= j < i ==> fe_wf((#[trigger] d.mst_path_to_output.nodes@[j]).sibling),
        decreases n - i,
    {
        if !d.mst_path_to_output.nodes[i].sibling.is_canonical() {
            return false;
        }
        i += 1;
    }
    let m = d.sc_txs_com_hashes.len();
    let mut k: usize = 0;
    while k < m
        invariant
            0 <= k <= m,
            m == d.sc_txs_com_hashes@.len(),
            forall|j: int| 0 <= j < k ==> fe_wf(#[trigger] d.sc_txs_com_hashes@[j]),
        decreases m - k,
    {
        if !d.sc_txs_com_hashes[k].is_canonical() {
            return false;
        }
        k += 1;
    }
    true
}

/// Synthesizes the circuit over a fresh system and reports the first
/// failing enforcement, if any: the claim is valid exactly when there is
/// none.
pub fn debug_circuit(circ: CeasedSidechainWithdrawalCircuit) -> (r: Result<Option<usize>, CswError>)
    requires
        csw_data_wf(circ.csw_data),
    ensures
        r matches Ok(o) ==> ((o is None) <==> csw_circuit_satisfied(circ.csw_data)),
        r is Ok,
{
    let mut cs = ConstraintSystem::new();
    let res = circ.generate_constraints(&mut cs);
    match res {
        Ok(_) => Ok(cs.first_failing_constraint()),
        Err(e) => Err(e),
    }
}

/// Computes the output's state-tree leaf (which is also the claim's
/// nullifier) outside the circuit, as a claimant assembling a claim does.
pub fn compute_utxo_leaf_hash(o: &CswUtxoOutputData) -> (r: FieldElement)
    ensures
        fe_wf(r),
        r@ == utxo_leaf_bytes(*o),
{
    let (key_lo, key_hi) = pack_key_halves(&o.spending_pub_key);
    let box_fe = BoxType::CoinBox.field_tag();
    let mut inputs: Vec<FieldElement> = Vec::new();
    inputs.push(key_lo);
    inputs.push(key_hi);
    inputs.push(o.amount);
    inputs.push(o.nonce);
    inputs.push(o.custom_hash);
    inputs.push(box_fe);
    proof {
        assert(inputs@ =~= seq![key_lo, key_hi, o.amount, o.nonce, o.custom_hash, box_fe]);
        lemma_concat6(inputs@);
        assert(concat_fe(inputs@) == utxo_leaf_preimage(*o));
    }
    crate::hashing::hash_field_elements(&inputs)
}

/// Recomputes the Merkle root a leaf reaches along a path, outside the
/// circuit.
pub fn compute_merkle_root(leaf: &FieldElement, path: &GingerMHTBinaryPath) -> (r: FieldElement)
    requires
        fe_wf(*leaf),
        path_wf(*path),
        path.nodes@.len() < 0x1000_0000,
    ensures
        fe_wf(r),
        r@ == merkle_root_bytes_seq(leaf@, path.nodes@),
{
    let mut cs = ConstraintSystem::new();
    let leaf_g = FieldElementGadget { value: *leaf };
    let root_g = enforce_root_from_leaf(&mut cs, path, &leaf_g);
    proof {
        crate::gadgets::lemma_merkle_root_as_seq(*leaf, path.nodes@);
    }
    root_g.value
}

/// Re-derives a claim's public inputs and checks the claim against them:
/// the model of proof verification, accepting exactly a satisfied circuit
/// presented with its own public inputs.
pub fn verify_claim(circ: CeasedSidechainWithdrawalCircuit, pi: &Vec<FieldElement>) -> (r: Result<
    bool,
    CswError,
>)
    requires
        csw_data_wf(circ.csw_data),
    ensures
        r matches Ok(b) ==> (b == claim_accepted(circ.csw_data, pi@)),
        r is Ok,
{
    let ghost d = circ.csw_data;
    let expected = get_public_inputs(&circ.csw_data);
    if pi.len() != expected.len() {
        proof {
            assert(pi@ != public_inputs_spec(d));
        }
        return Ok(false);
    }
    let mut i: usize = 0;
    let n = expected.len();
    while i < n
        invariant
            0 <= i <= n,
            d == circ.csw_data,
            csw_data_wf(d),
            n == expected@.len() == pi@.len(),
            expected@ == public_inputs_spec(d),
            forall|j: int| 0 <= j < i ==> pi@[j]@ == expected@[j]@,
        decreases n - i,
    {
        if !pi[i].eq_fe(&expected[i]) {
            proof {
                assert(pi@[i as int]@ != public_inputs_spec(d)[i as int]@);
                assert(pi@ != public_inputs_spec(d));
            }
            return Ok(false);
        }
        i += 1;
    }
    proof {
        assert forall|j: int| 0 <= j < n implies pi@[j] == expected@[j] by {
            assert(pi@[j]@ == expected@[j]@);
            assert(pi@[j].le@ == expected@[j].le@);
            assert(pi@[j].le =~= expected@[j].le);
        }
        assert(pi@ =~= expected@);
    }
    let mut cs = ConstraintSystem::new();
    let res = circ.generate_constraints(&mut cs);
    match res {
        Ok(_) => Ok(cs.is_satisfied()),
        Err(_) => Err(CswError::SynthesisError),
    }
}

// ---------------------------------------------------------------------------
// Laws of the claim predicate
// ---------------------------------------------------------------------------

/// Recomputing the certificate commitment of equal certificates yields
/// identical hashes: the commitment is a function of the eight lineage
/// fields alone.
pub proof fn lemma_certificate_hash_deterministic(
    c1: WithdrawalCertificateData,
    c2: WithdrawalCertificateData,
)
    requires
        c1 == c2,
    ensures
        cert_hash_bytes(c1) == cert_hash_bytes(c2),
{
}

/// A claim assembled correctly is accepted: with the lineage hash
/// recomputed from the certificate, the nullifier set to the output leaf,
/// the claimed amount set to the output's amount, and a Merkle path tying
/// the leaf to the certified state root, the circuit is satisfied and the
/// proof verifies against the claim's own public inputs.
pub proof fn lemma_valid_claim_accepted(d: CswProverData)
    requires
        cert_hash_bytes(d.last_wcert) == d.sc_last_wcert_hash@,
        merkle_root_bytes_seq(utxo_leaf_bytes(d.input.output), d.mst_path_to_output.nodes@)
            == d.last_wcert.scb_new_mst_root@,
        d.nullifier@ == utxo_leaf_bytes(d.input.output),
        d.input.output.amount@ == d.amount@,
    ensures
        csw_circuit_satisfied(d),
        claim_accepted(d, public_inputs_spec(d)),
{
}

/// Phantom handling: when the UTXO input is the all-sentinel absent
/// encoding, the claim is judged by the certificate hash alone — the
/// Merkle, nullifier and amount checks are gated off, whatever their
/// operands hold.
pub proof fn lemma_phantom_claim_gates_utxo_checks(d: CswProverData)
    requires
        utxo_input_is_phantom(d.input),
        cert_hash_bytes(d.last_wcert) == d.sc_last_wcert_hash@,
    ensures
        csw_circuit_satisfied(d),
{
}

/// Conversely, a non-phantom input with a Merkle path that does not lead
/// to the certified state root is rejected.
pub proof fn lemma_wrong_merkle_path_rejected(d: CswProverData)
    requires
        !utxo_input_is_phantom(d.input),
        merkle_root_bytes_seq(utxo_leaf_bytes(d.input.output), d.mst_path_to_output.nodes@)
            != d.last_wcert.scb_new_mst_root@,
    ensures
        !csw_circuit_satisfied(d),
{
}

/// Tamper rejection: a proof is checked against exactly the claim's public
/// inputs, so perturbing any one of them makes verification fail.
pub proof fn lemma_tampered_public_input_rejected(d: CswProverData, pi: Seq<FieldElement>)
    requires
        pi != public_inputs_spec(d),
    ensures
        !claim_accepted(d, pi),
{
}

/// Substituting a certificate under an unchanged claimed lineage hash is
/// rejected, whenever the substitute's commitment differs.  (That changing
/// any single lineage field does change the commitment is the assumed
/// collision resistance of the hash primitive, exercised by test.)
pub proof fn lemma_certificate_substitution_rejected(d1: CswProverData, d2: CswProverData)
    requires
        csw_circuit_satisfied(d1),
        d2.sc_last_wcert_hash == d1.sc_last_wcert_hash,
        cert_hash_bytes(d2.last_wcert) != cert_hash_bytes(d1.last_wcert),
    ensures
        !csw_circuit_satisfied(d2),
{
}

/// Tamper rejection inside the witness: replacing the nullifier of an
/// accepted non-phantom claim with any other value leaves the circuit
/// unsatisfied.
pub proof fn lemma_nullifier_tamper_rejected(d: CswProverData, n2: FieldElement)
    requires
        csw_circuit_satisfied(d),
        !utxo_input_is_phantom(d.input),
        n2@ != d.nullifier@,
    ensures
        !csw_circuit_satisfied(CswProverData { nullifier: n2, ..d }),
{
    let d2 = CswProverData { nullifier: n2, ..d };
    assert(d2.input == d.input);
    assert(d2.nullifier@ != utxo_leaf_bytes(d2.input.output));
}

} // verus!
