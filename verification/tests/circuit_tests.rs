//! The withdrawal circuit: acceptance of a correctly assembled claim,
//! rejection of tampered ones, phantom gating, and the certificate hash.

use csw_circuit::csw::{
    check_csw_data_wf, compute_merkle_root, compute_utxo_leaf_hash, debug_circuit,
    get_public_inputs, hash_certificate, verify_claim, CeasedSidechainWithdrawalCircuit,
    CswFtInputData, CswProverData, CswUtxoInputData, CswUtxoOutputData,
    WithdrawalCertificateData, CSW_TRANSACTION_COMMITMENT_HASHES_NUMBER,
};
use csw_circuit::field::FieldElement;
use csw_circuit::gadgets::{GingerMHTBinaryPath, MerklePathNode};
use csw_circuit::params::{MST_MERKLE_TREE_HEIGHT, SC_PUBLIC_KEY_LENGTH, SC_SECRET_KEY_LENGTH};

fn fe(v: u64) -> FieldElement {
    FieldElement::from_u64(v)
}

fn test_merkle_path() -> GingerMHTBinaryPath {
    let mut nodes = Vec::new();
    for i in 0..MST_MERKLE_TREE_HEIGHT {
        nodes.push(MerklePathNode { sibling: fe(100 + i as u64), right: i % 2 == 0 });
    }
    GingerMHTBinaryPath { nodes }
}

fn generate_test_csw_prover_data() -> CswProverData {
    let utxo_input_data = CswUtxoInputData {
        output: CswUtxoOutputData {
            spending_pub_key: [9; SC_PUBLIC_KEY_LENGTH],
            amount: fe(10),
            nonce: fe(11),
            custom_hash: fe(12),
        },
        secret_key: [13; SC_SECRET_KEY_LENGTH],
    };

    let mst_leaf_hash = compute_utxo_leaf_hash(&utxo_input_data.output);
    let mst_path = test_merkle_path();
    let mst_root = compute_merkle_root(&mst_leaf_hash, &mst_path);

    let cert_data = WithdrawalCertificateData {
        ledger_id: fe(1),
        epoch_id: fe(2),
        bt_list_hash: fe(3),
        quality: fe(4),
        mcb_sc_txs_com: fe(5),
        ft_min_fee: fe(6),
        btr_min_fee: fe(7),
        scb_new_mst_root: mst_root,
    };

    let computed_last_wcert_hash = hash_certificate(&cert_data);

    CswProverData {
        genesis_constant: fe(14),
        mcb_sc_txs_com_end: fe(15),
        sc_last_wcert_hash: computed_last_wcert_hash,
        amount: utxo_input_data.output.amount,
        nullifier: mst_leaf_hash,
        receiver: fe(19),
        last_wcert: cert_data,
        input: utxo_input_data,
        mst_path_to_output: mst_path,
        ft_input: CswFtInputData::default(),
        ft_input_secret_key: [20; SC_SECRET_KEY_LENGTH],
        mcb_sc_txs_com_start: fe(21),
        merkle_path_to_sc_hash: GingerMHTBinaryPath::default(),
        ft_tree_path: GingerMHTBinaryPath::default(),
        scb_btr_tree_root: fe(22),
        wcert_tree_root: fe(23),
        sc_txs_com_hashes: vec![fe(24); CSW_TRANSACTION_COMMITMENT_HASHES_NUMBER],
    }
}

#[test]
fn valid_claim_is_satisfiable_and_verifies() {
    let csw_prover_data = generate_test_csw_prover_data();
    let circuit = CeasedSidechainWithdrawalCircuit::new(csw_prover_data.clone());

    let failing_constraint = debug_circuit(circuit.clone()).unwrap();
    println!("Failing constraint: {:?}", failing_constraint);
    assert!(failing_constraint.is_none());

    let public_inputs = get_public_inputs(&csw_prover_data);
    assert!(verify_claim(circuit, &public_inputs).unwrap());
}

#[test]
fn tampered_public_input_is_rejected() {
    let csw_prover_data = generate_test_csw_prover_data();
    let circuit = CeasedSidechainWithdrawalCircuit::new(csw_prover_data.clone());

    let mut public_inputs = get_public_inputs(&csw_prover_data);
    public_inputs[0] = public_inputs[0].add(&fe(1));
    assert!(!verify_claim(circuit, &public_inputs).unwrap());
}

#[test]
fn tampered_nullifier_is_rejected() {
    let mut data = generate_test_csw_prover_data();
    data.nullifier = data.nullifier.add(&fe(1));
    let circuit = CeasedSidechainWithdrawalCircuit::new(data);
    assert!(debug_circuit(circuit).unwrap().is_some());
}

#[test]
fn tampered_amount_is_rejected() {
    let mut data = generate_test_csw_prover_data();
    data.amount = fe(999);
    let circuit = CeasedSidechainWithdrawalCircuit::new(data);
    assert!(debug_circuit(circuit).unwrap().is_some());
}

#[test]
fn wrong_certificate_hash_is_rejected() {
    let mut data = generate_test_csw_prover_data();
    data.sc_last_wcert_hash = data.sc_last_wcert_hash.add(&fe(1));
    let circuit = CeasedSidechainWithdrawalCircuit::new(data);
    assert!(debug_circuit(circuit).unwrap().is_some());
}

#[test]
fn phantom_input_gates_the_utxo_checks() {
    let mut data = generate_test_csw_prover_data();
    // An absent UTXO input, with junk in the gated operands.
    data.input = CswUtxoInputData::default();
    data.nullifier = fe(12345);
    data.amount = fe(54321);
    data.last_wcert.scb_new_mst_root = fe(777);
    data.sc_last_wcert_hash = hash_certificate(&data.last_wcert);
    let circuit = CeasedSidechainWithdrawalCircuit::new(data);
    assert!(debug_circuit(circuit).unwrap().is_none());
}

#[test]
fn non_phantom_input_with_wrong_path_is_rejected() {
    let mut data = generate_test_csw_prover_data();
    data.mst_path_to_output.nodes[0].sibling = fe(31337);
    let circuit = CeasedSidechainWithdrawalCircuit::new(data);
    assert!(debug_circuit(circuit).unwrap().is_some());
}

#[test]
fn certificate_hash_round_trip_and_sensitivity() {
    let data = generate_test_csw_prover_data();
    let cert = data.last_wcert;
    // Recomputing twice yields identical results.
    assert_eq!(hash_certificate(&cert), hash_certificate(&cert));
    let base = hash_certificate(&cert);
    // Changing any one of the eight fields changes the hash.
    let mut c = cert;
    c.ledger_id = fe(41);
    assert_ne!(hash_certificate(&c), base);
    let mut c = cert;
    c.epoch_id = fe(42);
    assert_ne!(hash_certificate(&c), base);
    let mut c = cert;
    c.bt_list_hash = fe(43);
    assert_ne!(hash_certificate(&c), base);
    let mut c = cert;
    c.quality = fe(44);
    assert_ne!(hash_certificate(&c), base);
    let mut c = cert;
    c.mcb_sc_txs_com = fe(45);
    assert_ne!(hash_certificate(&c), base);
    let mut c = cert;
    c.ft_min_fee = fe(46);
    assert_ne!(hash_certificate(&c), base);
    let mut c = cert;
    c.btr_min_fee = fe(47);
    assert_ne!(hash_certificate(&c), base);
    let mut c = cert;
    c.scb_new_mst_root = fe(48);
    assert_ne!(hash_certificate(&c), base);
}

#[test]
fn merkle_root_of_empty_path_is_the_leaf() {
    let leaf = fe(7);
    let root = compute_merkle_root(&leaf, &GingerMHTBinaryPath { nodes: Vec::new() });
    assert_eq!(root, leaf);
}

#[test]
fn leaf_hash_differs_from_its_inputs() {
    let data = generate_test_csw_prover_data();
    let leaf = compute_utxo_leaf_hash(&data.input.output);
    assert_ne!(leaf, data.input.output.amount);
    assert_ne!(leaf, data.input.output.nonce);
}

#[test]
fn well_formedness_check_accepts_and_rejects() {
    let data = generate_test_csw_prover_data();
    assert!(check_csw_data_wf(&data));
    // A truncated state-tree path is rejected.
    let mut short = data.clone();
    short.mst_path_to_output.nodes.pop();
    assert!(!check_csw_data_wf(&short));
    // A non-canonical field element is rejected.
    let mut bad = data;
    bad.amount.le = [0xff; 32];
    assert!(!check_csw_data_wf(&bad));
}

#[test]
fn phantom_detection_matches_the_sentinels() {
    assert!(CswUtxoInputData::default().is_phantom());
    let mut not_phantom = CswUtxoInputData::default();
    not_phantom.output.amount = fe(1);
    assert!(!not_phantom.is_phantom());
}
