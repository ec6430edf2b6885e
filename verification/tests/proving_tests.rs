//! The key lifecycle: discriminants, size bounds, and tagged serialization.

use csw_circuit::csw::{CeasedSidechainWithdrawalCircuit, CswProverData, CswUtxoInputData};
use csw_circuit::error::CswError;
use csw_circuit::field::FieldElement;
use csw_circuit::gadgets::GingerMHTBinaryPath;
use csw_circuit::proving::{
    check_proof_vk_size, compute_proof_vk_size, deserialize_verifier_key, generate_circuit_keypair,
    get_proving_system_type, get_proving_system_type_as_jint, log2_ceil, read_proving_system_type,
    serialize_prover_key, serialize_verifier_key, tag_proof_bytes, IndexInfo, ProvingSystem,
    ZendooVerifierKey,
};

fn fe(v: u64) -> FieldElement {
    FieldElement::from_u64(v)
}

fn phantom_test_data() -> CswProverData {
    let cert = csw_circuit::csw::WithdrawalCertificateData {
        ledger_id: fe(1),
        epoch_id: fe(2),
        bt_list_hash: fe(3),
        quality: fe(4),
        mcb_sc_txs_com: fe(5),
        ft_min_fee: fe(6),
        btr_min_fee: fe(7),
        scb_new_mst_root: fe(8),
    };
    CswProverData {
        genesis_constant: fe(14),
        mcb_sc_txs_com_end: fe(15),
        sc_last_wcert_hash: csw_circuit::csw::hash_certificate(&cert),
        amount: fe(10),
        nullifier: fe(11),
        receiver: fe(19),
        last_wcert: cert,
        input: CswUtxoInputData::default(),
        mst_path_to_output: GingerMHTBinaryPath::default(),
        ft_input: csw_circuit::csw::CswFtInputData::default(),
        ft_input_secret_key: [20; 32],
        mcb_sc_txs_com_start: fe(21),
        merkle_path_to_sc_hash: GingerMHTBinaryPath::default(),
        ft_tree_path: GingerMHTBinaryPath::default(),
        scb_btr_tree_root: fe(22),
        wcert_tree_root: fe(23),
        sc_txs_com_hashes: Vec::new(),
    }
}

#[test]
fn ordinal_mapping_round_trips() {
    for ordinal in 0..3usize {
        let ps = get_proving_system_type(ordinal);
        assert_eq!(get_proving_system_type_as_jint(ps), ordinal as i32);
    }
}

#[test]
fn discriminant_round_trip_for_every_variant() {
    let index = IndexInfo {
        num_constraints: 4,
        num_instance_variables: 8,
        num_witness_variables: 40,
    };
    for ps in [ProvingSystem::Darlin, ProvingSystem::CoboundaryMarlin] {
        let vk = ZendooVerifierKey { ps, index };
        let bytes = serialize_verifier_key(&vk);
        assert_eq!(read_proving_system_type(&bytes).unwrap(), ps);
        assert_eq!(deserialize_verifier_key(&bytes).unwrap(), vk);

        let pk = csw_circuit::proving::ZendooProverKey { ps, index };
        let pk_bytes = serialize_prover_key(&pk);
        assert_eq!(read_proving_system_type(&pk_bytes).unwrap(), ps);

        let proof = tag_proof_bytes(ps, &vec![1, 2, 3]);
        assert_eq!(read_proving_system_type(&proof).unwrap(), ps);
        // The discriminant is read from the first byte alone.
        assert_eq!(read_proving_system_type(&proof[..1].to_vec()).unwrap(), ps);
    }
    assert_eq!(read_proving_system_type(&vec![0u8]).unwrap(), ProvingSystem::Undefined);
    assert!(read_proving_system_type(&vec![9u8]).is_err());
    assert!(read_proving_system_type(&Vec::new()).is_err());
}

#[test]
fn deserialization_rejects_malformed_artifacts() {
    assert!(deserialize_verifier_key(&vec![2u8; 24]).is_err());
    assert!(deserialize_verifier_key(&vec![0u8; 25]).is_err());
    assert!(deserialize_verifier_key(&vec![7u8; 25]).is_err());
}

#[test]
fn log2_ceil_exact_values() {
    assert_eq!(log2_ceil(0), 0);
    assert_eq!(log2_ceil(1), 0);
    assert_eq!(log2_ceil(2), 1);
    assert_eq!(log2_ceil(3), 2);
    assert_eq!(log2_ceil(4), 2);
    assert_eq!(log2_ceil(5), 3);
    assert_eq!(log2_ceil(1024), 10);
    assert_eq!(log2_ceil(1 << 17), 17);
}

#[test]
fn proof_and_vk_sizes_are_the_documented_formulas() {
    let index = IndexInfo {
        num_constraints: 4,
        num_instance_variables: 8,
        num_witness_variables: 40,
    };
    let (proof_size, vk_size) =
        compute_proof_vk_size(1 << 17, index, false, ProvingSystem::CoboundaryMarlin);
    // 16 + 32 * (12 + 2 * 17) and 33 + 32 * (8 + 2).
    assert_eq!(proof_size, 1488);
    assert_eq!(vk_size, 353);
    let (proof_zk, vk_darlin) = compute_proof_vk_size(1 << 17, index, true, ProvingSystem::Darlin);
    assert_eq!(proof_zk, 1520);
    assert_eq!(vk_darlin, 353 + 64);
    assert!(check_proof_vk_size(1 << 17, index, false, ProvingSystem::CoboundaryMarlin, 1488, 353));
    assert!(!check_proof_vk_size(1 << 17, index, false, ProvingSystem::CoboundaryMarlin, 1487, 353));
    assert!(!check_proof_vk_size(1 << 17, index, false, ProvingSystem::CoboundaryMarlin, 1488, 352));
}

#[test]
fn keypair_generation_respects_selector_and_size_bounds() {
    let data = phantom_test_data();
    let circ = CeasedSidechainWithdrawalCircuit::new(data.clone());
    assert_eq!(
        generate_circuit_keypair(circ, ProvingSystem::Undefined, 1 << 17, 10000, 10000, false),
        Err(CswError::UndefinedProvingSystem)
    );
    let circ = CeasedSidechainWithdrawalCircuit::new(data.clone());
    assert_eq!(
        generate_circuit_keypair(circ, ProvingSystem::Darlin, 1 << 17, 10000, 10000, false),
        Err(CswError::Unimplemented)
    );
    // A maximum below the computed proof size fails fast.
    let circ = CeasedSidechainWithdrawalCircuit::new(data.clone());
    assert_eq!(
        generate_circuit_keypair(circ, ProvingSystem::CoboundaryMarlin, 1 << 17, 100, 10000, false),
        Err(CswError::CircuitTooComplex)
    );
    // Generous maxima succeed, with the circuit's real index counts.
    let circ = CeasedSidechainWithdrawalCircuit::new(data);
    let (pk, vk) =
        generate_circuit_keypair(circ, ProvingSystem::CoboundaryMarlin, 1 << 17, 10000, 10000, false)
            .unwrap();
    assert_eq!(pk.ps, ProvingSystem::CoboundaryMarlin);
    assert_eq!(vk.ps, ProvingSystem::CoboundaryMarlin);
    assert_eq!(vk.index.num_constraints, 4);
    assert_eq!(vk.index.num_instance_variables, 8);
    assert_eq!(vk.index.num_witness_variables, 18 + 22);
    assert_eq!(pk.index, vk.index);
}
