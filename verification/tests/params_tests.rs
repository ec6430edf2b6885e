//! Deterministic parameter generation: the null key, the VRF generator
//! table, and the phantom sentinels.

use csw_circuit::csw::phantom_uint8_array;
use csw_circuit::field::{phantom_field_element, read_field_element_from_buffer_with_padding};
use csw_circuit::params::{
    hash_to_curve, null_pk_personal_bytes, vrf_personal_bytes, NaiveThresholdSigParams, VRFParams,
    VRFWindow, SC_PUBLIC_KEY_LENGTH, SC_SECRET_KEY_LENGTH,
};
use sha2::{Digest, Sha256};

#[test]
fn test_pk_null_gen() {
    let tag = b"Strontium Sr 90";
    let personalization = null_pk_personal_bytes();
    let htc_out = hash_to_curve(&tag.to_vec(), &personalization).unwrap();
    println!("{:#?}", htc_out);
    let null_pk = NaiveThresholdSigParams::new().unwrap().null_pk.0;
    assert_eq!(htc_out, null_pk);
}

#[test]
fn test_vrf_group_hash_gen() {
    let personalization = vrf_personal_bytes();

    let tag = b"Magnesium Mg 12";
    let htc_g1_out = hash_to_curve(&tag.to_vec(), &personalization).unwrap();

    let tag = b"Gold Au 79";
    let htc_g2_out = hash_to_curve(&tag.to_vec(), &personalization).unwrap();

    let gh_generators = VRFParams::compute_group_hash_table([htc_g1_out, htc_g2_out].to_vec());
    println!("{:#?}", htc_g1_out);
    println!("{:#?}", htc_g2_out);
    assert_eq!(gh_generators, VRFParams::new().unwrap().group_hash_generators);
}

#[test]
fn test_csw_phantom_field_element() {
    let tag = b"Krypton 36";
    let field_element = read_field_element_from_buffer_with_padding(&tag.to_vec()).unwrap();
    println!("Phantom field element: {:?}", field_element);
    assert_eq!(field_element, phantom_field_element());
}

#[test]
fn test_csw_phantom_uint8() {
    let tag = b"Krypton 36";

    let mut hash = Sha256::new();
    hash.update(tag);
    let hash_result = hash.finalize();

    println!("Phantom uint8 array: {:?}", hash_result);
    assert_eq!(hash_result.as_slice(), phantom_uint8_array());
    assert_eq!(hash_result.len(), SC_PUBLIC_KEY_LENGTH);
    assert_eq!(hash_result.len(), SC_SECRET_KEY_LENGTH);
}

#[test]
fn phantom_bytes_derivation_matches_the_constant() {
    let tag = b"Krypton 36".to_vec();
    let derived = csw_circuit::hashing::derive_phantom_bytes(&tag);
    assert_eq!(derived, phantom_uint8_array());
    // The digest is not the tag itself.
    assert_ne!(&derived[..tag.len()], &tag[..]);
}

#[test]
fn hash_to_curve_is_deterministic() {
    let personalization = null_pk_personal_bytes();
    let tag = b"Strontium Sr 90".to_vec();
    let p1 = hash_to_curve(&tag, &personalization).unwrap();
    let p2 = hash_to_curve(&tag, &personalization).unwrap();
    assert_eq!(p1, p2);
    let params1 = NaiveThresholdSigParams::new().unwrap();
    let params2 = NaiveThresholdSigParams::new().unwrap();
    assert_eq!(params1.null_pk.0, params2.null_pk.0);
    assert_eq!(params1.null_sig.e, params2.null_sig.s);
}

#[test]
fn distinct_tags_give_distinct_points() {
    let personalization = vrf_personal_bytes();
    let g1 = hash_to_curve(&b"Magnesium Mg 12".to_vec(), &personalization).unwrap();
    let g2 = hash_to_curve(&b"Gold Au 79".to_vec(), &personalization).unwrap();
    assert_ne!(g1, g2);
}

fn modulus_big() -> num_bigint::BigUint {
    num_bigint::BigUint::from_bytes_le(&[
        1u8, 0, 0, 0, 226, 100, 64, 161, 185, 89, 63, 108, 39, 161, 138, 3, 0, 0, 0, 0, 0, 0, 0,
        0, 0, 0, 0, 0, 0, 0, 0, 64,
    ])
}

#[test]
fn generated_points_lie_on_the_curve() {
    // Independent check with plain big-integer arithmetic: y^2 = x^3 + 5.
    let p = modulus_big();
    for params in [NaiveThresholdSigParams::new().unwrap()] {
        let point = params.null_pk.0;
        let x = num_bigint::BigUint::from_bytes_le(&point.x.le);
        let y = num_bigint::BigUint::from_bytes_le(&point.y.le);
        let z = num_bigint::BigUint::from_bytes_le(&point.z.le);
        assert_eq!(z, num_bigint::BigUint::from(1u8));
        assert_eq!(
            (&y * &y) % &p,
            (&x * &x * &x + num_bigint::BigUint::from(5u8)) % &p
        );
        assert_eq!((&y % num_bigint::BigUint::from(2u8)), num_bigint::BigUint::from(0u8));
    }
}

#[test]
fn hash_to_curve_follows_the_candidate_chain() {
    // Re-derive the x-coordinate with an independent implementation of the
    // candidate chain: personalized BLAKE2s over the fixed first block, the
    // tag and a counter byte, the shave bit masked off, accepted when
    // canonical and when x^3 + 5 is a square.
    let p = modulus_big();
    let personalization = null_pk_personal_bytes();
    let tag = b"Strontium Sr 90";
    let first_block = b"096b36a5804bfacef1691e173c366a47ff5ba84a44f26ddd7e8d9f79d5b42df0";
    let point = hash_to_curve(&tag.to_vec(), &personalization).unwrap();
    let legendre_exp = (&p - num_bigint::BigUint::from(1u8)) / num_bigint::BigUint::from(2u8);
    let mut expected_x = None;
    for counter in 0..=255u8 {
        let mut msg = first_block.to_vec();
        msg.extend_from_slice(tag);
        msg.push(counter);
        let digest = blake2s_simd::Params::new()
            .hash_length(32)
            .personal(&personalization)
            .to_state()
            .update(&msg)
            .finalize();
        let mut masked = [0u8; 32];
        masked.copy_from_slice(digest.as_bytes());
        masked[31] &= 0x7f;
        let x = num_bigint::BigUint::from_bytes_le(&masked);
        if x >= p {
            continue;
        }
        let rhs = (&x * &x * &x + num_bigint::BigUint::from(5u8)) % &p;
        if rhs.modpow(&legendre_exp, &p) == num_bigint::BigUint::from(1u8) {
            expected_x = Some(masked);
            break;
        }
    }
    assert_eq!(point.x.le, expected_x.unwrap());
}

#[test]
fn group_hash_table_shape_and_doubling() {
    let params = VRFParams::new().unwrap();
    let table = &params.group_hash_generators;
    assert_eq!(table.len(), VRFWindow::num_windows());
    for window in table {
        assert_eq!(window.len(), VRFWindow::window_size());
    }
    // Each entry is the previous one doubled four times.
    for window in table {
        for j in 1..window.len() {
            let mut expected = window[j - 1];
            for _ in 0..4 {
                expected = expected.double();
            }
            assert_eq!(window[j], expected);
        }
    }
}
