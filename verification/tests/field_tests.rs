//! Field arithmetic, byte encoding, and curve decompression.

use csw_circuit::curve::{decompress_even, sqrt_even};
use csw_circuit::field::{read_field_element_from_buffer_with_padding, FieldElement};

#[test]
fn small_values_round_trip() {
    let three = FieldElement::from_u64(3);
    let five = FieldElement::from_u64(5);
    let fifteen = FieldElement::from_u64(15);
    assert_eq!(three.mul(&five), fifteen);
    assert_eq!(three.add(&five), FieldElement::from_u64(8));
    assert_eq!(five.sub(&three), FieldElement::from_u64(2));
    assert_eq!(three.sub(&three), FieldElement::zero());
}

#[test]
fn pow_small_exponent() {
    let two = FieldElement::from_u64(2);
    let mut exp = [0u8; 32];
    exp[0] = 10;
    assert_eq!(two.pow_fe(&exp), FieldElement::from_u64(1024));
}

#[test]
fn addition_wraps_at_the_modulus() {
    // The modulus minus one, little-endian.
    let q_minus_1: Vec<u8> = vec![
        0, 0, 0, 0, 226, 100, 64, 161, 185, 89, 63, 108, 39, 161, 138, 3, 0, 0, 0, 0, 0, 0, 0, 0,
        0, 0, 0, 0, 0, 0, 0, 64,
    ];
    let max = read_field_element_from_buffer_with_padding(&q_minus_1).unwrap();
    let one = FieldElement::one();
    assert_eq!(max.add(&one), FieldElement::zero());
    assert_eq!(FieldElement::zero().sub(&one), max);
}

#[test]
fn wide_multiplication_reduces() {
    // 2^128 as a field element.
    let mut b = [0u8; 32];
    b[16] = 1;
    let v = read_field_element_from_buffer_with_padding(&b.to_vec()).unwrap();
    let sq = v.mul(&v);
    let expected: Vec<u8> = vec![
        253, 255, 255, 255, 89, 209, 62, 28, 211, 242, 65, 187, 137, 28, 96, 245, 255, 255, 255,
        255, 255, 255, 255, 255, 255, 255, 255, 255, 255, 255, 255, 63,
    ];
    assert_eq!(sq, read_field_element_from_buffer_with_padding(&expected).unwrap());
}

#[test]
fn read_rejects_long_and_non_canonical_buffers() {
    let long = vec![0u8; 33];
    assert!(read_field_element_from_buffer_with_padding(&long).is_err());
    let too_big = vec![0xffu8; 32];
    assert!(read_field_element_from_buffer_with_padding(&too_big).is_err());
    let ok = vec![0xffu8; 31];
    assert!(read_field_element_from_buffer_with_padding(&ok).is_ok());
}

#[test]
fn sqrt_even_of_zero_and_one() {
    let zero = FieldElement::zero();
    assert_eq!(sqrt_even(&zero), Some(zero));
    let one = FieldElement::one();
    let r = sqrt_even(&one).unwrap();
    assert_eq!(r.mul(&r), one);
    assert!(r.is_even());
}

#[test]
fn decompress_known_point() {
    // x = 1 lies on the curve: y^2 = 1 + 5 = 6, and 6 is a square.
    let x = FieldElement::one();
    let p = decompress_even(&x).unwrap();
    assert_eq!(p.x, x);
    assert_eq!(p.z, FieldElement::one());
    let expected_y: Vec<u8> = vec![
        98, 10, 50, 225, 254, 240, 207, 197, 154, 102, 52, 125, 205, 143, 132, 56, 25, 4, 161, 31,
        249, 7, 239, 76, 254, 233, 89, 164, 29, 186, 37, 63,
    ];
    assert_eq!(p.y, read_field_element_from_buffer_with_padding(&expected_y).unwrap());
    // The other root is odd: decompression always lands on the even branch.
    assert!(p.y.is_even());
}

#[test]
fn non_residue_has_no_root() {
    // 5 is the field's smallest quadratic non-residue.
    let five = FieldElement::from_u64(5);
    assert_eq!(sqrt_even(&five), None);
}
