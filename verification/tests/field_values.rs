use noirc_evaluator::brillig::value::Value;
use noirc_evaluator::field::FieldElement;

fn padded(tail: &[u8]) -> Vec<u8> {
    let mut bytes = vec![0u8; 32 - tail.len()];
    bytes.extend_from_slice(tail);
    bytes
}

/// The order of the field plus one, big-endian.
fn modulus_plus_one() -> Vec<u8> {
    vec![
        0x30, 0x64, 0x4e, 0x72, 0xe1, 0x31, 0xa0, 0x29, 0xb8, 0x50, 0x45, 0xb6, 0x81, 0x81, 0x58,
        0x5d, 0x28, 0x33, 0xe8, 0x48, 0x79, 0xb9, 0x70, 0x91, 0x43, 0xe1, 0xf5, 0x93, 0xf0, 0x00,
        0x00, 0x02,
    ]
}

#[test]
fn one_is_the_canonical_unit() {
    let one = FieldElement::one();
    assert_eq!(one.to_be_bytes(), &padded(&[1]));
    assert_eq!(one.to_be_bytes(), &acvm::FieldElement::one().to_be_bytes());
}

#[test]
fn one_is_one() {
    assert!(FieldElement::one().is_one());
}

#[test]
fn short_encoding_of_one_is_one() {
    assert!(FieldElement::from_be_bytes(vec![1]).is_one());
    assert!(FieldElement::from_be_bytes(vec![0, 0, 1]).is_one());
}

#[test]
fn zero_and_two_are_not_one() {
    assert!(!FieldElement::from_be_bytes(padded(&[])).is_one());
    assert!(!FieldElement::from_be_bytes(padded(&[2])).is_one());
    assert!(!FieldElement::from_be_bytes(vec![]).is_one());
    assert!(!FieldElement::from_be_bytes(padded(&[1, 0])).is_one());
}

#[test]
fn is_one_reduces_modulo_the_field_order() {
    assert!(FieldElement::from_be_bytes(modulus_plus_one()).is_one());
    let mut modulus = modulus_plus_one();
    modulus[31] = 0x01;
    assert!(!FieldElement::from_be_bytes(modulus).is_one());
}

#[test]
fn from_be_bytes_keeps_the_bytes() {
    let element = FieldElement::from_be_bytes(vec![7, 8, 9]);
    assert_eq!(element.to_be_bytes(), &vec![7u8, 8, 9]);
}

#[test]
fn value_from_u128_is_big_endian_in_32_bytes() {
    let value = Value::from_u128(0x0102);
    assert_eq!(value.to_field().to_be_bytes(), &padded(&[1, 2]));
    let zero = Value::from_u128(0);
    assert_eq!(zero.to_field().to_be_bytes(), &padded(&[]));
}

#[test]
fn value_from_largest_u128() {
    let value = Value::from_u128(u128::MAX);
    assert_eq!(value.to_field().to_be_bytes(), &padded(&[0xff; 16]));
}

#[test]
fn value_from_usize_is_big_endian_in_32_bytes() {
    let value = Value::from_usize(300);
    assert_eq!(value.to_field().to_be_bytes(), &padded(&[1, 44]));
    assert_eq!(
        value.to_field().to_be_bytes(),
        &acvm::acir::brillig_vm::Value::from(300usize).to_field().to_be_bytes()
    );
}

#[test]
fn value_from_field_keeps_the_element() {
    let value = Value::from_field(FieldElement::one());
    assert_eq!(value.to_field(), &FieldElement::one());
    assert_eq!(value, Value::from_u128(1));
}
