use factor_proof::decimal::decimal_of_le_bytes;
use factor_proof::field::{FieldError, FieldElement};

const MODULUS_TEXT: &str =
    "52435875175126190479447740508185965837690552500527637822603658699938581184513";
const MODULUS_MINUS_ONE_TEXT: &str =
    "52435875175126190479447740508185965837690552500527637822603658699938581184512";

fn fe(s: &str) -> FieldElement {
    FieldElement::from_decimal(s).expect("valid field element")
}

#[test]
fn decimal_text_round_trips() {
    for s in ["0", "1", "17", "391", "18446744073709551616", MODULUS_MINUS_ONE_TEXT] {
        assert_eq!(fe(s).to_decimal(), s);
    }
}

#[test]
fn decimal_rejects_malformed_text() {
    for s in ["", "007", "00", "12a", "-1", " 1", "1.5", "\u{663}"] {
        assert_eq!(FieldElement::from_decimal(s), Err(FieldError::InvalidFieldValue));
    }
}

#[test]
fn decimal_rejects_values_outside_the_field() {
    assert_eq!(FieldElement::from_decimal(MODULUS_TEXT), Err(FieldError::InvalidFieldValue));
    let above = "52435875175126190479447740508185965837690552500527637822603658699938581184514";
    assert_eq!(FieldElement::from_decimal(above), Err(FieldError::InvalidFieldValue));
    let much_larger = "1000000000000000000000000000000000000000000000000000000000000000000000000000000";
    assert_eq!(FieldElement::from_decimal(much_larger), Err(FieldError::InvalidFieldValue));
}

#[test]
fn field_arithmetic_is_modular() {
    assert_eq!(fe("17").mul(&fe("23")).to_decimal(), "391");
    assert_eq!(fe("17").add(&fe("23")).to_decimal(), "40");
    assert_eq!(fe(MODULUS_MINUS_ONE_TEXT).add(&fe("2")).to_decimal(), "1");
    assert_eq!(fe(MODULUS_MINUS_ONE_TEXT).mul(&fe(MODULUS_MINUS_ONE_TEXT)).to_decimal(), "1");
    assert!(fe("391").same(&fe("17").mul(&fe("23"))));
    assert!(!fe("390").same(&fe("391")));
}

#[test]
fn constants_have_their_values() {
    assert_eq!(FieldElement::zero().to_decimal(), "0");
    assert_eq!(FieldElement::one().to_decimal(), "1");
    let mut bytes = vec![0u8; 32];
    bytes[0] = 1;
    assert_eq!(FieldElement::one().to_le_bytes(), bytes);
}

#[test]
fn le_bytes_render_in_decimal() {
    assert_eq!(decimal_of_le_bytes(&vec![]), "0");
    assert_eq!(decimal_of_le_bytes(&vec![0, 0, 0]), "0");
    assert_eq!(decimal_of_le_bytes(&vec![0x87, 0x01]), "391");
    assert_eq!(decimal_of_le_bytes(&vec![0xff; 8]), "18446744073709551615");
    assert_eq!(decimal_of_le_bytes(&vec![0, 0, 0, 0, 0, 0, 0, 0, 1]), "18446744073709551616");
}

#[test]
fn wide_bytes_reduce_modulo_the_field() {
    let modulus_le = fe(MODULUS_MINUS_ONE_TEXT).add(&FieldElement::one());
    assert_eq!(modulus_le.to_decimal(), "0");
    let mut m = fe(MODULUS_MINUS_ONE_TEXT).to_le_bytes();
    m[0] += 1;
    assert_eq!(FieldElement::reduce_le_bytes(&m).to_decimal(), "0");
    m[0] += 5;
    assert_eq!(FieldElement::reduce_le_bytes(&m).to_decimal(), "5");
    assert_eq!(FieldElement::reduce_le_bytes(&vec![0x87, 0x01]).to_decimal(), "391");
    let wide = vec![0xffu8; 64];
    let reduced = FieldElement::reduce_le_bytes(&wide);
    assert_ne!(reduced.to_le_bytes(), vec![0xffu8; 32]);
    assert_ne!(decimal_of_le_bytes(&reduced.to_le_bytes()), decimal_of_le_bytes(&wide));
}
