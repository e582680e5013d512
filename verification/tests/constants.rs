use ark_bn254::{Fq, Fr};
use ark_ff::PrimeField;
use ark_std::rand::rngs::StdRng;
use ark_std::rand::SeedableRng;
use num_bigint::BigUint;
use pairing_witness::constants::{COFACTOR_27, E, H, RESIDUE, ROOT_EXPONENT, U};
use pairing_witness::{exp, sample_27th_root_of_unity, Gt};

fn number(limbs: &[u64]) -> BigUint {
    let mut n = BigUint::from(0u8);
    for limb in limbs.iter().rev() {
        n = (n << 64) + BigUint::from(*limb);
    }
    n
}

fn parameter() -> BigUint {
    BigUint::from(4965661367192848881u64)
}

fn modulus() -> BigUint {
    let x = parameter();
    BigUint::from(36u8) * x.pow(4)
        + BigUint::from(36u8) * x.pow(3)
        + BigUint::from(24u8) * x.pow(2)
        + BigUint::from(6u8) * &x
        + BigUint::from(1u8)
}

fn group_order() -> BigUint {
    let x = parameter();
    BigUint::from(36u8) * x.pow(4)
        + BigUint::from(36u8) * x.pow(3)
        + BigUint::from(18u8) * x.pow(2)
        + BigUint::from(6u8) * &x
        + BigUint::from(1u8)
}

fn unit_group_order() -> BigUint {
    modulus().pow(12) - BigUint::from(1u8)
}

fn final_exponent() -> BigUint {
    unit_group_order() / group_order()
}

#[test]
fn curve_parameters_are_those_of_bn254() {
    assert_eq!(number(&Fq::MODULUS.0), modulus());
    assert_eq!(number(&Fr::MODULUS.0), group_order());
    assert_eq!(
        modulus().to_string(),
        "21888242871839275222246405745257275088696311157297823662689037894645226208583"
    );
    assert_eq!(
        group_order().to_string(),
        "21888242871839275222246405745257275088548364400416034343698204186575808495617"
    );
    assert_eq!(unit_group_order() % group_order(), BigUint::from(0u8));
}

#[test]
fn extraction_exponent_is_the_optimal_ate_exponent() {
    let q = modulus();
    let x = parameter();
    let expected = BigUint::from(6u8) * x + BigUint::from(2u8) + &q + q.pow(3) - q.pow(2);
    assert_eq!(number(&E), expected);
    assert_eq!(E.len(), 12);
    assert_eq!(E[0], 0x57f83d3135ae0c55);
    assert_eq!(number(&E) % (BigUint::from(3u8) * group_order()), BigUint::from(0u8));
    assert_eq!(number(&E) % BigUint::from(27u8), BigUint::from(3u8));
}

#[test]
fn residue_exponent_is_a_third_of_the_final_exponent() {
    assert_eq!(number(&RESIDUE) * BigUint::from(3u8), final_exponent());
    assert_eq!(number(&RESIDUE) % BigUint::from(27u8), BigUint::from(18u8));
    assert_eq!(RESIDUE.len(), 44);
}

#[test]
fn wi_exponent_is_the_part_of_the_final_exponent_prime_to_three() {
    assert_eq!(number(&H) * BigUint::from(27u8), final_exponent());
    assert_ne!(number(&H) % BigUint::from(3u8), BigUint::from(0u8));
    assert_eq!(H.len(), 44);
}

#[test]
fn c_exponent_inverts_the_extraction_exponent() {
    let h = final_exponent();
    let left = (number(&U) * number(&E)) % &h;
    let right = (BigUint::from(1u8) + number(&H)) % &h;
    assert_eq!(left, right);
    assert!(number(&U) < h);
}

#[test]
fn cofactor_is_a_twenty_seventh_of_the_unit_group_order() {
    assert_eq!(number(&COFACTOR_27) * BigUint::from(27u8), unit_group_order());
    assert_eq!(COFACTOR_27.len(), 48);
}

#[test]
fn root_exponent_inverts_the_extraction_exponent() {
    let s = number(&H);
    assert_eq!((number(&ROOT_EXPONENT) * number(&E)) % &s, BigUint::from(1u8));
    assert!(number(&ROOT_EXPONENT) < s);
}

#[test]
fn uncorrected_root_is_off_by_a_ninth_root_of_unity() {
    let rng = &mut StdRng::seed_from_u64(21);
    sample_27th_root_of_unity(rng).unwrap();
    let value = exp(Gt::random(rng), &E);
    assert!(exp(value, &RESIDUE).is_one());
    let defect_exponent = number(&ROOT_EXPONENT) * number(&E) - BigUint::from(1u8);
    let defect = exp(value, &defect_exponent.to_u64_digits());
    let uncorrected = exp(value, &ROOT_EXPONENT);
    assert!(exp(uncorrected, &E).equals(&value.mul(&defect)));
    assert!(exp(defect, &[9]).is_one());
}
