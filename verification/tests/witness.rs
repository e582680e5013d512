use ark_bn254::{Bn254, Fq12, Fr, G1Affine, G2Affine};
use ark_ec::pairing::Pairing;
use ark_ec::AffineRepr;
use ark_ff::{Field, One, PrimeField};
use ark_std::rand::rngs::StdRng;
use ark_std::rand::SeedableRng;
use ark_std::UniformRand;
use pairing_witness::constants::{E, H, RESIDUE, U};
use pairing_witness::witness::residue_test;
use pairing_witness::{
    compute_c, compute_wi, compute_witness, eth_root, exp, find_coset_shift,
    sample_27th_root_of_unity, ExtractorConfig, Gt, WitnessError,
};
use std::ops::Mul;

fn to_gt(x: &Fq12) -> Gt {
    let mut limbs = [[0u64; 4]; 12];
    for (slot, c) in limbs.iter_mut().zip(x.to_base_prime_field_elements()) {
        *slot = c.into_bigint().0;
    }
    Gt::from_limbs(&limbs).unwrap()
}

/// A Miller loop output whose final exponentiation is one:
/// `e(aP, bQ) * e(-bP, aQ)` before the final exponentiation.
fn trivial_miller_output(rng: &mut StdRng) -> Fq12 {
    let a = Fr::rand(rng);
    let b = Fr::rand(rng);
    let g1 = G1Affine::generator();
    let g2 = G2Affine::generator();
    let left_g1 = g1.mul(&a);
    let left_g2 = g2.mul(&b);
    let right_g1 = g1.mul(&b);
    let right_g2 = g2.mul(&a);
    Bn254::multi_miller_loop(&[left_g1, -right_g1], &[left_g2, right_g2]).0
}

#[test]
fn pairing_of_cancelling_pairs_is_identity() {
    let rng = &mut StdRng::seed_from_u64(7);
    let a = Fr::rand(rng);
    let b = Fr::rand(rng);
    let g1 = G1Affine::generator();
    let g2 = G2Affine::generator();
    let left = Bn254::pairing(g1.mul(&a), g2.mul(&b));
    let right = Bn254::pairing(g1, -(g2.mul(&(a * b))));
    assert_eq!(left.0 * right.0, Fq12::one());
    assert!(to_gt(&(left.0 * right.0)).is_one());
}

#[test]
fn seeded_scenario_gives_a_witness() {
    let rng = &mut StdRng::seed_from_u64(333324431231312u64);
    let a = Fr::rand(rng);
    let b = Fr::rand(rng);
    let c = b;
    let d = a;
    let g1 = G1Affine::generator();
    let g2 = G2Affine::generator();
    let a = g1.mul(&a);
    let b = g2.mul(&b);
    let c = g1.mul(&c);
    let d = g2.mul(&d);
    let x = Bn254::multi_miller_loop(&[a, -c], &[b, d]);
    let e = Bn254::final_exponentiation(x).unwrap();
    assert_eq!(e.0, Fq12::one());

    let x = to_gt(&x.0);
    let w27 = sample_27th_root_of_unity(rng).unwrap();
    let shift = find_coset_shift(x, w27).unwrap();
    assert!(shift.index < 3);
    assert!(residue_test(shift.shifted));

    let w27 = sample_27th_root_of_unity(rng).unwrap();
    let root = eth_root(shift.shifted, ExtractorConfig::new(w27)).unwrap();
    assert!(exp(root, &E).equals(&shift.shifted));
    assert!(exp(root, &E).equals(&x.mul(&shift.wi)));
}

#[test]
fn witness_satisfies_the_relation() {
    let rng = &mut StdRng::seed_from_u64(11);
    for _ in 0..3 {
        let x = to_gt(&trivial_miller_output(rng));
        let w = sample_27th_root_of_unity(rng).unwrap();
        let pair = compute_witness(x, w, ExtractorConfig::new(w)).unwrap();
        assert!(exp(pair.c, &E).equals(&x.mul(&pair.wi)));
        assert!(exp(pair.wi, &[27]).is_one());
    }
}

#[test]
fn coset_search_finds_an_index_in_every_trial() {
    let rng = &mut StdRng::seed_from_u64(2024);
    let w = sample_27th_root_of_unity(rng).unwrap();
    let mut seen = [false; 3];
    for _ in 0..100 {
        let x = to_gt(&trivial_miller_output(rng));
        match find_coset_shift(x, w) {
            Ok(shift) => {
                assert!(shift.index < 3);
                assert!(exp(shift.shifted, &RESIDUE).is_one());
                assert!(shift.shifted.equals(&x.mul(&shift.wi)));
                seen[shift.index] = true;
            }
            Err(e) => panic!("the search was exhausted: {:?}", e),
        }
    }
    assert!(seen.iter().all(|s| *s));
}

#[test]
fn coset_index_is_the_only_one_that_passes() {
    let rng = &mut StdRng::seed_from_u64(5);
    let w = sample_27th_root_of_unity(rng).unwrap();
    let x = to_gt(&trivial_miller_output(rng));
    let mut passing = 0;
    let mut wi = Gt::one();
    for _ in 0..3 {
        if residue_test(x.mul(&wi)) {
            passing += 1;
        }
        wi = wi.mul(&w.element());
    }
    assert_eq!(passing, 1);
}

#[test]
fn random_element_has_no_coset() {
    let rng = &mut StdRng::seed_from_u64(99);
    let w = sample_27th_root_of_unity(rng).unwrap();
    let x = Gt::random(rng);
    match find_coset_shift(x, w) {
        Err(e) => assert_eq!(e, WitnessError::CosetNotFound),
        Ok(_) => panic!("a random element passed the residue test"),
    }
    match compute_witness(x, w, ExtractorConfig::new(w)) {
        Err(e) => assert_eq!(e, WitnessError::CosetNotFound),
        Ok(_) => panic!("a random element has a witness"),
    }
}

#[test]
fn closed_form_witness_satisfies_the_relation() {
    let rng = &mut StdRng::seed_from_u64(31);
    for _ in 0..2 {
        let f = trivial_miller_output(rng);
        let g = to_gt(&f);
        let c = compute_c(g);
        let wi = compute_wi(g);
        assert!(exp(c, &E).equals(&g.mul(&wi)));
        assert!(exp(wi, &[27]).is_one());
        assert!(c.equals(&to_gt(&f.pow(U))));
        assert!(wi.equals(&to_gt(&f.pow(H))));
    }
}

#[test]
fn witnessed_output_is_sent_to_one_by_the_final_exponent() {
    let rng = &mut StdRng::seed_from_u64(77);
    let x = to_gt(&trivial_miller_output(rng));
    let w = sample_27th_root_of_unity(rng).unwrap();
    let pair = compute_witness(x, w, ExtractorConfig::new(w)).unwrap();
    assert!(exp(pair.c, &E).equals(&x.mul(&pair.wi)));
    // The final exponent is three times the residue exponent.
    assert!(exp(exp(x, &RESIDUE), &[3]).is_one());
}
