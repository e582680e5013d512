use ark_bn254::{Fq, Fq12};
use ark_ff::{Field, One, PrimeField};
use ark_std::rand::rngs::StdRng;
use ark_std::rand::SeedableRng;
use ark_std::UniformRand;
use pairing_witness::constants::{COFACTOR_27, E, RESIDUE};
use pairing_witness::field::{below_modulus, MODULUS};
use pairing_witness::{exp, Gt};

fn gt_of(x: &Fq12) -> Gt {
    let mut limbs = [[0u64; 4]; 12];
    for (slot, c) in limbs.iter_mut().zip(x.to_base_prime_field_elements()) {
        *slot = c.into_bigint().0;
    }
    Gt::from_limbs(&limbs).unwrap()
}

fn small(n: u64) -> Gt {
    let mut limbs = [[0u64; 4]; 12];
    limbs[0][0] = n;
    Gt::from_limbs(&limbs).unwrap()
}

#[test]
fn one_has_coefficients_one_and_zeros() {
    let limbs = Gt::one().to_limbs();
    let mut expected = [[0u64; 4]; 12];
    expected[0][0] = 1;
    assert_eq!(limbs, expected);
    assert!(Gt::one().is_one());
    assert!(small(1).is_one());
    assert!(!small(2).is_one());
}

#[test]
fn modulus_is_the_base_field_characteristic() {
    assert_eq!(Fq::MODULUS.0, MODULUS);
    assert_eq!(
        MODULUS,
        [
            0x3c208c16d87cfd47,
            0x97816a916871ca8d,
            0xb85045b68181585d,
            0x30644e72e131a029
        ]
    );
}

#[test]
fn numbers_are_compared_with_the_modulus_from_the_top_limb() {
    assert!(below_modulus(&[0, 0, 0, 0]));
    assert!(!below_modulus(&MODULUS));
    assert!(below_modulus(&[MODULUS[0] - 1, MODULUS[1], MODULUS[2], MODULUS[3]]));
    assert!(!below_modulus(&[MODULUS[0] + 1, MODULUS[1], MODULUS[2], MODULUS[3]]));
    assert!(below_modulus(&[u64::MAX, u64::MAX, u64::MAX, MODULUS[3] - 1]));
    assert!(!below_modulus(&[0, 0, 0, MODULUS[3] + 1]));
    assert!(below_modulus(&[u64::MAX, u64::MAX, MODULUS[2] - 1, MODULUS[3]]));
    assert!(!below_modulus(&[0, MODULUS[1] + 1, MODULUS[2], MODULUS[3]]));
    assert!(below_modulus(&[u64::MAX, MODULUS[1] - 1, MODULUS[2], MODULUS[3]]));
    assert!(!below_modulus(&[u64::MAX; 4]));
}

#[test]
fn limbs_round_trip() {
    let rng = &mut StdRng::seed_from_u64(8);
    for _ in 0..8 {
        let x = Fq12::rand(rng);
        let g = gt_of(&x);
        let limbs = g.to_limbs();
        let elems: Vec<Fq> = x.to_base_prime_field_elements().collect();
        for (group, c) in limbs.iter().zip(elems.iter()) {
            assert_eq!(*group, c.into_bigint().0);
        }
        assert!(Gt::from_limbs(&limbs).unwrap().equals(&g));
    }
}

#[test]
fn coefficient_at_or_above_the_modulus_is_rejected() {
    let mut limbs = [[0u64; 4]; 12];
    limbs[5] = MODULUS;
    assert!(Gt::from_limbs(&limbs).is_none());
    limbs[5][0] -= 1;
    assert!(Gt::from_limbs(&limbs).is_some());
    limbs[11] = [u64::MAX; 4];
    assert!(Gt::from_limbs(&limbs).is_none());
}

#[test]
fn product_and_square_agree_with_the_field() {
    let rng = &mut StdRng::seed_from_u64(9);
    for _ in 0..8 {
        let x = Fq12::rand(rng);
        let y = Fq12::rand(rng);
        assert!(gt_of(&x).mul(&gt_of(&y)).equals(&gt_of(&(x * y))));
        assert!(gt_of(&x).square().equals(&gt_of(&(x * x))));
        assert!(gt_of(&x).mul(&Gt::one()).equals(&gt_of(&x)));
        assert!(!gt_of(&x).mul(&gt_of(&y)).equals(&gt_of(&x)));
    }
}

#[test]
fn equality_is_equality_of_coefficients() {
    assert!(small(5).equals(&small(5)));
    assert!(!small(5).equals(&small(6)));
    let copy = small(5);
    let other = copy;
    assert!(copy.equals(&other.clone()));
    assert_eq!(copy, other);
    let mut limbs = [[0u64; 4]; 12];
    limbs[11][3] = 1;
    let high = Gt::from_limbs(&limbs).unwrap();
    limbs[11][3] = 0;
    limbs[0][0] = 0;
    let zero = Gt::from_limbs(&limbs).unwrap();
    assert!(!high.equals(&zero));
    assert!(zero.equals(&zero));
    assert_ne!(high, zero);
}

#[test]
fn random_elements_differ() {
    let rng = &mut StdRng::seed_from_u64(10);
    let x = Gt::random(rng);
    let y = Gt::random(rng);
    assert!(!x.equals(&y));
    let again = &mut StdRng::seed_from_u64(10);
    assert!(Gt::random(again).equals(&x));
}

#[test]
fn small_powers_have_exact_values() {
    assert!(exp(small(2), &[10]).equals(&small(1024)));
    assert!(exp(small(3), &[4]).equals(&small(81)));
    assert!(exp(small(7), &[0]).is_one());
    assert!(exp(small(7), &[]).is_one());
    assert!(exp(small(7), &[1]).equals(&small(7)));
    assert!(exp(small(2), &[63]).equals(&small(1 << 63)));
    assert!(exp(small(2), &[3, 0, 0]).equals(&small(8)));
}

#[test]
fn exp_matches_repeated_multiplication() {
    let rng = &mut StdRng::seed_from_u64(12);
    for _ in 0..3 {
        let base = Gt::random(rng);
        let mut expected = Gt::one();
        for n in 0..64u64 {
            assert!(exp(base, &[n]).equals(&expected));
            expected = expected.mul(&base);
        }
    }
}

#[test]
fn exp_matches_the_field_on_long_exponents() {
    let rng = &mut StdRng::seed_from_u64(13);
    let x = Fq12::rand(rng);
    let g = gt_of(&x);
    assert!(exp(g, &E).equals(&gt_of(&x.pow(E))));
    assert!(exp(g, &RESIDUE).equals(&gt_of(&x.pow(RESIDUE))));
    assert!(exp(g, &[0, 1]).equals(&gt_of(&x.pow([0u64, 1u64]))));
    assert!(exp(g, &[u64::MAX, 5]).equals(&gt_of(&x.pow([u64::MAX, 5u64]))));
    assert!(exp(g, &COFACTOR_27).equals(&gt_of(&x.pow(COFACTOR_27))));
}

#[test]
fn unit_group_order_sends_units_to_one() {
    let rng = &mut StdRng::seed_from_u64(14);
    let x = Gt::random(rng);
    let y = exp(x, &COFACTOR_27);
    assert!(exp(y, &[27]).is_one());
    assert_eq!(Fq12::one(), Fq12::rand(rng).pow(COFACTOR_27).pow([27u64]));
}

#[test]
fn exponents_add_and_multiply() {
    let rng = &mut StdRng::seed_from_u64(15);
    let x = Gt::random(rng);
    assert!(exp(x, &[5]).mul(&exp(x, &[7])).equals(&exp(x, &[12])));
    assert!(exp(exp(x, &[5]), &[7]).equals(&exp(x, &[35])));
    assert!(exp(exp(x, &[u64::MAX]), &[2]).equals(&exp(x, &[u64::MAX - 1, 1])));
    assert!(exp(Gt::one(), &E).is_one());
}

#[test]
fn power_of_a_product_is_the_product_of_the_powers() {
    let rng = &mut StdRng::seed_from_u64(16);
    let x = Gt::random(rng);
    let y = Gt::random(rng);
    assert!(exp(x.mul(&y), &[29]).equals(&exp(x, &[29]).mul(&exp(y, &[29]))));
    assert!(x.mul(&y).equals(&y.mul(&x)));
    let z = Gt::random(rng);
    assert!(x.mul(&y).mul(&z).equals(&x.mul(&y.mul(&z))));
}
