//! Extraction of roots of order `E`, in the manner of Tonelli and Shanks.
//!
//! `E` shares the factor three with the order of the group that the values
//! live in. Raising a value to the inverse of `E` modulo the part of that
//! order which is prime to three gives a root up to a ninth root of unity;
//! the powers of a primitive 27th root of unity are then tried as the
//! correction.

use crate::constants::{
    extraction_exponent, lemma_e_limbs, lemma_extraction_exponent, lemma_residue_exponent,
    lemma_root_exponent, lemma_root_exponent_limbs, lemma_wi_exponent, residue_exponent,
    root_exponent, wi_exponent, E, ROOT_EXPONENT,
};
use crate::error::WitnessError;
use crate::field::{
    fq12_product, is_element, lemma_product_associates, lemma_product_one, one_coefficients, Gt,
};
use crate::power::{
    exp, lemma_pow_add, lemma_pow_cube, lemma_pow_element, lemma_pow_first, lemma_pow_mul,
    lemma_pow_next, lemma_pow_of_one, lemma_pow_product, pow,
};
use crate::roots::{is_primitive_27th_root, lemma_pow_reduce, RootOfUnity};
use vstd::prelude::*;

verus! {

/// What an extraction works with: a primitive 27th root of unity.
#[derive(Clone, Copy, Debug, PartialEq, Eq)]
pub struct ExtractorConfig {
    pub w: RootOfUnity,
}

impl ExtractorConfig {
    /// The configuration that extracts with `w`.
    pub fn new(w: RootOfUnity) -> (r: ExtractorConfig)
        ensures
            r.w == w,
    {
        ExtractorConfig { w }
    }
}

/// `root` raised to `E` is `value`.
pub open spec fn is_eth_root(root: Seq<nat>, value: Seq<nat>) -> bool {
    pow(root, extraction_exponent()) == value
}

/// The `j`-th candidate for a root of `value`: `value` raised to the
/// inverse exponent, corrected by the `j`-th power of `w`.
pub open spec fn root_candidate(value: Seq<nat>, w: Seq<nat>, j: nat) -> Seq<nat> {
    fq12_product(pow(value, root_exponent()), pow(w, j))
}

/// The `E`-th power of the `j`-th candidate is that of the uncorrected
/// candidate, times the `j`-th power of the cube of `w`.
pub proof fn lemma_candidate_power(value: Seq<nat>, w: Seq<nat>, j: nat)
    requires
        is_element(value),
        is_primitive_27th_root(w),
    ensures
        pow(root_candidate(value, w, j), extraction_exponent()) == fq12_product(
            pow(pow(value, root_exponent()), extraction_exponent()),
            pow(pow(w, 3), j),
        ),
{
    let e = extraction_exponent();
    let base = pow(value, root_exponent());
    lemma_pow_element(value, root_exponent());
    lemma_pow_element(w, j);
    lemma_pow_product(base, pow(w, j), e);
    lemma_pow_mul(w, j, e);
    lemma_pow_mul(w, 3, j);
    lemma_pow_reduce(w, 27, j * e);
    lemma_pow_reduce(w, 27, 3 * j);
    lemma_extraction_exponent();
    let a = e / 27;
    assert(j * e == 27 * (j * a) + 3 * j) by (nonlinear_arith)
        requires
            e == 27 * a + 3,
    ;
}

/// The index of the first candidate from the `from`-th on, of the nine,
/// that is a root of `value`.
pub open spec fn first_root_index(value: Seq<nat>, w: Seq<nat>, from: nat) -> Option<nat>
    decreases 9 - from,
{
    if from >= 9 {
        None
    } else if is_eth_root(root_candidate(value, w, from), value) {
        Some(from)
    } else {
        first_root_index(value, w, from + 1)
    }
}

/// The first of the nine candidates that is a root of `value`.
pub open spec fn first_root(value: Seq<nat>, w: Seq<nat>) -> Option<Seq<nat>> {
    match first_root_index(value, w, 0) {
        Some(j) => Some(root_candidate(value, w, j)),
        None => None,
    }
}

/// What [`first_root`] gives is a root.
pub proof fn lemma_first_root(value: Seq<nat>, w: Seq<nat>, from: nat)
    ensures
        first_root_index(value, w, from) matches Some(j) ==> from <= j < 9 && is_eth_root(
            root_candidate(value, w, j),
            value,
        ),
    decreases 9 - from,
{
    if from < 9 && !is_eth_root(root_candidate(value, w, from), value) {
        lemma_first_root(value, w, from + 1);
    }
}

/// The root of order `E` of `value`: the first of the nine candidates whose
/// `E`-th power is `value`.
///
/// Where none of the candidates is a root, the value is taken not to be an
/// `E`-th power and the search fails with [`WitnessError::NotAnEthPower`];
/// [`lemma_root_found`] says when a candidate is one.
pub fn eth_root(value: Gt, config: ExtractorConfig) -> (r: Result<Gt, WitnessError>)
    ensures
        match r {
            Ok(root) => {
                &&& root.wf()
                &&& first_root(value@, config.w@) == Some(root@)
                &&& is_eth_root(root@, value@)
            },
            Err(e) => {
                &&& e == WitnessError::NotAnEthPower
                &&& first_root(value@, config.w@).is_none()
            },
        },
{
    let w = config.w.element();
    proof {
        use_type_invariant(value);
        use_type_invariant(w);
        lemma_root_exponent_limbs();
        lemma_e_limbs();
        lemma_pow_cube(w@);
        lemma_pow_element(w@, 3);
    }
    let base = exp(value, ROOT_EXPONENT.as_slice());
    let power = exp(base, E.as_slice());
    let cube = w.square().mul(&w);
    let mut shift = Gt::one();
    let mut defect = Gt::one();
    let mut j: usize = 0;
    while j < 9
        invariant
            j <= 9,
            is_element(value@),
            is_primitive_27th_root(w@),
            w@ == config.w@,
            base@ == pow(value@, root_exponent()),
            power@ == pow(base@, extraction_exponent()),
            cube@ == pow(w@, 3),
            is_element(cube@),
            shift@ == pow(w@, j as nat),
            defect@ == pow(cube@, j as nat),
            first_root_index(value@, w@, 0) == first_root_index(value@, w@, j as nat),
        decreases 9 - j,
    {
        proof {
            lemma_candidate_power(value@, w@, j as nat);
        }
        if power.mul(&defect).equals(&value) {
            return Ok(base.mul(&shift));
        }
        shift = shift.mul(&w);
        defect = defect.mul(&cube);
        proof {
            lemma_pow_next(w@, j as nat);
            lemma_pow_next(cube@, j as nat);
        }
        j += 1;
    }
    Err(WitnessError::NotAnEthPower)
}

/// What the uncorrected candidate for a root of `value` is off by: `value`
/// raised to `ROOT_EXPONENT * E - 1`.
pub open spec fn root_defect(value: Seq<nat>) -> Seq<nat> {
    pow(value, (root_exponent() * extraction_exponent() - 1) as nat)
}

/// For a value that passes the residue test, the `E`-th power of the
/// uncorrected candidate is the value times a ninth root of unity.
pub proof fn lemma_root_defect(value: Seq<nat>)
    requires
        is_element(value),
        pow(value, residue_exponent()) == one_coefficients(),
    ensures
        pow(pow(value, root_exponent()), extraction_exponent()) == fq12_product(
            value,
            root_defect(value),
        ),
        pow(root_defect(value), 9) == one_coefficients(),
{
    let t = root_exponent();
    let e = extraction_exponent();
    let s = wi_exponent();
    let n = residue_exponent();
    lemma_root_exponent();
    lemma_wi_exponent();
    lemma_residue_exponent();
    let k = (t * e) / s;
    let d = (t * e - 1) as nat;
    assert(d == s * k);
    assert(d * 9 == n * k);
    lemma_pow_mul(value, t, e);
    lemma_pow_add(value, 1, d);
    lemma_pow_first(value);
    lemma_pow_mul(value, d, 9);
    lemma_pow_mul(value, n, k);
    lemma_pow_of_one(k);
}

/// A root among the candidates from the `from`-th on is found.
pub proof fn lemma_first_root_exists(value: Seq<nat>, w: Seq<nat>, from: nat, j: nat)
    requires
        from <= j < 9,
        is_eth_root(root_candidate(value, w, j), value),
    ensures
        first_root_index(value, w, from).is_some(),
    decreases 9 - from,
{
    if from < j && !is_eth_root(root_candidate(value, w, from), value) {
        lemma_first_root_exists(value, w, from + 1, j);
    }
}

/// The extraction finds a root of a value that passes the residue test
/// whenever the inverse of the value's defect is a power of the cube of `w`.
///
/// In a field the ninth roots of unity are exactly those powers, so the
/// condition holds of every such value; that fact about fields is not among
/// the laws that this crate builds on.
pub proof fn lemma_root_found(value: Seq<nat>, w: Seq<nat>, j: nat)
    requires
        is_element(value),
        is_primitive_27th_root(w),
        pow(value, residue_exponent()) == one_coefficients(),
        j < 9,
        fq12_product(root_defect(value), pow(pow(w, 3), j)) == one_coefficients(),
    ensures
        first_root(value, w).is_some(),
{
    let correction = pow(pow(w, 3), j);
    lemma_root_defect(value);
    lemma_candidate_power(value, w, j);
    lemma_pow_element(value, (root_exponent() * extraction_exponent() - 1) as nat);
    lemma_pow_element(w, 3);
    lemma_pow_element(pow(w, 3), j);
    lemma_product_associates(value, root_defect(value), correction);
    lemma_product_one(value);
    lemma_first_root_exists(value, w, 0, j);
}

} // verus!
