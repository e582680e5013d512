//! The witness for a pairing product check.
//!
//! A Miller loop output `f` whose final exponentiation is one becomes an
//! `E`-th power once it is multiplied by the right power `wi` of a primitive
//! 27th root of unity. The search finds that power among the first three, and
//! the extraction then gives `c` with `c^E == f * wi`.

use crate::constants::{
    c_exponent, extraction_exponent, final_exponent, lemma_c_exponent,
    lemma_extraction_exponent, lemma_final_exponent, lemma_h_limbs, lemma_residue_exponent,
    lemma_residue_limbs, lemma_u_limbs, lemma_wi_exponent, residue_exponent, unit_group_order,
    wi_exponent, H, RESIDUE, U,
};
use crate::error::WitnessError;
use crate::eth_root::{eth_root, first_root, is_eth_root, ExtractorConfig};
use crate::field::{
    fq12_product, is_element, lemma_product_associates, lemma_product_commutes,
    lemma_product_one, one_coefficients, Gt,
};
use crate::power::{
    exp, lemma_pow_add, lemma_pow_element, lemma_pow_mul, lemma_pow_next, lemma_pow_of_one,
    lemma_pow_product, pow,
};
use crate::roots::{
    is_primitive_27th_root, lemma_root_power_order, lemma_root_powers_distinct, RootOfUnity,
};
use vstd::prelude::*;

verus! {

/// `x` passes the residue test: [`RESIDUE`] sends it to one.
pub open spec fn passes_residue_test(x: Seq<nat>) -> bool {
    pow(x, residue_exponent()) == one_coefficients()
}

/// `x` shifted by the `i`-th power of `w`.
pub open spec fn coset_shift(x: Seq<nat>, w: Seq<nat>, i: nat) -> Seq<nat> {
    fq12_product(x, pow(w, i))
}

/// The least of the powers zero, one and two of `w` that shifts `x` to
/// where it passes the residue test.
pub open spec fn coset_index(x: Seq<nat>, w: Seq<nat>) -> Option<nat> {
    if passes_residue_test(coset_shift(x, w, 0)) {
        Some(0)
    } else if passes_residue_test(coset_shift(x, w, 1)) {
        Some(1)
    } else if passes_residue_test(coset_shift(x, w, 2)) {
        Some(2)
    } else {
        None
    }
}

/// The witness for `x`, as coefficients of `c` and of `wi`: `x` is shifted
/// by the power of `w` that [`coset_index`] gives, and the root of the
/// shifted value is the first among the candidates that `v` corrects.
pub open spec fn witness_of(x: Seq<nat>, w: Seq<nat>, v: Seq<nat>) -> Result<
    (Seq<nat>, Seq<nat>),
    WitnessError,
> {
    match coset_index(x, w) {
        None => Err(WitnessError::CosetNotFound),
        Some(i) => match first_root(coset_shift(x, w, i), v) {
            None => Err(WitnessError::NotAnEthPower),
            Some(c) => Ok((c, pow(w, i))),
        },
    }
}

/// A shift of a Miller loop output that passes the residue test.
#[derive(Clone, Copy, Debug, PartialEq, Eq)]
pub struct CosetShift {
    /// How often the output was multiplied by the root of unity.
    pub index: usize,
    /// The power of the root of unity that the output was multiplied by.
    pub wi: Gt,
    /// The shifted output.
    pub shifted: Gt,
}

/// A witness `(c, wi)` for a Miller loop output `f`: `c^E == f * wi`.
#[derive(Clone, Copy, Debug, PartialEq, Eq)]
pub struct WitnessPair {
    pub c: Gt,
    pub wi: Gt,
}

/// Whether `x` passes the residue test.
pub fn residue_test(x: Gt) -> (r: bool)
    ensures
        r == passes_residue_test(x@),
{
    proof {
        lemma_residue_limbs();
    }
    exp(x, RESIDUE.as_slice()).is_one()
}

/// The first of the shifts of `x` by the powers zero, one and two of `w`
/// that passes the residue test.
pub fn find_coset_shift(x: Gt, w: RootOfUnity) -> (r: Result<CosetShift, WitnessError>)
    ensures
        match r {
            Ok(s) => {
                &&& s.index < 3
                &&& coset_index(x@, w@) == Some(s.index as nat)
                &&& s.wi@ == pow(w@, s.index as nat)
                &&& s.shifted@ == coset_shift(x@, w@, s.index as nat)
                &&& passes_residue_test(s.shifted@)
                &&& pow(s.wi@, 27) == one_coefficients()
            },
            Err(e) => {
                &&& e == WitnessError::CosetNotFound
                &&& coset_index(x@, w@).is_none()
            },
        },
{
    let root = w.element();
    let mut wi = Gt::one();
    let mut index: usize = 0;
    while index < 3
        invariant
            index <= 3,
            root@ == w@,
            is_primitive_27th_root(root@),
            wi@ == pow(w@, index as nat),
            forall|i: nat| i < index ==> !passes_residue_test(#[trigger] coset_shift(x@, w@, i)),
        decreases 3 - index,
    {
        let shifted = x.mul(&wi);
        if residue_test(shifted) {
            proof {
                lemma_root_power_order(w@, index as nat);
            }
            return Ok(CosetShift { index, wi, shifted });
        }
        wi = wi.mul(&root);
        proof {
            lemma_pow_next(root@, index as nat);
        }
        index += 1;
    }
    Err(WitnessError::CosetNotFound)
}

/// The witness for the Miller loop output `x`: the first shift of `x` by a
/// power of `w` that passes the residue test, and its root of order `E`,
/// extracted with `config`.
pub fn compute_witness(x: Gt, w: RootOfUnity, config: ExtractorConfig) -> (r: Result<
    WitnessPair,
    WitnessError,
>)
    ensures
        match r {
            Ok(pair) => {
                &&& witness_of(x@, w@, config.w@) == Ok::<_, WitnessError>((pair.c@, pair.wi@))
                &&& is_eth_root(pair.c@, fq12_product(x@, pair.wi@))
                &&& pow(pair.wi@, 27) == one_coefficients()
            },
            Err(e) => witness_of(x@, w@, config.w@) == Err::<(Seq<nat>, Seq<nat>), _>(e),
        },
{
    match find_coset_shift(x, w) {
        Ok(shift) => match eth_root(shift.shifted, config) {
            Ok(c) => Ok(WitnessPair { c, wi: shift.wi }),
            Err(_) => Err(WitnessError::NotAnEthPower),
        },
        Err(_) => Err(WitnessError::CosetNotFound),
    }
}

/// The 27th root of unity of the closed-form witness: `mlo` raised to
/// [`H`].
pub fn compute_wi(mlo: Gt) -> (r: Gt)
    ensures
        r@ == pow(mlo@, wi_exponent()),
        r.wf(),
{
    proof {
        lemma_h_limbs();
    }
    exp(mlo, H.as_slice())
}

/// The root of the closed-form witness: `mlo` raised to [`U`].
pub fn compute_c(mlo: Gt) -> (r: Gt)
    ensures
        r@ == pow(mlo@, c_exponent()),
        r.wf(),
{
    proof {
        lemma_u_limbs();
    }
    exp(mlo, U.as_slice())
}

/// At most one of the shifts of `x` by the powers zero, one and two of `w`
/// passes the residue test.
pub proof fn lemma_coset_index_unique(x: Seq<nat>, w: Seq<nat>, i: nat, j: nat)
    requires
        is_element(x),
        is_primitive_27th_root(w),
        i < 3,
        j < 3,
        passes_residue_test(coset_shift(x, w, i)),
        passes_residue_test(coset_shift(x, w, j)),
    ensures
        i == j,
{
    let n = residue_exponent();
    let a = pow(x, n);
    let bi = pow(pow(w, i), n);
    let bj = pow(pow(w, j), n);
    lemma_pow_element(w, i);
    lemma_pow_element(w, j);
    lemma_pow_element(x, n);
    lemma_pow_element(pow(w, i), n);
    lemma_pow_element(pow(w, j), n);
    lemma_pow_product(x, pow(w, i), n);
    lemma_pow_product(x, pow(w, j), n);
    // bj = bj (a bi) = (a bj) bi = bi
    lemma_product_one(bi);
    lemma_product_one(bj);
    lemma_product_associates(bj, a, bi);
    lemma_product_commutes(bj, a);
    assert(bi == bj);
    lemma_pow_mul(w, i, n);
    lemma_pow_mul(w, j, n);
    lemma_root_powers_distinct(w, i * n, j * n);
    lemma_residue_exponent();
    assert(i == j) by (nonlinear_arith)
        requires
            i < 3,
            j < 3,
            n % 27 == 18,
            (i * n) % 27 == (j * n) % 27,
    ;
}

/// For a Miller loop output `f` that the final exponentiation sends to one,
/// [`compute_c`] and [`compute_wi`] give a witness: the `E`-th power of the
/// one is `f` times the other, which is a 27th root of unity.
pub proof fn lemma_closed_form_witness(f: Seq<nat>)
    requires
        is_element(f),
        pow(f, final_exponent()) == one_coefficients(),
    ensures
        is_eth_root(pow(f, c_exponent()), fq12_product(f, pow(f, wi_exponent()))),
        pow(pow(f, wi_exponent()), 27) == one_coefficients(),
{
    let h = final_exponent();
    let e = extraction_exponent();
    let u = c_exponent();
    let s = wi_exponent();
    lemma_c_exponent();
    lemma_wi_exponent();
    let k = ((u * e - 1 - s) / (h as int)) as nat;
    assert(u * e == (1 + s) + h * k);
    lemma_pow_mul(f, u, e);
    lemma_pow_add(f, 1 + s, h * k);
    lemma_pow_mul(f, h, k);
    lemma_pow_of_one(k);
    lemma_pow_element(f, 1 + s);
    lemma_product_one(pow(f, 1 + s));
    assert(pow(f, 1 + s) == fq12_product(f, pow(f, s)));
    lemma_pow_mul(f, s, 27);
    lemma_pow_mul(f, h, 1);
    lemma_pow_of_one(1);
    assert(s * 27 == h * 1);
}

/// A witness shows that the final exponentiation sends `f` to one: if
/// `c^E == f * wi` for a unit `c` and a 27th root of unity `wi`, then
/// `f^h == 1`.
pub proof fn lemma_witness_sound(f: Seq<nat>, c: Seq<nat>, wi: Seq<nat>)
    requires
        is_element(f),
        is_element(c),
        is_element(wi),
        is_eth_root(c, fq12_product(f, wi)),
        pow(wi, 27) == one_coefficients(),
        pow(c, unit_group_order()) == one_coefficients(),
    ensures
        pow(f, final_exponent()) == one_coefficients(),
{
    let h = final_exponent();
    let e = extraction_exponent();
    let n = unit_group_order();
    let s = wi_exponent();
    lemma_final_exponent();
    lemma_extraction_exponent();
    lemma_wi_exponent();
    let k = (e * h) / n;
    assert(e * h == n * k);
    // (f wi)^h = c^(E h) = (c^n)^k = 1
    lemma_pow_mul(c, e, h);
    lemma_pow_mul(c, n, k);
    lemma_pow_of_one(k);
    // (f wi)^h = f^h wi^h, and wi^h = (wi^27)^s = 1
    lemma_pow_product(f, wi, h);
    lemma_pow_mul(wi, 27, s);
    lemma_pow_of_one(s);
    lemma_pow_element(f, h);
    lemma_product_one(pow(f, h));
}

} // verus!
