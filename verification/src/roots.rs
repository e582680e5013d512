//! Primitive 27th roots of unity: what they are, how one is recognised, and
//! how one is drawn.

use crate::constants::{cofactor_27, lemma_cofactor_27_limbs, COFACTOR_27};
use crate::error::WitnessError;
use crate::field::{
    is_element, lemma_product_associates, lemma_product_one, one_coefficients, Gt,
};
use crate::power::{
    exp, lemma_pow_add, lemma_pow_cube, lemma_pow_element, lemma_pow_mul, lemma_pow_of_one, pow,
};
use ark_std::rand::rngs::StdRng;
use vstd::prelude::*;

verus! {

/// How many elements the sampler draws before it gives up. A draw fails with
/// probability one in three, so all of them fail with probability `3^-128`.
pub const MAX_SAMPLING_ATTEMPTS: usize = 128;

/// `w` has multiplicative order exactly 27: its 27th power is one and its
/// ninth power is not.
pub open spec fn is_primitive_27th_root(w: Seq<nat>) -> bool {
    &&& is_element(w)
    &&& pow(w, 27) == one_coefficients()
    &&& pow(w, 9) != one_coefficients()
}

/// An element whose ninth power is not one has a cube that is not one
/// either.
pub proof fn lemma_cube_not_one(w: Seq<nat>)
    requires
        is_element(w),
        pow(w, 9) != one_coefficients(),
    ensures
        pow(w, 3) != one_coefficients(),
{
    if pow(w, 3) == one_coefficients() {
        lemma_pow_mul(w, 3, 3);
        lemma_pow_of_one(3);
    }
}

/// Powers of an element whose `n`-th power is one depend on the exponent
/// modulo `n` only.
pub proof fn lemma_pow_reduce(x: Seq<nat>, n: nat, k: nat)
    requires
        is_element(x),
        n > 0,
        pow(x, n) == one_coefficients(),
    ensures
        pow(x, k) == pow(x, k % n),
{
    let a = k / n;
    let m = k % n;
    assert(k == n * a + m) by (nonlinear_arith)
        requires
            n > 0,
            a == k / n,
            m == k % n,
    ;
    lemma_pow_add(x, n * a, m);
    lemma_pow_mul(x, n, a);
    lemma_pow_of_one(a);
    lemma_pow_element(x, m);
    lemma_product_one(pow(x, m));
}

/// A multiplier that takes `m`, which is not a multiple of 27, to nine
/// modulo 27.
pub open spec fn nine_multiplier(m: nat) -> nat {
    if m % 3 == 1 {
        9
    } else if m % 3 == 2 {
        18
    } else if m % 9 == 3 {
        3
    } else if m % 9 == 6 {
        6
    } else if m % 27 == 9 {
        1
    } else {
        2
    }
}

/// [`nine_multiplier`] does what it is named for.
pub proof fn lemma_nine_multiplier(m: nat)
    requires
        m % 27 != 0,
    ensures
        (m * nine_multiplier(m)) % 27 == 9,
{
    if m % 3 == 1 {
        assert((m * 9) % 27 == 9);
    } else if m % 3 == 2 {
        assert((m * 18) % 27 == 9);
    } else if m % 9 == 3 {
        assert((m * 3) % 27 == 9);
    } else if m % 9 == 6 {
        assert((m * 6) % 27 == 9);
    } else if m % 27 == 9 {
        assert((m * 1) % 27 == 9);
    } else {
        assert(m % 27 == 18);
        assert((m * 2) % 27 == 9);
    }
}

/// The powers of a primitive 27th root of unity that are one are those
/// whose exponent is a multiple of 27.
pub proof fn lemma_order_27(w: Seq<nat>, k: nat)
    requires
        is_primitive_27th_root(w),
    ensures
        (pow(w, k) == one_coefficients()) == (k % 27 == 0),
{
    lemma_pow_reduce(w, 27, k);
    let m = k % 27;
    if m != 0 && pow(w, m) == one_coefficients() {
        let t = nine_multiplier(m);
        lemma_nine_multiplier(m);
        lemma_pow_mul(w, m, t);
        lemma_pow_of_one(t);
        lemma_pow_reduce(w, 27, m * t);
        assert(false);
    }
}

/// Every power of a 27th root of unity is a 27th root of unity.
pub proof fn lemma_root_power_order(w: Seq<nat>, i: nat)
    requires
        is_primitive_27th_root(w),
    ensures
        pow(pow(w, i), 27) == one_coefficients(),
{
    lemma_pow_mul(w, i, 27);
    lemma_pow_mul(w, 27, i);
    lemma_pow_of_one(i);
    assert(i * 27 == 27 * i);
}

/// Two powers of a primitive 27th root of unity are the same only when
/// their exponents agree modulo 27.
pub proof fn lemma_root_powers_distinct(w: Seq<nat>, a: nat, b: nat)
    requires
        is_primitive_27th_root(w),
        pow(w, a) == pow(w, b),
    ensures
        a % 27 == b % 27,
    decreases (if a % 27 <= b % 27 { 0nat } else { 1nat }),
{
    let low = a % 27;
    let high = b % 27;
    if low > high {
        lemma_root_powers_distinct(w, b, a);
    } else {
        lemma_pow_reduce(w, 27, a);
        lemma_pow_reduce(w, 27, b);
        let gap = (high - low) as nat;
        let back = pow(w, (27 - low) as nat);
        lemma_pow_element(w, low);
        lemma_pow_element(w, gap);
        lemma_pow_element(w, (27 - low) as nat);
        lemma_pow_add(w, low, gap);
        lemma_pow_add(w, (27 - low) as nat, low);
        lemma_product_one(pow(w, gap));
        lemma_product_associates(back, pow(w, low), pow(w, gap));
        assert(pow(w, gap) == one_coefficients());
        lemma_order_27(w, gap);
    }
}

/// A primitive 27th root of unity in the target group.
#[derive(Clone, Copy, Debug, PartialEq, Eq)]
pub struct RootOfUnity {
    w: Gt,
}

impl View for RootOfUnity {
    type V = Seq<nat>;

    closed spec fn view(&self) -> Seq<nat> {
        self.w@
    }
}

impl RootOfUnity {
    /// Every value of the type has order exactly 27.
    #[verifier::type_invariant]
    pub closed spec fn wf(self) -> bool {
        is_primitive_27th_root(self.w@)
    }

    /// `w` as a root of unity, if its order is exactly 27.
    pub fn new(w: Gt) -> (r: Option<RootOfUnity>)
        ensures
            r.is_some() == is_primitive_27th_root(w@),
            r matches Some(root) ==> root@ == w@,
    {
        proof {
            use_type_invariant(w);
        }
        let w3 = w.square().mul(&w);
        let w9 = w3.square().mul(&w3);
        let w27 = w9.square().mul(&w9);
        proof {
            lemma_pow_cube(w@);
            lemma_pow_element(w@, 3);
            lemma_pow_cube(pow(w@, 3));
            lemma_pow_mul(w@, 3, 3);
            lemma_pow_element(w@, 9);
            lemma_pow_cube(pow(w@, 9));
            lemma_pow_mul(w@, 9, 3);
        }
        if w27.is_one() && !w9.is_one() {
            Some(RootOfUnity { w })
        } else {
            None
        }
    }

    /// The root of unity that a drawn element gives: the element raised to
    /// the cofactor of the 27th roots of unity, if that power has order
    /// exactly 27.
    pub fn from_candidate(candidate: Gt) -> (r: Option<RootOfUnity>)
        ensures
            r.is_some() == is_primitive_27th_root(pow(candidate@, cofactor_27())),
            r matches Some(root) ==> root@ == pow(candidate@, cofactor_27()),
    {
        proof {
            lemma_cofactor_27_limbs();
        }
        RootOfUnity::new(exp(candidate, COFACTOR_27.as_slice()))
    }

    /// The root as an element of the field.
    pub fn element(&self) -> (w: Gt)
        ensures
            w@ == self@,
            is_primitive_27th_root(self@),
            pow(self@, 3) != one_coefficients(),
    {
        proof {
            use_type_invariant(self);
            lemma_cube_not_one(self.w@);
        }
        self.w
    }
}

/// Draws elements from `rng` until one gives a primitive 27th root of
/// unity, at most [`MAX_SAMPLING_ATTEMPTS`] times.
pub fn sample_27th_root_of_unity(rng: &mut StdRng) -> (r: Result<RootOfUnity, WitnessError>)
    ensures
        match r {
            Ok(w) => {
                &&& is_element(w@)
                &&& pow(w@, 27) == one_coefficients()
                &&& pow(w@, 9) != one_coefficients()
                &&& pow(w@, 3) != one_coefficients()
                &&& exists|drawn: Seq<nat>|
                    is_element(drawn) && w@ == #[trigger] pow(drawn, cofactor_27())
            },
            Err(e) => e == WitnessError::SamplingExhausted,
        },
{
    let mut attempt: usize = 0;
    while attempt < MAX_SAMPLING_ATTEMPTS
        invariant
            attempt <= MAX_SAMPLING_ATTEMPTS,
        decreases MAX_SAMPLING_ATTEMPTS - attempt,
    {
        let candidate = Gt::random(rng);
        match RootOfUnity::from_candidate(candidate) {
            Some(w) => {
                proof {
                    use_type_invariant(candidate);
                    lemma_cube_not_one(w@);
                }
                return Ok(w);
            },
            None => {},
        }
        attempt += 1;
    }
    Err(WitnessError::SamplingExhausted)
}

} // verus!
