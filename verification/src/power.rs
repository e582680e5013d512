//! Powers of field elements: what a power is, the laws it obeys, and
//! exponentiation by repeated squaring.

use crate::field::{
    fq12_product, is_coefficients, is_element, lemma_product_associates, lemma_product_closed,
    lemma_product_commutes, lemma_product_one, one_coefficients, product_laws, Gt,
};
use crate::limbs::{lemma_limbs_value_skip, limbs_value};
use vstd::arithmetic::power2::{lemma2_to64, lemma2_to64_rest, lemma_pow2_unfold, pow2};
use vstd::prelude::*;

verus! {

/// `x` multiplied by itself `n` times, one factor at a time.
pub open spec fn pow(x: Seq<nat>, n: nat) -> Seq<nat>
    decreases n,
{
    if n == 0 {
        one_coefficients()
    } else {
        fq12_product(x, pow(x, (n - 1) as nat))
    }
}

/// A power of an element is an element.
pub proof fn lemma_pow_element(x: Seq<nat>, n: nat)
    requires
        is_element(x),
    ensures
        is_element(pow(x, n)),
    decreases n,
{
    if n == 0 {
        lemma_product_one(x);
    } else {
        lemma_pow_element(x, (n - 1) as nat);
        lemma_product_closed(x, pow(x, (n - 1) as nat));
    }
}

/// The first power of an element is the element.
pub proof fn lemma_pow_first(x: Seq<nat>)
    requires
        is_element(x),
    ensures
        pow(x, 1) == x,
{
    lemma_product_one(x);
    assert(pow(x, 1) == fq12_product(x, pow(x, 0)));
}

/// One more factor on the right gives the next power.
pub proof fn lemma_pow_next(x: Seq<nat>, n: nat)
    requires
        is_element(x),
    ensures
        fq12_product(pow(x, n), x) == pow(x, n + 1),
{
    lemma_pow_element(x, n);
    lemma_product_commutes(pow(x, n), x);
    assert(pow(x, n + 1) == fq12_product(x, pow(x, n)));
}

/// Exponents add: `x^(a + b) == x^a * x^b`.
pub proof fn lemma_pow_add(x: Seq<nat>, a: nat, b: nat)
    requires
        is_element(x),
    ensures
        pow(x, a + b) == fq12_product(pow(x, a), pow(x, b)),
    decreases a,
{
    lemma_pow_element(x, b);
    if a == 0 {
        lemma_product_one(pow(x, b));
    } else {
        let a1 = (a - 1) as nat;
        lemma_pow_add(x, a1, b);
        lemma_pow_element(x, a1);
        lemma_product_associates(x, pow(x, a1), pow(x, b));
        assert(pow(x, a + b) == fq12_product(x, pow(x, (a1 + b) as nat)));
    }
}

/// The cube of an element, as one squaring and one multiplication compute
/// it, is its third power.
pub proof fn lemma_pow_cube(x: Seq<nat>)
    requires
        is_element(x),
    ensures
        fq12_product(fq12_product(x, x), x) == pow(x, 3),
{
    lemma_pow_first(x);
    lemma_pow_add(x, 1, 1);
    lemma_pow_add(x, 2, 1);
}

/// Every power of one is one.
pub proof fn lemma_pow_of_one(n: nat)
    requires
        product_laws(),
    ensures
        pow(one_coefficients(), n) == one_coefficients(),
    decreases n,
{
    if n > 0 {
        lemma_pow_of_one((n - 1) as nat);
        assert(is_coefficients(one_coefficients()));
        lemma_product_one(one_coefficients());
    }
}

/// Exponents multiply: `(x^a)^b == x^(a * b)`.
pub proof fn lemma_pow_mul(x: Seq<nat>, a: nat, b: nat)
    requires
        is_element(x),
    ensures
        pow(pow(x, a), b) == pow(x, a * b),
    decreases b,
{
    if b == 0 {
        assert(a * b == 0);
    } else {
        let b1 = (b - 1) as nat;
        lemma_pow_mul(x, a, b1);
        lemma_pow_add(x, a, a * b1);
        assert(a + a * b1 == a * b) by (nonlinear_arith)
            requires
                b1 + 1 == b,
        ;
    }
}

/// The power of a product is the product of the powers.
pub proof fn lemma_pow_product(x: Seq<nat>, y: Seq<nat>, n: nat)
    requires
        is_element(x),
        is_element(y),
    ensures
        pow(fq12_product(x, y), n) == fq12_product(pow(x, n), pow(y, n)),
    decreases n,
{
    if n == 0 {
        lemma_product_one(one_coefficients());
    } else {
        let n1 = (n - 1) as nat;
        let xn = pow(x, n1);
        let yn = pow(y, n1);
        lemma_pow_product(x, y, n1);
        lemma_pow_element(x, n1);
        lemma_pow_element(y, n1);
        lemma_product_closed(xn, yn);
        lemma_product_closed(y, yn);
        // (x y)(xn yn) = x (y (xn yn)) = x ((xn y) yn) = x (xn (y yn)) = (x xn)(y yn)
        lemma_product_associates(x, y, fq12_product(xn, yn));
        lemma_product_associates(y, xn, yn);
        lemma_product_commutes(y, xn);
        lemma_product_associates(xn, y, yn);
        lemma_product_associates(x, xn, fq12_product(y, yn));
    }
}

/// The exponent reached from `high` after the bits of `limb` at positions
/// `k` and above have been taken in, most significant first.
spec fn bits_taken(high: nat, limb: u64, k: nat) -> nat
    decreases 64 - k,
{
    if k >= 64 {
        high
    } else {
        2 * bits_taken(high, limb, k + 1) + ((limb >> (k as u64)) & 1) as nat
    }
}

/// Taking in the bits of a limb from position `k` up shifts `high` left by
/// as many places and puts those bits below it.
proof fn lemma_bits_taken(high: nat, limb: u64, k: nat)
    requires
        k <= 64,
    ensures
        bits_taken(high, limb, k) == high * pow2((64 - k) as nat) + (if k < 64 {
            (limb >> (k as u64)) as nat
        } else {
            0
        }),
    decreases 64 - k,
{
    if k < 64 {
        lemma_bits_taken(high, limb, k + 1);
        lemma_pow2_unfold((64 - k) as nat);
        let s = k as u64;
        if k < 63 {
            assert((limb >> s) == 2 * (limb >> ((s + 1) as u64)) + ((limb >> s) & 1))
                by (bit_vector)
                requires
                    s < 63,
            ;
        } else {
            assert((limb >> s) == ((limb >> s) & 1)) by (bit_vector)
                requires
                    s == 63,
            ;
        }
        let shifted = high * pow2((63 - k) as nat);
        assert(2 * shifted == high * pow2((64 - k) as nat)) by (nonlinear_arith)
            requires
                shifted == high * pow2((63 - k) as nat),
                pow2((64 - k) as nat) == 2 * pow2((63 - k) as nat),
        ;
    } else {
        assert(pow2(0) == 1) by {
            lemma2_to64();
        }
        assert(high * 1 == high);
    }
}

/// A limb taken in whole, above which stands `high`.
proof fn lemma_limb_taken(high: nat, limb: u64)
    ensures
        bits_taken(high, limb, 0) == limb as nat + 0x1_0000_0000_0000_0000 * high,
{
    lemma_bits_taken(high, limb, 0);
    lemma2_to64_rest();
    assert((limb >> 0u64) == limb) by (bit_vector);
    assert(high * 0x1_0000_0000_0000_0000 == 0x1_0000_0000_0000_0000 * high) by (nonlinear_arith);
}

/// `base` raised to the number that `exponent` denotes, least significant
/// limb first, by squaring and multiplying from the top bit down.
pub fn exp(base: Gt, exponent: &[u64]) -> (r: Gt)
    ensures
        r@ == pow(base@, limbs_value(exponent@)),
        r.wf(),
{
    proof {
        use_type_invariant(base);
    }
    let mut acc = Gt::one();
    let mut i: usize = exponent.len();
    assert(exponent@.skip(i as int) =~= Seq::<u64>::empty());
    while i > 0
        invariant
            i <= exponent.len(),
            is_coefficients(base@),
            acc@ == pow(base@, limbs_value(exponent@.skip(i as int))),
        decreases i,
    {
        i -= 1;
        let limb = exponent[i];
        let ghost high = limbs_value(exponent@.skip(i + 1));
        let mut k: u64 = 64;
        while k > 0
            invariant
                k <= 64,
                is_coefficients(base@),
                acc@ == pow(base@, bits_taken(high, limb, k as nat)),
            decreases k,
        {
            k -= 1;
            let ghost taken = bits_taken(high, limb, (k + 1) as nat);
            acc = acc.square();
            proof {
                lemma_pow_add(base@, taken, taken);
            }
            if (limb >> k) & 1 == 1 {
                acc = acc.mul(&base);
                proof {
                    lemma_pow_element(base@, 2 * taken);
                    lemma_product_commutes(pow(base@, 2 * taken), base@);
                    assert(pow(base@, 2 * taken + 1) == fq12_product(
                        base@,
                        pow(base@, (2 * taken) as nat),
                    ));
                }
            } else {
                assert(((limb >> k) & 1) == 0) by (bit_vector)
                    requires
                        ((limb >> k) & 1) != 1,
                ;
            }
        }
        proof {
            lemma_limb_taken(high, limb);
            lemma_limbs_value_skip(exponent@, i as int);
        }
    }
    proof {
        use_type_invariant(acc);
        assert(exponent@.skip(0) =~= exponent@);
    }
    acc
}

} // verus!
