//! The pairing target group: the degree-twelve extension of the BN254 base
//! field.
//!
//! An element is held as its twelve base-field coefficients, so that what an
//! element is, when two are equal, and which one is the identity are plain
//! facts about numbers. Only multiplication and the drawing of random elements
//! are left to arkworks. What a product is, is not written out here: it has
//! a name, [`fq12_product`], and the proofs rest on the laws of a commutative
//! monoid that field multiplication obeys.

use crate::limbs::{lemma_limbs_value_four, lemma_limbs_value_four_injective, limbs_value};
use ark_bn254::{Fq, Fq12};
use ark_ff::{BigInt, Field, PrimeField};
use ark_std::rand::rngs::StdRng;
use ark_std::UniformRand;
use vstd::prelude::*;

verus! {

/// The random source that elements are drawn from: `rand`'s standard
/// generator, under the path that `ark_std` gives it.
#[verifier::external_type_specification]
#[verifier::external_body]
pub struct ExStdRng(StdRng);

/// The characteristic `q` of the base field, as limbs.
pub const MODULUS: [u64; 4] = [
    0x3c208c16d87cfd47,
    0x97816a916871ca8d,
    0xb85045b68181585d,
    0x30644e72e131a029,
];

/// The characteristic `q` of the base field.
pub open spec fn field_modulus() -> nat {
    21888242871839275222246405745257275088696311157297823662689037894645226208583nat
}

/// The limbs of [`MODULUS`] denote [`field_modulus`].
pub proof fn lemma_modulus_limbs()
    ensures
        limbs_value(MODULUS@) == field_modulus(),
{
    lemma_limbs_value_four(MODULUS@);
}

/// The coefficients of the product, in the field, of the elements with
/// coefficients `a` and `b`: what `Mul::mul` of `ark_bn254::Fq12` computes.
pub uninterp spec fn fq12_product(a: Seq<nat>, b: Seq<nat>) -> Seq<nat>;

/// Twelve integers below the modulus.
pub open spec fn is_coefficients(c: Seq<nat>) -> bool {
    &&& c.len() == 12
    &&& forall|i: int| 0 <= i < 12 ==> c[i] < field_modulus()
}

/// The coefficients of the multiplicative identity.
pub open spec fn one_coefficients() -> Seq<nat> {
    Seq::new(12, |i: int| if i == 0 { 1nat } else { 0nat })
}

/// Multiplication in the field is closed, commutative and associative, and
/// one is its identity.
///
/// These are the facts about arkworks' arithmetic that the proofs of this
/// crate rest on. They are not proved here: they are part of [`is_element`],
/// which is taken on trust wherever arkworks hands out an element.
#[verifier::opaque]
pub open spec fn product_laws() -> bool {
    &&& forall|a: Seq<nat>, b: Seq<nat>|
        is_coefficients(a) && is_coefficients(b) ==> is_coefficients(#[trigger] fq12_product(a, b))
    &&& forall|a: Seq<nat>, b: Seq<nat>|
        is_coefficients(a) && is_coefficients(b) ==> #[trigger] fq12_product(a, b) == fq12_product(
            b,
            a,
        )
    &&& forall|a: Seq<nat>, b: Seq<nat>, c: Seq<nat>|
        is_coefficients(a) && is_coefficients(b) && is_coefficients(c) ==> #[trigger] fq12_product(
            fq12_product(a, b),
            c,
        ) == fq12_product(a, fq12_product(b, c))
    &&& forall|a: Seq<nat>|
        is_coefficients(a) ==> #[trigger] fq12_product(one_coefficients(), a) == a
}

/// `c` holds the coefficients of an element of the field, a field whose
/// multiplication obeys [`product_laws`].
pub open spec fn is_element(c: Seq<nat>) -> bool {
    is_coefficients(c) && product_laws()
}

/// The coefficients that twelve groups of four limbs denote.
pub open spec fn limbs_coefficients(limbs: [[u64; 4]; 12]) -> Seq<nat> {
    Seq::new(12, |i: int| limbs_value(limbs@[i]@))
}

/// The product of two elements is an element.
pub proof fn lemma_product_closed(a: Seq<nat>, b: Seq<nat>)
    requires
        is_element(a),
        is_element(b),
    ensures
        is_element(fq12_product(a, b)),
{
    reveal(product_laws);
}

/// Multiplication is commutative.
pub proof fn lemma_product_commutes(a: Seq<nat>, b: Seq<nat>)
    requires
        is_element(a),
        is_element(b),
    ensures
        fq12_product(a, b) == fq12_product(b, a),
{
    reveal(product_laws);
}

/// Multiplication is associative.
pub proof fn lemma_product_associates(a: Seq<nat>, b: Seq<nat>, c: Seq<nat>)
    requires
        is_element(a),
        is_element(b),
        is_element(c),
    ensures
        fq12_product(fq12_product(a, b), c) == fq12_product(a, fq12_product(b, c)),
{
    reveal(product_laws);
}

/// One is the identity of multiplication, on either side.
pub proof fn lemma_product_one(a: Seq<nat>)
    requires
        is_element(a),
    ensures
        is_element(one_coefficients()),
        fq12_product(one_coefficients(), a) == a,
        fq12_product(a, one_coefficients()) == a,
{
    reveal(product_laws);
    assert(is_coefficients(one_coefficients()));
}

/// Whether the number that four limbs denote is below the modulus.
pub fn below_modulus(limbs: &[u64; 4]) -> (r: bool)
    ensures
        r == (limbs_value(limbs@) < field_modulus()),
{
    proof {
        lemma_limbs_value_four(limbs@);
        lemma_limbs_value_four(MODULUS@);
        lemma_modulus_limbs();
    }
    if limbs[3] != MODULUS[3] {
        limbs[3] < MODULUS[3]
    } else if limbs[2] != MODULUS[2] {
        limbs[2] < MODULUS[2]
    } else if limbs[1] != MODULUS[1] {
        limbs[1] < MODULUS[1]
    } else {
        limbs[0] < MODULUS[0]
    }
}

/// An element of the target group's field: twelve coefficients below the
/// modulus, of four little-endian limbs each, in the order in which
/// arkworks walks the tower of extensions.
#[derive(Clone, Copy, Debug, PartialEq, Eq)]
pub struct Gt {
    limbs: [[u64; 4]; 12],
}

impl View for Gt {
    type V = Seq<nat>;

    closed spec fn view(&self) -> Seq<nat> {
        limbs_coefficients(self.limbs)
    }
}

/// `Mul::mul` of `Fq12`, on elements built with `PrimeField::from_bigint`
/// and `Field::from_base_prime_field_elems` and read back with
/// `Field::to_base_prime_field_elements` and `PrimeField::into_bigint`.
/// Claimed: the result holds the coefficients of the product that
/// [`fq12_product`] names, and that product is an element of a field whose
/// multiplication obeys [`product_laws`].
#[verifier::external_body]
fn fq12_mul(a: &Gt, b: &Gt) -> (r: Gt)
    requires
        is_coefficients(a@),
        is_coefficients(b@),
    ensures
        r@ == fq12_product(a@, b@),
        is_element(r@),
{
    let load = |g: &Gt| {
        Fq12::from_base_prime_field_elems(
            &g.limbs.map(|c| Fq::from_bigint(BigInt::new(c)).unwrap()),
        ).unwrap()
    };
    let product = load(a) * load(b);
    let mut limbs = [[0u64; 4]; 12];
    for (slot, c) in limbs.iter_mut().zip(product.to_base_prime_field_elements()) {
        *slot = c.into_bigint().0;
    }
    Gt { limbs }
}

/// `UniformRand::rand` of `Fq12`, read back with
/// `Field::to_base_prime_field_elements` and `PrimeField::into_bigint`.
/// Claimed: the result is an element of the field. Which one depends on the
/// generator's state, of which nothing is claimed, before the call or after
/// it.
#[verifier::external_body]
fn fq12_rand(rng: &mut StdRng) -> (r: Gt)
    ensures
        is_element(r@),
{
    let mut limbs = [[0u64; 4]; 12];
    for (slot, c) in limbs.iter_mut().zip(Fq12::rand(rng).to_base_prime_field_elements()) {
        *slot = c.into_bigint().0;
    }
    Gt { limbs }
}

impl Gt {
    /// Every coefficient of an element is below the modulus.
    #[verifier::type_invariant]
    pub open spec fn wf(self) -> bool {
        is_coefficients(self@)
    }

    /// The multiplicative identity.
    pub fn one() -> (r: Gt)
        ensures
            r@ == one_coefficients(),
    {
        let limbs: [[u64; 4]; 12] = [
            [1, 0, 0, 0],
            [0, 0, 0, 0],
            [0, 0, 0, 0],
            [0, 0, 0, 0],
            [0, 0, 0, 0],
            [0, 0, 0, 0],
            [0, 0, 0, 0],
            [0, 0, 0, 0],
            [0, 0, 0, 0],
            [0, 0, 0, 0],
            [0, 0, 0, 0],
            [0, 0, 0, 0],
        ];
        proof {
            assert forall|i: int| 0 <= i < 12 implies limbs_value(limbs@[i]@) == (if i == 0 {
                1nat
            } else {
                0nat
            }) by {
                lemma_limbs_value_four(limbs@[i]@);
            }
            assert(limbs_coefficients(limbs) =~= one_coefficients());
        }
        Gt { limbs }
    }

    /// The element with the given coefficients, four little-endian limbs
    /// each; `None` when a coefficient is not below the modulus.
    pub fn from_limbs(limbs: &[[u64; 4]; 12]) -> (r: Option<Gt>)
        ensures
            r.is_some() == is_coefficients(limbs_coefficients(*limbs)),
            r matches Some(g) ==> g@ == limbs_coefficients(*limbs),
    {
        let mut i: usize = 0;
        while i < 12
            invariant
                i <= 12,
                forall|k: int| 0 <= k < i ==> limbs_value(limbs@[k]@) < field_modulus(),
            decreases 12 - i,
        {
            if !below_modulus(&limbs[i]) {
                assert(limbs_coefficients(*limbs)[i as int] >= field_modulus());
                return None;
            }
            i += 1;
        }
        Some(Gt { limbs: *limbs })
    }

    /// The coefficients of the element, four little-endian limbs each.
    pub fn to_limbs(&self) -> (r: [[u64; 4]; 12])
        ensures
            limbs_coefficients(r) == self@,
    {
        self.limbs
    }

    /// Whether two elements are the same.
    pub fn equals(&self, other: &Gt) -> (r: bool)
        ensures
            r == (self@ == other@),
    {
        let mut i: usize = 0;
        while i < 12
            invariant
                i <= 12,
                forall|k: int| 0 <= k < i ==> self.limbs@[k] == other.limbs@[k],
            decreases 12 - i,
        {
            let mut j: usize = 0;
            while j < 4
                invariant
                    i < 12,
                    j <= 4,
                    forall|k: int| 0 <= k < j ==> self.limbs@[i as int]@[k] == other.limbs@[i as int]@[k],
                decreases 4 - j,
            {
                if self.limbs[i][j] != other.limbs[i][j] {
                    proof {
                        if self@ == other@ {
                            assert(self@[i as int] == other@[i as int]);
                            lemma_limbs_value_four_injective(
                                self.limbs@[i as int]@,
                                other.limbs@[i as int]@,
                            );
                        }
                    }
                    return false;
                }
                j += 1;
            }
            assert(self.limbs@[i as int]@ =~= other.limbs@[i as int]@);
            i += 1;
        }
        assert(self.limbs@ =~= other.limbs@);
        true
    }

    /// Whether the element is the multiplicative identity.
    pub fn is_one(&self) -> (r: bool)
        ensures
            r == (self@ == one_coefficients()),
    {
        let one = Gt::one();
        self.equals(&one)
    }

    /// The product `self * rhs`.
    pub fn mul(&self, rhs: &Gt) -> (r: Gt)
        ensures
            r@ == fq12_product(self@, rhs@),
            is_element(r@),
    {
        proof {
            use_type_invariant(self);
            use_type_invariant(rhs);
        }
        fq12_mul(self, rhs)
    }

    /// The product `self * self`.
    pub fn square(&self) -> (r: Gt)
        ensures
            r@ == fq12_product(self@, self@),
            is_element(r@),
    {
        self.mul(self)
    }

    /// An element drawn from `rng`.
    pub fn random(rng: &mut StdRng) -> (r: Gt)
        ensures
            is_element(r@),
    {
        fq12_rand(rng)
    }
}

} // verus!
