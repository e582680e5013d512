//! Witnesses for pairing product checks on BN254.
//!
//! A verifier that has to confirm `f^((q^12 - 1) / r) == 1` for a Miller loop
//! output `f` can instead be handed a pair `(c, wi)` with `c^E == f * wi`,
//! where `wi` is a 27th root of unity, and check that relation with a handful
//! of multiplications. This crate computes such pairs.
//!
//! Elements of the field are held as their coefficients. Multiplying two of
//! them and drawing one at random are left to arkworks; everything else,
//! from exponentiation to the search for the witness, is proved against the
//! laws that multiplication in a field obeys.

pub mod constants;
pub mod error;
pub mod eth_root;
pub mod field;
pub mod limbs;
pub mod power;
pub mod roots;
pub mod witness;

pub use error::WitnessError;
pub use eth_root::{eth_root, ExtractorConfig};
pub use field::Gt;
pub use power::exp;
pub use roots::{sample_27th_root_of_unity, RootOfUnity};
pub use witness::{compute_c, compute_wi, compute_witness, find_coset_shift, WitnessPair};
