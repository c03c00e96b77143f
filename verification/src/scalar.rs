//! Elements of the scalar field of BLS12-381, as integers below its modulus.

use vstd::prelude::*;
use vstd::arithmetic::power::pow;
use bellman_ce::pairing::bls12_381::{Fr, FrRepr};
use bellman_ce::pairing::ff::{Field, PrimeField};
use rand::{ChaChaRng, Rand, SeedableRng};

verus! {

/// The order of the groups: the modulus of the scalar field.
pub open spec fn scalar_modulus() -> nat {
    0x73eda753299d7d483339d80809a1d80553bda402fffe5bfeffffffff00000001nat
}

/// The integer that four 64-bit limbs stand for, least significant first.
pub open spec fn limbs_value(limbs: Seq<u64>) -> nat
    recommends
        limbs.len() == 4,
{
    (limbs[0] as nat) + (limbs[1] as nat) * 0x1_0000_0000_0000_0000nat + (limbs[2] as nat)
        * 0x1_0000_0000_0000_0000_0000_0000_0000_0000nat + (limbs[3] as nat)
        * 0x1_0000_0000_0000_0000_0000_0000_0000_0000_0000_0000_0000_0000nat
}

/// The limbs of the scalar that a ChaCha generator seeded with `words`
/// yields first.
pub uninterp spec fn seeded_scalar_limbs(words: Seq<u32>) -> Seq<u64>;

/// Calls `Field::mul_assign` on the field elements with the given integer
/// representations: the result represents their product modulo the field's
/// modulus.
#[verifier::external_body]
fn field_mul(a: &[u64; 4], b: &[u64; 4]) -> (product: [u64; 4])
    requires
        limbs_value(a@) < scalar_modulus(),
        limbs_value(b@) < scalar_modulus(),
    ensures
        limbs_value(product@) == (limbs_value(a@) * limbs_value(b@)) % scalar_modulus(),
{
    let mut x = Fr::from_repr(FrRepr(*a)).unwrap();
    let y = Fr::from_repr(FrRepr(*b)).unwrap();
    x.mul_assign(&y);
    x.into_repr().0
}

/// Calls `Field::pow` on the field element with the given integer
/// representation: the result represents its power modulo the field's
/// modulus.
#[verifier::external_body]
fn field_pow(base: &[u64; 4], exponent: u64) -> (power: [u64; 4])
    requires
        limbs_value(base@) < scalar_modulus(),
    ensures
        limbs_value(power@) == pow(limbs_value(base@) as int, exponent as nat) % (
        scalar_modulus() as int),
{
    let x = Fr::from_repr(FrRepr(*base)).unwrap();
    x.pow([exponent]).into_repr().0
}

/// Seeds `rand::ChaChaRng` with `words` and draws one field element from it
/// with `Rand::rand`: the result is a function of the words alone, and it is
/// the integer representation of a field element.
#[verifier::external_body]
fn field_from_seed(words: &[u32]) -> (limbs: [u64; 4])
    ensures
        limbs@ == seeded_scalar_limbs(words@),
        limbs_value(limbs@) < scalar_modulus(),
{
    let mut generator = ChaChaRng::from_seed(words);
    Fr::rand(&mut generator).into_repr().0
}

/// A scalar: an integer below the modulus of the scalar field.
#[derive(Debug, Clone, Copy)]
pub struct Scalar {
    limbs: [u64; 4],
}

impl View for Scalar {
    type V = nat;

    closed spec fn view(&self) -> nat {
        limbs_value(self.limbs@)
    }
}

impl Scalar {
    #[verifier::type_invariant]
    spec fn reduced(&self) -> bool {
        limbs_value(self.limbs@) < scalar_modulus()
    }

    /// The limbs of the scalar, least significant first.
    pub closed spec fn spec_limbs(&self) -> Seq<u64> {
        self.limbs@
    }

    /// The scalar with the given limbs, where they stand for an integer
    /// below the modulus.
    pub fn from_limbs(limbs: [u64; 4]) -> (r: Option<Scalar>)
        ensures
            r is Some <==> limbs_value(limbs@) < scalar_modulus(),
            r is Some ==> r->Some_0@ == limbs_value(limbs@) && r->Some_0.spec_limbs() == limbs@,
    {
        let below = limbs[3] < 0x73eda753299d7d48 || (limbs[3] == 0x73eda753299d7d48 && (limbs[2]
            < 0x3339d80809a1d805 || (limbs[2] == 0x3339d80809a1d805 && (limbs[1]
            < 0x53bda402fffe5bfe || (limbs[1] == 0x53bda402fffe5bfe && limbs[0]
            < 0xffffffff00000001)))));
        if below {
            Some(Scalar { limbs })
        } else {
            None
        }
    }

    /// The scalar one.
    pub fn one() -> (r: Scalar)
        ensures
            r@ == 1,
    {
        Scalar { limbs: [1, 0, 0, 0] }
    }

    /// The limbs of the scalar, least significant first.
    pub fn limbs(&self) -> (r: [u64; 4])
        ensures
            r@ == self.spec_limbs(),
            limbs_value(r@) == self@,
            self@ < scalar_modulus(),
    {
        proof {
            use_type_invariant(self);
        }
        self.limbs
    }

    /// Whether the scalar is zero.
    pub fn is_zero(&self) -> (r: bool)
        ensures
            r == (self@ == 0),
    {
        self.limbs[0] == 0 && self.limbs[1] == 0 && self.limbs[2] == 0 && self.limbs[3] == 0
    }

    /// The product of two scalars in the field.
    pub fn mul(&self, other: &Scalar) -> (r: Scalar)
        ensures
            r@ == (self@ * other@) % scalar_modulus(),
    {
        proof {
            use_type_invariant(self);
            use_type_invariant(other);
        }
        Scalar { limbs: field_mul(&self.limbs, &other.limbs) }
    }

    /// The power of a scalar in the field.
    pub fn pow(&self, exponent: u64) -> (r: Scalar)
        ensures
            r@ == pow(self@ as int, exponent as nat) % (scalar_modulus() as int),
    {
        proof {
            use_type_invariant(self);
        }
        Scalar { limbs: field_pow(&self.limbs, exponent) }
    }

    /// The scalar that a ChaCha generator seeded with `words` yields first.
    pub fn from_seed(words: &[u32]) -> (r: Scalar)
        ensures
            r.spec_limbs() == seeded_scalar_limbs(words@),
            r@ == limbs_value(seeded_scalar_limbs(words@)),
    {
        Scalar { limbs: field_from_seed(words) }
    }
}

} // verus!
