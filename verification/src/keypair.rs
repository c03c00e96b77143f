//! A participant's secret exponents and the public key that proves
//! knowledge of them.
//!
//! The secrets are derived from the hash of the accumulator that the
//! participant received together with a seed of fresh randomness, so that
//! they cannot be fixed before that accumulator is known.

use vstd::prelude::*;
use crate::curve::{
    g1_multiple, g2_multiple, is_identity_encoding, same_ratio, spec_same_ratio, DecodeError,
    G1Point, G2Point, G1_GENERATOR, G1_UNCOMPRESSED_SIZE, G2_GENERATOR, G2_UNCOMPRESSED_SIZE,
};
use crate::scalar::{limbs_value, seeded_scalar_limbs, Scalar};
use crate::utils::{append, blake2b_512, copy_range, hash_of};

verus! {

/// Number of bytes of a serialised public key: six elements of G1 and three
/// of G2, uncompressed.
pub const PUBLIC_KEY_SIZE: usize = 1152;

/// The three secret exponents of a contribution.
#[derive(Debug, Clone, Copy, PartialEq, Eq, Structural)]
pub enum Exponent {
    Tau,
    Alpha,
    Beta,
}

/// Mathematical value of a [`PublicKey`]: the uncompressed encodings of its
/// elements.
pub struct PublicKeyModel {
    pub tau_g1: (Seq<u8>, Seq<u8>),
    pub alpha_g1: (Seq<u8>, Seq<u8>),
    pub beta_g1: (Seq<u8>, Seq<u8>),
    pub tau_g2: Seq<u8>,
    pub alpha_g2: Seq<u8>,
    pub beta_g2: Seq<u8>,
}

/// Mathematical value of a [`Keypair`].
pub struct KeypairModel {
    pub tau: nat,
    pub alpha: nat,
    pub beta: nat,
    pub public: PublicKeyModel,
}

/// The proof of knowledge of one contribution: for each exponent `x` a pair
/// `(s, s^x)` in G1 and the image of `x` in G2.
#[derive(Debug)]
pub struct PublicKey {
    tau_g1: (G1Point, G1Point),
    alpha_g1: (G1Point, G1Point),
    beta_g1: (G1Point, G1Point),
    tau_g2: G2Point,
    alpha_g2: G2Point,
    beta_g2: G2Point,
}

/// A public key with the secret exponents behind it.
#[derive(Debug)]
pub struct Keypair {
    tau: Scalar,
    alpha: Scalar,
    beta: Scalar,
    public: PublicKey,
}

impl View for PublicKey {
    type V = PublicKeyModel;

    closed spec fn view(&self) -> PublicKeyModel {
        PublicKeyModel {
            tau_g1: (self.tau_g1.0@, self.tau_g1.1@),
            alpha_g1: (self.alpha_g1.0@, self.alpha_g1.1@),
            beta_g1: (self.beta_g1.0@, self.beta_g1.1@),
            tau_g2: self.tau_g2@,
            alpha_g2: self.alpha_g2@,
            beta_g2: self.beta_g2@,
        }
    }
}

impl View for Keypair {
    type V = KeypairModel;

    closed spec fn view(&self) -> KeypairModel {
        KeypairModel {
            tau: self.tau@,
            alpha: self.alpha@,
            beta: self.beta@,
            public: self.public@,
        }
    }
}

/// The first eight big-endian 32-bit words of a digest.
pub open spec fn spec_digest_words(digest: Seq<u8>) -> Seq<u32>
    recommends
        digest.len() >= 32,
{
    Seq::new(
        8,
        |k: int|
            (digest[4 * k] as int * 0x100_0000 + digest[4 * k + 1] as int * 0x1_0000 + digest[4 * k
                + 2] as int * 0x100 + digest[4 * k + 3] as int) as u32,
    )
}

/// The scalar that a digest stands for: the first one that a ChaCha
/// generator seeded with the digest's first words yields.
pub open spec fn spec_digest_scalar(digest: Seq<u8>) -> nat {
    limbs_value(seeded_scalar_limbs(spec_digest_words(digest)))
}

/// The `index`-th scalar derived from an input hash and a seed.
pub open spec fn spec_derived_scalar(input_hash: Seq<u8>, seed: Seq<u8>, index: u8) -> nat {
    spec_digest_scalar(blake2b_512(input_hash + seed + seq![index]))
}

/// The pair `(s, s^x)` for the generator of G1.
pub open spec fn spec_proof_pair(s: nat, x: nat) -> (Seq<u8>, Seq<u8>) {
    (g1_multiple(G1_GENERATOR@, s), g1_multiple(g1_multiple(G1_GENERATOR@, s), x))
}

/// The key pair that an input hash and a seed give: the exponents tau, alpha
/// and beta are the first three derived scalars and their randomisers the
/// next three. There is none where one of the six is zero or a randomiser's
/// element of G1 is the identity.
pub open spec fn spec_generate(input_hash: Seq<u8>, seed: Seq<u8>) -> Option<KeypairModel> {
    let tau = spec_derived_scalar(input_hash, seed, 0);
    let alpha = spec_derived_scalar(input_hash, seed, 1);
    let beta = spec_derived_scalar(input_hash, seed, 2);
    let s_tau = spec_derived_scalar(input_hash, seed, 3);
    let s_alpha = spec_derived_scalar(input_hash, seed, 4);
    let s_beta = spec_derived_scalar(input_hash, seed, 5);
    if tau == 0 || alpha == 0 || beta == 0 || s_tau == 0 || s_alpha == 0 || s_beta == 0 {
        None
    } else if is_identity_encoding(spec_proof_pair(s_tau, tau).0) || is_identity_encoding(
        spec_proof_pair(s_alpha, alpha).0,
    ) || is_identity_encoding(spec_proof_pair(s_beta, beta).0) {
        None
    } else {
        Some(
            KeypairModel {
                tau,
                alpha,
                beta,
                public: PublicKeyModel {
                    tau_g1: spec_proof_pair(s_tau, tau),
                    alpha_g1: spec_proof_pair(s_alpha, alpha),
                    beta_g1: spec_proof_pair(s_beta, beta),
                    tau_g2: g2_multiple(G2_GENERATOR@, tau),
                    alpha_g2: g2_multiple(G2_GENERATOR@, alpha),
                    beta_g2: g2_multiple(G2_GENERATOR@, beta),
                },
            },
        )
    }
}

/// The first eight big-endian 32-bit words of a digest.
pub fn digest_words(digest: &[u8]) -> (words: Vec<u32>)
    requires
        digest@.len() >= 32,
    ensures
        words@ == spec_digest_words(digest@),
{
    let mut words: Vec<u32> = Vec::new();
    let mut k: usize = 0;
    while k < 8
        invariant
            k <= 8,
            digest@.len() >= 32,
            words@.len() == k,
            forall|j: int| 0 <= j < k ==> words@[j] == spec_digest_words(digest@)[j],
        decreases 8 - k,
    {
        let b0: u32 = digest[4 * k] as u32;
        let b1: u32 = digest[4 * k + 1] as u32;
        let b2: u32 = digest[4 * k + 2] as u32;
        let b3: u32 = digest[4 * k + 3] as u32;
        words.push(b0 * 0x100_0000 + b1 * 0x1_0000 + b2 * 0x100 + b3);
        k += 1;
    }
    assert(words@ =~= spec_digest_words(digest@));
    words
}

/// The `index`-th scalar derived from an input hash and a seed.
pub fn derived_scalar(input_hash: &[u8], seed: &[u8], index: u8) -> (r: Scalar)
    ensures
        r@ == spec_derived_scalar(input_hash@, seed@, index),
{
    let mut material: Vec<u8> = Vec::new();
    append(&mut material, input_hash);
    append(&mut material, seed);
    material.push(index);
    assert(material@ =~= input_hash@ + seed@ + seq![index]);
    let digest = hash_of(material.as_slice());
    let words = digest_words(digest.as_slice());
    Scalar::from_seed(words.as_slice())
}

/// The pair `(s, s^x)` for the generator of G1.
fn proof_pair(s: &Scalar, x: &Scalar) -> (pair: (G1Point, G1Point))
    ensures
        (pair.0@, pair.1@) == spec_proof_pair(s@, x@),
{
    let base = G1Point::generator().mul(s);
    let raised = base.mul(x);
    (base, raised)
}

impl PublicKeyModel {
    /// The serialised key: the three pairs of G1 for tau, alpha and beta,
    /// then the three elements of G2 in the same order.
    pub open spec fn serialized(self) -> Seq<u8> {
        self.tau_g1.0 + self.tau_g1.1 + self.alpha_g1.0 + self.alpha_g1.1 + self.beta_g1.0
            + self.beta_g1.1 + self.tau_g2 + self.alpha_g2 + self.beta_g2
    }

    /// The pair in G1 for an exponent.
    pub open spec fn pair(self, exponent: Exponent) -> (Seq<u8>, Seq<u8>) {
        match exponent {
            Exponent::Tau => self.tau_g1,
            Exponent::Alpha => self.alpha_g1,
            Exponent::Beta => self.beta_g1,
        }
    }

    /// The image in G2 of an exponent.
    pub open spec fn image(self, exponent: Exponent) -> Seq<u8> {
        match exponent {
            Exponent::Tau => self.tau_g2,
            Exponent::Alpha => self.alpha_g2,
            Exponent::Beta => self.beta_g2,
        }
    }

    /// Whether the pair for an exponent has the ratio of the generator of
    /// G2 to the exponent's image.
    pub open spec fn proves(self, exponent: Exponent) -> bool {
        spec_same_ratio(self.pair(exponent), (G2_GENERATOR@, self.image(exponent)))
    }

    /// The first exponent, in the order tau, alpha, beta, whose proof fails.
    pub open spec fn first_unproved(self) -> Option<Exponent> {
        if !self.proves(Exponent::Tau) {
            Some(Exponent::Tau)
        } else if !self.proves(Exponent::Alpha) {
            Some(Exponent::Alpha)
        } else if !self.proves(Exponent::Beta) {
            Some(Exponent::Beta)
        } else {
            None
        }
    }
}

/// The nine parts of a serialised key: the `index`-th one, as it lies in the
/// bytes.
pub open spec fn spec_key_part(bytes: Seq<u8>, index: int) -> Seq<u8> {
    if index < 6 {
        bytes.subrange(index * G1_UNCOMPRESSED_SIZE, (index + 1) * G1_UNCOMPRESSED_SIZE)
    } else {
        bytes.subrange(
            6 * G1_UNCOMPRESSED_SIZE + (index - 6) * G2_UNCOMPRESSED_SIZE,
            6 * G1_UNCOMPRESSED_SIZE + (index - 5) * G2_UNCOMPRESSED_SIZE,
        )
    }
}

/// What reading the `index`-th part of a serialised key yields.
pub open spec fn spec_key_element(bytes: Seq<u8>, index: int) -> Result<Seq<u8>, DecodeError> {
    if index < 6 {
        G1Point::spec_from_uncompressed(spec_key_part(bytes, index))
    } else {
        G2Point::spec_from_uncompressed(spec_key_part(bytes, index))
    }
}

/// The reason for which the first of the parts before `upto` that cannot be
/// read is refused.
pub open spec fn spec_key_failure(bytes: Seq<u8>, upto: int) -> Option<DecodeError>
    decreases upto,
{
    if upto <= 0 {
        None
    } else {
        match spec_key_failure(bytes, upto - 1) {
            Some(e) => Some(e),
            None => match spec_key_element(bytes, upto - 1) {
                Ok(_) => None,
                Err(e) => Some(e),
            },
        }
    }
}

/// What reading a serialised key yields: the key whose parts are the
/// elements read, or the reason for which the first unreadable part is
/// refused.
pub open spec fn spec_deserialize(bytes: Seq<u8>) -> Result<PublicKeyModel, DecodeError> {
    if bytes.len() != PUBLIC_KEY_SIZE {
        Err(DecodeError::WrongLength)
    } else {
        match spec_key_failure(bytes, 9) {
            Some(e) => Err(e),
            None => Ok(
                PublicKeyModel {
                    tau_g1: (spec_key_element(bytes, 0)->Ok_0, spec_key_element(bytes, 1)->Ok_0),
                    alpha_g1: (spec_key_element(bytes, 2)->Ok_0, spec_key_element(bytes, 3)->Ok_0),
                    beta_g1: (spec_key_element(bytes, 4)->Ok_0, spec_key_element(bytes, 5)->Ok_0),
                    tau_g2: spec_key_element(bytes, 6)->Ok_0,
                    alpha_g2: spec_key_element(bytes, 7)->Ok_0,
                    beta_g2: spec_key_element(bytes, 8)->Ok_0,
                },
            ),
        }
    }
}

/// Reads the `index`-th part of a serialised key as an element of G1.
fn read_g1_part(bytes: &[u8], index: usize) -> (r: Result<G1Point, DecodeError>)
    requires
        bytes@.len() == PUBLIC_KEY_SIZE,
        index < 6,
    ensures
        match r {
            Ok(p) => spec_key_element(bytes@, index as int) == Ok::<Seq<u8>, DecodeError>(p@),
            Err(e) => spec_key_element(bytes@, index as int) == Err::<Seq<u8>, DecodeError>(e),
        },
{
    let part = copy_range(
        bytes,
        index * G1_UNCOMPRESSED_SIZE,
        (index + 1) * G1_UNCOMPRESSED_SIZE,
    );
    G1Point::from_uncompressed(part.as_slice())
}

/// Reads the `index`-th part of a serialised key as an element of G2.
fn read_g2_part(bytes: &[u8], index: usize) -> (r: Result<G2Point, DecodeError>)
    requires
        bytes@.len() == PUBLIC_KEY_SIZE,
        6 <= index < 9,
    ensures
        match r {
            Ok(p) => spec_key_element(bytes@, index as int) == Ok::<Seq<u8>, DecodeError>(p@),
            Err(e) => spec_key_element(bytes@, index as int) == Err::<Seq<u8>, DecodeError>(e),
        },
{
    let part = copy_range(
        bytes,
        6 * G1_UNCOMPRESSED_SIZE + (index - 6) * G2_UNCOMPRESSED_SIZE,
        6 * G1_UNCOMPRESSED_SIZE + (index - 5) * G2_UNCOMPRESSED_SIZE,
    );
    G2Point::from_uncompressed(part.as_slice())
}

impl PublicKey {
    /// The pair `(s, s^tau)`.
    pub fn tau_g1(&self) -> (r: &(G1Point, G1Point))
        ensures
            (r.0@, r.1@) == self@.tau_g1,
    {
        &self.tau_g1
    }

    /// The pair `(s, s^alpha)`.
    pub fn alpha_g1(&self) -> (r: &(G1Point, G1Point))
        ensures
            (r.0@, r.1@) == self@.alpha_g1,
    {
        &self.alpha_g1
    }

    /// The pair `(s, s^beta)`.
    pub fn beta_g1(&self) -> (r: &(G1Point, G1Point))
        ensures
            (r.0@, r.1@) == self@.beta_g1,
    {
        &self.beta_g1
    }

    /// The image of tau in G2.
    pub fn tau_g2(&self) -> (r: &G2Point)
        ensures
            r@ == self@.tau_g2,
    {
        &self.tau_g2
    }

    /// The image of alpha in G2.
    pub fn alpha_g2(&self) -> (r: &G2Point)
        ensures
            r@ == self@.alpha_g2,
    {
        &self.alpha_g2
    }

    /// The image of beta in G2.
    pub fn beta_g2(&self) -> (r: &G2Point)
        ensures
            r@ == self@.beta_g2,
    {
        &self.beta_g2
    }

    /// The serialised key, of `PUBLIC_KEY_SIZE` bytes.
    pub fn serialize(&self) -> (bytes: Vec<u8>)
        ensures
            bytes@ == self@.serialized(),
            bytes@.len() == PUBLIC_KEY_SIZE,
    {
        let mut bytes: Vec<u8> = Vec::new();
        append(&mut bytes, self.tau_g1.0.to_uncompressed().as_slice());
        append(&mut bytes, self.tau_g1.1.to_uncompressed().as_slice());
        append(&mut bytes, self.alpha_g1.0.to_uncompressed().as_slice());
        append(&mut bytes, self.alpha_g1.1.to_uncompressed().as_slice());
        append(&mut bytes, self.beta_g1.0.to_uncompressed().as_slice());
        append(&mut bytes, self.beta_g1.1.to_uncompressed().as_slice());
        append(&mut bytes, self.tau_g2.to_uncompressed().as_slice());
        append(&mut bytes, self.alpha_g2.to_uncompressed().as_slice());
        append(&mut bytes, self.beta_g2.to_uncompressed().as_slice());
        assert(bytes@ =~= self@.serialized());
        bytes
    }

    /// Reads a serialised key. Every part must be the uncompressed encoding
    /// of an element other than the identity.
    pub fn deserialize(bytes: &[u8]) -> (r: Result<Self, DecodeError>)
        ensures
            match r {
                Ok(key) => spec_deserialize(bytes@) == Ok::<PublicKeyModel, DecodeError>(key@),
                Err(e) => spec_deserialize(bytes@) == Err::<PublicKeyModel, DecodeError>(e),
            },
    {
        if bytes.len() != PUBLIC_KEY_SIZE {
            return Err(DecodeError::WrongLength);
        }
        reveal_with_fuel(spec_key_failure, 10);
        let tau_s = match read_g1_part(bytes, 0) {
            Ok(p) => p,
            Err(e) => { return Err(e); },
        };
        let tau_sx = match read_g1_part(bytes, 1) {
            Ok(p) => p,
            Err(e) => { return Err(e); },
        };
        let alpha_s = match read_g1_part(bytes, 2) {
            Ok(p) => p,
            Err(e) => { return Err(e); },
        };
        let alpha_sx = match read_g1_part(bytes, 3) {
            Ok(p) => p,
            Err(e) => { return Err(e); },
        };
        let beta_s = match read_g1_part(bytes, 4) {
            Ok(p) => p,
            Err(e) => { return Err(e); },
        };
        let beta_sx = match read_g1_part(bytes, 5) {
            Ok(p) => p,
            Err(e) => { return Err(e); },
        };
        let tau_g2 = match read_g2_part(bytes, 6) {
            Ok(p) => p,
            Err(e) => { return Err(e); },
        };
        let alpha_g2 = match read_g2_part(bytes, 7) {
            Ok(p) => p,
            Err(e) => { return Err(e); },
        };
        let beta_g2 = match read_g2_part(bytes, 8) {
            Ok(p) => p,
            Err(e) => { return Err(e); },
        };
        Ok(
            PublicKey {
                tau_g1: (tau_s, tau_sx),
                alpha_g1: (alpha_s, alpha_sx),
                beta_g1: (beta_s, beta_sx),
                tau_g2,
                alpha_g2,
                beta_g2,
            },
        )
    }

    /// Checks the three proofs of knowledge in the order tau, alpha, beta
    /// and names the first that fails.
    pub fn check_proofs(&self) -> (r: Result<(), Exponent>)
        ensures
            match r {
                Ok(()) => self@.first_unproved() is None,
                Err(exponent) => self@.first_unproved() == Some(exponent),
            },
    {
        let g2 = G2Point::generator();
        if !same_ratio((&self.tau_g1.0, &self.tau_g1.1), (&g2, &self.tau_g2)) {
            return Err(Exponent::Tau);
        }
        if !same_ratio((&self.alpha_g1.0, &self.alpha_g1.1), (&g2, &self.alpha_g2)) {
            return Err(Exponent::Alpha);
        }
        if !same_ratio((&self.beta_g1.0, &self.beta_g1.1), (&g2, &self.beta_g2)) {
            return Err(Exponent::Beta);
        }
        Ok(())
    }
}

impl Keypair {
    /// Derives a key pair from the hash of the accumulator to transform and
    /// a seed of fresh randomness. There is none where a derived scalar is
    /// zero or a randomiser's element is the identity; another seed then
    /// gives one.
    pub fn generate(input_hash: &[u8], seed: &[u8]) -> (r: Option<Keypair>)
        ensures
            match r {
                Some(pair) => spec_generate(input_hash@, seed@) == Some(pair@),
                None => spec_generate(input_hash@, seed@) is None,
            },
    {
        let tau = derived_scalar(input_hash, seed, 0);
        let alpha = derived_scalar(input_hash, seed, 1);
        let beta = derived_scalar(input_hash, seed, 2);
        let s_tau = derived_scalar(input_hash, seed, 3);
        let s_alpha = derived_scalar(input_hash, seed, 4);
        let s_beta = derived_scalar(input_hash, seed, 5);
        if tau.is_zero() || alpha.is_zero() || beta.is_zero() || s_tau.is_zero()
            || s_alpha.is_zero() || s_beta.is_zero() {
            return None;
        }
        let tau_g1 = proof_pair(&s_tau, &tau);
        let alpha_g1 = proof_pair(&s_alpha, &alpha);
        let beta_g1 = proof_pair(&s_beta, &beta);
        if tau_g1.0.is_identity() || alpha_g1.0.is_identity() || beta_g1.0.is_identity() {
            return None;
        }
        let g2 = G2Point::generator();
        let public = PublicKey {
            tau_g1,
            alpha_g1,
            beta_g1,
            tau_g2: g2.mul(&tau),
            alpha_g2: g2.mul(&alpha),
            beta_g2: g2.mul(&beta),
        };
        Some(Keypair { tau, alpha, beta, public })
    }

    /// The public half of the pair.
    pub fn public_key(&self) -> (r: &PublicKey)
        ensures
            r@ == self@.public,
    {
        &self.public
    }

    /// The secret exponent tau.
    pub(crate) fn tau(&self) -> (r: &Scalar)
        ensures
            r@ == self@.tau,
    {
        &self.tau
    }

    /// The secret exponent alpha.
    pub(crate) fn alpha(&self) -> (r: &Scalar)
        ensures
            r@ == self@.alpha,
    {
        &self.alpha
    }

    /// The secret exponent beta.
    pub(crate) fn beta(&self) -> (r: &Scalar)
        ensures
            r@ == self@.beta,
    {
        &self.beta
    }
}

} // verus!
