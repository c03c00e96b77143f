//! The groups of BLS12-381 and their encodings.
//!
//! An element is held as its uncompressed encoding, which is unique, so two
//! elements are equal exactly when their encodings are. The arithmetic of
//! the curve is the pairing library's; what it computes is named here and
//! the rest of the crate is stated over those names.

use vstd::prelude::*;
use bellman_ce::pairing::bls12_381::{
    Bls12, FrRepr, G1Affine, G1Compressed, G1Uncompressed, G2Affine, G2Compressed,
    G2Uncompressed,
};
use bellman_ce::pairing::{CurveAffine, CurveProjective, EncodedPoint, Engine, GroupDecodingError};
use crate::parameters::UseCompression;
use crate::scalar::Scalar;
use crate::utils::bytes_equal;

verus! {

/// Size in bytes of an uncompressed element of G1.
pub const G1_UNCOMPRESSED_SIZE: usize = 96;

/// Size in bytes of a compressed element of G1.
pub const G1_COMPRESSED_SIZE: usize = 48;

/// Size in bytes of an uncompressed element of G2.
pub const G2_UNCOMPRESSED_SIZE: usize = 192;

/// Size in bytes of a compressed element of G2.
pub const G2_COMPRESSED_SIZE: usize = 96;

/// Why a sequence of bytes is not read as an element of a group.
#[derive(Debug, Clone, Copy, PartialEq, Eq, Structural)]
pub enum DecodeError {
    /// The number of bytes is not that of the encoding.
    WrongLength,
    /// The bytes encode the identity, which no accumulator holds.
    PointAtInfinity,
    /// The coordinates do not satisfy the curve equation.
    NotOnCurve,
    /// The point is on the curve but outside the prime-order subgroup.
    NotInSubgroup,
    /// A coordinate is not an element of the base field.
    InvalidCoordinate,
    /// The compression flag does not match the encoding that was asked for.
    UnexpectedCompressionMode,
    /// A flag or a bit is set that the encoding does not allow.
    UnexpectedInformation,
}

/// The encodings whose flag for the identity is set.
pub open spec fn is_identity_encoding(encoding: Seq<u8>) -> bool {
    encoding.len() > 0 && encoding[0] & 0x40 != 0
}

/// Size in bytes of an element of G1 in the given mode.
pub open spec fn g1_size(compression: UseCompression) -> nat {
    match compression {
        UseCompression::Yes => G1_COMPRESSED_SIZE as nat,
        UseCompression::No => G1_UNCOMPRESSED_SIZE as nat,
    }
}

/// Size in bytes of an element of G2 in the given mode.
pub open spec fn g2_size(compression: UseCompression) -> nat {
    match compression {
        UseCompression::Yes => G2_COMPRESSED_SIZE as nat,
        UseCompression::No => G2_UNCOMPRESSED_SIZE as nat,
    }
}

/// The value of the pairing of an element of G1 with one of G2, as the
/// pairing library prints it.
pub uninterp spec fn pairing_value(p: Seq<u8>, q: Seq<u8>) -> Seq<char>;

/// Uncompressed encoding of the fixed generator of G1.
pub const G1_GENERATOR: [u8; 96] = [
    0x17, 0xf1, 0xd3, 0xa7, 0x31, 0x97, 0xd7, 0x94, 0x26, 0x95, 0x63, 0x8c,
    0x4f, 0xa9, 0xac, 0x0f, 0xc3, 0x68, 0x8c, 0x4f, 0x97, 0x74, 0xb9, 0x05,
    0xa1, 0x4e, 0x3a, 0x3f, 0x17, 0x1b, 0xac, 0x58, 0x6c, 0x55, 0xe8, 0x3f,
    0xf9, 0x7a, 0x1a, 0xef, 0xfb, 0x3a, 0xf0, 0x0a, 0xdb, 0x22, 0xc6, 0xbb,
    0x08, 0xb3, 0xf4, 0x81, 0xe3, 0xaa, 0xa0, 0xf1, 0xa0, 0x9e, 0x30, 0xed,
    0x74, 0x1d, 0x8a, 0xe4, 0xfc, 0xf5, 0xe0, 0x95, 0xd5, 0xd0, 0x0a, 0xf6,
    0x00, 0xdb, 0x18, 0xcb, 0x2c, 0x04, 0xb3, 0xed, 0xd0, 0x3c, 0xc7, 0x44,
    0xa2, 0x88, 0x8a, 0xe4, 0x0c, 0xaa, 0x23, 0x29, 0x46, 0xc5, 0xe7, 0xe1,
];

/// What `G1Uncompressed::into_affine` makes of 96 bytes: the uncompressed
/// encoding of the element that they encode, or the reason for which they
/// encode none.
pub uninterp spec fn g1_uncompressed_point(bytes: Seq<u8>) -> Result<Seq<u8>, DecodeError>;

/// What `G1Compressed::into_affine` makes of 48 bytes: the uncompressed
/// encoding of the element that they encode, or the reason for which they
/// encode none.
pub uninterp spec fn g1_compressed_point(bytes: Seq<u8>) -> Result<Seq<u8>, DecodeError>;

/// The compressed encoding of the element with the given uncompressed one.
pub uninterp spec fn g1_compression(point: Seq<u8>) -> Seq<u8>;

/// The uncompressed encoding of the multiple of an element by an integer.
pub uninterp spec fn g1_multiple(point: Seq<u8>, scalar: nat) -> Seq<u8>;

/// The uncompressed encodings of the elements of G1: the sequences of
/// 96 bytes that decode to themselves.
pub open spec fn is_g1_element(encoding: Seq<u8>) -> bool {
    encoding.len() == G1_UNCOMPRESSED_SIZE && g1_uncompressed_point(encoding) == Ok::<Seq<u8>, DecodeError>(
        encoding,
    )
}

/// An element of G1, held as its uncompressed encoding.
#[derive(Debug)]
pub struct G1Point {
    encoding: Vec<u8>,
}

impl View for G1Point {
    type V = Seq<u8>;

    closed spec fn view(&self) -> Seq<u8> {
        self.encoding@
    }
}

/// Calls `G1Uncompressed::into_affine`, which checks the flags, the
/// coordinates, the curve equation and the subgroup. An element comes back
/// in its uncompressed encoding, which decodes to itself.
#[verifier::external_body]
fn g1_decode_uncompressed(bytes: &[u8]) -> (r: Result<G1Point, DecodeError>)
    requires
        bytes@.len() == G1_UNCOMPRESSED_SIZE,
    ensures
        match r {
            Ok(p) => g1_uncompressed_point(bytes@) == Ok::<Seq<u8>, DecodeError>(p@)
                && is_g1_element(p@),
            Err(e) => g1_uncompressed_point(bytes@) == Err::<Seq<u8>, DecodeError>(e),
        },
{
    let mut encoded = G1Uncompressed::empty();
    encoded.as_mut().copy_from_slice(bytes);
    match encoded.into_affine() {
        Ok(p) => Ok(G1Point { encoding: p.into_uncompressed().as_ref().to_vec() }),
        Err(GroupDecodingError::NotOnCurve) => Err(DecodeError::NotOnCurve),
        Err(GroupDecodingError::NotInSubgroup) => Err(DecodeError::NotInSubgroup),
        Err(GroupDecodingError::CoordinateDecodingError(..)) => Err(DecodeError::InvalidCoordinate),
        Err(GroupDecodingError::UnexpectedCompressionMode) => Err(DecodeError::UnexpectedCompressionMode),
        Err(GroupDecodingError::UnexpectedInformation) => Err(DecodeError::UnexpectedInformation),
    }
}

/// Calls `G1Compressed::into_affine`, which checks the flags and the
/// coordinate, solves the curve equation and checks the subgroup. An element
/// comes back in its uncompressed encoding, which decodes to itself.
#[verifier::external_body]
fn g1_decode_compressed(bytes: &[u8]) -> (r: Result<G1Point, DecodeError>)
    requires
        bytes@.len() == G1_COMPRESSED_SIZE,
    ensures
        match r {
            Ok(p) => g1_compressed_point(bytes@) == Ok::<Seq<u8>, DecodeError>(p@)
                && is_g1_element(p@),
            Err(e) => g1_compressed_point(bytes@) == Err::<Seq<u8>, DecodeError>(e),
        },
{
    let mut encoded = G1Compressed::empty();
    encoded.as_mut().copy_from_slice(bytes);
    match encoded.into_affine() {
        Ok(p) => Ok(G1Point { encoding: p.into_uncompressed().as_ref().to_vec() }),
        Err(GroupDecodingError::NotOnCurve) => Err(DecodeError::NotOnCurve),
        Err(GroupDecodingError::NotInSubgroup) => Err(DecodeError::NotInSubgroup),
        Err(GroupDecodingError::CoordinateDecodingError(..)) => Err(DecodeError::InvalidCoordinate),
        Err(GroupDecodingError::UnexpectedCompressionMode) => Err(DecodeError::UnexpectedCompressionMode),
        Err(GroupDecodingError::UnexpectedInformation) => Err(DecodeError::UnexpectedInformation),
    }
}

/// Calls `CurveAffine::into_compressed` on the element: the result is its
/// compressed encoding, of 48 bytes.
#[verifier::external_body]
fn g1_encode_compressed(point: &G1Point) -> (bytes: Vec<u8>)
    requires
        is_g1_element(point@),
    ensures
        bytes@ == g1_compression(point@),
        bytes@.len() == G1_COMPRESSED_SIZE,
{
    let mut encoded = G1Uncompressed::empty();
    encoded.as_mut().copy_from_slice(&point.encoding);
    encoded.into_affine_unchecked().unwrap().into_compressed().as_ref().to_vec()
}

/// Calls `CurveAffine::mul` on the element and the scalar: the result is
/// their product, an element of the group.
#[verifier::external_body]
fn g1_scale(point: &G1Point, scalar: &Scalar) -> (r: G1Point)
    requires
        is_g1_element(point@),
    ensures
        r@ == g1_multiple(point@, scalar@),
        is_g1_element(r@),
{
    let mut encoded = G1Uncompressed::empty();
    encoded.as_mut().copy_from_slice(&point.encoding);
    let affine = encoded.into_affine_unchecked().unwrap();
    let product = affine.mul(FrRepr(scalar.limbs())).into_affine();
    G1Point { encoding: product.into_uncompressed().as_ref().to_vec() }
}

/// Calls `CurveAffine::one`: the result is the fixed generator of the
/// group, whose coordinates the curve's description gives.
#[verifier::external_body]
fn g1_one() -> (r: G1Point)
    ensures
        r@ == G1_GENERATOR@,
        is_g1_element(r@),
{
    G1Point { encoding: G1Affine::one().into_uncompressed().as_ref().to_vec() }
}

impl Clone for G1Point {
    fn clone(&self) -> (r: Self)
        ensures
            r@ == self@,
    {
        proof {
            use_type_invariant(self);
        }
        G1Point { encoding: self.encoding.clone() }
    }
}

impl G1Point {
    #[verifier::type_invariant]
    spec fn valid(&self) -> bool {
        is_g1_element(self.encoding@)
    }

    /// What reading an uncompressed encoding yields: an element other than
    /// the identity, or the reason for which there is none.
    pub open spec fn spec_from_uncompressed(bytes: Seq<u8>) -> Result<Seq<u8>, DecodeError> {
        if bytes.len() != G1_UNCOMPRESSED_SIZE {
            Err(DecodeError::WrongLength)
        } else {
            match g1_uncompressed_point(bytes) {
                Ok(point) => if is_identity_encoding(point) {
                    Err(DecodeError::PointAtInfinity)
                } else {
                    Ok(point)
                },
                Err(e) => Err(e),
            }
        }
    }

    /// What reading a compressed encoding yields: an element other than the
    /// identity, or the reason for which there is none.
    pub open spec fn spec_decompress(bytes: Seq<u8>) -> Result<Seq<u8>, DecodeError> {
        if bytes.len() != G1_COMPRESSED_SIZE {
            Err(DecodeError::WrongLength)
        } else {
            match g1_compressed_point(bytes) {
                Ok(point) => if is_identity_encoding(point) {
                    Err(DecodeError::PointAtInfinity)
                } else {
                    Ok(point)
                },
                Err(e) => Err(e),
            }
        }
    }

    /// What reading an encoding of the given mode yields.
    pub open spec fn spec_read(bytes: Seq<u8>, compression: UseCompression) -> Result<
        Seq<u8>,
        DecodeError,
    > {
        match compression {
            UseCompression::Yes => Self::spec_decompress(bytes),
            UseCompression::No => Self::spec_from_uncompressed(bytes),
        }
    }

    /// The encoding of an element in the given mode.
    pub open spec fn spec_write(point: Seq<u8>, compression: UseCompression) -> Seq<u8> {
        match compression {
            UseCompression::Yes => g1_compression(point),
            UseCompression::No => point,
        }
    }

    /// The uncompressed encoding that the element is held as.
    pub fn encoding(&self) -> (bytes: &Vec<u8>)
        ensures
            bytes@ == self@,
            is_g1_element(self@),
    {
        proof {
            use_type_invariant(self);
        }
        &self.encoding
    }

    /// Reads an element from its uncompressed encoding.
    pub fn from_uncompressed(bytes: &[u8]) -> (r: Result<Self, DecodeError>)
        ensures
            match r {
                Ok(p) => Self::spec_from_uncompressed(bytes@) == Ok::<Seq<u8>, DecodeError>(p@),
                Err(e) => Self::spec_from_uncompressed(bytes@) == Err::<Seq<u8>, DecodeError>(e),
            },
    {
        if bytes.len() != G1_UNCOMPRESSED_SIZE {
            return Err(DecodeError::WrongLength);
        }
        match g1_decode_uncompressed(bytes) {
            Ok(point) => if point.is_identity() {
                Err(DecodeError::PointAtInfinity)
            } else {
                Ok(point)
            },
            Err(e) => Err(e),
        }
    }

    /// Reads an element from its compressed encoding.
    pub fn decompress(bytes: &[u8]) -> (r: Result<Self, DecodeError>)
        ensures
            match r {
                Ok(p) => Self::spec_decompress(bytes@) == Ok::<Seq<u8>, DecodeError>(p@),
                Err(e) => Self::spec_decompress(bytes@) == Err::<Seq<u8>, DecodeError>(e),
            },
    {
        if bytes.len() != G1_COMPRESSED_SIZE {
            return Err(DecodeError::WrongLength);
        }
        match g1_decode_compressed(bytes) {
            Ok(point) => if point.is_identity() {
                Err(DecodeError::PointAtInfinity)
            } else {
                Ok(point)
            },
            Err(e) => Err(e),
        }
    }

    /// Reads an element from its encoding in the given mode.
    pub fn read(bytes: &[u8], compression: UseCompression) -> (r: Result<Self, DecodeError>)
        ensures
            match r {
                Ok(p) => Self::spec_read(bytes@, compression) == Ok::<Seq<u8>, DecodeError>(p@),
                Err(e) => Self::spec_read(bytes@, compression) == Err::<Seq<u8>, DecodeError>(e),
            },
    {
        match compression {
            UseCompression::Yes => Self::decompress(bytes),
            UseCompression::No => Self::from_uncompressed(bytes),
        }
    }

    /// The compressed encoding of the element.
    pub fn compress(&self) -> (bytes: Vec<u8>)
        ensures
            bytes@ == g1_compression(self@),
            bytes@.len() == G1_COMPRESSED_SIZE,
    {
        proof {
            use_type_invariant(self);
        }
        g1_encode_compressed(self)
    }

    /// The uncompressed encoding of the element.
    pub fn to_uncompressed(&self) -> (bytes: Vec<u8>)
        ensures
            bytes@ == self@,
            bytes@.len() == G1_UNCOMPRESSED_SIZE,
    {
        proof {
            use_type_invariant(self);
        }
        self.encoding.clone()
    }

    /// The encoding of the element in the given mode.
    pub fn write(&self, compression: UseCompression) -> (bytes: Vec<u8>)
        ensures
            bytes@ == Self::spec_write(self@, compression),
            bytes@.len() == g1_size(compression),
    {
        match compression {
            UseCompression::Yes => self.compress(),
            UseCompression::No => self.to_uncompressed(),
        }
    }

    /// The fixed generator of the group.
    pub fn generator() -> (r: Self)
        ensures
            r@ == G1_GENERATOR@,
    {
        g1_one()
    }

    /// The multiple of the element by a scalar.
    pub fn mul(&self, scalar: &Scalar) -> (r: Self)
        ensures
            r@ == g1_multiple(self@, scalar@),
    {
        proof {
            use_type_invariant(self);
        }
        g1_scale(self, scalar)
    }

    /// Whether the element is the identity of the group.
    pub fn is_identity(&self) -> (r: bool)
        ensures
            r == is_identity_encoding(self@),
    {
        proof {
            use_type_invariant(self);
        }
        self.encoding[0] & 0x40 != 0
    }

    /// Whether two elements are the same.
    pub fn equals(&self, other: &Self) -> (r: bool)
        ensures
            r == (self@ == other@),
    {
        bytes_equal(self.encoding.as_slice(), other.encoding.as_slice())
    }
}

/// Uncompressed encoding of the fixed generator of G2.
pub const G2_GENERATOR: [u8; 192] = [
    0x13, 0xe0, 0x2b, 0x60, 0x52, 0x71, 0x9f, 0x60, 0x7d, 0xac, 0xd3, 0xa0,
    0x88, 0x27, 0x4f, 0x65, 0x59, 0x6b, 0xd0, 0xd0, 0x99, 0x20, 0xb6, 0x1a,
    0xb5, 0xda, 0x61, 0xbb, 0xdc, 0x7f, 0x50, 0x49, 0x33, 0x4c, 0xf1, 0x12,
    0x13, 0x94, 0x5d, 0x57, 0xe5, 0xac, 0x7d, 0x05, 0x5d, 0x04, 0x2b, 0x7e,
    0x02, 0x4a, 0xa2, 0xb2, 0xf0, 0x8f, 0x0a, 0x91, 0x26, 0x08, 0x05, 0x27,
    0x2d, 0xc5, 0x10, 0x51, 0xc6, 0xe4, 0x7a, 0xd4, 0xfa, 0x40, 0x3b, 0x02,
    0xb4, 0x51, 0x0b, 0x64, 0x7a, 0xe3, 0xd1, 0x77, 0x0b, 0xac, 0x03, 0x26,
    0xa8, 0x05, 0xbb, 0xef, 0xd4, 0x80, 0x56, 0xc8, 0xc1, 0x21, 0xbd, 0xb8,
    0x06, 0x06, 0xc4, 0xa0, 0x2e, 0xa7, 0x34, 0xcc, 0x32, 0xac, 0xd2, 0xb0,
    0x2b, 0xc2, 0x8b, 0x99, 0xcb, 0x3e, 0x28, 0x7e, 0x85, 0xa7, 0x63, 0xaf,
    0x26, 0x74, 0x92, 0xab, 0x57, 0x2e, 0x99, 0xab, 0x3f, 0x37, 0x0d, 0x27,
    0x5c, 0xec, 0x1d, 0xa1, 0xaa, 0xa9, 0x07, 0x5f, 0xf0, 0x5f, 0x79, 0xbe,
    0x0c, 0xe5, 0xd5, 0x27, 0x72, 0x7d, 0x6e, 0x11, 0x8c, 0xc9, 0xcd, 0xc6,
    0xda, 0x2e, 0x35, 0x1a, 0xad, 0xfd, 0x9b, 0xaa, 0x8c, 0xbd, 0xd3, 0xa7,
    0x6d, 0x42, 0x9a, 0x69, 0x51, 0x60, 0xd1, 0x2c, 0x92, 0x3a, 0xc9, 0xcc,
    0x3b, 0xac, 0xa2, 0x89, 0xe1, 0x93, 0x54, 0x86, 0x08, 0xb8, 0x28, 0x01,
];

/// What `G2Uncompressed::into_affine` makes of 192 bytes: the uncompressed
/// encoding of the element that they encode, or the reason for which they
/// encode none.
pub uninterp spec fn g2_uncompressed_point(bytes: Seq<u8>) -> Result<Seq<u8>, DecodeError>;

/// What `G2Compressed::into_affine` makes of 96 bytes: the uncompressed
/// encoding of the element that they encode, or the reason for which they
/// encode none.
pub uninterp spec fn g2_compressed_point(bytes: Seq<u8>) -> Result<Seq<u8>, DecodeError>;

/// The compressed encoding of the element with the given uncompressed one.
pub uninterp spec fn g2_compression(point: Seq<u8>) -> Seq<u8>;

/// The uncompressed encoding of the multiple of an element by an integer.
pub uninterp spec fn g2_multiple(point: Seq<u8>, scalar: nat) -> Seq<u8>;

/// The uncompressed encodings of the elements of G2: the sequences of
/// 192 bytes that decode to themselves.
pub open spec fn is_g2_element(encoding: Seq<u8>) -> bool {
    encoding.len() == G2_UNCOMPRESSED_SIZE && g2_uncompressed_point(encoding) == Ok::<Seq<u8>, DecodeError>(
        encoding,
    )
}

/// An element of G2, held as its uncompressed encoding.
#[derive(Debug)]
pub struct G2Point {
    encoding: Vec<u8>,
}

impl View for G2Point {
    type V = Seq<u8>;

    closed spec fn view(&self) -> Seq<u8> {
        self.encoding@
    }
}

/// Calls `G2Uncompressed::into_affine`, which checks the flags, the
/// coordinates, the curve equation and the subgroup. An element comes back
/// in its uncompressed encoding, which decodes to itself.
#[verifier::external_body]
fn g2_decode_uncompressed(bytes: &[u8]) -> (r: Result<G2Point, DecodeError>)
    requires
        bytes@.len() == G2_UNCOMPRESSED_SIZE,
    ensures
        match r {
            Ok(p) => g2_uncompressed_point(bytes@) == Ok::<Seq<u8>, DecodeError>(p@)
                && is_g2_element(p@),
            Err(e) => g2_uncompressed_point(bytes@) == Err::<Seq<u8>, DecodeError>(e),
        },
{
    let mut encoded = G2Uncompressed::empty();
    encoded.as_mut().copy_from_slice(bytes);
    match encoded.into_affine() {
        Ok(p) => Ok(G2Point { encoding: p.into_uncompressed().as_ref().to_vec() }),
        Err(GroupDecodingError::NotOnCurve) => Err(DecodeError::NotOnCurve),
        Err(GroupDecodingError::NotInSubgroup) => Err(DecodeError::NotInSubgroup),
        Err(GroupDecodingError::CoordinateDecodingError(..)) => Err(DecodeError::InvalidCoordinate),
        Err(GroupDecodingError::UnexpectedCompressionMode) => Err(DecodeError::UnexpectedCompressionMode),
        Err(GroupDecodingError::UnexpectedInformation) => Err(DecodeError::UnexpectedInformation),
    }
}

/// Calls `G2Compressed::into_affine`, which checks the flags and the
/// coordinate, solves the curve equation and checks the subgroup. An element
/// comes back in its uncompressed encoding, which decodes to itself.
#[verifier::external_body]
fn g2_decode_compressed(bytes: &[u8]) -> (r: Result<G2Point, DecodeError>)
    requires
        bytes@.len() == G2_COMPRESSED_SIZE,
    ensures
        match r {
            Ok(p) => g2_compressed_point(bytes@) == Ok::<Seq<u8>, DecodeError>(p@)
                && is_g2_element(p@),
            Err(e) => g2_compressed_point(bytes@) == Err::<Seq<u8>, DecodeError>(e),
        },
{
    let mut encoded = G2Compressed::empty();
    encoded.as_mut().copy_from_slice(bytes);
    match encoded.into_affine() {
        Ok(p) => Ok(G2Point { encoding: p.into_uncompressed().as_ref().to_vec() }),
        Err(GroupDecodingError::NotOnCurve) => Err(DecodeError::NotOnCurve),
        Err(GroupDecodingError::NotInSubgroup) => Err(DecodeError::NotInSubgroup),
        Err(GroupDecodingError::CoordinateDecodingError(..)) => Err(DecodeError::InvalidCoordinate),
        Err(GroupDecodingError::UnexpectedCompressionMode) => Err(DecodeError::UnexpectedCompressionMode),
        Err(GroupDecodingError::UnexpectedInformation) => Err(DecodeError::UnexpectedInformation),
    }
}

/// Calls `CurveAffine::into_compressed` on the element: the result is its
/// compressed encoding, of 96 bytes.
#[verifier::external_body]
fn g2_encode_compressed(point: &G2Point) -> (bytes: Vec<u8>)
    requires
        is_g2_element(point@),
    ensures
        bytes@ == g2_compression(point@),
        bytes@.len() == G2_COMPRESSED_SIZE,
{
    let mut encoded = G2Uncompressed::empty();
    encoded.as_mut().copy_from_slice(&point.encoding);
    encoded.into_affine_unchecked().unwrap().into_compressed().as_ref().to_vec()
}

/// Calls `CurveAffine::mul` on the element and the scalar: the result is
/// their product, an element of the group.
#[verifier::external_body]
fn g2_scale(point: &G2Point, scalar: &Scalar) -> (r: G2Point)
    requires
        is_g2_element(point@),
    ensures
        r@ == g2_multiple(point@, scalar@),
        is_g2_element(r@),
{
    let mut encoded = G2Uncompressed::empty();
    encoded.as_mut().copy_from_slice(&point.encoding);
    let affine = encoded.into_affine_unchecked().unwrap();
    let product = affine.mul(FrRepr(scalar.limbs())).into_affine();
    G2Point { encoding: product.into_uncompressed().as_ref().to_vec() }
}

/// Calls `CurveAffine::one`: the result is the fixed generator of the
/// group, whose coordinates the curve's description gives.
#[verifier::external_body]
fn g2_one() -> (r: G2Point)
    ensures
        r@ == G2_GENERATOR@,
        is_g2_element(r@),
{
    G2Point { encoding: G2Affine::one().into_uncompressed().as_ref().to_vec() }
}

impl Clone for G2Point {
    fn clone(&self) -> (r: Self)
        ensures
            r@ == self@,
    {
        proof {
            use_type_invariant(self);
        }
        G2Point { encoding: self.encoding.clone() }
    }
}

impl G2Point {
    #[verifier::type_invariant]
    spec fn valid(&self) -> bool {
        is_g2_element(self.encoding@)
    }

    /// What reading an uncompressed encoding yields: an element other than
    /// the identity, or the reason for which there is none.
    pub open spec fn spec_from_uncompressed(bytes: Seq<u8>) -> Result<Seq<u8>, DecodeError> {
        if bytes.len() != G2_UNCOMPRESSED_SIZE {
            Err(DecodeError::WrongLength)
        } else {
            match g2_uncompressed_point(bytes) {
                Ok(point) => if is_identity_encoding(point) {
                    Err(DecodeError::PointAtInfinity)
                } else {
                    Ok(point)
                },
                Err(e) => Err(e),
            }
        }
    }

    /// What reading a compressed encoding yields: an element other than the
    /// identity, or the reason for which there is none.
    pub open spec fn spec_decompress(bytes: Seq<u8>) -> Result<Seq<u8>, DecodeError> {
        if bytes.len() != G2_COMPRESSED_SIZE {
            Err(DecodeError::WrongLength)
        } else {
            match g2_compressed_point(bytes) {
                Ok(point) => if is_identity_encoding(point) {
                    Err(DecodeError::PointAtInfinity)
                } else {
                    Ok(point)
                },
                Err(e) => Err(e),
            }
        }
    }

    /// What reading an encoding of the given mode yields.
    pub open spec fn spec_read(bytes: Seq<u8>, compression: UseCompression) -> Result<
        Seq<u8>,
        DecodeError,
    > {
        match compression {
            UseCompression::Yes => Self::spec_decompress(bytes),
            UseCompression::No => Self::spec_from_uncompressed(bytes),
        }
    }

    /// The encoding of an element in the given mode.
    pub open spec fn spec_write(point: Seq<u8>, compression: UseCompression) -> Seq<u8> {
        match compression {
            UseCompression::Yes => g2_compression(point),
            UseCompression::No => point,
        }
    }

    /// The uncompressed encoding that the element is held as.
    pub fn encoding(&self) -> (bytes: &Vec<u8>)
        ensures
            bytes@ == self@,
            is_g2_element(self@),
    {
        proof {
            use_type_invariant(self);
        }
        &self.encoding
    }

    /// Reads an element from its uncompressed encoding.
    pub fn from_uncompressed(bytes: &[u8]) -> (r: Result<Self, DecodeError>)
        ensures
            match r {
                Ok(p) => Self::spec_from_uncompressed(bytes@) == Ok::<Seq<u8>, DecodeError>(p@),
                Err(e) => Self::spec_from_uncompressed(bytes@) == Err::<Seq<u8>, DecodeError>(e),
            },
    {
        if bytes.len() != G2_UNCOMPRESSED_SIZE {
            return Err(DecodeError::WrongLength);
        }
        match g2_decode_uncompressed(bytes) {
            Ok(point) => if point.is_identity() {
                Err(DecodeError::PointAtInfinity)
            } else {
                Ok(point)
            },
            Err(e) => Err(e),
        }
    }

    /// Reads an element from its compressed encoding.
    pub fn decompress(bytes: &[u8]) -> (r: Result<Self, DecodeError>)
        ensures
            match r {
                Ok(p) => Self::spec_decompress(bytes@) == Ok::<Seq<u8>, DecodeError>(p@),
                Err(e) => Self::spec_decompress(bytes@) == Err::<Seq<u8>, DecodeError>(e),
            },
    {
        if bytes.len() != G2_COMPRESSED_SIZE {
            return Err(DecodeError::WrongLength);
        }
        match g2_decode_compressed(bytes) {
            Ok(point) => if point.is_identity() {
                Err(DecodeError::PointAtInfinity)
            } else {
                Ok(point)
            },
            Err(e) => Err(e),
        }
    }

    /// Reads an element from its encoding in the given mode.
    pub fn read(bytes: &[u8], compression: UseCompression) -> (r: Result<Self, DecodeError>)
        ensures
            match r {
                Ok(p) => Self::spec_read(bytes@, compression) == Ok::<Seq<u8>, DecodeError>(p@),
                Err(e) => Self::spec_read(bytes@, compression) == Err::<Seq<u8>, DecodeError>(e),
            },
    {
        match compression {
            UseCompression::Yes => Self::decompress(bytes),
            UseCompression::No => Self::from_uncompressed(bytes),
        }
    }

    /// The compressed encoding of the element.
    pub fn compress(&self) -> (bytes: Vec<u8>)
        ensures
            bytes@ == g2_compression(self@),
            bytes@.len() == G2_COMPRESSED_SIZE,
    {
        proof {
            use_type_invariant(self);
        }
        g2_encode_compressed(self)
    }

    /// The uncompressed encoding of the element.
    pub fn to_uncompressed(&self) -> (bytes: Vec<u8>)
        ensures
            bytes@ == self@,
            bytes@.len() == G2_UNCOMPRESSED_SIZE,
    {
        proof {
            use_type_invariant(self);
        }
        self.encoding.clone()
    }

    /// The encoding of the element in the given mode.
    pub fn write(&self, compression: UseCompression) -> (bytes: Vec<u8>)
        ensures
            bytes@ == Self::spec_write(self@, compression),
            bytes@.len() == g2_size(compression),
    {
        match compression {
            UseCompression::Yes => self.compress(),
            UseCompression::No => self.to_uncompressed(),
        }
    }

    /// The fixed generator of the group.
    pub fn generator() -> (r: Self)
        ensures
            r@ == G2_GENERATOR@,
    {
        g2_one()
    }

    /// The multiple of the element by a scalar.
    pub fn mul(&self, scalar: &Scalar) -> (r: Self)
        ensures
            r@ == g2_multiple(self@, scalar@),
    {
        proof {
            use_type_invariant(self);
        }
        g2_scale(self, scalar)
    }

    /// Whether the element is the identity of the group.
    pub fn is_identity(&self) -> (r: bool)
        ensures
            r == is_identity_encoding(self@),
    {
        proof {
            use_type_invariant(self);
        }
        self.encoding[0] & 0x40 != 0
    }

    /// Whether two elements are the same.
    pub fn equals(&self, other: &Self) -> (r: bool)
        ensures
            r == (self@ == other@),
    {
        bytes_equal(self.encoding.as_slice(), other.encoding.as_slice())
    }
}

/// Calls `Engine::pairing` on the two elements and prints the value with
/// its `Display`: the text is a function of the two elements alone.
#[verifier::external_body]
fn pairing_text(p: &G1Point, q: &G2Point) -> (text: String)
    requires
        is_g1_element(p@),
        is_g2_element(q@),
    ensures
        text@ == pairing_value(p@, q@),
{
    let mut left = G1Uncompressed::empty();
    left.as_mut().copy_from_slice(&p.encoding);
    let mut right = G2Uncompressed::empty();
    right.as_mut().copy_from_slice(&q.encoding);
    let left = left.into_affine_unchecked().unwrap();
    let right = right.into_affine_unchecked().unwrap();
    format!("{}", Bls12::pairing(left, right))
}

/// Whether `e(a.0, b.1) = e(a.1, b.0)`: the second element of each pair is
/// then the same multiple of the first.
pub open spec fn spec_same_ratio(a: (Seq<u8>, Seq<u8>), b: (Seq<u8>, Seq<u8>)) -> bool {
    pairing_value(a.0, b.1) == pairing_value(a.1, b.0)
}

/// The value of the pairing of two elements, in the pairing library's
/// textual form.
pub fn pairing(p: &G1Point, q: &G2Point) -> (text: String)
    ensures
        text@ == pairing_value(p@, q@),
{
    let _ = p.encoding();
    let _ = q.encoding();
    pairing_text(p, q)
}

/// Whether a pair in G1 and a pair in G2 have the same ratio.
pub fn same_ratio(a: (&G1Point, &G1Point), b: (&G2Point, &G2Point)) -> (r: bool)
    ensures
        r == spec_same_ratio((a.0@, a.1@), (b.0@, b.1@)),
{
    let left = pairing(a.0, b.1);
    let right = pairing(a.1, b.0);
    left == right
}

} // verus!
