use powersoftau_core::curve::G1Point;
use powersoftau_core::engine::transform_batch;
use powersoftau_core::keypair::{derived_scalar, digest_words};
use powersoftau_core::layout::Section;
use powersoftau_core::parameters::UseCompression;
use powersoftau_core::scalar::Scalar;

const MODULUS: [u64; 4] =
    [0xffffffff00000001, 0x53bda402fffe5bfe, 0x3339d80809a1d805, 0x73eda753299d7d48];

fn scalar(value: u64) -> Scalar {
    Scalar::from_limbs([value, 0, 0, 0]).unwrap()
}

#[test]
fn scalars_are_below_the_modulus() {
    assert!(Scalar::from_limbs(MODULUS).is_none());
    let mut below = MODULUS;
    below[0] -= 1;
    assert_eq!(Scalar::from_limbs(below).unwrap().limbs(), below);
    let mut above = MODULUS;
    above[0] += 1;
    assert!(Scalar::from_limbs(above).is_none());
    assert!(Scalar::from_limbs([0, 0, 0, 0x73eda753299d7d49]).is_none());
    assert!(Scalar::from_limbs([u64::MAX, u64::MAX, u64::MAX, 0x73eda753299d7d47]).is_some());
    assert!(Scalar::from_limbs([u64::MAX; 4]).is_none());
    assert_eq!(Scalar::one().limbs(), [1, 0, 0, 0]);
    assert!(scalar(0).is_zero());
    assert!(!scalar(1).is_zero());
    assert!(!Scalar::from_limbs([0, 0, 1, 0]).unwrap().is_zero());
}

#[test]
fn field_products_and_powers() {
    assert_eq!(scalar(6).mul(&scalar(7)).limbs(), [42, 0, 0, 0]);
    assert_eq!(scalar(1 << 63).mul(&scalar(4)).limbs(), [0, 2, 0, 0]);
    let mut minus_one = MODULUS;
    minus_one[0] -= 1;
    let minus_one = Scalar::from_limbs(minus_one).unwrap();
    assert_eq!(minus_one.mul(&minus_one).limbs(), [1, 0, 0, 0]);
    assert_eq!(minus_one.mul(&scalar(2)).limbs(), {
        let mut expected = MODULUS;
        expected[0] -= 2;
        expected
    });
    assert_eq!(scalar(3).pow(0).limbs(), [1, 0, 0, 0]);
    assert_eq!(scalar(3).pow(5).limbs(), [243, 0, 0, 0]);
    assert_eq!(scalar(2).pow(64).limbs(), [0, 1, 0, 0]);
    assert_eq!(minus_one.pow(2).limbs(), [1, 0, 0, 0]);
    assert_eq!(minus_one.pow(3).limbs(), minus_one.limbs());
    assert_eq!(scalar(0).pow(0).limbs(), [1, 0, 0, 0]);
    assert_eq!(scalar(0).pow(3).limbs(), [0, 0, 0, 0]);
}

#[test]
fn digests_become_words_and_scalars() {
    let mut digest = [0u8; 64];
    for (i, byte) in digest.iter_mut().enumerate() {
        *byte = i as u8;
    }
    assert_eq!(
        digest_words(&digest),
        vec![
            0x00010203, 0x04050607, 0x08090a0b, 0x0c0d0e0f, 0x10111213, 0x14151617, 0x18191a1b,
            0x1c1d1e1f
        ]
    );
    assert_eq!(digest_words(&[0xff; 32]), vec![0xffffffffu32; 8]);
    let words = digest_words(&digest);
    let first = Scalar::from_seed(&words);
    assert_eq!(
        first.limbs(),
        [0xb1c67d0ce8cd8773, 0x2ef55b91f8baeb0b, 0x267e2847830adf05, 0x294af6bf88297e57]
    );
    assert_eq!(
        Scalar::from_seed(&[0xffffffff; 8]).limbs(),
        [0x8b9708c222b1d03d, 0x34bf2f2a6c1ded0a, 0x503a4cded904b924, 0x195c31075dab962b]
    );
    assert_eq!(
        Scalar::from_seed(&[1, 2, 3]).limbs(),
        [0x80d003a229a5b17e, 0x179b4f8bb6674319, 0x3e1a3ee86ccdafe7, 0x6056ab17b185e184]
    );
    assert_eq!(Scalar::from_seed(&[]).limbs(), Scalar::from_seed(&[0; 8]).limbs());
    let again = Scalar::from_seed(&words);
    assert_eq!(first.limbs(), again.limbs());
    let other = Scalar::from_seed(&digest_words(&[0xff; 32]));
    assert_ne!(first.limbs(), other.limbs());
    assert!(Scalar::from_limbs(first.limbs()).is_some());
    let derived = derived_scalar(b"hash", b"seed", 0);
    assert_eq!(derived.limbs(), derived_scalar(b"hash", b"seed", 0).limbs());
    assert_ne!(derived.limbs(), derived_scalar(b"hash", b"seed", 1).limbs());
    assert_ne!(derived.limbs(), derived_scalar(b"hash", b"seee", 0).limbs());
}

#[test]
fn a_batch_is_raised_to_consecutive_powers() {
    let g = G1Point::generator();
    let batch = vec![g.to_uncompressed(), g.to_uncompressed(), g.to_uncompressed()];
    let scaled = transform_batch(
        &batch,
        Section::AlphaG1,
        UseCompression::No,
        UseCompression::No,
        &scalar(5),
        &scalar(3),
        2,
    )
    .unwrap();
    assert_eq!(scaled.len(), 3);
    assert_eq!(scaled[0], g.mul(&scalar(5 * 9)).to_uncompressed());
    assert_eq!(scaled[1], g.mul(&scalar(5 * 27)).to_uncompressed());
    assert_eq!(scaled[2], g.mul(&scalar(5 * 81)).to_uncompressed());
    let compressed = transform_batch(
        &batch,
        Section::TauG1,
        UseCompression::No,
        UseCompression::Yes,
        &Scalar::one(),
        &scalar(2),
        0,
    )
    .unwrap();
    assert_eq!(compressed[0], g.compress());
    assert_eq!(compressed[2], g.mul(&scalar(4)).compress());
    let mut damaged = batch.clone();
    damaged[1][95] ^= 1;
    let failure = transform_batch(
        &damaged,
        Section::TauG1,
        UseCompression::No,
        UseCompression::No,
        &Scalar::one(),
        &scalar(2),
        0,
    );
    assert_eq!(failure.err().map(|(at, _)| at), Some(1));
}
