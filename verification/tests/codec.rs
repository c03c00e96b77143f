use powersoftau_core::curve::{
    same_ratio, DecodeError, G1Point, G2Point, G1_GENERATOR, G2_GENERATOR,
};
use powersoftau_core::parameters::UseCompression;
use powersoftau_core::scalar::Scalar;

fn hex(text: &str) -> Vec<u8> {
    let digits: Vec<u8> = text.bytes().map(|c| (c as char).to_digit(16).unwrap() as u8).collect();
    digits.chunks(2).map(|pair| pair[0] * 16 + pair[1]).collect()
}

fn scalar(value: u64) -> Scalar {
    Scalar::from_limbs([value, 0, 0, 0]).unwrap()
}

#[test]
fn generators_have_documented_encodings() {
    assert_eq!(G1Point::generator().to_uncompressed(), G1_GENERATOR.to_vec());
    assert_eq!(G2Point::generator().to_uncompressed(), G2_GENERATOR.to_vec());
    assert_eq!(G1Point::generator().compress().len(), 48);
    assert_eq!(G2Point::generator().compress().len(), 96);
    assert_eq!(
        G1Point::generator().compress(),
        hex("97f1d3a73197d7942695638c4fa9ac0fc3688c4f9774b905a14e3a3f171bac586c55e83ff97a1aeffb3af00adb22c6bb")
    );
    assert_eq!(
        G2Point::generator().compress(),
        hex("93e02b6052719f607dacd3a088274f65596bd0d09920b61ab5da61bbdc7f5049334cf11213945d57e5ac7d055d042b7e024aa2b2f08f0a91260805272dc51051c6e47ad4fa403b02b4510b647ae3d1770bac0326a805bbefd48056c8c121bdb8")
    );
}

#[test]
fn multiples_have_known_encodings() {
    assert_eq!(
        G1Point::generator().mul(&scalar(2)).to_uncompressed(),
        hex("0572cbea904d67468808c8eb50a9450c9721db309128012543902d0ac358a62ae28f75bb8f1c7c42c39a8c5529bf0f4e166a9d8cabc673a322fda673779d8e3822ba3ecb8670e461f73bb9021d5fd76a4c56d9d4cd16bd1bba86881979749d28")
    );
    assert_eq!(
        G1Point::generator().mul(&scalar(3)).compress(),
        hex("89ece308f9d1f0131765212deca99697b112d61f9be9a5f1f3780a51335b3ff981747a0b2ca2179b96d2c0c9024e5224")
    );
    assert_eq!(
        G2Point::generator().mul(&scalar(5)).compress(),
        hex("80fb837804dba8213329db46608b6c121d973363c1234a86dd183baff112709cf97096c5e9a1a770ee9d7dc641a894d60411a5de6730ffece671a9f21d65028cc0f1102378de124562cb1ff49db6f004fcd14d683024b0548eff3d1468df2688")
    );
    let three = G1Point::decompress(&hex("89ece308f9d1f0131765212deca99697b112d61f9be9a5f1f3780a51335b3ff981747a0b2ca2179b96d2c0c9024e5224")).unwrap();
    assert!(three.equals(&G1Point::generator().mul(&scalar(3))));
}

#[test]
fn g1_compression_round_trip() {
    let mut k: u64 = 1;
    while k < 40 {
        let p = G1Point::generator().mul(&scalar(k));
        let back = G1Point::decompress(&p.compress()).unwrap();
        assert!(back.equals(&p));
        assert_eq!(back.to_uncompressed(), p.to_uncompressed());
        let again = G1Point::from_uncompressed(&p.to_uncompressed()).unwrap();
        assert!(again.equals(&p));
        k += 1;
    }
}

#[test]
fn g2_compression_round_trip() {
    let mut k: u64 = 1;
    while k < 20 {
        let p = G2Point::generator().mul(&scalar(k));
        let back = G2Point::decompress(&p.compress()).unwrap();
        assert!(back.equals(&p));
        let again = G2Point::read(&p.write(UseCompression::No), UseCompression::No).unwrap();
        assert!(again.equals(&p));
        k += 1;
    }
}

#[test]
fn decoding_rejects_malformed_input() {
    assert_eq!(G1Point::decompress(&[0u8; 47]).err(), Some(DecodeError::WrongLength));
    assert_eq!(G1Point::from_uncompressed(&[0u8; 48]).err(), Some(DecodeError::WrongLength));
    assert_eq!(
        G1Point::decompress(&[0u8; 48]).err(),
        Some(DecodeError::UnexpectedCompressionMode)
    );
    let mut infinity = [0u8; 48];
    infinity[0] = 0xc0;
    assert_eq!(G1Point::decompress(&infinity).err(), Some(DecodeError::PointAtInfinity));
    let mut flagged = [0u8; 96];
    flagged[0] = 0x80;
    assert_eq!(
        G1Point::from_uncompressed(&flagged).err(),
        Some(DecodeError::UnexpectedCompressionMode)
    );
    let mut off_curve = G1_GENERATOR;
    off_curve[95] ^= 1;
    assert_eq!(G1Point::from_uncompressed(&off_curve).err(), Some(DecodeError::NotOnCurve));
    let mut sign_flag = G1_GENERATOR;
    sign_flag[0] |= 0x20;
    assert_eq!(
        G1Point::from_uncompressed(&sign_flag).err(),
        Some(DecodeError::UnexpectedInformation)
    );
    let mut padded_infinity = [0u8; 48];
    padded_infinity[0] = 0xc0;
    padded_infinity[47] = 1;
    assert_eq!(
        G1Point::decompress(&padded_infinity).err(),
        Some(DecodeError::UnexpectedInformation)
    );
    let outside = hex("800000000000000000000000000000000000000000000000000000000000000000000000000000000000000000000004");
    assert_eq!(G1Point::decompress(&outside).err(), Some(DecodeError::NotInSubgroup));
    let outside = hex("0000000000000000000000000000000000000000000000000000000000000000000000000000000000000000000000040a989badd40d6212b33cffc3f3763e9bc760f988c9926b26da9dd85e928483446346b8ed00e1de5d5ea93e354abe706c");
    assert_eq!(G1Point::from_uncompressed(&outside).err(), Some(DecodeError::NotInSubgroup));
    assert_eq!(G2Point::decompress(&[0u8; 95]).err(), Some(DecodeError::WrongLength));
    assert_eq!(
        G2Point::from_uncompressed(&[0u8; 192]).err(),
        Some(DecodeError::NotOnCurve)
    );
    let mut too_large = [0xffu8; 96];
    too_large[0] = 0x1f;
    assert_eq!(
        G1Point::from_uncompressed(&too_large).err(),
        Some(DecodeError::InvalidCoordinate)
    );
}

#[test]
fn multiples_follow_the_group_law() {
    let g = G1Point::generator();
    let six = g.mul(&scalar(2)).mul(&scalar(3));
    assert!(six.equals(&g.mul(&scalar(6))));
    assert!(!six.equals(&g.mul(&scalar(5))));
    assert!(g.mul(&scalar(1)).equals(&g));
    assert!(g.mul(&Scalar::from_limbs([0, 0, 0, 0]).unwrap()).is_identity());
    assert!(!g.is_identity());
}

#[test]
fn same_ratio_detects_equal_multiples() {
    let g1 = G1Point::generator();
    let g2 = G2Point::generator();
    let s = scalar(7);
    assert!(same_ratio((&g1, &g1.mul(&s)), (&g2, &g2.mul(&s))));
    assert!(!same_ratio((&g1, &g1.mul(&s)), (&g2, &g2.mul(&scalar(8)))));
}
