use powersoftau_core::config::{
    CeremonyConfig, CeremonyParameters, CompressionSetting, ConfigError, CurveParameters,
};
use powersoftau_core::curve::{DecodeError, G1Point, G2Point, G1_GENERATOR, G2_GENERATOR};
use powersoftau_core::engine::{contribute, transform};
use powersoftau_core::error::CeremonyError;
use powersoftau_core::keypair::{Exponent, Keypair, PublicKey, PUBLIC_KEY_SIZE};
use powersoftau_core::layout::{response_size, store_size, Section};
use powersoftau_core::parameters::UseCompression;
use powersoftau_core::runtime_parameters::RuntimeCeremonyParameters;
use powersoftau_core::store::{AccumulatorStore, IoError};
use powersoftau_core::utils::{blank_hash, hash_of};
use powersoftau_core::verification::{verify, Verdict};

fn hex(text: &str) -> Vec<u8> {
    let digits: Vec<u8> = text.bytes().map(|c| (c as char).to_digit(16).unwrap() as u8).collect();
    digits.chunks(2).map(|pair| pair[0] * 16 + pair[1]).collect()
}

fn parameters(power: usize) -> RuntimeCeremonyParameters {
    let config = CeremonyConfig {
        ceremony: CeremonyParameters {
            required_power: power,
            compression: CompressionSetting::No,
            check_correctness: true,
        },
        curve: CurveParameters {
            name: "bls12_381".to_string(),
            g1_uncompressed_byte_size: 96,
            g2_uncompressed_byte_size: 192,
            g1_compressed_byte_size: 48,
            g2_compressed_byte_size: 96,
        },
    };
    RuntimeCeremonyParameters::try_new(config).unwrap()
}

fn initial(power: usize, mode: UseCompression) -> AccumulatorStore {
    AccumulatorStore::create_initial(parameters(power), mode).unwrap()
}

fn keypair_for(store: &AccumulatorStore, seed: &[u8]) -> Keypair {
    Keypair::generate(&store.finalize(), seed).unwrap()
}

#[test]
fn initial_accumulator_for_power_two() {
    let store = initial(2, UseCompression::No);
    assert_eq!(store.as_bytes().len(), 64 + 7 * 96 + 4 * 192 + 4 * 96 + 4 * 96 + 192);
    assert_eq!(store.as_bytes().len(), parameters(2).accumulator_byte_size());
    assert_eq!(store.input_hash(), blank_hash());
    let tau_g1 = store.read_batch(Section::TauG1, 0, 7).unwrap();
    assert_eq!(tau_g1.len(), 7);
    for element in tau_g1.iter() {
        assert_eq!(element, &G1_GENERATOR.to_vec());
    }
    let tau_g2 = store.read_batch(Section::TauG2, 0, 4).unwrap();
    assert_eq!(tau_g2.len(), 4);
    for element in tau_g2.iter() {
        assert_eq!(element, &G2_GENERATOR.to_vec());
    }
    for element in store.read_batch(Section::AlphaG1, 0, 4).unwrap().iter() {
        assert_eq!(element, &G1_GENERATOR.to_vec());
    }
    for element in store.read_batch(Section::BetaG1, 0, 4).unwrap().iter() {
        assert_eq!(element, &G1_GENERATOR.to_vec());
    }
    assert_eq!(store.read_batch(Section::BetaG2, 0, 1).unwrap()[0], G2_GENERATOR.to_vec());
}

#[test]
fn initial_accumulator_has_the_layout_size_and_a_fixed_digest() {
    let expected = [
        (1usize, UseCompression::No, 1312usize, "e1f14c9ac6f3f89b84f8feb18d455e73f2a47286c10c54d1b882f77801ea23c6b033298a63f6273a761ec7b8d1daeab85556f772b38f6d675598781bc5dcd4a3"),
        (1, UseCompression::Yes, 688, "7f51a667c292e7937ff9dbed0a15f49e2ef1035d734fa38a0c456aff250ebd7ee70f496e0a3577af7890806c402c61adf44c1002d709a869a3e2767f2e8edec7"),
        (2, UseCompression::No, 2464, "086ba4707f1b6507a6d6f7e4dbec81a496b527884018074ceaed7f049b796dfcce80a00f084ce1256187b7b86b09121fb51bab34c947e66642e2a6e22532c2bd"),
        (2, UseCompression::Yes, 1264, "4127ba2eeec96ecca92f42a60a593cef1573c2978e588c8fd6191044544f8af9b48dd54690ad6d1aaa261e474cf9982d2fa732bcaec1714e8146650274a91b33"),
    ];
    for (power, mode, size, digest) in expected.iter() {
        let first = initial(*power, *mode);
        let second = initial(*power, *mode);
        assert_eq!(first.as_bytes().len(), *size);
        assert_eq!(first.as_bytes().len(), store_size(&parameters(*power), *mode));
        assert_eq!(first.as_bytes(), second.as_bytes());
        assert_eq!(first.finalize(), hex(digest));
        assert_eq!(second.finalize(), hex(digest));
    }
    let params = parameters(3);
    assert_eq!(
        initial(3, UseCompression::Yes).as_bytes().len(),
        params.contribution_byte_size() - params.public_key_size()
    );
}

#[test]
fn create_initial_refuses_foreign_point_sizes() {
    let mut config = CeremonyConfig::default_bls12_381();
    config.curve.g1_compressed_byte_size = 32;
    let params = RuntimeCeremonyParameters::try_new(config).unwrap();
    assert_eq!(
        AccumulatorStore::create_initial(params, UseCompression::No).err(),
        Some(ConfigError::CurveMismatch)
    );
}

#[test]
fn fresh_contribution_is_accepted() {
    for (in_mode, out_mode) in [
        (UseCompression::No, UseCompression::Yes),
        (UseCompression::No, UseCompression::No),
        (UseCompression::Yes, UseCompression::Yes),
        (UseCompression::Yes, UseCompression::No),
    ] {
        let challenge = initial(2, in_mode);
        let key = keypair_for(&challenge, b"first participant");
        let response = contribute(&challenge, &key, out_mode, 3).unwrap();
        assert_eq!(Some(response.len()), response_size(&parameters(2), out_mode));
        assert_eq!(&response[..64], &challenge.finalize()[..]);
        assert_eq!(
            verify(&parameters(2), challenge.as_bytes(), in_mode, &response, out_mode),
            Verdict::Accepted
        );
    }
}

#[test]
fn second_contribution_builds_on_the_first() {
    let params = parameters(2);
    let first = initial(2, UseCompression::No);
    let key_one = keypair_for(&first, b"one");
    let second = transform(&first, &key_one, UseCompression::No, 4).unwrap();
    let key_two = keypair_for(&second, b"two");
    let response = contribute(&second, &key_two, UseCompression::Yes, 2).unwrap();
    assert_eq!(
        verify(&params, second.as_bytes(), UseCompression::No, &response, UseCompression::Yes),
        Verdict::Accepted
    );
    assert_eq!(
        verify(&params, first.as_bytes(), UseCompression::No, &response, UseCompression::Yes),
        Verdict::Rejected(CeremonyError::Consistency)
    );
}

#[test]
fn transformation_raises_each_element_to_its_power() {
    let challenge = initial(2, UseCompression::No);
    let key = keypair_for(&challenge, b"powers");
    let response = transform(&challenge, &key, UseCompression::No, 2).unwrap();
    let tau_g1 = response.read_batch(Section::TauG1, 0, 7).unwrap();
    let tau_g2 = response.read_batch(Section::TauG2, 0, 4).unwrap();
    assert_eq!(tau_g1[0], G1_GENERATOR.to_vec());
    assert_eq!(tau_g2[0], G2_GENERATOR.to_vec());
    assert_eq!(tau_g2[1], key.public_key().tau_g2().to_uncompressed());
    let beta_g2 = response.read_batch(Section::BetaG2, 0, 1).unwrap();
    assert_eq!(beta_g2[0], key.public_key().beta_g2().to_uncompressed());
    let g2 = G2Point::generator();
    let mut index = 0;
    while index + 1 < 7 {
        let lower = G1Point::from_uncompressed(&tau_g1[index]).unwrap();
        let upper = G1Point::from_uncompressed(&tau_g1[index + 1]).unwrap();
        assert!(powersoftau_core::curve::same_ratio(
            (&lower, &upper),
            (&g2, key.public_key().tau_g2())
        ));
        index += 1;
    }
    let alpha = response.read_batch(Section::AlphaG1, 0, 4).unwrap();
    let first_alpha = G1Point::from_uncompressed(&alpha[0]).unwrap();
    assert!(powersoftau_core::curve::same_ratio(
        (&G1Point::generator(), &first_alpha),
        (&g2, key.public_key().alpha_g2())
    ));
}

#[test]
fn batch_size_does_not_change_the_output() {
    for out_mode in [UseCompression::No, UseCompression::Yes] {
        let challenge = initial(2, UseCompression::No);
        let key = keypair_for(&challenge, b"batches");
        let whole = contribute(&challenge, &key, out_mode, 7).unwrap();
        for batch_size in [1usize, 2, 3, 4, 5, 1 << 21] {
            let batched = contribute(&challenge, &key, out_mode, batch_size).unwrap();
            assert_eq!(batched, whole);
        }
    }
}

#[test]
fn batch_size_zero_is_refused() {
    let challenge = initial(1, UseCompression::No);
    let key = keypair_for(&challenge, b"zero");
    assert_eq!(
        contribute(&challenge, &key, UseCompression::No, 0).err(),
        Some(CeremonyError::Config(ConfigError::InvalidBatchSize))
    );
}

fn flipped_bytes_are_rejected_in(out_mode: UseCompression) {
    let params = parameters(1);
    let challenge = initial(1, UseCompression::No);
    let key = keypair_for(&challenge, b"flip");
    let response = contribute(&challenge, &key, out_mode, 4).unwrap();
    let mut position = 64;
    while position < response.len() {
        let mut damaged = response.clone();
        damaged[position] ^= 0x01;
        let verdict =
            verify(&params, challenge.as_bytes(), UseCompression::No, &damaged, out_mode);
        match verdict {
            Verdict::Rejected(CeremonyError::Decode(_)) => {}
            Verdict::Rejected(CeremonyError::Consistency) => {}
            other => panic!("position {}: {:?}", position, other),
        }
        position += 131;
    }
}

#[test]
fn flipped_bytes_are_rejected_uncompressed() {
    flipped_bytes_are_rejected_in(UseCompression::No);
}

#[test]
fn flipped_bytes_are_rejected_compressed() {
    flipped_bytes_are_rejected_in(UseCompression::Yes);
}

#[test]
fn flipped_hash_is_a_hash_mismatch() {
    let params = parameters(1);
    let challenge = initial(1, UseCompression::No);
    let key = keypair_for(&challenge, b"hash");
    let mut response = contribute(&challenge, &key, UseCompression::Yes, 8).unwrap();
    response[10] ^= 0x80;
    assert_eq!(
        verify(&params, challenge.as_bytes(), UseCompression::No, &response, UseCompression::Yes),
        Verdict::Rejected(CeremonyError::HashMismatch)
    );
}

#[test]
fn replayed_contribution_is_a_hash_mismatch() {
    let params = parameters(1);
    let intended = initial(1, UseCompression::No);
    let key = keypair_for(&intended, b"replay");
    let response = contribute(&intended, &key, UseCompression::Yes, 8).unwrap();
    let mut bytes = intended.as_bytes().clone();
    bytes[0] ^= 0xff;
    let other =
        AccumulatorStore::open_for_read(parameters(1), UseCompression::No, bytes).unwrap();
    assert_ne!(other.finalize(), intended.finalize());
    assert_eq!(
        verify(&params, other.as_bytes(), UseCompression::No, &response, UseCompression::Yes),
        Verdict::Rejected(CeremonyError::HashMismatch)
    );
    let replayed = contribute(&other, &key, UseCompression::Yes, 8).unwrap();
    let mut forged = replayed.clone();
    forged[..64].copy_from_slice(&response[..64]);
    assert_eq!(
        verify(&params, other.as_bytes(), UseCompression::No, &forged, UseCompression::Yes),
        Verdict::Rejected(CeremonyError::HashMismatch)
    );
    assert_eq!(
        verify(&params, other.as_bytes(), UseCompression::No, &replayed, UseCompression::Yes),
        Verdict::Accepted
    );
}

#[test]
fn wrong_sizes_are_rejected() {
    let params = parameters(1);
    let challenge = initial(1, UseCompression::No);
    let key = keypair_for(&challenge, b"size");
    let response = contribute(&challenge, &key, UseCompression::Yes, 8).unwrap();
    let short = &response[..response.len() - 1];
    assert_eq!(
        verify(&params, challenge.as_bytes(), UseCompression::No, short, UseCompression::Yes),
        Verdict::Rejected(CeremonyError::Io(IoError::SizeMismatch))
    );
    assert_eq!(
        verify(&params, challenge.as_bytes(), UseCompression::No, &response, UseCompression::No),
        Verdict::Rejected(CeremonyError::Io(IoError::SizeMismatch))
    );
    assert_eq!(
        verify(&params, &challenge.as_bytes()[1..], UseCompression::No, &response, UseCompression::Yes),
        Verdict::Rejected(CeremonyError::Io(IoError::SizeMismatch))
    );
    assert_eq!(
        verify(&params, &[], UseCompression::No, &[], UseCompression::Yes),
        Verdict::Rejected(CeremonyError::Io(IoError::SizeMismatch))
    );
}

#[test]
fn forged_public_key_fails_the_proof_of_knowledge() {
    let params = parameters(1);
    let challenge = initial(1, UseCompression::No);
    let key = keypair_for(&challenge, b"honest");
    let other = keypair_for(&challenge, b"someone else");
    let response = contribute(&challenge, &key, UseCompression::Yes, 8).unwrap();
    let size = store_size(&params, UseCompression::Yes);
    let honest = key.public_key().serialize();
    let foreign = other.public_key().serialize();
    assert_eq!(&response[size..], &honest[..]);
    let cases = [
        (6 * 96, Exponent::Tau),
        (6 * 96 + 192, Exponent::Alpha),
        (6 * 96 + 2 * 192, Exponent::Beta),
    ];
    for (offset, exponent) in cases.iter() {
        let mut forged = response.clone();
        forged[size + offset..size + offset + 192]
            .copy_from_slice(&foreign[*offset..*offset + 192]);
        assert_eq!(
            verify(&params, challenge.as_bytes(), UseCompression::No, &forged, UseCompression::Yes),
            Verdict::Rejected(CeremonyError::ProofOfKnowledge(*exponent))
        );
    }
    let mut unrelated = response.clone();
    unrelated[size..].copy_from_slice(&foreign);
    assert_eq!(
        verify(&params, challenge.as_bytes(), UseCompression::No, &unrelated, UseCompression::Yes),
        Verdict::Rejected(CeremonyError::Consistency)
    );
}

#[test]
fn undecodable_challenge_aborts_the_transformation() {
    let intended = initial(1, UseCompression::No);
    let key = keypair_for(&intended, b"abort");
    let mut bytes = intended.as_bytes().clone();
    let offset = 64 + 3 * 96 + 2 * 192 + 96;
    bytes[offset + 95] ^= 1;
    let damaged =
        AccumulatorStore::open_for_read(parameters(1), UseCompression::No, bytes.clone()).unwrap();
    assert_eq!(
        transform(&damaged, &key, UseCompression::Yes, 2).err(),
        Some(CeremonyError::Decode(DecodeError::NotOnCurve))
    );
    assert_eq!(damaged.as_bytes(), &bytes);
    let mut twice = bytes.clone();
    twice[64] |= 0x80;
    let damaged = AccumulatorStore::open_for_read(parameters(1), UseCompression::No, twice).unwrap();
    assert_eq!(
        transform(&damaged, &key, UseCompression::Yes, 2).err(),
        Some(CeremonyError::Decode(DecodeError::UnexpectedCompressionMode))
    );
}

#[test]
fn public_key_round_trip() {
    let challenge = initial(1, UseCompression::No);
    let key = keypair_for(&challenge, b"serialise");
    let bytes = key.public_key().serialize();
    assert_eq!(bytes.len(), PUBLIC_KEY_SIZE);
    assert_eq!(bytes.len(), parameters(1).public_key_size());
    let back = PublicKey::deserialize(&bytes).unwrap();
    assert_eq!(back.serialize(), bytes);
    assert_eq!(back.check_proofs(), Ok(()));
    assert_eq!(PublicKey::deserialize(&bytes[1..]).err(), Some(DecodeError::WrongLength));
    let mut damaged = bytes.clone();
    damaged[6 * 96 + 191] ^= 1;
    assert_eq!(PublicKey::deserialize(&damaged).err(), Some(DecodeError::NotOnCurve));
}

#[test]
fn key_generation_depends_on_hash_and_seed() {
    let hash_a = hash_of(b"a");
    let hash_b = hash_of(b"b");
    let one = Keypair::generate(&hash_a, b"seed").unwrap().public_key().serialize();
    let same = Keypair::generate(&hash_a, b"seed").unwrap().public_key().serialize();
    let other_hash = Keypair::generate(&hash_b, b"seed").unwrap().public_key().serialize();
    let other_seed = Keypair::generate(&hash_a, b"seee").unwrap().public_key().serialize();
    assert_eq!(one, same);
    assert_ne!(one, other_hash);
    assert_ne!(one, other_seed);
}
