use powersoftau_core::config::{
    CeremonyConfig, CeremonyParameters, CompressionSetting, ConfigError, ConfigSource,
    CurveParameters, Setting,
};
use powersoftau_core::parameters::{CheckForCorrectness, UseCompression};
use powersoftau_core::runtime_parameters::RuntimeCeremonyParameters;

fn complete() -> ConfigSource {
    ConfigSource {
        required_power: Some(10),
        compression: Some(CompressionSetting::Yes),
        check_correctness: Some(false),
        curve_name: Some("bls12_381".to_string()),
        g1_uncompressed_byte_size: Some(96),
        g2_uncompressed_byte_size: Some(192),
        g1_compressed_byte_size: Some(48),
        g2_compressed_byte_size: Some(96),
    }
}

fn with_power(power: usize) -> CeremonyConfig {
    let mut config = CeremonyConfig::default_bls12_381();
    config.ceremony.required_power = power;
    config
}

#[test]
fn default_configuration() {
    let config = CeremonyConfig::default_bls12_381();
    assert_eq!(config.ceremony.required_power, 8);
    assert_eq!(config.ceremony.compression, CompressionSetting::No);
    assert_eq!(config.ceremony.check_correctness, true);
    assert_eq!(config.curve.name, "bls12_381");
    assert_eq!(config.curve.g1_uncompressed_byte_size, 96);
    assert_eq!(config.curve.g2_uncompressed_byte_size, 192);
    assert_eq!(config.curve.g1_compressed_byte_size, 48);
    assert_eq!(config.curve.g2_compressed_byte_size, 96);
    assert_eq!(config.validate(), Ok(()));
    assert_eq!(config.tau_powers_length(), 256);
    assert_eq!(config.tau_powers_g1_length(), 511);
    assert_eq!(config.accumulator_byte_size(), 147616);
    assert_eq!(config.public_key_size(), 1152);
    assert_eq!(config.contribution_byte_size(), 74992);
}

#[test]
fn runtime_parameters_read_the_configuration() {
    let params = RuntimeCeremonyParameters::default_bls12_381();
    assert_eq!(params.required_power(), 8);
    assert_eq!(params.g1_uncompressed_byte_size(), 96);
    assert_eq!(params.g2_uncompressed_byte_size(), 192);
    assert_eq!(params.g1_compressed_byte_size(), 48);
    assert_eq!(params.g2_compressed_byte_size(), 96);
    assert_eq!(params.hash_size(), 64);
    assert_eq!(params.empirical_batch_size(), 1 << 21);
    assert_eq!(params.use_compression(), UseCompression::No);
    assert_eq!(params.check_for_correctness(), CheckForCorrectness::Yes);
    assert_eq!(params.config().curve.name, "bls12_381");
    let copy = params.clone();
    assert_eq!(copy.accumulator_byte_size(), params.accumulator_byte_size());
    let other = RuntimeCeremonyParameters::new(with_power(3));
    assert_eq!(other.tau_powers_length(), 8);
    assert_eq!(other.tau_powers_g1_length(), 15);
}

#[test]
fn conversions_of_the_switches() {
    assert_eq!(UseCompression::from(CompressionSetting::Yes), UseCompression::Yes);
    assert_eq!(UseCompression::from(CompressionSetting::No), UseCompression::No);
    assert_eq!(CheckForCorrectness::from(true), CheckForCorrectness::Yes);
    assert_eq!(CheckForCorrectness::from(false), CheckForCorrectness::No);
}

#[test]
fn validation_refuses_invalid_powers() {
    assert_eq!(with_power(0).validate(), Err(ConfigError::InvalidPower));
    assert_eq!(with_power(1).validate(), Ok(()));
    assert_eq!(with_power(28).validate(), Ok(()));
    assert_eq!(with_power(63).validate(), Err(ConfigError::SizeOverflow));
    assert_eq!(with_power(64).validate(), Err(ConfigError::SizeOverflow));
    assert_eq!(with_power(usize::MAX).validate(), Err(ConfigError::SizeOverflow));
    assert_eq!(with_power(58).validate(), Err(ConfigError::SizeOverflow));
    let mut wide = with_power(20);
    wide.curve.g2_compressed_byte_size = usize::MAX / 4;
    assert_eq!(wide.validate(), Err(ConfigError::SizeOverflow));
    assert_eq!(
        RuntimeCeremonyParameters::try_new(with_power(0)).err(),
        Some(ConfigError::InvalidPower)
    );
    assert!(RuntimeCeremonyParameters::try_new(with_power(5)).is_ok());
}

#[test]
fn a_file_must_hold_every_setting() {
    let config = CeremonyConfig::from_file(&complete()).unwrap();
    assert_eq!(config.ceremony.required_power, 10);
    assert_eq!(config.ceremony.compression, CompressionSetting::Yes);
    assert_eq!(config.ceremony.check_correctness, false);
    assert_eq!(config.curve.name, "bls12_381");
    assert_eq!(config.tau_powers_length(), 1024);

    let mut source = complete();
    source.check_correctness = None;
    source.g2_compressed_byte_size = None;
    assert_eq!(
        CeremonyConfig::from_file(&source).err(),
        Some(ConfigError::Missing(Setting::CheckCorrectness))
    );
    let mut source = complete();
    source.curve_name = None;
    assert_eq!(
        RuntimeCeremonyParameters::from_file(&source).err(),
        Some(ConfigError::Missing(Setting::CurveName))
    );
    assert_eq!(
        CeremonyConfig::from_file(&ConfigSource::empty()).err(),
        Some(ConfigError::Missing(Setting::RequiredPower))
    );
    let mut source = complete();
    source.required_power = Some(0);
    assert_eq!(CeremonyConfig::from_file(&source).err(), Some(ConfigError::InvalidPower));
    let mut source = complete();
    source.required_power = Some(70);
    assert_eq!(CeremonyConfig::from_file(&source).err(), Some(ConfigError::SizeOverflow));
    assert_eq!(RuntimeCeremonyParameters::from_file(&complete()).unwrap().required_power(), 10);
}

#[test]
fn environment_overrides_file_overrides_defaults() {
    let nothing = ConfigSource::empty();
    let defaults = CeremonyConfig::from_env_with_defaults(&nothing, &nothing).unwrap();
    assert_eq!(defaults.ceremony.required_power, 8);
    assert_eq!(defaults.ceremony.compression, CompressionSetting::No);
    assert_eq!(defaults.curve.name, "bls12_381");
    assert_eq!(defaults.curve.g2_uncompressed_byte_size, 192);

    let mut file = ConfigSource::empty();
    file.required_power = Some(12);
    file.compression = Some(CompressionSetting::Yes);
    let mut env = ConfigSource::empty();
    env.required_power = Some(5);
    env.curve_name = Some("other".to_string());
    let merged = CeremonyConfig::from_env_with_defaults(&file, &env).unwrap();
    assert_eq!(merged.ceremony.required_power, 5);
    assert_eq!(merged.ceremony.compression, CompressionSetting::Yes);
    assert_eq!(merged.ceremony.check_correctness, true);
    assert_eq!(merged.curve.name, "other");
    assert_eq!(merged.curve.g1_compressed_byte_size, 48);

    let only_file = RuntimeCeremonyParameters::from_env_with_defaults(&file, &nothing).unwrap();
    assert_eq!(only_file.required_power(), 12);
    assert_eq!(only_file.use_compression(), UseCompression::Yes);

    env.required_power = Some(0);
    assert_eq!(
        CeremonyConfig::from_env_with_defaults(&file, &env).err(),
        Some(ConfigError::InvalidPower)
    );
    let layered = env.over(&file);
    assert_eq!(layered.required_power, Some(0));
    assert_eq!(layered.compression, Some(CompressionSetting::Yes));
    assert_eq!(layered.check_correctness, None);
    let of = ConfigSource::of(&defaults);
    assert_eq!(of.required_power, Some(8));
    assert_eq!(of.load().unwrap().curve.name, "bls12_381");
}

#[test]
fn configurations_can_be_copied() {
    let config = CeremonyConfig {
        ceremony: CeremonyParameters {
            required_power: 4,
            compression: CompressionSetting::Yes,
            check_correctness: false,
        },
        curve: CurveParameters {
            name: "curve".to_string(),
            g1_uncompressed_byte_size: 2,
            g2_uncompressed_byte_size: 4,
            g1_compressed_byte_size: 1,
            g2_compressed_byte_size: 2,
        },
    };
    let copy = config.clone();
    assert_eq!(copy.curve.name, "curve");
    assert_eq!(copy.ceremony.required_power, 4);
    assert_eq!(copy.accumulator_byte_size(), 31 * 2 + 16 * 4 + 16 * 2 + 16 * 2 + 4 + 64);
    assert_eq!(copy.public_key_size(), 3 * 4 + 6 * 2);
    assert_eq!(
        copy.contribution_byte_size(),
        31 + 16 * 2 + 16 + 16 + 2 + 64 + 24
    );
}
