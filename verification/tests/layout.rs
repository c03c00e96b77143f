use powersoftau_core::config::{CeremonyConfig, CompressionSetting, ConfigError, ConfigSource};
use powersoftau_core::runtime_parameters::RuntimeCeremonyParameters;

#[test]
fn default_layout_sizes() {
    let params = RuntimeCeremonyParameters::default_bls12_381();
    assert_eq!(params.required_power(), 8);
    assert_eq!(params.tau_powers_length(), 256);
    assert_eq!(params.tau_powers_g1_length(), 511);
    assert_eq!(params.accumulator_byte_size(), 511 * 96 + 256 * 192 + 256 * 96 + 256 * 96 + 192 + 64);
    assert_eq!(params.public_key_size(), 3 * 192 + 6 * 96);
    assert_eq!(
        params.contribution_byte_size(),
        511 * 48 + 256 * 96 + 256 * 48 + 256 * 48 + 96 + 64 + 1152
    );
}
