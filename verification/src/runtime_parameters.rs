//! A validated configuration and the layout figures read from it.

use vstd::prelude::*;
use vstd::std_specs::convert::FromSpec;
use crate::config::{CeremonyConfig, ConfigError, ConfigModel, ConfigSource, HASH_SIZE};
use crate::parameters::{CheckForCorrectness, UseCompression};

verus! {

/// Number of elements that the engine transforms at a time by default.
pub const DEFAULT_BATCH_SIZE: usize = 2097152;

/// A configuration that has passed validation: every figure of the layout
/// can be read from it without further checks.
#[derive(Debug)]
pub struct RuntimeCeremonyParameters {
    config: CeremonyConfig,
}

impl View for RuntimeCeremonyParameters {
    type V = ConfigModel;

    closed spec fn view(&self) -> ConfigModel {
        self.config@
    }
}

impl Clone for RuntimeCeremonyParameters {
    fn clone(&self) -> (r: Self)
        ensures
            r@ == self@,
    {
        proof {
            use_type_invariant(self);
        }
        RuntimeCeremonyParameters { config: self.config.clone() }
    }
}

impl RuntimeCeremonyParameters {
    #[verifier::type_invariant]
    spec fn valid(&self) -> bool {
        self.config@.well_formed()
    }

    /// Wraps a configuration that is known to be well formed.
    pub fn new(config: CeremonyConfig) -> (r: Self)
        requires
            config@.well_formed(),
        ensures
            r@ == config@,
    {
        Self { config }
    }

    /// Validates a configuration and wraps it.
    pub fn try_new(config: CeremonyConfig) -> (r: Result<Self, ConfigError>)
        ensures
            match r {
                Ok(params) => params@ == config@ && config@.well_formed(),
                Err(e) => config@.refusal() == Some(e),
            },
    {
        match config.validate() {
            Ok(()) => Ok(Self::new(config)),
            Err(e) => Err(e),
        }
    }

    /// The parameters that one source describes.
    pub fn from_file(found: &ConfigSource) -> (r: Result<Self, ConfigError>)
        ensures
            match r {
                Ok(params) => found@.load() == Ok::<ConfigModel, ConfigError>(params@),
                Err(e) => found@.load() == Err::<ConfigModel, ConfigError>(e),
            },
    {
        match CeremonyConfig::from_file(found) {
            Ok(config) => Ok(Self::new(config)),
            Err(e) => Err(e),
        }
    }

    /// The parameters that the environment describes, over the built-in
    /// configuration.
    pub fn from_env_with_defaults(file: &ConfigSource, env: &ConfigSource) -> (r: Result<
        Self,
        ConfigError,
    >)
        ensures
            match r {
                Ok(params) => crate::config::spec_layered(file@, env@).load() == Ok::<
                    ConfigModel,
                    ConfigError,
                >(params@),
                Err(e) => crate::config::spec_layered(file@, env@).load() == Err::<
                    ConfigModel,
                    ConfigError,
                >(e),
            },
    {
        match CeremonyConfig::from_env_with_defaults(file, env) {
            Ok(config) => Ok(Self::new(config)),
            Err(e) => Err(e),
        }
    }

    /// The built-in parameters for BLS12-381.
    pub fn default_bls12_381() -> (r: Self)
        ensures
            r@ == ConfigModel::default_bls12_381(),
    {
        Self::new(CeremonyConfig::default_bls12_381())
    }

    /// The configuration behind the parameters.
    pub fn config(&self) -> (r: &CeremonyConfig)
        ensures
            r@ == self@,
            r@.well_formed(),
    {
        proof {
            use_type_invariant(self);
        }
        &self.config
    }

    pub fn required_power(&self) -> (r: usize)
        ensures
            r == self@.ceremony.required_power,
            r >= 1,
    {
        proof {
            use_type_invariant(self);
        }
        self.config.ceremony.required_power
    }

    pub fn g1_uncompressed_byte_size(&self) -> (r: usize)
        ensures
            r == self@.g1_uncompressed_byte_size,
    {
        self.config.curve.g1_uncompressed_byte_size
    }

    pub fn g2_uncompressed_byte_size(&self) -> (r: usize)
        ensures
            r == self@.g2_uncompressed_byte_size,
    {
        self.config.curve.g2_uncompressed_byte_size
    }

    pub fn g1_compressed_byte_size(&self) -> (r: usize)
        ensures
            r == self@.g1_compressed_byte_size,
    {
        self.config.curve.g1_compressed_byte_size
    }

    pub fn g2_compressed_byte_size(&self) -> (r: usize)
        ensures
            r == self@.g2_compressed_byte_size,
    {
        self.config.curve.g2_compressed_byte_size
    }

    pub fn tau_powers_length(&self) -> (r: usize)
        ensures
            r == self@.tau_powers_length(),
            self@.well_formed(),
    {
        proof {
            use_type_invariant(self);
        }
        self.config.tau_powers_length()
    }

    pub fn tau_powers_g1_length(&self) -> (r: usize)
        ensures
            r == self@.tau_powers_g1_length(),
            self@.well_formed(),
    {
        proof {
            use_type_invariant(self);
        }
        self.config.tau_powers_g1_length()
    }

    pub fn accumulator_byte_size(&self) -> (r: usize)
        ensures
            r == self@.accumulator_byte_size(),
            self@.well_formed(),
    {
        proof {
            use_type_invariant(self);
        }
        self.config.accumulator_byte_size()
    }

    pub fn public_key_size(&self) -> (r: usize)
        ensures
            r == self@.public_key_size(),
            self@.well_formed(),
    {
        proof {
            use_type_invariant(self);
        }
        self.config.public_key_size()
    }

    pub fn contribution_byte_size(&self) -> (r: usize)
        ensures
            r == self@.contribution_byte_size(),
            self@.well_formed(),
    {
        proof {
            use_type_invariant(self);
        }
        self.config.contribution_byte_size()
    }

    /// Size of a transcript hash in bytes.
    pub fn hash_size(&self) -> (r: usize)
        ensures
            r == HASH_SIZE,
    {
        HASH_SIZE
    }

    /// Number of elements per batch that the engine uses by default.
    pub fn empirical_batch_size(&self) -> (r: usize)
        ensures
            r == DEFAULT_BATCH_SIZE,
    {
        DEFAULT_BATCH_SIZE
    }

    pub fn use_compression(&self) -> (r: UseCompression)
        ensures
            r == UseCompression::from_spec(self@.ceremony.compression),
    {
        UseCompression::from(self.config.ceremony.compression)
    }

    pub fn check_for_correctness(&self) -> (r: CheckForCorrectness)
        ensures
            r == CheckForCorrectness::from_spec(self@.ceremony.check_correctness),
    {
        CheckForCorrectness::from(self.config.ceremony.check_correctness)
    }
}

} // verus!
