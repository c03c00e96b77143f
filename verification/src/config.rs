//! Ceremony configuration and the byte sizes that follow from it.
//!
//! A configuration names the power-of-two exponent of the ceremony, the
//! compression mode, and the encoded sizes of the curve's points. Every size
//! of an accumulator or contribution file is a pure function of these values.

use vstd::prelude::*;
use vstd::arithmetic::power2::*;
use vstd::bits::*;

verus! {

/// Number of bytes of a transcript hash.
pub const HASH_SIZE: usize = 64;

/// Compression mode as it is written in a configuration source.
#[derive(Debug, Clone, Copy, PartialEq, Eq, Structural)]
pub enum CompressionSetting {
    Yes,
    No,
}

/// The settings of one ceremony.
#[derive(Debug, Clone, Copy)]
pub struct CeremonyParameters {
    pub required_power: usize,
    pub compression: CompressionSetting,
    pub check_correctness: bool,
}

/// Encoded sizes of the curve's points, in bytes.
#[derive(Debug)]
pub struct CurveParameters {
    pub name: String,
    pub g1_uncompressed_byte_size: usize,
    pub g2_uncompressed_byte_size: usize,
    pub g1_compressed_byte_size: usize,
    pub g2_compressed_byte_size: usize,
}

/// A complete configuration.
#[derive(Debug)]
pub struct CeremonyConfig {
    pub ceremony: CeremonyParameters,
    pub curve: CurveParameters,
}

/// The individual settings of a configuration.
#[derive(Debug, Clone, Copy, PartialEq, Eq, Structural)]
pub enum Setting {
    RequiredPower,
    Compression,
    CheckCorrectness,
    CurveName,
    G1UncompressedByteSize,
    G2UncompressedByteSize,
    G1CompressedByteSize,
    G2CompressedByteSize,
}

/// Why a configuration is refused.
#[derive(Debug, Clone, Copy, PartialEq, Eq, Structural)]
pub enum ConfigError {
    /// A setting without a default was not supplied.
    Missing(Setting),
    /// The power-of-two exponent is zero.
    InvalidPower,
    /// A section count or a file size does not fit the address space.
    SizeOverflow,
    /// The sizes of the points are not those of the curve's encodings.
    CurveMismatch,
    /// The batch size is zero.
    InvalidBatchSize,
}

/// The settings that one source supplies; the others are `None`.
#[derive(Debug)]
pub struct ConfigSource {
    pub required_power: Option<usize>,
    pub compression: Option<CompressionSetting>,
    pub check_correctness: Option<bool>,
    pub curve_name: Option<String>,
    pub g1_uncompressed_byte_size: Option<usize>,
    pub g2_uncompressed_byte_size: Option<usize>,
    pub g1_compressed_byte_size: Option<usize>,
    pub g2_compressed_byte_size: Option<usize>,
}

impl Clone for CurveParameters {
    fn clone(&self) -> (r: Self)
        ensures
            r == *self,
    {
        CurveParameters {
            name: self.name.clone(),
            g1_uncompressed_byte_size: self.g1_uncompressed_byte_size,
            g2_uncompressed_byte_size: self.g2_uncompressed_byte_size,
            g1_compressed_byte_size: self.g1_compressed_byte_size,
            g2_compressed_byte_size: self.g2_compressed_byte_size,
        }
    }
}

impl Clone for CeremonyConfig {
    fn clone(&self) -> (r: Self)
        ensures
            r == *self,
    {
        CeremonyConfig { ceremony: self.ceremony, curve: self.curve.clone() }
    }
}

/// Mathematical value of a [`CeremonyConfig`].
pub struct ConfigModel {
    pub ceremony: CeremonyParameters,
    pub curve_name: Seq<char>,
    pub g1_uncompressed_byte_size: usize,
    pub g2_uncompressed_byte_size: usize,
    pub g1_compressed_byte_size: usize,
    pub g2_compressed_byte_size: usize,
}

/// Mathematical value of a [`ConfigSource`].
pub struct SourceModel {
    pub required_power: Option<usize>,
    pub compression: Option<CompressionSetting>,
    pub check_correctness: Option<bool>,
    pub curve_name: Option<Seq<char>>,
    pub g1_uncompressed_byte_size: Option<usize>,
    pub g2_uncompressed_byte_size: Option<usize>,
    pub g1_compressed_byte_size: Option<usize>,
    pub g2_compressed_byte_size: Option<usize>,
}

impl View for CeremonyConfig {
    type V = ConfigModel;

    open spec fn view(&self) -> ConfigModel {
        ConfigModel {
            ceremony: self.ceremony,
            curve_name: self.curve.name@,
            g1_uncompressed_byte_size: self.curve.g1_uncompressed_byte_size,
            g2_uncompressed_byte_size: self.curve.g2_uncompressed_byte_size,
            g1_compressed_byte_size: self.curve.g1_compressed_byte_size,
            g2_compressed_byte_size: self.curve.g2_compressed_byte_size,
        }
    }
}

impl View for ConfigSource {
    type V = SourceModel;

    open spec fn view(&self) -> SourceModel {
        SourceModel {
            required_power: self.required_power,
            compression: self.compression,
            check_correctness: self.check_correctness,
            curve_name: match self.curve_name {
                Some(name) => Some(name@),
                None => None,
            },
            g1_uncompressed_byte_size: self.g1_uncompressed_byte_size,
            g2_uncompressed_byte_size: self.g2_uncompressed_byte_size,
            g1_compressed_byte_size: self.g1_compressed_byte_size,
            g2_compressed_byte_size: self.g2_compressed_byte_size,
        }
    }
}

/// The first of two alternatives that is present.
pub open spec fn spec_first_of<T>(high: Option<T>, low: Option<T>) -> Option<T> {
    if high is Some {
        high
    } else {
        low
    }
}

impl SourceModel {
    /// The source that supplies nothing.
    pub open spec fn empty() -> Self {
        SourceModel {
            required_power: None,
            compression: None,
            check_correctness: None,
            curve_name: None,
            g1_uncompressed_byte_size: None,
            g2_uncompressed_byte_size: None,
            g1_compressed_byte_size: None,
            g2_compressed_byte_size: None,
        }
    }

    /// The source that supplies exactly the settings of `config`.
    pub open spec fn of(config: ConfigModel) -> Self {
        SourceModel {
            required_power: Some(config.ceremony.required_power),
            compression: Some(config.ceremony.compression),
            check_correctness: Some(config.ceremony.check_correctness),
            curve_name: Some(config.curve_name),
            g1_uncompressed_byte_size: Some(config.g1_uncompressed_byte_size),
            g2_uncompressed_byte_size: Some(config.g2_uncompressed_byte_size),
            g1_compressed_byte_size: Some(config.g1_compressed_byte_size),
            g2_compressed_byte_size: Some(config.g2_compressed_byte_size),
        }
    }

    /// Setting by setting, `self` where it supplies one and `lower` elsewhere.
    pub open spec fn over(self, lower: Self) -> Self {
        SourceModel {
            required_power: spec_first_of(self.required_power, lower.required_power),
            compression: spec_first_of(self.compression, lower.compression),
            check_correctness: spec_first_of(self.check_correctness, lower.check_correctness),
            curve_name: spec_first_of(self.curve_name, lower.curve_name),
            g1_uncompressed_byte_size: spec_first_of(
                self.g1_uncompressed_byte_size,
                lower.g1_uncompressed_byte_size,
            ),
            g2_uncompressed_byte_size: spec_first_of(
                self.g2_uncompressed_byte_size,
                lower.g2_uncompressed_byte_size,
            ),
            g1_compressed_byte_size: spec_first_of(
                self.g1_compressed_byte_size,
                lower.g1_compressed_byte_size,
            ),
            g2_compressed_byte_size: spec_first_of(
                self.g2_compressed_byte_size,
                lower.g2_compressed_byte_size,
            ),
        }
    }

    /// The first setting, in declaration order, that the source lacks.
    pub open spec fn first_missing(self) -> Option<Setting> {
        if self.required_power is None {
            Some(Setting::RequiredPower)
        } else if self.compression is None {
            Some(Setting::Compression)
        } else if self.check_correctness is None {
            Some(Setting::CheckCorrectness)
        } else if self.curve_name is None {
            Some(Setting::CurveName)
        } else if self.g1_uncompressed_byte_size is None {
            Some(Setting::G1UncompressedByteSize)
        } else if self.g2_uncompressed_byte_size is None {
            Some(Setting::G2UncompressedByteSize)
        } else if self.g1_compressed_byte_size is None {
            Some(Setting::G1CompressedByteSize)
        } else if self.g2_compressed_byte_size is None {
            Some(Setting::G2CompressedByteSize)
        } else {
            None
        }
    }

    /// The configuration that a source without gaps describes.
    pub open spec fn assembled(self) -> ConfigModel
        recommends
            self.first_missing() is None,
    {
        ConfigModel {
            ceremony: CeremonyParameters {
                required_power: self.required_power->0,
                compression: self.compression->0,
                check_correctness: self.check_correctness->0,
            },
            curve_name: self.curve_name->0,
            g1_uncompressed_byte_size: self.g1_uncompressed_byte_size->0,
            g2_uncompressed_byte_size: self.g2_uncompressed_byte_size->0,
            g1_compressed_byte_size: self.g1_compressed_byte_size->0,
            g2_compressed_byte_size: self.g2_compressed_byte_size->0,
        }
    }

    /// What loading a source yields: the first gap, else the reason for which
    /// the assembled configuration is refused, else that configuration.
    pub open spec fn load(self) -> Result<ConfigModel, ConfigError> {
        match self.first_missing() {
            Some(setting) => Err(ConfigError::Missing(setting)),
            None => match self.assembled().refusal() {
                Some(e) => Err(e),
                None => Ok(self.assembled()),
            },
        }
    }
}

impl ConfigModel {
    /// Number of tau powers in G2: two to the required power.
    pub open spec fn tau_powers_length(self) -> int {
        pow2(self.ceremony.required_power as nat) as int
    }

    /// Number of tau powers in G1: one less than twice the G2 count.
    pub open spec fn tau_powers_g1_length(self) -> int {
        2 * self.tau_powers_length() - 1
    }

    /// Bytes of the four sequences and the single G2 element, with points of
    /// `g1` and `g2` bytes.
    pub open spec fn sections_byte_size(self, g1: int, g2: int) -> int {
        spec_sections(self.tau_powers_length(), g1, g2)
    }

    /// Size of an uncompressed accumulator: the sections and the hash.
    pub open spec fn accumulator_byte_size(self) -> int {
        self.sections_byte_size(
            self.g1_uncompressed_byte_size as int,
            self.g2_uncompressed_byte_size as int,
        ) + HASH_SIZE
    }

    /// Size of a public key: three G2 and six G1 elements, uncompressed.
    pub open spec fn public_key_size(self) -> int {
        3 * self.g2_uncompressed_byte_size + 6 * self.g1_uncompressed_byte_size
    }

    /// Size of a compressed contribution: the compressed sections, the hash
    /// and the public key.
    pub open spec fn contribution_byte_size(self) -> int {
        self.sections_byte_size(
            self.g1_compressed_byte_size as int,
            self.g2_compressed_byte_size as int,
        ) + HASH_SIZE + self.public_key_size()
    }

    /// Twice the G2 count, the uncompressed accumulator and the compressed
    /// contribution all fit the address space.
    pub open spec fn sizes_fit(self) -> bool {
        &&& 2 * self.tau_powers_length() <= usize::MAX
        &&& self.accumulator_byte_size() <= usize::MAX
        &&& self.contribution_byte_size() <= usize::MAX
    }

    /// The configurations that the layout is defined for.
    pub open spec fn well_formed(self) -> bool {
        self.ceremony.required_power >= 1 && self.sizes_fit()
    }

    /// The reason for which a configuration is refused, if it is.
    pub open spec fn refusal(self) -> Option<ConfigError> {
        if self.ceremony.required_power == 0 {
            Some(ConfigError::InvalidPower)
        } else if !self.sizes_fit() {
            Some(ConfigError::SizeOverflow)
        } else {
            None
        }
    }

    /// The built-in settings for BLS12-381: power 8, no compression, checks on.
    pub open spec fn default_bls12_381() -> Self {
        ConfigModel {
            ceremony: CeremonyParameters {
                required_power: 8,
                compression: CompressionSetting::No,
                check_correctness: true,
            },
            curve_name: "bls12_381"@,
            g1_uncompressed_byte_size: 96,
            g2_uncompressed_byte_size: 192,
            g1_compressed_byte_size: 48,
            g2_compressed_byte_size: 96,
        }
    }
}

/// Total size of `count` slots of `size` bytes after `base` bytes, where it
/// fits a `usize`.
fn add_section(base: usize, count: usize, size: usize) -> (r: Option<usize>)
    ensures
        match r {
            Some(total) => total == base + count * size,
            None => base + count * size > usize::MAX,
        },
{
    match count.checked_mul(size) {
        Some(bytes) => base.checked_add(bytes),
        None => None,
    }
}

fn first_of<T: Copy>(high: Option<T>, low: Option<T>) -> (r: Option<T>)
    ensures
        r == spec_first_of(high, low),
{
    match high {
        Some(v) => Some(v),
        None => low,
    }
}

fn first_name(high: &Option<String>, low: &Option<String>) -> (r: Option<String>)
    ensures
        r == spec_first_of(*high, *low),
{
    match high {
        Some(v) => Some(v.clone()),
        None => match low {
            Some(w) => Some(w.clone()),
            None => None,
        },
    }
}

impl ConfigSource {
    /// A source that supplies nothing.
    pub fn empty() -> (r: Self)
        ensures
            r@ == SourceModel::empty(),
    {
        ConfigSource {
            required_power: None,
            compression: None,
            check_correctness: None,
            curve_name: None,
            g1_uncompressed_byte_size: None,
            g2_uncompressed_byte_size: None,
            g1_compressed_byte_size: None,
            g2_compressed_byte_size: None,
        }
    }

    /// Layers `self` over `lower`.
    pub fn over(&self, lower: &ConfigSource) -> (r: ConfigSource)
        ensures
            r@ == self@.over(lower@),
    {
        ConfigSource {
            required_power: first_of(self.required_power, lower.required_power),
            compression: first_of(self.compression, lower.compression),
            check_correctness: first_of(self.check_correctness, lower.check_correctness),
            curve_name: first_name(&self.curve_name, &lower.curve_name),
            g1_uncompressed_byte_size: first_of(
                self.g1_uncompressed_byte_size,
                lower.g1_uncompressed_byte_size,
            ),
            g2_uncompressed_byte_size: first_of(
                self.g2_uncompressed_byte_size,
                lower.g2_uncompressed_byte_size,
            ),
            g1_compressed_byte_size: first_of(
                self.g1_compressed_byte_size,
                lower.g1_compressed_byte_size,
            ),
            g2_compressed_byte_size: first_of(
                self.g2_compressed_byte_size,
                lower.g2_compressed_byte_size,
            ),
        }
    }

    /// The source that supplies exactly the settings of `config`.
    pub fn of(config: &CeremonyConfig) -> (r: Self)
        ensures
            r@ == SourceModel::of(config@),
    {
        ConfigSource {
            required_power: Some(config.ceremony.required_power),
            compression: Some(config.ceremony.compression),
            check_correctness: Some(config.ceremony.check_correctness),
            curve_name: Some(config.curve.name.clone()),
            g1_uncompressed_byte_size: Some(config.curve.g1_uncompressed_byte_size),
            g2_uncompressed_byte_size: Some(config.curve.g2_uncompressed_byte_size),
            g1_compressed_byte_size: Some(config.curve.g1_compressed_byte_size),
            g2_compressed_byte_size: Some(config.curve.g2_compressed_byte_size),
        }
    }

    /// Assembles the configuration that the source describes and validates
    /// it.
    pub fn load(&self) -> (r: Result<CeremonyConfig, ConfigError>)
        ensures
            match r {
                Ok(config) => self@.load() == Ok::<ConfigModel, ConfigError>(config@),
                Err(e) => self@.load() == Err::<ConfigModel, ConfigError>(e),
            },
    {
        let required_power = match self.required_power {
            Some(v) => v,
            None => { return Err(ConfigError::Missing(Setting::RequiredPower)); },
        };
        let compression = match self.compression {
            Some(v) => v,
            None => { return Err(ConfigError::Missing(Setting::Compression)); },
        };
        let check_correctness = match self.check_correctness {
            Some(v) => v,
            None => { return Err(ConfigError::Missing(Setting::CheckCorrectness)); },
        };
        let name = match &self.curve_name {
            Some(v) => v.clone(),
            None => { return Err(ConfigError::Missing(Setting::CurveName)); },
        };
        let g1_uncompressed_byte_size = match self.g1_uncompressed_byte_size {
            Some(v) => v,
            None => { return Err(ConfigError::Missing(Setting::G1UncompressedByteSize)); },
        };
        let g2_uncompressed_byte_size = match self.g2_uncompressed_byte_size {
            Some(v) => v,
            None => { return Err(ConfigError::Missing(Setting::G2UncompressedByteSize)); },
        };
        let g1_compressed_byte_size = match self.g1_compressed_byte_size {
            Some(v) => v,
            None => { return Err(ConfigError::Missing(Setting::G1CompressedByteSize)); },
        };
        let g2_compressed_byte_size = match self.g2_compressed_byte_size {
            Some(v) => v,
            None => { return Err(ConfigError::Missing(Setting::G2CompressedByteSize)); },
        };
        let config = CeremonyConfig {
            ceremony: CeremonyParameters { required_power, compression, check_correctness },
            curve: CurveParameters {
                name,
                g1_uncompressed_byte_size,
                g2_uncompressed_byte_size,
                g1_compressed_byte_size,
                g2_compressed_byte_size,
            },
        };
        assert(config@ == self@.assembled());
        match config.validate() {
            Ok(()) => Ok(config),
            Err(e) => Err(e),
        }
    }
}

impl CeremonyConfig {
    /// Checks that the power is at least one and that every count and size
    /// of the layout fits the address space.
    pub fn validate(&self) -> (r: Result<(), ConfigError>)
        ensures
            r is Ok <==> self@.well_formed(),
            r is Err ==> self@.refusal() == Some(r->Err_0),
    {
        let power = self.ceremony.required_power;
        if power == 0 {
            return Err(ConfigError::InvalidPower);
        }
        let bits: usize = usize::BITS as usize;
        if power >= bits - 1 {
            proof {
                lemma2_to64();
                lemma2_to64_rest();
                if power as nat > (bits - 1) as nat {
                    lemma_pow2_strictly_increases((bits - 1) as nat, power as nat);
                }
                lemma_pow2_unfold(bits as nat);
            }
            return Err(ConfigError::SizeOverflow);
        }
        proof {
            lemma2_to64();
            lemma2_to64_rest();
            if (power as nat) < (bits - 2) as nat {
                lemma_pow2_strictly_increases(power as nat, (bits - 2) as nat);
            }
            lemma_pow2_unfold((bits - 1) as nat);
            lemma_pow2_unfold(bits as nat);
            lemma_usize_shl_is_mul(1, power);
        }
        let n: usize = 1usize << power;
        let n_g1: usize = 2 * n - 1;
        let g1 = self.curve.g1_uncompressed_byte_size;
        let g2 = self.curve.g2_uncompressed_byte_size;
        let c1 = self.curve.g1_compressed_byte_size;
        let c2 = self.curve.g2_compressed_byte_size;
        proof {
            lemma_sections_monotone(n as int, g1 as int, g2 as int);
            lemma_sections_monotone(n as int, c1 as int, c2 as int);
        }
        let accumulator = sections_size(n, g1, g2, HASH_SIZE);
        if accumulator.is_none() {
            return Err(ConfigError::SizeOverflow);
        }
        let key = match add_section(0, 3, g2) {
            Some(v) => add_section(v, 6, g1),
            None => None,
        };
        let key = match key {
            Some(v) => v,
            None => { return Err(ConfigError::SizeOverflow); },
        };
        let base = match key.checked_add(HASH_SIZE) {
            Some(v) => v,
            None => { return Err(ConfigError::SizeOverflow); },
        };
        let contribution = sections_size(n, c1, c2, base);
        if contribution.is_none() {
            return Err(ConfigError::SizeOverflow);
        }
        Ok(())
    }

    /// Number of tau powers in G2.
    pub fn tau_powers_length(&self) -> (n: usize)
        requires
            self@.well_formed(),
        ensures
            n == self@.tau_powers_length(),
    {
        let power = self.ceremony.required_power;
        proof {
            lemma_power_is_small(power);
            lemma_usize_shl_is_mul(1, power);
        }
        1 << power
    }

    /// Number of tau powers in G1.
    pub fn tau_powers_g1_length(&self) -> (n: usize)
        requires
            self@.well_formed(),
        ensures
            n == self@.tau_powers_g1_length(),
    {
        let half = self.tau_powers_length();
        proof {
            lemma_power_is_small(self.ceremony.required_power);
            lemma_pow2_pos(self.ceremony.required_power as nat);
            lemma_usize_shl_is_mul(half, 1);
            lemma2_to64();
        }
        (half << 1) - 1
    }

    /// Size in bytes of an uncompressed accumulator.
    pub fn accumulator_byte_size(&self) -> (n: usize)
        requires
            self@.well_formed(),
        ensures
            n == self@.accumulator_byte_size(),
    {
        let n = self.tau_powers_length();
        let n_g1 = self.tau_powers_g1_length();
        let g1 = self.curve.g1_uncompressed_byte_size;
        let g2 = self.curve.g2_uncompressed_byte_size;
        proof {
            lemma_sections_monotone(n as int, g1 as int, g2 as int);
        }
        (n_g1 * g1) + (n * g2) + (n * g1) + (n * g1) + g2 + 64
    }

    /// Size in bytes of a public key.
    pub fn public_key_size(&self) -> (n: usize)
        requires
            self@.well_formed(),
        ensures
            n == self@.public_key_size(),
    {
        proof {
            lemma_pow2_pos(self.ceremony.required_power as nat);
            lemma_sections_monotone(
                self@.tau_powers_length(),
                self.curve.g1_compressed_byte_size as int,
                self.curve.g2_compressed_byte_size as int,
            );
        }
        3 * self.curve.g2_uncompressed_byte_size + 6 * self.curve.g1_uncompressed_byte_size
    }

    /// Size in bytes of a compressed contribution.
    pub fn contribution_byte_size(&self) -> (n: usize)
        requires
            self@.well_formed(),
        ensures
            n == self@.contribution_byte_size(),
    {
        let n = self.tau_powers_length();
        let n_g1 = self.tau_powers_g1_length();
        let g1 = self.curve.g1_compressed_byte_size;
        let g2 = self.curve.g2_compressed_byte_size;
        proof {
            lemma_sections_monotone(n as int, g1 as int, g2 as int);
        }
        (n_g1 * g1) + (n * g2) + (n * g1) + (n * g1) + g2 + 64 + self.public_key_size()
    }

    /// The built-in configuration for BLS12-381.
    pub fn default_bls12_381() -> (r: Self)
        ensures
            r@ == ConfigModel::default_bls12_381(),
            r@.well_formed(),
    {
        proof {
            lemma2_to64();
        }
        CeremonyConfig {
            ceremony: CeremonyParameters {
                required_power: 8,
                compression: CompressionSetting::No,
                check_correctness: true,
            },
            curve: CurveParameters {
                name: "bls12_381".to_owned(),
                g1_uncompressed_byte_size: 96,
                g2_uncompressed_byte_size: 192,
                g1_compressed_byte_size: 48,
                g2_compressed_byte_size: 96,
            },
        }
    }

    /// The configuration that one source describes. Every setting must be
    /// present, and the result must pass validation.
    pub fn from_file(found: &ConfigSource) -> (r: Result<Self, ConfigError>)
        ensures
            match r {
                Ok(config) => found@.load() == Ok::<ConfigModel, ConfigError>(config@),
                Err(e) => found@.load() == Err::<ConfigModel, ConfigError>(e),
            },
    {
        found.load()
    }

    /// The configuration that the environment describes: a setting is taken
    /// from `env` where it is present there, else from `file`, else from the
    /// built-in configuration.
    pub fn from_env_with_defaults(file: &ConfigSource, env: &ConfigSource) -> (r: Result<
        Self,
        ConfigError,
    >)
        ensures
            match r {
                Ok(config) => spec_layered(file@, env@).load() == Ok::<ConfigModel, ConfigError>(
                    config@,
                ),
                Err(e) => spec_layered(file@, env@).load() == Err::<ConfigModel, ConfigError>(e),
            },
    {
        let defaults = ConfigSource::of(&Self::default_bls12_381());
        env.over(file).over(&defaults).load()
    }
}

/// The settings in force when `env` is layered over `file` and both over the
/// built-in configuration.
pub open spec fn spec_layered(file: SourceModel, env: SourceModel) -> SourceModel {
    env.over(file).over(SourceModel::of(ConfigModel::default_bls12_381()))
}

/// Sum of the sections of a layout with `n` G2 powers after `base` bytes,
/// where it fits a `usize`.
fn sections_size(n: usize, g1: usize, g2: usize, base: usize) -> (r: Option<usize>)
    requires
        1 <= n,
        2 * n <= usize::MAX,
    ensures
        match r {
            Some(total) => total == spec_sections(n as int, g1 as int, g2 as int) + base,
            None => spec_sections(n as int, g1 as int, g2 as int) + base > usize::MAX,
        },
{
    proof {
        lemma_sections_monotone(n as int, g1 as int, g2 as int);
    }
    let total = add_section(base, 2 * n - 1, g1);
    let total = match total {
        Some(v) => add_section(v, n, g2),
        None => None,
    };
    let total = match total {
        Some(v) => add_section(v, n, g1),
        None => None,
    };
    let total = match total {
        Some(v) => add_section(v, n, g1),
        None => None,
    };
    match total {
        Some(v) => v.checked_add(g2),
        None => None,
    }
}

/// Bytes of the sections of a layout with `n` G2 powers: `2n - 1` G1 tau
/// powers, `n` G2 tau powers, `n` alpha and `n` beta powers in G1, and one G2
/// element.
pub open spec fn spec_sections(n: int, g1: int, g2: int) -> int {
    (2 * n - 1) * g1 + n * g2 + n * g1 + n * g1 + g2
}

/// Every term of the section sum is non-negative, so every partial sum is
/// bounded by the whole.
proof fn lemma_sections_monotone(n: int, g1: int, g2: int)
    requires
        1 <= n,
        0 <= g1,
        0 <= g2,
    ensures
        0 <= (2 * n - 1) * g1,
        0 <= n * g2,
        0 <= n * g1,
        g1 <= (2 * n - 1) * g1,
        g1 <= n * g1,
        g2 <= n * g2,
{
    assert(0 <= (2 * n - 1) * g1 && g1 <= (2 * n - 1) * g1) by (nonlinear_arith)
        requires
            1 <= n,
            0 <= g1,
    ;
    assert(0 <= n * g2 && g2 <= n * g2) by (nonlinear_arith)
        requires
            1 <= n,
            0 <= g2,
    ;
    assert(0 <= n * g1 && g1 <= n * g1) by (nonlinear_arith)
        requires
            1 <= n,
            0 <= g1,
    ;
}

/// An exponent whose doubled power of two fits a `usize` is below the word
/// size, and so is its successor.
proof fn lemma_power_is_small(power: usize)
    requires
        2 * pow2(power as nat) <= usize::MAX,
    ensures
        power + 1 < usize::BITS,
        pow2(power as nat) <= usize::MAX,
        pow2(power as nat) * pow2(1) <= usize::MAX,
        1 * pow2(power as nat) <= usize::MAX,
{
    lemma2_to64();
    lemma2_to64_rest();
    lemma_pow2_pos(power as nat);
    if power + 1 >= usize::BITS {
        if power as nat > (usize::BITS - 1) as nat {
            lemma_pow2_strictly_increases((usize::BITS - 1) as nat, power as nat);
        }
        lemma_pow2_unfold(usize::BITS as nat);
    }
}

} // verus!
