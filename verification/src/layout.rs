//! Where each section and each element of an accumulator file lies.
//!
//! A file starts with the 64-byte transcript hash. Five sections follow in a
//! fixed order; each is a run of equally sized slots, one per group element.

use vstd::prelude::*;
use vstd::arithmetic::power2::*;
use vstd::arithmetic::div_mod::*;
use crate::config::{spec_sections, ConfigModel, HASH_SIZE};
use crate::parameters::UseCompression;
use crate::runtime_parameters::RuntimeCeremonyParameters;

verus! {

/// The sections of an accumulator, in file order.
#[derive(Debug, Clone, Copy, PartialEq, Eq, Structural)]
pub enum Section {
    /// Powers of tau in G1.
    TauG1,
    /// Powers of tau in G2.
    TauG2,
    /// Powers of tau times alpha, in G1.
    AlphaG1,
    /// Powers of tau times beta, in G1.
    BetaG1,
    /// Beta in G2.
    BetaG2,
}

impl Section {
    /// Whether the section holds elements of G2.
    pub open spec fn spec_in_g2(self) -> bool {
        self == Section::TauG2 || self == Section::BetaG2
    }

    /// Whether the section holds elements of G2.
    pub fn in_g2(self) -> (r: bool)
        ensures
            r == self.spec_in_g2(),
    {
        match self {
            Section::TauG2 => true,
            Section::BetaG2 => true,
            _ => false,
        }
    }
}

/// Size of an element of G1 in the given mode.
pub open spec fn spec_g1_size(config: ConfigModel, compression: UseCompression) -> int {
    match compression {
        UseCompression::Yes => config.g1_compressed_byte_size as int,
        UseCompression::No => config.g1_uncompressed_byte_size as int,
    }
}

/// Size of an element of G2 in the given mode.
pub open spec fn spec_g2_size(config: ConfigModel, compression: UseCompression) -> int {
    match compression {
        UseCompression::Yes => config.g2_compressed_byte_size as int,
        UseCompression::No => config.g2_uncompressed_byte_size as int,
    }
}

/// Number of elements of a section.
pub open spec fn spec_section_count(config: ConfigModel, section: Section) -> int {
    match section {
        Section::TauG1 => config.tau_powers_g1_length(),
        Section::TauG2 => config.tau_powers_length(),
        Section::AlphaG1 => config.tau_powers_length(),
        Section::BetaG1 => config.tau_powers_length(),
        Section::BetaG2 => 1,
    }
}

/// Size of one element of a section.
pub open spec fn spec_element_size(
    config: ConfigModel,
    compression: UseCompression,
    section: Section,
) -> int {
    if section.spec_in_g2() {
        spec_g2_size(config, compression)
    } else {
        spec_g1_size(config, compression)
    }
}

/// Offset of the first byte of a section.
pub open spec fn spec_section_offset(
    config: ConfigModel,
    compression: UseCompression,
    section: Section,
) -> int {
    let n = config.tau_powers_length();
    let g1 = spec_g1_size(config, compression);
    let g2 = spec_g2_size(config, compression);
    match section {
        Section::TauG1 => HASH_SIZE as int,
        Section::TauG2 => HASH_SIZE + (2 * n - 1) * g1,
        Section::AlphaG1 => HASH_SIZE + (2 * n - 1) * g1 + n * g2,
        Section::BetaG1 => HASH_SIZE + (2 * n - 1) * g1 + n * g2 + n * g1,
        Section::BetaG2 => HASH_SIZE + (2 * n - 1) * g1 + n * g2 + n * g1 + n * g1,
    }
}

/// Offset of the first byte of an element.
pub open spec fn spec_slot_offset(
    config: ConfigModel,
    compression: UseCompression,
    section: Section,
    index: int,
) -> int {
    spec_section_offset(config, compression, section) + index * spec_element_size(
        config,
        compression,
        section,
    )
}

/// Size of an accumulator file: the hash and the five sections.
pub open spec fn spec_store_size(config: ConfigModel, compression: UseCompression) -> int {
    HASH_SIZE + spec_sections(
        config.tau_powers_length(),
        spec_g1_size(config, compression),
        spec_g2_size(config, compression),
    )
}

/// Size of a response file: an accumulator followed by a public key.
pub open spec fn spec_response_size(config: ConfigModel, compression: UseCompression) -> int {
    spec_store_size(config, compression) + config.public_key_size()
}

/// The bytes of an element within a file.
pub open spec fn spec_slot(
    bytes: Seq<u8>,
    config: ConfigModel,
    compression: UseCompression,
    section: Section,
    index: int,
) -> Seq<u8> {
    bytes.subrange(
        spec_slot_offset(config, compression, section, index),
        spec_slot_offset(config, compression, section, index + 1),
    )
}

/// The section in which a byte beyond the hash lies.
pub open spec fn spec_section_at(
    config: ConfigModel,
    compression: UseCompression,
    position: int,
) -> Section {
    if position < spec_section_offset(config, compression, Section::TauG2) {
        Section::TauG1
    } else if position < spec_section_offset(config, compression, Section::AlphaG1) {
        Section::TauG2
    } else if position < spec_section_offset(config, compression, Section::BetaG1) {
        Section::AlphaG1
    } else if position < spec_section_offset(config, compression, Section::BetaG2) {
        Section::BetaG1
    } else {
        Section::BetaG2
    }
}

/// The sizes of a well-formed configuration bound every offset of the
/// layout: sections follow one another without gaps and end with the file.
pub proof fn lemma_layout_bounds(config: ConfigModel, compression: UseCompression)
    requires
        config.well_formed(),
    ensures
        config.tau_powers_length() >= 2,
        spec_store_size(config, compression) <= usize::MAX,
        spec_store_size(config, UseCompression::No) == config.accumulator_byte_size(),
        spec_store_size(config, UseCompression::Yes) + config.public_key_size()
            == config.contribution_byte_size(),
        forall|section: Section| #[trigger]
            spec_section_offset(config, compression, section) + spec_section_count(
                config,
                section,
            ) * spec_element_size(config, compression, section) == spec_section_end(
                config,
                compression,
                section,
            ),
        forall|section: Section|
            HASH_SIZE <= #[trigger] spec_section_offset(config, compression, section)
                <= spec_section_end(config, compression, section) <= spec_store_size(
                config,
                compression,
            ),
{
    let n = config.tau_powers_length();
    let g1 = spec_g1_size(config, compression);
    let g2 = spec_g2_size(config, compression);
    lemma_pow2_unfold(config.ceremony.required_power as nat);
    lemma_pow2_pos((config.ceremony.required_power - 1) as nat);
    assert(0 <= (2 * n - 1) * g1 && 0 <= n * g2 && 0 <= n * g1) by (nonlinear_arith)
        requires
            n >= 1,
            g1 >= 0,
            g2 >= 0,
    ;
    assert(1 * g2 == g2);
    let u1 = config.g1_uncompressed_byte_size as int;
    let u2 = config.g2_uncompressed_byte_size as int;
    assert(0 <= 3 * u2 + 6 * u1);
}

/// Offset of the first byte after a section, which is where the next one
/// starts.
pub open spec fn spec_section_end(
    config: ConfigModel,
    compression: UseCompression,
    section: Section,
) -> int {
    match section {
        Section::TauG1 => spec_section_offset(config, compression, Section::TauG2),
        Section::TauG2 => spec_section_offset(config, compression, Section::AlphaG1),
        Section::AlphaG1 => spec_section_offset(config, compression, Section::BetaG1),
        Section::BetaG1 => spec_section_offset(config, compression, Section::BetaG2),
        Section::BetaG2 => spec_store_size(config, compression),
    }
}

/// The slots of a section follow one another and stay within the section.
pub proof fn lemma_slot_bounds(
    config: ConfigModel,
    compression: UseCompression,
    section: Section,
    index: int,
)
    requires
        config.well_formed(),
        0 <= index < spec_section_count(config, section),
    ensures
        spec_section_offset(config, compression, section) <= spec_slot_offset(
            config,
            compression,
            section,
            index,
        ),
        spec_slot_offset(config, compression, section, index + 1) == spec_slot_offset(
            config,
            compression,
            section,
            index,
        ) + spec_element_size(config, compression, section),
        spec_slot_offset(config, compression, section, index + 1) <= spec_section_end(
            config,
            compression,
            section,
        ),
        spec_slot_offset(config, compression, section, index + 1) <= spec_store_size(
            config,
            compression,
        ),
{
    lemma_layout_bounds(config, compression);
    let size = spec_element_size(config, compression, section);
    let count = spec_section_count(config, section);
    assert(0 <= index * size && (index + 1) * size == index * size + size && (index + 1) * size
        <= count * size) by (nonlinear_arith)
        requires
            0 <= index < count,
            0 <= size,
    ;
}

/// Every byte beyond the hash lies in a slot, where elements have a size:
/// the slots of the five sections tile the file.
pub proof fn lemma_slots_tile(config: ConfigModel, compression: UseCompression, position: int)
    requires
        config.well_formed(),
        spec_g1_size(config, compression) > 0,
        spec_g2_size(config, compression) > 0,
        HASH_SIZE <= position < spec_store_size(config, compression),
    ensures
        ({
            let section = spec_section_at(config, compression, position);
            let size = spec_element_size(config, compression, section);
            let index = (position - spec_section_offset(config, compression, section)) / size;
            &&& 0 <= index < spec_section_count(config, section)
            &&& spec_slot_offset(config, compression, section, index) <= position
                < spec_slot_offset(config, compression, section, index + 1)
        }),
{
    lemma_layout_bounds(config, compression);
    let section = spec_section_at(config, compression, position);
    let size = spec_element_size(config, compression, section);
    let count = spec_section_count(config, section);
    let start = spec_section_offset(config, compression, section);
    let within = position - start;
    assert(start + count * size == spec_section_end(config, compression, section));
    assert(0 <= within < count * size);
    let index = within / size;
    lemma_fundamental_div_mod(within, size);
    lemma_mod_bound(within, size);
    assert(0 <= index < count && index * size <= within < (index + 1) * size)
        by (nonlinear_arith)
        requires
            within == size * index + within % size,
            0 <= within % size < size,
            0 <= within < count * size,
            size > 0,
    ;
}

/// Size of an element of G1 in the given mode.
pub fn g1_size(params: &RuntimeCeremonyParameters, compression: UseCompression) -> (r: usize)
    ensures
        r == spec_g1_size(params@, compression),
{
    match compression {
        UseCompression::Yes => params.g1_compressed_byte_size(),
        UseCompression::No => params.g1_uncompressed_byte_size(),
    }
}

/// Size of an element of G2 in the given mode.
pub fn g2_size(params: &RuntimeCeremonyParameters, compression: UseCompression) -> (r: usize)
    ensures
        r == spec_g2_size(params@, compression),
{
    match compression {
        UseCompression::Yes => params.g2_compressed_byte_size(),
        UseCompression::No => params.g2_uncompressed_byte_size(),
    }
}

/// Number of elements of a section.
pub fn section_count(params: &RuntimeCeremonyParameters, section: Section) -> (r: usize)
    ensures
        r == spec_section_count(params@, section),
        params@.well_formed(),
        r >= 1,
{
    proof {
        lemma_pow2_pos(params@.ceremony.required_power as nat);
    }
    match section {
        Section::TauG1 => params.tau_powers_g1_length(),
        Section::BetaG2 => {
            let _ = params.tau_powers_length();
            1
        },
        _ => params.tau_powers_length(),
    }
}

/// Size of one element of a section.
pub fn element_size(
    params: &RuntimeCeremonyParameters,
    compression: UseCompression,
    section: Section,
) -> (r: usize)
    ensures
        r == spec_element_size(params@, compression, section),
{
    if section.in_g2() {
        g2_size(params, compression)
    } else {
        g1_size(params, compression)
    }
}

/// Size of an accumulator file.
pub fn store_size(params: &RuntimeCeremonyParameters, compression: UseCompression) -> (r: usize)
    ensures
        r == spec_store_size(params@, compression),
        params@.well_formed(),
{
    match compression {
        UseCompression::No => {
            let size = params.accumulator_byte_size();
            proof {
                lemma_layout_bounds(params@, compression);
            }
            size
        },
        UseCompression::Yes => {
            let with_key = params.contribution_byte_size();
            let key = params.public_key_size();
            proof {
                lemma_layout_bounds(params@, compression);
            }
            with_key - key
        },
    }
}

/// Size of a response file, where it fits the address space.
pub fn response_size(params: &RuntimeCeremonyParameters, compression: UseCompression) -> (r:
    Option<usize>)
    ensures
        params@.well_formed(),
        match r {
            Some(size) => size == spec_response_size(params@, compression),
            None => spec_response_size(params@, compression) > usize::MAX,
        },
{
    let store = store_size(params, compression);
    store.checked_add(params.public_key_size())
}

/// Offset of the first byte of a section.
pub fn section_offset(
    params: &RuntimeCeremonyParameters,
    compression: UseCompression,
    section: Section,
) -> (r: usize)
    ensures
        r == spec_section_offset(params@, compression, section),
        params@.well_formed(),
{
    let n = params.tau_powers_length();
    let n_g1 = params.tau_powers_g1_length();
    let g1 = g1_size(params, compression);
    let g2 = g2_size(params, compression);
    proof {
        lemma_layout_bounds(params@, compression);
        assert(spec_section_offset(params@, compression, Section::BetaG2) <= usize::MAX);
        assert(0 <= n_g1 * g1 && 0 <= n * g2 && 0 <= n * g1) by (nonlinear_arith)
            requires
                n_g1 >= 0,
                n >= 0,
                g1 >= 0,
                g2 >= 0,
        ;
    }
    match section {
        Section::TauG1 => HASH_SIZE,
        Section::TauG2 => HASH_SIZE + n_g1 * g1,
        Section::AlphaG1 => HASH_SIZE + n_g1 * g1 + n * g2,
        Section::BetaG1 => HASH_SIZE + n_g1 * g1 + n * g2 + n * g1,
        Section::BetaG2 => HASH_SIZE + n_g1 * g1 + n * g2 + n * g1 + n * g1,
    }
}

/// Offset of the first byte of an element. `index` may be the section's
/// count, which gives the offset of the section's end.
pub fn slot_offset(
    params: &RuntimeCeremonyParameters,
    compression: UseCompression,
    section: Section,
    index: usize,
) -> (r: usize)
    requires
        index <= spec_section_count(params@, section),
    ensures
        r == spec_slot_offset(params@, compression, section, index as int),
        r <= spec_store_size(params@, compression),
        params@.well_formed(),
{
    let start = section_offset(params, compression, section);
    let size = element_size(params, compression, section);
    proof {
        lemma_layout_bounds(params@, compression);
        let count = spec_section_count(params@, section);
        assert(0 <= index * size <= count * size) by (nonlinear_arith)
            requires
                0 <= index <= count,
                0 <= size,
        ;
        assert(start + count * size == spec_section_end(params@, compression, section));
    }
    start + index * size
}

} // verus!
