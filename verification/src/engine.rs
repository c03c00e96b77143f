//! The batched exponentiation engine: raises every element of an
//! accumulator to the power that its position and the participant's secrets
//! give, a batch of elements at a time.

use vstd::prelude::*;
use vstd::arithmetic::div_mod::{lemma_mul_mod_noop_left, lemma_mul_mod_noop_right};
use vstd::arithmetic::power::pow;
use crate::config::{ConfigError, ConfigModel, HASH_SIZE};
use crate::curve::{g1_multiple, g1_size, g2_multiple, g2_size, DecodeError, G1Point, G2Point};
use crate::error::CeremonyError;
use crate::keypair::{Keypair, KeypairModel, PUBLIC_KEY_SIZE};
use crate::layout::{
    lemma_layout_bounds, lemma_slot_bounds, section_count, spec_element_size,
    spec_section_count, spec_section_end, spec_section_offset, spec_slot, spec_slot_offset,
    spec_store_size, Section,
};
use crate::parameters::UseCompression;
use crate::scalar::{scalar_modulus, Scalar};
use crate::store::{
    lemma_same_slots_same_bytes, matches_curve, spec_matches_curve, AccumulatorStore,
};
use crate::utils::{append, blake2b_512};

verus! {

/// An element of one of the two groups.
#[derive(Debug)]
pub enum Element {
    InG1(G1Point),
    InG2(G2Point),
}

impl View for Element {
    type V = Seq<u8>;

    open spec fn view(&self) -> Seq<u8> {
        match self {
            Element::InG1(p) => p@,
            Element::InG2(p) => p@,
        }
    }
}

/// What reading a slot of a section yields: the uncompressed encoding of the
/// element, or the reason for which there is none.
pub open spec fn spec_read_element(slot: Seq<u8>, section: Section, mode: UseCompression)
    -> Result<Seq<u8>, DecodeError> {
    if section.spec_in_g2() {
        G2Point::spec_read(slot, mode)
    } else {
        G1Point::spec_read(slot, mode)
    }
}

/// The encoding, in the given mode, of the multiple of an element of a
/// section.
pub open spec fn spec_scaled_element(
    point: Seq<u8>,
    section: Section,
    exponent: nat,
    mode: UseCompression,
) -> Seq<u8> {
    if section.spec_in_g2() {
        G2Point::spec_write(g2_multiple(point, exponent), mode)
    } else {
        G1Point::spec_write(g1_multiple(point, exponent), mode)
    }
}

/// The factor that a section's exponents share: one for the powers of tau,
/// alpha and beta for theirs.
pub open spec fn spec_coefficient(key: KeypairModel, section: Section) -> nat {
    match section {
        Section::TauG1 => 1,
        Section::TauG2 => 1,
        Section::AlphaG1 => key.alpha,
        Section::BetaG1 => key.beta,
        Section::BetaG2 => key.beta,
    }
}

/// The scalar `coefficient * base^index` of the field. With the coefficient
/// of a section and tau as the base, this is the exponent to which a
/// contribution raises the element at `index` of the section.
pub open spec fn spec_power(coefficient: nat, base: nat, index: nat) -> nat {
    ((coefficient * pow(base as int, index)) % (scalar_modulus() as int)) as nat
}

/// The reason for which the first of the slots before `upto` of a section
/// that cannot be read is refused.
pub open spec fn spec_section_failure(
    bytes: Seq<u8>,
    config: ConfigModel,
    mode: UseCompression,
    section: Section,
    upto: int,
) -> Option<DecodeError>
    decreases upto,
{
    if upto <= 0 {
        None
    } else {
        match spec_section_failure(bytes, config, mode, section, upto - 1) {
            Some(e) => Some(e),
            None => match spec_read_element(
                spec_slot(bytes, config, mode, section, upto - 1),
                section,
                mode,
            ) {
                Ok(_) => None,
                Err(e) => Some(e),
            },
        }
    }
}

/// The reason for which a whole section cannot be read, if any.
pub open spec fn spec_whole_section_failure(
    bytes: Seq<u8>,
    config: ConfigModel,
    mode: UseCompression,
    section: Section,
) -> Option<DecodeError> {
    spec_section_failure(bytes, config, mode, section, spec_section_count(config, section))
}

/// The first of two failures.
pub open spec fn spec_or_else(first: Option<DecodeError>, second: Option<DecodeError>) -> Option<
    DecodeError,
> {
    if first is Some {
        first
    } else {
        second
    }
}

/// The reason for which the first slot of a file, in file order, that cannot
/// be read is refused.
pub open spec fn spec_store_failure(bytes: Seq<u8>, config: ConfigModel, mode: UseCompression)
    -> Option<DecodeError> {
    spec_or_else(
        spec_whole_section_failure(bytes, config, mode, Section::TauG1),
        spec_or_else(
            spec_whole_section_failure(bytes, config, mode, Section::TauG2),
            spec_or_else(
                spec_whole_section_failure(bytes, config, mode, Section::AlphaG1),
                spec_or_else(
                    spec_whole_section_failure(bytes, config, mode, Section::BetaG1),
                    spec_whole_section_failure(bytes, config, mode, Section::BetaG2),
                ),
            ),
        ),
    )
}

/// `written` is the encoding of the element that `slot` holds, raised to
/// `exponent`.
pub open spec fn spec_element_transformed(
    slot: Seq<u8>,
    in_mode: UseCompression,
    written: Seq<u8>,
    out_mode: UseCompression,
    section: Section,
    exponent: nat,
) -> bool {
    let read = spec_read_element(slot, section, in_mode);
    read is Ok && written == spec_scaled_element(read->Ok_0, section, exponent, out_mode)
}

/// A slot of `output` holds the element of the same slot of `input`, raised
/// to the exponent `coefficient * base^index`.
pub open spec fn spec_slot_transformed(
    input: Seq<u8>,
    in_mode: UseCompression,
    output: Seq<u8>,
    out_mode: UseCompression,
    config: ConfigModel,
    section: Section,
    index: int,
    coefficient: nat,
    base: nat,
) -> bool {
    spec_element_transformed(
        spec_slot(input, config, in_mode, section, index),
        in_mode,
        spec_slot(output, config, out_mode, section, index),
        out_mode,
        section,
        spec_power(coefficient, base, index as nat),
    )
}

/// `response` is the transformation of `challenge` by the key: it starts
/// with the digest of the challenge, and each of its slots holds the element
/// of the challenge's slot raised to the exponent of its position.
pub open spec fn is_transformation(
    challenge: Seq<u8>,
    in_mode: UseCompression,
    response: Seq<u8>,
    out_mode: UseCompression,
    config: ConfigModel,
    key: KeypairModel,
) -> bool {
    &&& response.len() == spec_store_size(config, out_mode)
    &&& response.subrange(0, HASH_SIZE as int) == blake2b_512(challenge)
    &&& forall|section: Section, index: int|
        0 <= index < spec_section_count(config, section) ==> #[trigger] spec_slot_transformed(
            challenge,
            in_mode,
            response,
            out_mode,
            config,
            section,
            index,
            spec_coefficient(key, section),
            key.tau,
        )
}

/// What a transformation fails with, if it does: a batch size of zero, sizes
/// that are not the curve's, or the first unreadable slot of the challenge.
pub open spec fn spec_transform_error(
    challenge: Seq<u8>,
    in_mode: UseCompression,
    config: ConfigModel,
    batch_size: usize,
) -> Option<CeremonyError> {
    if batch_size == 0 {
        Some(CeremonyError::Config(ConfigError::InvalidBatchSize))
    } else if !spec_matches_curve(config) {
        Some(CeremonyError::Config(ConfigError::CurveMismatch))
    } else {
        match spec_store_failure(challenge, config, in_mode) {
            Some(e) => Some(CeremonyError::Decode(e)),
            None => None,
        }
    }
}

impl Element {
    /// Reads the element that a slot of a section holds.
    pub fn read(slot: &[u8], section: Section, mode: UseCompression) -> (r: Result<
        Element,
        DecodeError,
    >)
        ensures
            match r {
                Ok(element) => spec_read_element(slot@, section, mode) == Ok::<
                    Seq<u8>,
                    DecodeError,
                >(element@) && (element is InG2 <==> section.spec_in_g2()),
                Err(e) => spec_read_element(slot@, section, mode) == Err::<Seq<u8>, DecodeError>(
                    e,
                ),
            },
    {
        if section.in_g2() {
            match G2Point::read(slot, mode) {
                Ok(p) => Ok(Element::InG2(p)),
                Err(e) => Err(e),
            }
        } else {
            match G1Point::read(slot, mode) {
                Ok(p) => Ok(Element::InG1(p)),
                Err(e) => Err(e),
            }
        }
    }

    /// The encoding, in the given mode, of the multiple of the element by a
    /// scalar.
    pub fn scaled(&self, exponent: &Scalar, section: Section, mode: UseCompression) -> (bytes:
        Vec<u8>)
        requires
            self is InG2 <==> section.spec_in_g2(),
        ensures
            bytes@ == spec_scaled_element(self@, section, exponent@, mode),
            bytes@.len() == (if section.spec_in_g2() {
                g2_size(mode)
            } else {
                g1_size(mode)
            }),
    {
        match self {
            Element::InG1(p) => p.mul(exponent).write(mode),
            Element::InG2(p) => p.mul(exponent).write(mode),
        }
    }
}

/// Multiplying the power for one index by the base gives the power for the
/// next.
pub proof fn lemma_power_step(coefficient: nat, base: nat, index: nat)
    ensures
        (spec_power(coefficient, base, index) * base) % scalar_modulus() == spec_power(
            coefficient,
            base,
            index + 1,
        ),
{
    let m = scalar_modulus() as int;
    let x = coefficient * pow(base as int, index);
    lemma_mul_mod_noop_left(x, base as int, m);
    reveal_with_fuel(pow, 2);
    assert(pow(base as int, index + 1) == base * pow(base as int, index));
    assert(x * base == coefficient * pow(base as int, index + 1)) by (nonlinear_arith)
        requires
            x == coefficient * pow(base as int, index),
            pow(base as int, index + 1) == base * pow(base as int, index),
    ;
    lemma_power_nonnegative(coefficient, base, index);
    lemma_power_nonnegative(coefficient, base, index + 1);
}

/// The product under the modulus is not negative.
proof fn lemma_power_nonnegative(coefficient: nat, base: nat, index: nat)
    ensures
        0 <= coefficient * pow(base as int, index),
        0 <= pow(base as int, index),
    decreases index,
{
    reveal_with_fuel(pow, 1);
    if index > 0 {
        lemma_power_nonnegative(coefficient, base, (index - 1) as nat);
        assert(0 <= base * pow(base as int, (index - 1) as nat)) by (nonlinear_arith)
            requires
                0 <= base,
                0 <= pow(base as int, (index - 1) as nat),
        ;
    }
    assert(0 <= coefficient * pow(base as int, index)) by (nonlinear_arith)
        requires
            0 <= coefficient,
            0 <= pow(base as int, index),
    ;
}

/// The scalar `coefficient * base^index`, from the power of the base.
fn power_at(coefficient: &Scalar, base: &Scalar, index: usize) -> (r: Scalar)
    ensures
        r@ == spec_power(coefficient@, base@, index as nat),
{
    let raised = base.pow(index as u64);
    let r = coefficient.mul(&raised);
    proof {
        lemma_mul_mod_noop_right(
            coefficient@ as int,
            pow(base@ as int, index as nat),
            scalar_modulus() as int,
        );
        lemma_power_nonnegative(coefficient@, base@, index as nat);
    }
    r
}

/// A failure among the first slots of a section is the failure of every
/// longer run of its slots.
pub proof fn lemma_failure_persists(
    bytes: Seq<u8>,
    config: ConfigModel,
    mode: UseCompression,
    section: Section,
    found: int,
    upto: int,
)
    requires
        found <= upto,
        spec_section_failure(bytes, config, mode, section, found) is Some,
    ensures
        spec_section_failure(bytes, config, mode, section, upto) == spec_section_failure(
            bytes,
            config,
            mode,
            section,
            found,
        ),
    decreases upto - found,
{
    if found < upto {
        lemma_failure_persists(bytes, config, mode, section, found, upto - 1);
    }
}

/// Where no slot before `upto` fails, every one of them can be read.
pub proof fn lemma_no_failure_reads(
    bytes: Seq<u8>,
    config: ConfigModel,
    mode: UseCompression,
    section: Section,
    upto: int,
    index: int,
)
    requires
        0 <= index < upto,
        spec_section_failure(bytes, config, mode, section, upto) is None,
    ensures
        spec_read_element(spec_slot(bytes, config, mode, section, index), section, mode) is Ok,
    decreases upto,
{
    if index < upto - 1 {
        lemma_no_failure_reads(bytes, config, mode, section, upto - 1, index);
    }
}

/// Slots of a section in which two files agree byte for byte are equal.
proof fn lemma_slot_kept(
    a: Seq<u8>,
    b: Seq<u8>,
    config: ConfigModel,
    mode: UseCompression,
    section: Section,
    index: int,
)
    requires
        config.well_formed(),
        0 <= index < spec_section_count(config, section),
        a.len() == spec_store_size(config, mode),
        b.len() == a.len(),
        forall|j: int|
            spec_slot_offset(config, mode, section, index) <= j < spec_slot_offset(
                config,
                mode,
                section,
                index + 1,
            ) ==> a[j] == b[j],
    ensures
        spec_slot(a, config, mode, section, index) == spec_slot(b, config, mode, section, index),
{
    lemma_slot_bounds(config, mode, section, index);
    lemma_layout_bounds(config, mode);
    assert(0 <= spec_section_offset(config, mode, section));
    assert(spec_slot(a, config, mode, section, index) =~= spec_slot(
        b,
        config,
        mode,
        section,
        index,
    ));
}

/// The offsets of the slots of a section grow with their index.
proof fn lemma_slot_order(
    config: ConfigModel,
    mode: UseCompression,
    section: Section,
    low: int,
    high: int,
)
    requires
        config.well_formed(),
        0 <= low <= high <= spec_section_count(config, section),
    ensures
        spec_section_offset(config, mode, section) <= spec_slot_offset(config, mode, section, low)
            <= spec_slot_offset(config, mode, section, high) <= spec_section_end(
            config,
            mode,
            section,
        ),
{
    lemma_layout_bounds(config, mode);
    let size = spec_element_size(config, mode, section);
    let count = spec_section_count(config, section);
    assert(0 <= low * size <= high * size <= count * size) by (nonlinear_arith)
        requires
            0 <= low <= high <= count,
            0 <= size,
    ;
}

/// A batch whose elements can all be read extends the run of readable slots
/// of its section.
pub proof fn lemma_run_read(
    bytes: Seq<u8>,
    config: ConfigModel,
    mode: UseCompression,
    section: Section,
    start: int,
    end: int,
    batch: Seq<Vec<u8>>,
)
    requires
        0 <= start <= end,
        batch.len() == end - start,
        spec_section_failure(bytes, config, mode, section, start) is None,
        forall|k: int|
            0 <= k < batch.len() ==> (#[trigger] batch[k])@ == spec_slot(
                bytes,
                config,
                mode,
                section,
                start + k,
            ),
        forall|k: int|
            0 <= k < batch.len() ==> (#[trigger] spec_read_element(batch[k]@, section, mode))
                is Ok,
    ensures
        spec_section_failure(bytes, config, mode, section, end) is None,
    decreases end - start,
{
    if start < end {
        let shorter = batch.subrange(0, batch.len() - 1);
        assert forall|k: int| 0 <= k < shorter.len() implies (#[trigger] shorter[k])@
            == spec_slot(bytes, config, mode, section, start + k) by {
            assert(shorter[k] == batch[k]);
        }
        assert forall|k: int| 0 <= k < shorter.len() implies (#[trigger] spec_read_element(
            shorter[k]@,
            section,
            mode,
        )) is Ok by {
            assert(shorter[k] == batch[k]);
            assert(spec_read_element(batch[k]@, section, mode) is Ok);
        }
        lemma_run_read(bytes, config, mode, section, start, end - 1, shorter);
        let last = batch.len() - 1;
        assert(batch[last]@ == spec_slot(bytes, config, mode, section, start + last));
        assert(spec_read_element(batch[last]@, section, mode) is Ok);
    }
}

/// A batch whose elements can be read up to one that cannot gives the
/// failure of its section.
pub proof fn lemma_run_failed(
    bytes: Seq<u8>,
    config: ConfigModel,
    mode: UseCompression,
    section: Section,
    start: int,
    at: int,
    e: DecodeError,
    batch: Seq<Vec<u8>>,
)
    requires
        0 <= start,
        0 <= at < batch.len(),
        start + batch.len() <= spec_section_count(config, section),
        spec_section_failure(bytes, config, mode, section, start) is None,
        forall|k: int|
            0 <= k < batch.len() ==> (#[trigger] batch[k])@ == spec_slot(
                bytes,
                config,
                mode,
                section,
                start + k,
            ),
        forall|k: int|
            0 <= k < at ==> (#[trigger] spec_read_element(batch[k]@, section, mode)) is Ok,
        spec_read_element(batch[at]@, section, mode) == Err::<Seq<u8>, DecodeError>(e),
    ensures
        spec_whole_section_failure(bytes, config, mode, section) == Some(e),
{
    let readable = batch.subrange(0, at);
    assert forall|k: int| 0 <= k < readable.len() implies (#[trigger] readable[k])@ == spec_slot(
        bytes,
        config,
        mode,
        section,
        start + k,
    ) by {
        assert(readable[k] == batch[k]);
    }
    assert forall|k: int| 0 <= k < readable.len() implies (#[trigger] spec_read_element(
        readable[k]@,
        section,
        mode,
    )) is Ok by {
        assert(readable[k] == batch[k]);
        assert(spec_read_element(batch[k]@, section, mode) is Ok);
    }
    lemma_run_read(bytes, config, mode, section, start, start + at, readable);
    assert(batch[at]@ == spec_slot(bytes, config, mode, section, start + at));
    assert(spec_section_failure(bytes, config, mode, section, start + at + 1) == Some(e));
    lemma_failure_persists(
        bytes,
        config,
        mode,
        section,
        start + at + 1,
        spec_section_count(config, section),
    );
}

/// After a batch has been written over `before`, the slots up to its end are
/// transformed where those before its start were and the batch holds the
/// transformed elements of its slots.
proof fn lemma_batch_written(
    input: Seq<u8>,
    in_mode: UseCompression,
    before: Seq<u8>,
    after: Seq<u8>,
    out_mode: UseCompression,
    config: ConfigModel,
    section: Section,
    start: int,
    scaled: Seq<Seq<u8>>,
    coefficient: nat,
    base: nat,
)
    requires
        config.well_formed(),
        0 <= start,
        start + scaled.len() <= spec_section_count(config, section),
        before.len() == spec_store_size(config, out_mode),
        after.len() == before.len(),
        forall|index: int|
            0 <= index < start ==> #[trigger] spec_slot_transformed(
                input,
                in_mode,
                before,
                out_mode,
                config,
                section,
                index,
                coefficient,
                base,
            ),
        forall|k: int|
            0 <= k < scaled.len() ==> #[trigger] spec_slot(
                after,
                config,
                out_mode,
                section,
                start + k,
            ) == scaled[k],
        forall|k: int|
            0 <= k < scaled.len() ==> spec_element_transformed(
                spec_slot(input, config, in_mode, section, start + k),
                in_mode,
                #[trigger] scaled[k],
                out_mode,
                section,
                spec_power(coefficient, base, (start + k) as nat),
            ),
        forall|j: int|
            0 <= j < before.len() && !(spec_slot_offset(config, out_mode, section, start) <= j
                < spec_slot_offset(config, out_mode, section, start + scaled.len()))
                ==> after[j] == before[j],
    ensures
        forall|index: int|
            0 <= index < start + scaled.len() ==> #[trigger] spec_slot_transformed(
                input,
                in_mode,
                after,
                out_mode,
                config,
                section,
                index,
                coefficient,
                base,
            ),
{
    assert forall|index: int| 0 <= index < start + scaled.len() implies
        #[trigger] spec_slot_transformed(
        input,
        in_mode,
        after,
        out_mode,
        config,
        section,
        index,
        coefficient,
        base,
    ) by {
        if index < start {
            lemma_slot_order(config, out_mode, section, index + 1, start);
            lemma_slot_order(config, out_mode, section, index, index + 1);
            lemma_layout_bounds(config, out_mode);
            assert(0 <= spec_section_offset(config, out_mode, section));
            assert(spec_section_end(config, out_mode, section) <= before.len());
            lemma_slot_kept(before, after, config, out_mode, section, index);
            assert(spec_slot_transformed(
                input,
                in_mode,
                before,
                out_mode,
                config,
                section,
                index,
                coefficient,
                base,
            ));
        } else {
            let k = index - start;
            assert(spec_slot(after, config, out_mode, section, start + k) == scaled[k]);
        }
    }
}

/// A batch that was read from `input`, transformed and written over
/// `before` extends both the run of transformed slots of `after` and the run
/// of readable slots of `input`.
proof fn lemma_batch_done(
    input: Seq<u8>,
    in_mode: UseCompression,
    before: Seq<u8>,
    after: Seq<u8>,
    out_mode: UseCompression,
    config: ConfigModel,
    section: Section,
    start: int,
    batch: Seq<Vec<u8>>,
    scaled: Seq<Vec<u8>>,
    coefficient: nat,
    base: nat,
    at_first: Seq<u8>,
)
    requires
        config.well_formed(),
        0 <= start,
        start + batch.len() <= spec_section_count(config, section),
        scaled.len() == batch.len(),
        before.len() == spec_store_size(config, out_mode),
        after.len() == before.len(),
        at_first.len() == before.len(),
        forall|j: int|
            0 <= j < before.len() && !(spec_section_offset(config, out_mode, section) <= j
                < spec_slot_offset(config, out_mode, section, start)) ==> before[j]
                == at_first[j],
        spec_section_failure(input, config, in_mode, section, start) is None,
        forall|index: int|
            0 <= index < start ==> #[trigger] spec_slot_transformed(
                input,
                in_mode,
                before,
                out_mode,
                config,
                section,
                index,
                coefficient,
                base,
            ),
        forall|k: int|
            0 <= k < batch.len() ==> (#[trigger] batch[k])@ == spec_slot(
                input,
                config,
                in_mode,
                section,
                start + k,
            ),
        forall|k: int|
            0 <= k < batch.len() ==> spec_element_transformed(
                batch[k]@,
                in_mode,
                (#[trigger] scaled[k])@,
                out_mode,
                section,
                spec_power(coefficient, base, (start + k) as nat),
            ),
        forall|k: int|
            0 <= k < scaled.len() ==> #[trigger] spec_slot(
                after,
                config,
                out_mode,
                section,
                start + k,
            ) == scaled[k]@,
        forall|j: int|
            0 <= j < before.len() && !(spec_slot_offset(config, out_mode, section, start) <= j
                < spec_slot_offset(config, out_mode, section, start + scaled.len()))
                ==> after[j] == before[j],
    ensures
        spec_section_failure(input, config, in_mode, section, start + batch.len()) is None,
        forall|j: int|
            0 <= j < after.len() && !(spec_section_offset(config, out_mode, section) <= j
                < spec_slot_offset(config, out_mode, section, start + batch.len())) ==> after[j]
                == at_first[j],
        forall|index: int|
            0 <= index < start + batch.len() ==> #[trigger] spec_slot_transformed(
                input,
                in_mode,
                after,
                out_mode,
                config,
                section,
                index,
                coefficient,
                base,
            ),
{
    assert forall|k: int| 0 <= k < batch.len() implies (#[trigger] spec_read_element(
        batch[k]@,
        section,
        in_mode,
    )) is Ok by {
        assert(spec_element_transformed(
            batch[k]@,
            in_mode,
            scaled[k]@,
            out_mode,
            section,
            spec_power(coefficient, base, (start + k) as nat),
        ));
    }
    lemma_run_read(input, config, in_mode, section, start, start + batch.len(), batch);
    lemma_slot_order(config, out_mode, section, start, start + batch.len());
    lemma_slot_order(config, out_mode, section, 0, start);
    let views = Seq::new(scaled.len(), |k: int| scaled[k]@);
    assert forall|k: int| 0 <= k < views.len() implies spec_element_transformed(
        spec_slot(input, config, in_mode, section, start + k),
        in_mode,
        #[trigger] views[k],
        out_mode,
        section,
        spec_power(coefficient, base, (start + k) as nat),
    ) by {
        assert(batch[k]@ == spec_slot(input, config, in_mode, section, start + k));
        assert(spec_element_transformed(
            batch[k]@,
            in_mode,
            scaled[k]@,
            out_mode,
            section,
            spec_power(coefficient, base, (start + k) as nat),
        ));
    }
    lemma_batch_written(
        input,
        in_mode,
        before,
        after,
        out_mode,
        config,
        section,
        start,
        views,
        coefficient,
        base,
    );
}

/// Raises the elements of one batch to their exponents. The scalar for the
/// first element comes from the power of the base; each further one is the
/// product of its predecessor and the base. Where an element cannot be
/// read, its index within the batch comes back with the reason.
pub fn transform_batch(
    batch: &Vec<Vec<u8>>,
    section: Section,
    in_mode: UseCompression,
    out_mode: UseCompression,
    coefficient: &Scalar,
    base: &Scalar,
    start: usize,
) -> (r: Result<Vec<Vec<u8>>, (usize, DecodeError)>)
    requires
        start + batch@.len() <= usize::MAX,
    ensures
        match r {
            Ok(scaled) => {
                &&& scaled@.len() == batch@.len()
                &&& forall|k: int|
                    0 <= k < batch@.len() ==> spec_element_transformed(
                        batch@[k]@,
                        in_mode,
                        (#[trigger] scaled@[k])@,
                        out_mode,
                        section,
                        spec_power(coefficient@, base@, (start + k) as nat),
                    )
                &&& forall|k: int|
                    0 <= k < batch@.len() ==> (#[trigger] scaled@[k])@.len() == (if section.spec_in_g2() {
                        g2_size(out_mode)
                    } else {
                        g1_size(out_mode)
                    })
            },
            Err((at, e)) => {
                &&& at < batch@.len()
                &&& spec_read_element(batch@[at as int]@, section, in_mode) == Err::<
                    Seq<u8>,
                    DecodeError,
                >(e)
                &&& forall|k: int|
                    0 <= k < at ==> (#[trigger] spec_read_element(batch@[k]@, section, in_mode))
                        is Ok
            },
        },
{
    let mut current = power_at(coefficient, base, start);
    let mut scaled: Vec<Vec<u8>> = Vec::new();
    let mut j: usize = 0;
    while j < batch.len()
        invariant
            j <= batch@.len(),
            start + batch@.len() <= usize::MAX,
            scaled@.len() == j,
            current@ == spec_power(coefficient@, base@, (start + j) as nat),
            forall|k: int|
                0 <= k < j ==> spec_element_transformed(
                    batch@[k]@,
                    in_mode,
                    (#[trigger] scaled@[k])@,
                    out_mode,
                    section,
                    spec_power(coefficient@, base@, (start + k) as nat),
                ),
            forall|k: int|
                0 <= k < j ==> (#[trigger] scaled@[k])@.len() == (if section.spec_in_g2() {
                    g2_size(out_mode)
                } else {
                    g1_size(out_mode)
                }),
            forall|k: int|
                0 <= k < j ==> (#[trigger] spec_read_element(batch@[k]@, section, in_mode)) is Ok,
        decreases batch@.len() - j,
    {
        let element = match Element::read(batch[j].as_slice(), section, in_mode) {
            Ok(element) => element,
            Err(e) => {
                return Err((j, e));
            },
        };
        let bytes = element.scaled(&current, section, out_mode);
        proof {
            lemma_power_step(coefficient@, base@, (start + j) as nat);
        }
        scaled.push(bytes);
        current = current.mul(base);
        j += 1;
    }
    Ok(scaled)
}

/// Raises the elements of one section of `input` to their exponents and
/// writes them to the same section of `output`, `batch_size` elements at a
/// time.
pub fn transform_section(
    input: &AccumulatorStore,
    output: &mut AccumulatorStore,
    section: Section,
    coefficient: &Scalar,
    base: &Scalar,
    batch_size: usize,
) -> (r: Result<(), DecodeError>)
    requires
        batch_size > 0,
        old(output).spec_writable(),
        old(output).config() == input.config(),
        spec_matches_curve(input.config()),
    ensures
        final(output).config() == old(output).config(),
        final(output).mode() == old(output).mode(),
        final(output).spec_writable() == old(output).spec_writable(),
        final(output)@.len() == old(output)@.len(),
        match r {
            Ok(()) => {
                &&& spec_whole_section_failure(input@, input.config(), input.mode(), section)
                    is None
                &&& forall|index: int|
                    0 <= index < spec_section_count(input.config(), section)
                        ==> #[trigger] spec_slot_transformed(
                        input@,
                        input.mode(),
                        final(output)@,
                        old(output).mode(),
                        input.config(),
                        section,
                        index,
                        coefficient@,
                        base@,
                    )
                &&& forall|j: int|
                    0 <= j < old(output)@.len() && !(spec_section_offset(
                        input.config(),
                        old(output).mode(),
                        section,
                    ) <= j < spec_section_end(input.config(), old(output).mode(), section))
                        ==> final(output)@[j] == old(output)@[j]
            },
            Err(e) => spec_whole_section_failure(input@, input.config(), input.mode(), section)
                == Some(e),
        },
{
    let total = section_count(input.parameters(), section);
    let in_mode = input.compression();
    let out_mode = output.compression();
    let ghost config = input.config();
    let ghost first = spec_section_offset(config, out_mode, section);
    let _ = output.parameters();
    let mut start: usize = 0;
    while start < total
        invariant
            start <= total,
            batch_size > 0,
            total == spec_section_count(config, section),
            config == input.config(),
            config.well_formed(),
            spec_matches_curve(config),
            in_mode == input.mode(),
            out_mode == old(output).mode(),
            output.config() == config,
            old(output).config() == config,
            output.mode() == out_mode,
            output.spec_writable(),
            old(output).spec_writable(),
            output@.len() == old(output)@.len(),
            output@.len() == spec_store_size(config, out_mode),
            first == spec_section_offset(config, out_mode, section),
            spec_section_failure(input@, config, in_mode, section, start as int) is None,
            forall|index: int|
                0 <= index < start ==> #[trigger] spec_slot_transformed(
                    input@,
                    in_mode,
                    output@,
                    out_mode,
                    config,
                    section,
                    index,
                    coefficient@,
                    base@,
                ),
            forall|j: int|
                0 <= j < output@.len() && !(first <= j < spec_slot_offset(
                    config,
                    out_mode,
                    section,
                    start as int,
                )) ==> output@[j] == old(output)@[j],
        decreases total - start,
    {
        let length = if total - start < batch_size {
            total - start
        } else {
            batch_size
        };
        let batch = input.read_slots(section, start, length);
        let scaled = match transform_batch(
            &batch,
            section,
            in_mode,
            out_mode,
            coefficient,
            base,
            start,
        ) {
            Ok(scaled) => scaled,
            Err((at, e)) => {
                proof {
                    lemma_run_failed(
                        input@,
                        config,
                        in_mode,
                        section,
                        start as int,
                        at as int,
                        e,
                        batch@,
                    );
                }
                return Err(e);
            },
        };
        let ghost before = output@;
        output.write_slots(section, start, &scaled);
        proof {
            lemma_batch_done(
                input@,
                in_mode,
                before,
                output@,
                out_mode,
                config,
                section,
                start as int,
                batch@,
                scaled@,
                coefficient@,
                base@,
                old(output)@,
            );
        }
        start += length;
    }
    proof {
        lemma_slot_order(config, out_mode, section, total as int, total as int);
        lemma_layout_bounds(config, out_mode);
    }
    Ok(())
}

/// Every slot of a section of `output` holds the transformed element of the
/// same slot of `input`.
pub open spec fn spec_section_transformed(
    input: Seq<u8>,
    in_mode: UseCompression,
    output: Seq<u8>,
    out_mode: UseCompression,
    config: ConfigModel,
    section: Section,
    coefficient: nat,
    base: nat,
) -> bool {
    forall|index: int|
        0 <= index < spec_section_count(config, section) ==> #[trigger] spec_slot_transformed(
            input,
            in_mode,
            output,
            out_mode,
            config,
            section,
            index,
            coefficient,
            base,
        )
}

/// A transformed section stays transformed while its bytes stay the same.
proof fn lemma_transformed_kept(
    input: Seq<u8>,
    in_mode: UseCompression,
    a: Seq<u8>,
    b: Seq<u8>,
    out_mode: UseCompression,
    config: ConfigModel,
    section: Section,
    coefficient: nat,
    base: nat,
)
    requires
        config.well_formed(),
        a.len() == spec_store_size(config, out_mode),
        b.len() == a.len(),
        spec_section_transformed(input, in_mode, a, out_mode, config, section, coefficient, base),
        forall|j: int|
            spec_section_offset(config, out_mode, section) <= j < spec_section_end(
                config,
                out_mode,
                section,
            ) ==> a[j] == b[j],
    ensures
        spec_section_transformed(input, in_mode, b, out_mode, config, section, coefficient, base),
{
    assert forall|index: int| 0 <= index < spec_section_count(config, section) implies
        #[trigger] spec_slot_transformed(
        input,
        in_mode,
        b,
        out_mode,
        config,
        section,
        index,
        coefficient,
        base,
    ) by {
        lemma_slot_order(config, out_mode, section, index, index + 1);
        lemma_slot_kept(a, b, config, out_mode, section, index);
        assert(spec_slot_transformed(
            input,
            in_mode,
            a,
            out_mode,
            config,
            section,
            index,
            coefficient,
            base,
        ));
    }
}

/// Writing one section leaves a transformed other section transformed.
proof fn lemma_other_section_kept(
    input: Seq<u8>,
    in_mode: UseCompression,
    a: Seq<u8>,
    b: Seq<u8>,
    out_mode: UseCompression,
    config: ConfigModel,
    done: Section,
    written: Section,
    coefficient: nat,
    base: nat,
)
    requires
        config.well_formed(),
        done != written,
        a.len() == spec_store_size(config, out_mode),
        b.len() == a.len(),
        spec_section_transformed(input, in_mode, a, out_mode, config, done, coefficient, base),
        forall|j: int|
            0 <= j < a.len() && !(spec_section_offset(config, out_mode, written) <= j
                < spec_section_end(config, out_mode, written)) ==> b[j] == a[j],
    ensures
        spec_section_transformed(input, in_mode, b, out_mode, config, done, coefficient, base),
{
    lemma_layout_bounds(config, out_mode);
    assert(HASH_SIZE <= spec_section_offset(config, out_mode, done) <= spec_section_end(
        config,
        out_mode,
        done,
    ) <= a.len());
    assert(spec_section_offset(config, out_mode, written) <= spec_section_end(
        config,
        out_mode,
        written,
    ));
    assert(spec_section_end(config, out_mode, done) <= spec_section_offset(
        config,
        out_mode,
        written,
    ) || spec_section_end(config, out_mode, written) <= spec_section_offset(
        config,
        out_mode,
        done,
    ));
    lemma_transformed_kept(input, in_mode, a, b, out_mode, config, done, coefficient, base);
}

/// The hash at the head of a file is not touched by writing a section.
proof fn lemma_hash_kept(
    a: Seq<u8>,
    b: Seq<u8>,
    out_mode: UseCompression,
    config: ConfigModel,
    written: Section,
)
    requires
        config.well_formed(),
        a.len() == spec_store_size(config, out_mode),
        b.len() == a.len(),
        forall|j: int|
            0 <= j < a.len() && !(spec_section_offset(config, out_mode, written) <= j
                < spec_section_end(config, out_mode, written)) ==> b[j] == a[j],
    ensures
        b.subrange(0, HASH_SIZE as int) == a.subrange(0, HASH_SIZE as int),
{
    lemma_layout_bounds(config, out_mode);
    assert(HASH_SIZE <= spec_section_offset(config, out_mode, written));
    assert(b.subrange(0, HASH_SIZE as int) =~= a.subrange(0, HASH_SIZE as int));
}

/// Transforms a challenge into the accumulator of a response: the digest of
/// the challenge, then every element raised to the exponent that the key
/// gives for its position. Sections are transformed one after another, each
/// in batches of `batch_size` elements.
pub fn transform(
    challenge: &AccumulatorStore,
    key: &Keypair,
    out_mode: UseCompression,
    batch_size: usize,
) -> (r: Result<AccumulatorStore, CeremonyError>)
    ensures
        match r {
            Ok(response) => {
                &&& spec_transform_error(
                    challenge@,
                    challenge.mode(),
                    challenge.config(),
                    batch_size,
                ) is None
                &&& response.config() == challenge.config()
                &&& response.mode() == out_mode
                &&& response.spec_writable()
                &&& is_transformation(
                    challenge@,
                    challenge.mode(),
                    response@,
                    out_mode,
                    challenge.config(),
                    key@,
                )
            },
            Err(e) => spec_transform_error(
                challenge@,
                challenge.mode(),
                challenge.config(),
                batch_size,
            ) == Some(e),
        },
{
    if batch_size == 0 {
        return Err(CeremonyError::Config(ConfigError::InvalidBatchSize));
    }
    let params = challenge.parameters();
    if !matches_curve(params) {
        return Err(CeremonyError::Config(ConfigError::CurveMismatch));
    }
    let ghost config = challenge.config();
    let ghost input = challenge@;
    let ghost in_mode = challenge.mode();
    let mut response = AccumulatorStore::blank(params.clone(), out_mode);
    let digest = challenge.finalize();
    response.put_input_hash(&digest);
    proof {
        lemma_layout_bounds(config, out_mode);
    }
    let ghost b0 = response@;
    assert(b0.subrange(0, HASH_SIZE as int) =~= digest@);
    let one = Scalar::one();
    match transform_section(challenge, &mut response, Section::TauG1, &one, key.tau(), batch_size) {
        Ok(()) => {},
        Err(e) => {
            return Err(CeremonyError::Decode(e));
        },
    }
    let ghost b1 = response@;
    match transform_section(challenge, &mut response, Section::TauG2, &one, key.tau(), batch_size) {
        Ok(()) => {},
        Err(e) => {
            return Err(CeremonyError::Decode(e));
        },
    }
    let ghost b2 = response@;
    match transform_section(
        challenge,
        &mut response,
        Section::AlphaG1,
        key.alpha(),
        key.tau(),
        batch_size,
    ) {
        Ok(()) => {},
        Err(e) => {
            return Err(CeremonyError::Decode(e));
        },
    }
    let ghost b3 = response@;
    match transform_section(
        challenge,
        &mut response,
        Section::BetaG1,
        key.beta(),
        key.tau(),
        batch_size,
    ) {
        Ok(()) => {},
        Err(e) => {
            return Err(CeremonyError::Decode(e));
        },
    }
    let ghost b4 = response@;
    match transform_section(
        challenge,
        &mut response,
        Section::BetaG2,
        key.beta(),
        key.tau(),
        batch_size,
    ) {
        Ok(()) => {},
        Err(e) => {
            return Err(CeremonyError::Decode(e));
        },
    }
    proof {
        let b5 = response@;
        let k = key@;
        let t1 = Section::TauG1;
        let t2 = Section::TauG2;
        let al = Section::AlphaG1;
        let be = Section::BetaG1;
        let b2g = Section::BetaG2;
        lemma_other_section_kept(input, in_mode, b1, b2, out_mode, config, t1, t2, 1, k.tau);
        lemma_other_section_kept(input, in_mode, b2, b3, out_mode, config, t1, al, 1, k.tau);
        lemma_other_section_kept(input, in_mode, b3, b4, out_mode, config, t1, be, 1, k.tau);
        lemma_other_section_kept(input, in_mode, b4, b5, out_mode, config, t1, b2g, 1, k.tau);
        lemma_other_section_kept(input, in_mode, b2, b3, out_mode, config, t2, al, 1, k.tau);
        lemma_other_section_kept(input, in_mode, b3, b4, out_mode, config, t2, be, 1, k.tau);
        lemma_other_section_kept(input, in_mode, b4, b5, out_mode, config, t2, b2g, 1, k.tau);
        lemma_other_section_kept(input, in_mode, b3, b4, out_mode, config, al, be, k.alpha, k.tau);
        lemma_other_section_kept(input, in_mode, b4, b5, out_mode, config, al, b2g, k.alpha, k.tau);
        lemma_other_section_kept(input, in_mode, b4, b5, out_mode, config, be, b2g, k.beta, k.tau);
        lemma_hash_kept(b0, b1, out_mode, config, t1);
        lemma_hash_kept(b1, b2, out_mode, config, t2);
        lemma_hash_kept(b2, b3, out_mode, config, al);
        lemma_hash_kept(b3, b4, out_mode, config, be);
        lemma_hash_kept(b4, b5, out_mode, config, b2g);
        assert forall|section: Section, index: int|
            0 <= index < spec_section_count(config, section) implies
            #[trigger] spec_slot_transformed(
            input,
            in_mode,
            b5,
            out_mode,
            config,
            section,
            index,
            spec_coefficient(k, section),
            k.tau,
        ) by {
            assert(spec_section_transformed(
                input,
                in_mode,
                b5,
                out_mode,
                config,
                section,
                spec_coefficient(k, section),
                k.tau,
            ));
        }
    }
    Ok(response)
}

/// What a response file is made of: the transformed accumulator, then the
/// serialised public key.
pub open spec fn is_response(
    challenge: Seq<u8>,
    in_mode: UseCompression,
    response: Seq<u8>,
    out_mode: UseCompression,
    config: ConfigModel,
    key: KeypairModel,
) -> bool {
    let size = spec_store_size(config, out_mode);
    &&& response.len() == size + PUBLIC_KEY_SIZE
    &&& is_transformation(challenge, in_mode, response.subrange(0, size), out_mode, config, key)
    &&& response.subrange(size, size + PUBLIC_KEY_SIZE) == key.public.serialized()
}

/// Makes a contribution: transforms the challenge with the key and appends
/// the public key.
pub fn contribute(
    challenge: &AccumulatorStore,
    key: &Keypair,
    out_mode: UseCompression,
    batch_size: usize,
) -> (r: Result<Vec<u8>, CeremonyError>)
    ensures
        match r {
            Ok(response) => {
                &&& spec_transform_error(
                    challenge@,
                    challenge.mode(),
                    challenge.config(),
                    batch_size,
                ) is None
                &&& is_response(
                    challenge@,
                    challenge.mode(),
                    response@,
                    out_mode,
                    challenge.config(),
                    key@,
                )
            },
            Err(e) => spec_transform_error(
                challenge@,
                challenge.mode(),
                challenge.config(),
                batch_size,
            ) == Some(e),
        },
{
    let store = match transform(challenge, key, out_mode, batch_size) {
        Ok(store) => store,
        Err(e) => {
            return Err(e);
        },
    };
    let ghost accumulator = store@;
    let mut response = store.into_bytes();
    let serialized = key.public_key().serialize();
    append(&mut response, serialized.as_slice());
    proof {
        let size = spec_store_size(challenge.config(), out_mode);
        assert(response@.subrange(0, size) =~= accumulator);
        assert(response@.subrange(size, size + PUBLIC_KEY_SIZE) =~= serialized@);
    }
    Ok(response)
}

/// The transformation of a challenge by a key is unique: whatever the batch
/// sizes with which two responses were computed, they are the same bytes.
pub proof fn lemma_batching_is_unobservable(
    challenge: Seq<u8>,
    in_mode: UseCompression,
    out_mode: UseCompression,
    config: ConfigModel,
    key: KeypairModel,
    first: Seq<u8>,
    second: Seq<u8>,
)
    requires
        config.well_formed(),
        spec_matches_curve(config),
        is_transformation(challenge, in_mode, first, out_mode, config, key),
        is_transformation(challenge, in_mode, second, out_mode, config, key),
    ensures
        first == second,
{
    assert forall|section: Section, index: int|
        0 <= index < spec_section_count(config, section) implies #[trigger] spec_slot(
        first,
        config,
        out_mode,
        section,
        index,
    ) == spec_slot(second, config, out_mode, section, index) by {
        assert(spec_slot_transformed(
            challenge,
            in_mode,
            first,
            out_mode,
            config,
            section,
            index,
            spec_coefficient(key, section),
            key.tau,
        ));
        assert(spec_slot_transformed(
            challenge,
            in_mode,
            second,
            out_mode,
            config,
            section,
            index,
            spec_coefficient(key, section),
            key.tau,
        ));
    }
    lemma_same_slots_same_bytes(first, second, config, out_mode);
}

} // verus!
