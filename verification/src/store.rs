//! The accumulator store: one accumulator file held as a byte region, read
//! and written a batch of elements at a time.

use vstd::prelude::*;
use crate::config::{ConfigError, ConfigModel, HASH_SIZE};
use crate::curve::{
    G1Point, G2Point, G1_COMPRESSED_SIZE, G1_GENERATOR, G1_UNCOMPRESSED_SIZE, G2_COMPRESSED_SIZE,
    G2_GENERATOR, G2_UNCOMPRESSED_SIZE,
};
use crate::layout::{
    element_size, lemma_layout_bounds, lemma_slot_bounds, lemma_slots_tile, section_count,
    slot_offset, spec_element_size, spec_g1_size, spec_g2_size, spec_section_at,
    spec_section_count, spec_section_end, spec_section_offset, spec_slot, spec_slot_offset,
    spec_store_size, store_size, Section,
};
use crate::parameters::UseCompression;
use crate::runtime_parameters::RuntimeCeremonyParameters;
use crate::utils::{
    blank_hash, blake2b_512, copy_range, hash_of, spec_blank_hash, zeroed, zeros,
};

verus! {

/// Why the store refuses an operation.
#[derive(Debug, Clone, Copy, PartialEq, Eq, Structural)]
pub enum IoError {
    /// The region does not have the size that the layout gives.
    SizeMismatch,
    /// The store was opened for reading only.
    ReadOnly,
    /// The batch reaches beyond the end of its section.
    OutOfRange,
    /// A value does not have the size of the section's elements.
    WrongElementSize,
}

/// Whether the configured sizes are those of the encodings of BLS12-381.
pub open spec fn spec_matches_curve(config: ConfigModel) -> bool {
    &&& config.g1_uncompressed_byte_size == G1_UNCOMPRESSED_SIZE
    &&& config.g2_uncompressed_byte_size == G2_UNCOMPRESSED_SIZE
    &&& config.g1_compressed_byte_size == G1_COMPRESSED_SIZE
    &&& config.g2_compressed_byte_size == G2_COMPRESSED_SIZE
}

/// The encoding of the generator that a slot of the section holds at first.
pub open spec fn spec_initial_element(section: Section, compression: UseCompression) -> Seq<u8> {
    if section.spec_in_g2() {
        G2Point::spec_write(G2_GENERATOR@, compression)
    } else {
        G1Point::spec_write(G1_GENERATOR@, compression)
    }
}

/// The trivial accumulator: the blank hash, then the generator in every
/// slot.
pub open spec fn is_initial(bytes: Seq<u8>, config: ConfigModel, compression: UseCompression)
    -> bool {
    &&& bytes.len() == spec_store_size(config, compression)
    &&& bytes.subrange(0, HASH_SIZE as int) == spec_blank_hash()
    &&& forall|section: Section, index: int|
        0 <= index < spec_section_count(config, section) ==> #[trigger] spec_slot(
            bytes,
            config,
            compression,
            section,
            index,
        ) == spec_initial_element(section, compression)
}

/// Whether the configured sizes are those of the encodings of BLS12-381.
pub fn matches_curve(params: &RuntimeCeremonyParameters) -> (r: bool)
    ensures
        r == spec_matches_curve(params@),
{
    params.g1_uncompressed_byte_size() == G1_UNCOMPRESSED_SIZE
        && params.g2_uncompressed_byte_size() == G2_UNCOMPRESSED_SIZE
        && params.g1_compressed_byte_size() == G1_COMPRESSED_SIZE
        && params.g2_compressed_byte_size() == G2_COMPRESSED_SIZE
}

/// Overwrites `target[offset..offset + source.len()]` with `source`.
fn copy_into(target: &mut Vec<u8>, offset: usize, source: &Vec<u8>)
    requires
        offset + source@.len() <= old(target)@.len(),
    ensures
        final(target)@.len() == old(target)@.len(),
        final(target)@.subrange(offset as int, offset + source@.len()) == source@,
        forall|j: int|
            0 <= j < old(target)@.len() && !(offset <= j < offset + source@.len())
                ==> final(target)@[j] == old(target)@[j],
    no_unwind
{
    let length = target.len();
    let mut i: usize = 0;
    while i < source.len()
        invariant
            i <= source@.len(),
            target@.len() == length,
            offset + source@.len() <= target@.len(),
            target@.len() == old(target)@.len(),
            forall|j: int| 0 <= j < i ==> target@[offset + j] == source@[j],
            forall|j: int|
                0 <= j < target@.len() && !(offset <= j < offset + i) ==> target@[j] == old(
                    target,
                )@[j],
        decreases source@.len() - i,
    {
        let at: usize = offset + i;
        let byte: u8 = source[i];
        target[at] = byte;
        i += 1;
    }
    assert(target@.subrange(offset as int, offset + source@.len()) =~= source@);
}

/// Every slot of a section holds `element`.
pub open spec fn spec_section_filled(
    bytes: Seq<u8>,
    config: ConfigModel,
    compression: UseCompression,
    section: Section,
    element: Seq<u8>,
) -> bool {
    forall|index: int|
        0 <= index < spec_section_count(config, section) ==> #[trigger] spec_slot(
            bytes,
            config,
            compression,
            section,
            index,
        ) == element
}

/// A section that is filled stays filled while its bytes stay the same.
proof fn lemma_section_kept(
    a: Seq<u8>,
    b: Seq<u8>,
    config: ConfigModel,
    compression: UseCompression,
    section: Section,
    element: Seq<u8>,
)
    requires
        config.well_formed(),
        a.len() == spec_store_size(config, compression),
        b.len() == a.len(),
        spec_section_filled(a, config, compression, section, element),
        forall|j: int|
            spec_section_offset(config, compression, section) <= j < spec_section_end(
                config,
                compression,
                section,
            ) ==> a[j] == b[j],
    ensures
        spec_section_filled(b, config, compression, section, element),
{
    lemma_layout_bounds(config, compression);
    assert forall|index: int| 0 <= index < spec_section_count(config, section) implies
        #[trigger] spec_slot(b, config, compression, section, index) == element by {
        lemma_slot_bounds(config, compression, section, index);
        assert(spec_slot(a, config, compression, section, index) == element);
        assert(spec_slot(b, config, compression, section, index) =~= spec_slot(
            a,
            config,
            compression,
            section,
            index,
        ));
    }
}

/// One accumulator file, held in memory.
#[derive(Debug)]
pub struct AccumulatorStore {
    params: RuntimeCeremonyParameters,
    compression: UseCompression,
    writable: bool,
    bytes: Vec<u8>,
}

impl View for AccumulatorStore {
    type V = Seq<u8>;

    closed spec fn view(&self) -> Seq<u8> {
        self.bytes@
    }
}

impl AccumulatorStore {
    #[verifier::type_invariant]
    spec fn sized(&self) -> bool {
        self.params@.well_formed() && self.bytes@.len() == spec_store_size(
            self.params@,
            self.compression,
        )
    }

    /// The configuration that gives the layout.
    pub closed spec fn config(&self) -> ConfigModel {
        self.params@
    }

    /// The mode in which the elements are encoded.
    pub closed spec fn mode(&self) -> UseCompression {
        self.compression
    }

    /// Whether the store accepts writes.
    pub closed spec fn spec_writable(&self) -> bool {
        self.writable
    }

    /// The bytes of one element.
    pub open spec fn slot(&self, section: Section, index: int) -> Seq<u8> {
        spec_slot(self@, self.config(), self.mode(), section, index)
    }

    /// The input hash: the first bytes of the file.
    pub open spec fn spec_input_hash(&self) -> Seq<u8> {
        self@.subrange(0, HASH_SIZE as int)
    }

    /// A writable store of the size of its layout, all of whose bytes are
    /// zero.
    pub fn blank(params: RuntimeCeremonyParameters, compression: UseCompression) -> (store: Self)
        ensures
            store.config() == params@,
            store.mode() == compression,
            store.spec_writable(),
            store@ == zeros(spec_store_size(params@, compression) as nat),
    {
        let size = store_size(&params, compression);
        AccumulatorStore { params, compression, writable: true, bytes: zeroed(size) }
    }

    /// Creates the first accumulator of a ceremony: the blank hash, then the
    /// generator in every slot. The configured sizes must be those of the
    /// curve's encodings.
    pub fn create_initial(params: RuntimeCeremonyParameters, compression: UseCompression) -> (r:
        Result<Self, ConfigError>)
        ensures
            match r {
                Ok(store) => {
                    &&& spec_matches_curve(params@)
                    &&& store.config() == params@
                    &&& store.mode() == compression
                    &&& store.spec_writable()
                    &&& is_initial(store@, params@, compression)
                },
                Err(e) => !spec_matches_curve(params@) && e == ConfigError::CurveMismatch,
            },
    {
        if !matches_curve(&params) {
            return Err(ConfigError::CurveMismatch);
        }
        let ghost config = params@;
        let mut store = Self::blank(params, compression);
        let hash = blank_hash();
        let g1 = G1Point::generator().write(compression);
        let g2 = G2Point::generator().write(compression);
        let _ = store.parameters();
        proof {
            lemma_layout_bounds(config, compression);
        }
        store.put_input_hash(&hash);
        let ghost b0 = store.bytes@;
        assert(b0.subrange(0, HASH_SIZE as int) =~= hash@);
        store.fill_section(Section::TauG1, &g1);
        let ghost b1 = store.bytes@;
        store.fill_section(Section::TauG2, &g2);
        let ghost b2 = store.bytes@;
        store.fill_section(Section::AlphaG1, &g1);
        let ghost b3 = store.bytes@;
        store.fill_section(Section::BetaG1, &g1);
        let ghost b4 = store.bytes@;
        store.fill_section(Section::BetaG2, &g2);
        proof {
            let b5 = store.bytes@;
            lemma_section_kept(b1, b2, config, compression, Section::TauG1, g1@);
            lemma_section_kept(b2, b3, config, compression, Section::TauG1, g1@);
            lemma_section_kept(b3, b4, config, compression, Section::TauG1, g1@);
            lemma_section_kept(b4, b5, config, compression, Section::TauG1, g1@);
            lemma_section_kept(b2, b3, config, compression, Section::TauG2, g2@);
            lemma_section_kept(b3, b4, config, compression, Section::TauG2, g2@);
            lemma_section_kept(b4, b5, config, compression, Section::TauG2, g2@);
            lemma_section_kept(b3, b4, config, compression, Section::AlphaG1, g1@);
            lemma_section_kept(b4, b5, config, compression, Section::AlphaG1, g1@);
            lemma_section_kept(b4, b5, config, compression, Section::BetaG1, g1@);
            assert(b5.subrange(0, HASH_SIZE as int) =~= b0.subrange(0, HASH_SIZE as int));
            assert forall|section: Section, index: int|
                0 <= index < spec_section_count(config, section) implies #[trigger] spec_slot(
                b5,
                config,
                compression,
                section,
                index,
            ) == spec_initial_element(section, compression) by {
                assert(spec_section_filled(
                    b5,
                    config,
                    compression,
                    section,
                    spec_initial_element(section, compression),
                ));
            }
        }
        Ok(store)
    }

    /// Writes `element` into every slot of a section.
    fn fill_section(&mut self, section: Section, element: &Vec<u8>)
        requires
            element@.len() == spec_element_size(old(self).config(), old(self).mode(), section),
        ensures
            final(self).config() == old(self).config(),
            final(self).mode() == old(self).mode(),
            final(self).spec_writable() == old(self).spec_writable(),
            final(self)@.len() == old(self)@.len(),
            spec_section_filled(
                final(self)@,
                old(self).config(),
                old(self).mode(),
                section,
                element@,
            ),
            forall|j: int|
                0 <= j < old(self)@.len() && !(spec_section_offset(
                    old(self).config(),
                    old(self).mode(),
                    section,
                ) <= j < spec_section_end(old(self).config(), old(self).mode(), section))
                    ==> final(self)@[j] == old(self)@[j],
    {
        proof {
            use_type_invariant(&*self);
        }
        let total = section_count(&self.params, section);
        let ghost config = self.params@;
        let ghost mode = self.compression;
        let ghost size = element@.len() as int;
        let ghost first = spec_section_offset(config, mode, section);
        let mut k: usize = 0;
        while k < total
            invariant
                k <= total,
                total == spec_section_count(config, section),
                config.well_formed(),
                self.params@ == config,
                self.compression == mode,
                self.writable == old(self).writable,
                config == old(self).params@,
                mode == old(self).compression,
                self.bytes@.len() == spec_store_size(config, mode),
                self.bytes@.len() == old(self).bytes@.len(),
                size == spec_element_size(config, mode, section),
                size == element@.len(),
                first == spec_section_offset(config, mode, section),
                forall|j: int|
                    0 <= j < k ==> #[trigger] spec_slot(self.bytes@, config, mode, section, j)
                        == element@,
                forall|j: int|
                    0 <= j < self.bytes@.len() && !(first <= j < spec_slot_offset(
                        config,
                        mode,
                        section,
                        k as int,
                    )) ==> self.bytes@[j] == old(self).bytes@[j],
            decreases total - k,
        {
            proof {
                lemma_slot_bounds(config, mode, section, k as int);
            }
            let offset = slot_offset(&self.params, self.compression, section, k);
            let ghost before = self.bytes@;
            copy_into(&mut self.bytes, offset, element);
            proof {
                assert forall|j: int| 0 <= j < k + 1 implies #[trigger] spec_slot(
                    self.bytes@,
                    config,
                    mode,
                    section,
                    j,
                ) == element@ by {
                    if j < k {
                        lemma_slot_bounds(config, mode, section, j);
                        let lo = spec_slot_offset(config, mode, section, j);
                        let hi = spec_slot_offset(config, mode, section, j + 1);
                        assert((j + 1) * size <= k * size) by (nonlinear_arith)
                            requires
                                0 <= j < k,
                                0 <= size,
                        ;
                        assert(spec_slot(before, config, mode, section, j) == element@);
                        assert(self.bytes@.subrange(lo, hi) =~= before.subrange(lo, hi));
                    }
                }
            }
            k += 1;
        }
        proof {
            lemma_layout_bounds(config, mode);
        }
    }

    /// Opens a region for reading. It must have the size that the layout
    /// gives for the parameters and the mode.
    pub fn open_for_read(
        params: RuntimeCeremonyParameters,
        compression: UseCompression,
        bytes: Vec<u8>,
    ) -> (r: Result<Self, IoError>)
        ensures
            match r {
                Ok(store) => {
                    &&& bytes@.len() == spec_store_size(params@, compression)
                    &&& store@ == bytes@
                    &&& store.config() == params@
                    &&& store.mode() == compression
                    &&& !store.spec_writable()
                },
                Err(e) => bytes@.len() != spec_store_size(params@, compression) && e
                    == IoError::SizeMismatch,
            },
    {
        if bytes.len() != store_size(&params, compression) {
            return Err(IoError::SizeMismatch);
        }
        Ok(AccumulatorStore { params, compression, writable: false, bytes })
    }

    /// Opens a region for reading and writing. It must have the size that
    /// the layout gives for the parameters and the mode.
    pub fn open_for_read_write(
        params: RuntimeCeremonyParameters,
        compression: UseCompression,
        bytes: Vec<u8>,
    ) -> (r: Result<Self, IoError>)
        ensures
            match r {
                Ok(store) => {
                    &&& bytes@.len() == spec_store_size(params@, compression)
                    &&& store@ == bytes@
                    &&& store.config() == params@
                    &&& store.mode() == compression
                    &&& store.spec_writable()
                },
                Err(e) => bytes@.len() != spec_store_size(params@, compression) && e
                    == IoError::SizeMismatch,
            },
    {
        if bytes.len() != store_size(&params, compression) {
            return Err(IoError::SizeMismatch);
        }
        Ok(AccumulatorStore { params, compression, writable: true, bytes })
    }

    /// The parameters that give the layout.
    pub fn parameters(&self) -> (r: &RuntimeCeremonyParameters)
        ensures
            r@ == self.config(),
            self.config().well_formed(),
            self@.len() == spec_store_size(self.config(), self.mode()),
    {
        proof {
            use_type_invariant(self);
        }
        &self.params
    }

    /// The mode in which the elements are encoded.
    pub fn compression(&self) -> (r: UseCompression)
        ensures
            r == self.mode(),
    {
        self.compression
    }

    /// Whether the store accepts writes.
    pub fn is_writable(&self) -> (r: bool)
        ensures
            r == self.spec_writable(),
    {
        self.writable
    }

    /// The bytes of the file.
    pub fn as_bytes(&self) -> (r: &Vec<u8>)
        ensures
            r@ == self@,
            self@.len() == spec_store_size(self.config(), self.mode()),
    {
        proof {
            use_type_invariant(self);
        }
        &self.bytes
    }

    /// Gives up the store for the bytes of the file.
    pub fn into_bytes(self) -> (r: Vec<u8>)
        ensures
            r@ == self@,
    {
        self.bytes
    }

    /// The input hash that the file starts with.
    pub fn input_hash(&self) -> (r: Vec<u8>)
        ensures
            r@ == self.spec_input_hash(),
            r@.len() == HASH_SIZE,
    {
        proof {
            use_type_invariant(self);
            lemma_layout_bounds(self.params@, self.compression);
        }
        copy_range(self.bytes.as_slice(), 0, HASH_SIZE)
    }

    /// Replaces the input hash and leaves the elements as they are. A
    /// store that is read only and a hash of another size than 64 bytes are
    /// refused.
    pub fn set_input_hash(&mut self, hash: &Vec<u8>) -> (r: Result<(), IoError>)
        ensures
            final(self).config() == old(self).config(),
            final(self).mode() == old(self).mode(),
            final(self).spec_writable() == old(self).spec_writable(),
            r == (if !old(self).spec_writable() {
                Err::<(), IoError>(IoError::ReadOnly)
            } else if hash@.len() != HASH_SIZE {
                Err::<(), IoError>(IoError::WrongElementSize)
            } else {
                Ok::<(), IoError>(())
            }),
            r is Err ==> final(self)@ == old(self)@,
            r is Ok ==> final(self)@ == hash@ + old(self)@.subrange(
                HASH_SIZE as int,
                old(self)@.len() as int,
            ),
    {
        if !self.writable {
            return Err(IoError::ReadOnly);
        }
        if hash.len() != HASH_SIZE {
            return Err(IoError::WrongElementSize);
        }
        self.put_input_hash(hash);
        Ok(())
    }

    /// Replaces the input hash of a writable store.
    pub fn put_input_hash(&mut self, hash: &Vec<u8>)
        requires
            old(self).spec_writable(),
            hash@.len() == HASH_SIZE,
        ensures
            final(self).config() == old(self).config(),
            final(self).mode() == old(self).mode(),
            final(self).spec_writable() == old(self).spec_writable(),
            final(self)@ == hash@ + old(self)@.subrange(HASH_SIZE as int, old(self)@.len() as int),
    {
        proof {
            use_type_invariant(&*self);
            lemma_layout_bounds(self.params@, self.compression);
        }
        copy_into(&mut self.bytes, 0, hash);
        proof {
            assert(self.bytes@ =~= hash@ + old(self)@.subrange(
                HASH_SIZE as int,
                old(self)@.len() as int,
            )) by {
                assert forall|j: int| 0 <= j < HASH_SIZE implies self.bytes@[j] == hash@[j] by {
                    assert(self.bytes@[j] == self.bytes@.subrange(0, HASH_SIZE as int)[j]);
                }
            }
        }
    }

    /// The digest of the whole file: the fingerprint of the accumulator and
    /// the input hash of its successor.
    pub fn finalize(&self) -> (digest: Vec<u8>)
        ensures
            digest@ == blake2b_512(self@),
            digest@.len() == HASH_SIZE,
    {
        hash_of(self.bytes.as_slice())
    }

    /// Reads `count` consecutive elements of a section, starting with the
    /// one at `start`, as they are encoded in the file.
    pub fn read_batch(&self, section: Section, start: usize, count: usize) -> (r: Result<
        Vec<Vec<u8>>,
        IoError,
    >)
        ensures
            r is Ok <==> start + count <= spec_section_count(self.config(), section),
            r is Err ==> r == Err::<Vec<Vec<u8>>, IoError>(IoError::OutOfRange),
            r is Ok ==> {
                &&& r->Ok_0@.len() == count
                &&& forall|k: int|
                    0 <= k < count ==> (#[trigger] r->Ok_0@[k])@ == self.slot(section, start + k)
            },
    {
        let total = section_count(&self.params, section);
        if start > total || count > total - start {
            return Err(IoError::OutOfRange);
        }
        Ok(self.read_slots(section, start, count))
    }

    /// Reads `count` consecutive elements that lie within a section.
    pub fn read_slots(&self, section: Section, start: usize, count: usize) -> (batch: Vec<
        Vec<u8>,
    >)
        requires
            start + count <= spec_section_count(self.config(), section),
        ensures
            batch@.len() == count,
            forall|k: int|
                0 <= k < count ==> (#[trigger] batch@[k])@ == self.slot(section, start + k),
    {
        proof {
            use_type_invariant(self);
        }
        let mut batch: Vec<Vec<u8>> = Vec::new();
        let mut k: usize = 0;
        while k < count
            invariant
                k <= count,
                start + count <= spec_section_count(self.params@, section),
                self.params@.well_formed(),
                self.bytes@.len() == spec_store_size(self.params@, self.compression),
                batch@.len() == k,
                forall|j: int|
                    0 <= j < k ==> (#[trigger] batch@[j])@ == spec_slot(
                        self.bytes@,
                        self.params@,
                        self.compression,
                        section,
                        start + j,
                    ),
            decreases count - k,
        {
            proof {
                lemma_slot_bounds(self.params@, self.compression, section, start + k);
            }
            let from = slot_offset(&self.params, self.compression, section, start + k);
            let to = slot_offset(&self.params, self.compression, section, start + k + 1);
            batch.push(copy_range(self.bytes.as_slice(), from, to));
            k += 1;
        }
        batch
    }

    /// Writes consecutive elements of a section, starting with the one at
    /// `start`. A refused batch leaves the store as it was.
    pub fn write_batch(&mut self, section: Section, start: usize, values: &Vec<Vec<u8>>) -> (r:
        Result<(), IoError>)
        ensures
            final(self).config() == old(self).config(),
            final(self).mode() == old(self).mode(),
            final(self).spec_writable() == old(self).spec_writable(),
            final(self)@.len() == old(self)@.len(),
            r == old(self).spec_write_check(section, start as int, values@),
            r is Err ==> final(self)@ == old(self)@,
            r is Ok ==> old(self).spec_written(final(self)@, section, start as int, values@),
    {
        if !self.writable {
            return Err(IoError::ReadOnly);
        }
        let total = section_count(&self.params, section);
        if start > total || values.len() > total - start {
            return Err(IoError::OutOfRange);
        }
        let size = element_size(&self.params, self.compression, section);
        let mut k: usize = 0;
        while k < values.len()
            invariant
                k <= values@.len(),
                *self == *old(self),
                self.writable,
                start + values@.len() <= spec_section_count(self.params@, section),
                size == spec_element_size(self.params@, self.compression, section),
                forall|j: int| 0 <= j < k ==> (#[trigger] values@[j])@.len() == size,
            decreases values@.len() - k,
        {
            if values[k].len() != size {
                assert(values@[k as int]@.len() != size);
                return Err(IoError::WrongElementSize);
            }
            k += 1;
        }
        self.write_slots(section, start, values);
        Ok(())
    }

    /// What a batch leaves behind: its values in their slots and every other
    /// byte as it was.
    pub open spec fn spec_written(
        &self,
        after: Seq<u8>,
        section: Section,
        start: int,
        values: Seq<Vec<u8>>,
    ) -> bool {
        &&& after.len() == self@.len()
        &&& forall|k: int|
            0 <= k < values.len() ==> #[trigger] spec_slot(
                after,
                self.config(),
                self.mode(),
                section,
                start + k,
            ) == values[k]@
        &&& forall|j: int|
            0 <= j < self@.len() && !(spec_slot_offset(self.config(), self.mode(), section, start)
                <= j < spec_slot_offset(
                self.config(),
                self.mode(),
                section,
                start + values.len(),
            )) ==> after[j] == self@[j]
    }

    /// Writes consecutive elements that have the size of the section's
    /// elements and lie within it.
    pub fn write_slots(&mut self, section: Section, start: usize, values: &Vec<Vec<u8>>)
        requires
            old(self).spec_write_check(section, start as int, values@) is Ok,
        ensures
            final(self).config() == old(self).config(),
            final(self).mode() == old(self).mode(),
            final(self).spec_writable() == old(self).spec_writable(),
            final(self)@.len() == old(self)@.len(),
            old(self).spec_written(final(self)@, section, start as int, values@),
    {
        proof {
            use_type_invariant(&*self);
        }
        let ghost config = self.params@;
        let ghost mode = self.compression;
        let ghost size = spec_element_size(config, mode, section);
        let ghost first = spec_slot_offset(config, mode, section, start as int);
        let mut k: usize = 0;
        while k < values.len()
            invariant
                k <= values@.len(),
                start + values@.len() <= spec_section_count(config, section),
                config.well_formed(),
                self.params@ == config,
                self.compression == mode,
                self.writable == old(self).writable,
                config == old(self).params@,
                mode == old(self).compression,
                self.bytes@.len() == spec_store_size(config, mode),
                self.bytes@.len() == old(self).bytes@.len(),
                size == spec_element_size(config, mode, section),
                first == spec_slot_offset(config, mode, section, start as int),
                forall|j: int| 0 <= j < values@.len() ==> (#[trigger] values@[j])@.len() == size,
                forall|j: int|
                    0 <= j < k ==> #[trigger] spec_slot(
                        self.bytes@,
                        config,
                        mode,
                        section,
                        start + j,
                    ) == values@[j]@,
                forall|j: int|
                    0 <= j < self.bytes@.len() && !(first <= j < spec_slot_offset(
                        config,
                        mode,
                        section,
                        start + k,
                    )) ==> self.bytes@[j] == old(self).bytes@[j],
            decreases values@.len() - k,
        {
            proof {
                lemma_slot_bounds(config, mode, section, start + k);
                assert(start * size <= (start + k) * size) by (nonlinear_arith)
                    requires
                        0 <= k,
                        0 <= size,
                ;
            }
            let offset = slot_offset(&self.params, self.compression, section, start + k);
            let ghost before = self.bytes@;
            copy_into(&mut self.bytes, offset, &values[k]);
            proof {
                assert forall|j: int| 0 <= j < k + 1 implies #[trigger] spec_slot(
                    self.bytes@,
                    config,
                    mode,
                    section,
                    start + j,
                ) == values@[j]@ by {
                    if j < k {
                        lemma_slot_bounds(config, mode, section, start + j);
                        let lo = spec_slot_offset(config, mode, section, start + j);
                        let hi = spec_slot_offset(config, mode, section, start + j + 1);
                        assert((start + j + 1) * size <= (start + k) * size) by (nonlinear_arith)
                            requires
                                0 <= j < k,
                                0 <= size,
                        ;
                        assert(spec_slot(before, config, mode, section, start + j)
                            == values@[j]@);
                        assert(self.bytes@.subrange(lo, hi) =~= before.subrange(lo, hi));
                    }
                }
            }
            k += 1;
        }
    }

    /// Whether a batch is accepted, and why not.
    pub open spec fn spec_write_check(&self, section: Section, start: int, values: Seq<Vec<u8>>)
        -> Result<(), IoError> {
        if !self.spec_writable() {
            Err(IoError::ReadOnly)
        } else if start + values.len() > spec_section_count(self.config(), section) {
            Err(IoError::OutOfRange)
        } else if exists|k: int|
            0 <= k < values.len() && (#[trigger] values[k])@.len() != spec_element_size(
                self.config(),
                self.mode(),
                section,
            ) {
            Err(IoError::WrongElementSize)
        } else {
            Ok(())
        }
    }
}

/// The trivial accumulator of a configuration is unique: its bytes, and with
/// them its digest, are the same however often it is created. Its size is
/// the one that the configuration gives: that of an accumulator where it is
/// uncompressed, that of a contribution without the public key where it is
/// compressed.
pub proof fn lemma_initial_is_deterministic(
    a: Seq<u8>,
    b: Seq<u8>,
    config: ConfigModel,
    compression: UseCompression,
)
    requires
        config.well_formed(),
        spec_matches_curve(config),
        is_initial(a, config, compression),
        is_initial(b, config, compression),
    ensures
        a == b,
        blake2b_512(a) == blake2b_512(b),
        compression == UseCompression::No ==> a.len() == config.accumulator_byte_size(),
        compression == UseCompression::Yes ==> a.len() == config.contribution_byte_size()
            - config.public_key_size(),
{
    lemma_layout_bounds(config, compression);
    lemma_same_slots_same_bytes(a, b, config, compression);
}

/// Two files of one layout that agree on the hash and on every slot are
/// equal.
pub proof fn lemma_same_slots_same_bytes(
    a: Seq<u8>,
    b: Seq<u8>,
    config: ConfigModel,
    compression: UseCompression,
)
    requires
        config.well_formed(),
        spec_g1_size(config, compression) > 0,
        spec_g2_size(config, compression) > 0,
        a.len() == spec_store_size(config, compression),
        b.len() == spec_store_size(config, compression),
        a.subrange(0, HASH_SIZE as int) == b.subrange(0, HASH_SIZE as int),
        forall|section: Section, index: int|
            0 <= index < spec_section_count(config, section) ==> #[trigger] spec_slot(
                a,
                config,
                compression,
                section,
                index,
            ) == spec_slot(b, config, compression, section, index),
    ensures
        a == b,
{
    lemma_layout_bounds(config, compression);
    assert forall|j: int| 0 <= j < a.len() implies a[j] == b[j] by {
        if j < HASH_SIZE {
            assert(a[j] == a.subrange(0, HASH_SIZE as int)[j]);
            assert(b[j] == b.subrange(0, HASH_SIZE as int)[j]);
        } else {
            lemma_slots_tile(config, compression, j);
            let section = spec_section_at(config, compression, j);
            let size = spec_element_size(config, compression, section);
            let index = (j - spec_section_offset(config, compression, section)) / size;
            lemma_slot_bounds(config, compression, section, index);
            let lo = spec_slot_offset(config, compression, section, index);
            assert(spec_slot(a, config, compression, section, index) == spec_slot(
                b,
                config,
                compression,
                section,
                index,
            ));
            assert(a[j] == spec_slot(a, config, compression, section, index)[j - lo]);
            assert(b[j] == spec_slot(b, config, compression, section, index)[j - lo]);
        }
    }
    assert(a =~= b);
}

} // verus!
