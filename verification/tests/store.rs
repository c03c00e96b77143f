use powersoftau_core::config::CeremonyConfig;
use powersoftau_core::curve::{G1_GENERATOR, G2_GENERATOR};
use powersoftau_core::layout::{
    element_size, section_count, section_offset, slot_offset, store_size, Section,
};
use powersoftau_core::parameters::UseCompression;
use powersoftau_core::runtime_parameters::RuntimeCeremonyParameters;
use powersoftau_core::store::{AccumulatorStore, IoError};

fn parameters(power: usize) -> RuntimeCeremonyParameters {
    let mut config = CeremonyConfig::default_bls12_381();
    config.ceremony.required_power = power;
    RuntimeCeremonyParameters::try_new(config).unwrap()
}

#[test]
fn section_offsets_follow_the_layout_table() {
    let params = parameters(2);
    let mode = UseCompression::No;
    assert_eq!(section_offset(&params, mode, Section::TauG1), 64);
    assert_eq!(section_offset(&params, mode, Section::TauG2), 64 + 7 * 96);
    assert_eq!(section_offset(&params, mode, Section::AlphaG1), 64 + 7 * 96 + 4 * 192);
    assert_eq!(section_offset(&params, mode, Section::BetaG1), 64 + 7 * 96 + 4 * 192 + 4 * 96);
    assert_eq!(section_offset(&params, mode, Section::BetaG2), 64 + 7 * 96 + 4 * 192 + 8 * 96);
    assert_eq!(store_size(&params, mode), 64 + 7 * 96 + 4 * 192 + 8 * 96 + 192);
    assert_eq!(section_count(&params, Section::TauG1), 7);
    assert_eq!(section_count(&params, Section::TauG2), 4);
    assert_eq!(section_count(&params, Section::AlphaG1), 4);
    assert_eq!(section_count(&params, Section::BetaG1), 4);
    assert_eq!(section_count(&params, Section::BetaG2), 1);
    assert_eq!(element_size(&params, mode, Section::TauG2), 192);
    assert_eq!(element_size(&params, UseCompression::Yes, Section::TauG2), 96);
    assert_eq!(element_size(&params, UseCompression::Yes, Section::BetaG1), 48);
    assert_eq!(slot_offset(&params, mode, Section::TauG2, 3), 64 + 7 * 96 + 3 * 192);
    assert_eq!(store_size(&params, UseCompression::Yes), 64 + 7 * 48 + 4 * 96 + 8 * 48 + 96);
}

#[test]
fn open_checks_the_size() {
    let size = store_size(&parameters(1), UseCompression::No);
    assert!(AccumulatorStore::open_for_read(parameters(1), UseCompression::No, vec![0; size]).is_ok());
    assert_eq!(
        AccumulatorStore::open_for_read(parameters(1), UseCompression::No, vec![0; size + 1]).err(),
        Some(IoError::SizeMismatch)
    );
    assert_eq!(
        AccumulatorStore::open_for_read_write(parameters(1), UseCompression::Yes, vec![0; size])
            .err(),
        Some(IoError::SizeMismatch)
    );
    assert_eq!(
        AccumulatorStore::open_for_read(parameters(1), UseCompression::No, Vec::new()).err(),
        Some(IoError::SizeMismatch)
    );
}

#[test]
fn batches_are_written_in_place() {
    let size = store_size(&parameters(1), UseCompression::No);
    let mut store =
        AccumulatorStore::open_for_read_write(parameters(1), UseCompression::No, vec![0; size])
            .unwrap();
    let values = vec![vec![7u8; 96], vec![9u8; 96]];
    assert_eq!(store.write_batch(Section::TauG1, 1, &values), Ok(()));
    let mut expected = vec![0u8; size];
    for k in 0..96 {
        expected[64 + 96 + k] = 7;
        expected[64 + 2 * 96 + k] = 9;
    }
    assert_eq!(store.as_bytes(), &expected);
    assert_eq!(store.read_batch(Section::TauG1, 1, 2).unwrap(), values);
    assert_eq!(store.read_batch(Section::TauG1, 0, 1).unwrap(), vec![vec![0u8; 96]]);
    assert_eq!(store.write_batch(Section::BetaG2, 0, &vec![G2_GENERATOR.to_vec()]), Ok(()));
    assert_eq!(&store.as_bytes()[size - 192..], &G2_GENERATOR[..]);
    assert_eq!(store.is_writable(), true);
}

#[test]
fn refused_batches_leave_the_store_unchanged() {
    let size = store_size(&parameters(1), UseCompression::No);
    let mut store =
        AccumulatorStore::open_for_read_write(parameters(1), UseCompression::No, vec![3; size])
            .unwrap();
    assert_eq!(
        store.write_batch(Section::TauG1, 2, &vec![vec![0u8; 96], vec![0u8; 96]]),
        Err(IoError::OutOfRange)
    );
    assert_eq!(
        store.write_batch(Section::TauG1, 0, &vec![vec![0u8; 96], vec![0u8; 95]]),
        Err(IoError::WrongElementSize)
    );
    assert_eq!(
        store.write_batch(Section::TauG2, 0, &vec![G1_GENERATOR.to_vec()]),
        Err(IoError::WrongElementSize)
    );
    assert_eq!(store.as_bytes(), &vec![3u8; size]);
    assert_eq!(store.read_batch(Section::TauG1, 3, 1).err(), Some(IoError::OutOfRange));
    assert_eq!(store.read_batch(Section::BetaG2, 0, 2).err(), Some(IoError::OutOfRange));
    assert_eq!(store.read_batch(Section::TauG1, usize::MAX, 2).err(), Some(IoError::OutOfRange));
    let mut fixed =
        AccumulatorStore::open_for_read(parameters(1), UseCompression::No, vec![3; size]).unwrap();
    assert_eq!(
        fixed.write_batch(Section::TauG1, 0, &vec![vec![0u8; 96]]),
        Err(IoError::ReadOnly)
    );
    assert_eq!(fixed.set_input_hash(&vec![0u8; 64]), Err(IoError::ReadOnly));
    assert_eq!(fixed.as_bytes(), &vec![3u8; size]);
    assert_eq!(fixed.is_writable(), false);
}

#[test]
fn input_hash_is_the_head_of_the_file() {
    let size = store_size(&parameters(1), UseCompression::Yes);
    let mut store =
        AccumulatorStore::open_for_read_write(parameters(1), UseCompression::Yes, vec![1; size])
            .unwrap();
    assert_eq!(store.input_hash(), vec![1u8; 64]);
    assert_eq!(store.set_input_hash(&vec![5u8; 64]), Ok(()));
    assert_eq!(store.input_hash(), vec![5u8; 64]);
    assert_eq!(&store.as_bytes()[64..], &vec![1u8; size - 64][..]);
    assert_eq!(store.set_input_hash(&vec![5u8; 63]), Err(IoError::WrongElementSize));
    assert_eq!(store.finalize(), powersoftau_core::utils::hash_of(store.as_bytes()));
    let bytes = store.as_bytes().clone();
    assert_eq!(store.into_bytes(), bytes);
}
