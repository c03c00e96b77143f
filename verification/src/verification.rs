//! The verifier: decides whether a response is a valid transformation of a
//! challenge.
//!
//! The checks run in a fixed order and the first that fails gives the
//! reason: the size of the response, the decoding of every point, the three
//! proofs of knowledge, the ratio between the first powers of tau of the
//! challenge and of the response, and the hash that binds the response to
//! the challenge.

use vstd::prelude::*;
use crate::config::{ConfigError, ConfigModel, HASH_SIZE};
use crate::curve::{spec_same_ratio, same_ratio, DecodeError, G1Point, G2Point, G2_GENERATOR};
use crate::engine::{
    lemma_no_failure_reads, lemma_run_failed, lemma_run_read, spec_read_element,
    spec_section_failure, spec_store_failure, spec_whole_section_failure, Element,
};
use crate::error::CeremonyError;
use crate::keypair::{spec_deserialize, PublicKey, PublicKeyModel, PUBLIC_KEY_SIZE};
use crate::layout::{
    lemma_layout_bounds, section_count, spec_section_count, spec_slot, spec_store_size,
    store_size, Section,
};
use crate::parameters::UseCompression;
use crate::runtime_parameters::RuntimeCeremonyParameters;
use crate::store::{matches_curve, spec_matches_curve, AccumulatorStore, IoError};
use crate::utils::{blake2b_512, bytes_equal, copy_range, hash_of};

verus! {

/// The outcome of a verification.
#[derive(Debug, Clone, Copy, PartialEq, Eq, Structural)]
pub enum Verdict {
    /// The response is a valid transformation of the challenge.
    Accepted,
    /// The response is refused, for the reason given.
    Rejected(CeremonyError),
}

/// What reading the first power of tau in G1 of an accumulator yields.
pub open spec fn spec_first_power(bytes: Seq<u8>, config: ConfigModel, mode: UseCompression)
    -> Result<Seq<u8>, DecodeError> {
    spec_read_element(spec_slot(bytes, config, mode, Section::TauG1, 1), Section::TauG1, mode)
}

/// The outcome of the checks on the elements, once every point has been
/// read: the proofs of knowledge, then the ratio of the first powers of tau,
/// then the hash.
pub open spec fn spec_judge(
    key: PublicKeyModel,
    before: Seq<u8>,
    after: Seq<u8>,
    embedded_hash: Seq<u8>,
    challenge_hash: Seq<u8>,
) -> Verdict {
    match key.first_unproved() {
        Some(exponent) => Verdict::Rejected(CeremonyError::ProofOfKnowledge(exponent)),
        None => if !spec_same_ratio((before, after), (G2_GENERATOR@, key.tau_g2)) {
            Verdict::Rejected(CeremonyError::Consistency)
        } else if embedded_hash != challenge_hash {
            Verdict::Rejected(CeremonyError::HashMismatch)
        } else {
            Verdict::Accepted
        },
    }
}

/// The outcome of verifying a response file against a challenge file.
pub open spec fn spec_verify(
    config: ConfigModel,
    challenge: Seq<u8>,
    in_mode: UseCompression,
    response: Seq<u8>,
    out_mode: UseCompression,
) -> Verdict {
    let size = spec_store_size(config, out_mode);
    let accumulator = response.subrange(0, size);
    let key_bytes = response.subrange(size, size + PUBLIC_KEY_SIZE);
    if !spec_matches_curve(config) {
        Verdict::Rejected(CeremonyError::Config(ConfigError::CurveMismatch))
    } else if response.len() != size + PUBLIC_KEY_SIZE {
        Verdict::Rejected(CeremonyError::Io(IoError::SizeMismatch))
    } else if challenge.len() != spec_store_size(config, in_mode) {
        Verdict::Rejected(CeremonyError::Io(IoError::SizeMismatch))
    } else {
        match spec_store_failure(accumulator, config, out_mode) {
            Some(e) => Verdict::Rejected(CeremonyError::Decode(e)),
            None => match spec_deserialize(key_bytes) {
                Err(e) => Verdict::Rejected(CeremonyError::Decode(e)),
                Ok(key) => match spec_first_power(challenge, config, in_mode) {
                    Err(e) => Verdict::Rejected(CeremonyError::Decode(e)),
                    Ok(before) => spec_judge(
                        key,
                        before,
                        spec_first_power(accumulator, config, out_mode)->Ok_0,
                        accumulator.subrange(0, HASH_SIZE as int),
                        blake2b_512(challenge),
                    ),
                },
            },
        }
    }
}

/// Decides on a contribution whose points have all been read.
pub fn judge(
    key: &PublicKey,
    before: &G1Point,
    after: &G1Point,
    embedded_hash: &[u8],
    challenge_hash: &[u8],
) -> (verdict: Verdict)
    ensures
        verdict == spec_judge(key@, before@, after@, embedded_hash@, challenge_hash@),
{
    match key.check_proofs() {
        Ok(()) => {},
        Err(exponent) => {
            return Verdict::Rejected(CeremonyError::ProofOfKnowledge(exponent));
        },
    }
    let g2 = G2Point::generator();
    if !same_ratio((before, after), (&g2, key.tau_g2())) {
        return Verdict::Rejected(CeremonyError::Consistency);
    }
    if !bytes_equal(embedded_hash, challenge_hash) {
        return Verdict::Rejected(CeremonyError::HashMismatch);
    }
    Verdict::Accepted
}

/// Reads every element of a batch and names the first that cannot be read.
pub fn check_batch(batch: &Vec<Vec<u8>>, section: Section, mode: UseCompression) -> (r: Result<
    (),
    (usize, DecodeError),
>)
    ensures
        match r {
            Ok(()) => forall|k: int|
                0 <= k < batch@.len() ==> (#[trigger] spec_read_element(
                    batch@[k]@,
                    section,
                    mode,
                )) is Ok,
            Err((at, e)) => {
                &&& at < batch@.len()
                &&& spec_read_element(batch@[at as int]@, section, mode) == Err::<
                    Seq<u8>,
                    DecodeError,
                >(e)
                &&& forall|k: int|
                    0 <= k < at ==> (#[trigger] spec_read_element(batch@[k]@, section, mode))
                        is Ok
            },
        },
{
    let mut j: usize = 0;
    while j < batch.len()
        invariant
            j <= batch@.len(),
            forall|k: int|
                0 <= k < j ==> (#[trigger] spec_read_element(batch@[k]@, section, mode)) is Ok,
        decreases batch@.len() - j,
    {
        match Element::read(batch[j].as_slice(), section, mode) {
            Ok(_) => {},
            Err(e) => {
                return Err((j, e));
            },
        }
        j += 1;
    }
    Ok(())
}

/// Reads every element of a section, a batch at a time, and gives the
/// reason for which the first unreadable one is refused.
pub fn check_section(store: &AccumulatorStore, section: Section, batch_size: usize) -> (r:
    Result<(), DecodeError>)
    requires
        batch_size > 0,
    ensures
        match r {
            Ok(()) => spec_whole_section_failure(store@, store.config(), store.mode(), section)
                is None,
            Err(e) => spec_whole_section_failure(store@, store.config(), store.mode(), section)
                == Some(e),
        },
{
    let total = section_count(store.parameters(), section);
    let mode = store.compression();
    let ghost config = store.config();
    let mut start: usize = 0;
    while start < total
        invariant
            start <= total,
            batch_size > 0,
            total == spec_section_count(config, section),
            config == store.config(),
            mode == store.mode(),
            spec_section_failure(store@, config, mode, section, start as int) is None,
        decreases total - start,
    {
        let length = if total - start < batch_size {
            total - start
        } else {
            batch_size
        };
        let batch = store.read_slots(section, start, length);
        match check_batch(&batch, section, mode) {
            Ok(()) => {
                proof {
                    lemma_run_read(store@, config, mode, section, start as int, start + length, batch@);
                }
            },
            Err((at, e)) => {
                proof {
                    lemma_run_failed(
                        store@,
                        config,
                        mode,
                        section,
                        start as int,
                        at as int,
                        e,
                        batch@,
                    );
                }
                return Err(e);
            },
        }
        start += length;
    }
    Ok(())
}

/// Reads every element of an accumulator in file order and gives the reason
/// for which the first unreadable one is refused.
pub fn check_store(store: &AccumulatorStore, batch_size: usize) -> (r: Result<(), DecodeError>)
    requires
        batch_size > 0,
    ensures
        match r {
            Ok(()) => spec_store_failure(store@, store.config(), store.mode()) is None,
            Err(e) => spec_store_failure(store@, store.config(), store.mode()) == Some(e),
        },
{
    match check_section(store, Section::TauG1, batch_size) {
        Ok(()) => {},
        Err(e) => {
            return Err(e);
        },
    }
    match check_section(store, Section::TauG2, batch_size) {
        Ok(()) => {},
        Err(e) => {
            return Err(e);
        },
    }
    match check_section(store, Section::AlphaG1, batch_size) {
        Ok(()) => {},
        Err(e) => {
            return Err(e);
        },
    }
    match check_section(store, Section::BetaG1, batch_size) {
        Ok(()) => {},
        Err(e) => {
            return Err(e);
        },
    }
    check_section(store, Section::BetaG2, batch_size)
}

/// Reads the first power of tau in G1 of an accumulator.
pub fn first_power(store: &AccumulatorStore) -> (r: Result<G1Point, DecodeError>)
    ensures
        match r {
            Ok(p) => spec_first_power(store@, store.config(), store.mode()) == Ok::<
                Seq<u8>,
                DecodeError,
            >(p@),
            Err(e) => spec_first_power(store@, store.config(), store.mode()) == Err::<
                Seq<u8>,
                DecodeError,
            >(e),
        },
{
    let _ = store.parameters();
    proof {
        lemma_layout_bounds(store.config(), store.mode());
    }
    let batch = store.read_slots(Section::TauG1, 1, 1);
    assert(batch@[0]@ == store.slot(Section::TauG1, 1int + 0int));
    G1Point::read(batch[0].as_slice(), store.compression())
}

/// Verifies a response file against the challenge file that it claims to
/// transform. No input makes the verifier fail: what cannot be accepted is
/// rejected with the reason.
pub fn verify(
    params: &RuntimeCeremonyParameters,
    challenge: &[u8],
    in_mode: UseCompression,
    response: &[u8],
    out_mode: UseCompression,
) -> (verdict: Verdict)
    ensures
        verdict == spec_verify(params@, challenge@, in_mode, response@, out_mode),
{
    if !matches_curve(params) {
        return Verdict::Rejected(CeremonyError::Config(ConfigError::CurveMismatch));
    }
    let size = store_size(params, out_mode);
    if response.len() < PUBLIC_KEY_SIZE || response.len() - PUBLIC_KEY_SIZE != size {
        return Verdict::Rejected(CeremonyError::Io(IoError::SizeMismatch));
    }
    let after_store = match AccumulatorStore::open_for_read(
        params.clone(),
        out_mode,
        copy_range(response, 0, size),
    ) {
        Ok(store) => store,
        Err(e) => {
            return Verdict::Rejected(CeremonyError::Io(e));
        },
    };
    let before_store = match AccumulatorStore::open_for_read(
        params.clone(),
        in_mode,
        copy_range(challenge, 0, challenge.len()),
    ) {
        Ok(store) => store,
        Err(e) => {
            return Verdict::Rejected(CeremonyError::Io(e));
        },
    };
    assert(before_store@ =~= challenge@);
    match check_store(&after_store, params.empirical_batch_size()) {
        Ok(()) => {},
        Err(e) => {
            return Verdict::Rejected(CeremonyError::Decode(e));
        },
    }
    let key_bytes = copy_range(response, size, response.len());
    let key = match PublicKey::deserialize(key_bytes.as_slice()) {
        Ok(key) => key,
        Err(e) => {
            return Verdict::Rejected(CeremonyError::Decode(e));
        },
    };
    let before = match first_power(&before_store) {
        Ok(p) => p,
        Err(e) => {
            return Verdict::Rejected(CeremonyError::Decode(e));
        },
    };
    let after = match first_power(&after_store) {
        Ok(p) => p,
        Err(e) => {
            proof {
                lemma_first_power_reads(after_store@, params@, out_mode);
            }
            return Verdict::Rejected(CeremonyError::Decode(e));
        },
    };
    let embedded = after_store.input_hash();
    let digest = hash_of(challenge);
    judge(&key, &before, &after, embedded.as_slice(), digest.as_slice())
}

/// In an accumulator whose elements can all be read, the first power of tau
/// can be.
pub proof fn lemma_first_power_reads(bytes: Seq<u8>, config: ConfigModel, mode: UseCompression)
    requires
        config.well_formed(),
        spec_store_failure(bytes, config, mode) is None,
    ensures
        spec_first_power(bytes, config, mode) is Ok,
{
    lemma_layout_bounds(config, mode);
    lemma_no_failure_reads(
        bytes,
        config,
        mode,
        Section::TauG1,
        spec_section_count(config, Section::TauG1),
        1,
    );
}

/// A response is accepted only for the challenge whose digest it embeds.
pub proof fn lemma_accepted_binds_hash(
    config: ConfigModel,
    challenge: Seq<u8>,
    in_mode: UseCompression,
    response: Seq<u8>,
    out_mode: UseCompression,
)
    requires
        spec_verify(config, challenge, in_mode, response, out_mode) == Verdict::Accepted,
    ensures
        response.len() == spec_store_size(config, out_mode) + PUBLIC_KEY_SIZE,
        response.subrange(0, spec_store_size(config, out_mode)).subrange(0, HASH_SIZE as int)
            == blake2b_512(challenge),
{
}

/// A response that is accepted for one challenge is rejected for every
/// challenge with another digest. Where the other challenge has the same
/// size and the same first power of tau, every check before the last passes
/// again, and the reason is the hash mismatch.
pub proof fn lemma_replay_is_rejected(
    config: ConfigModel,
    intended: Seq<u8>,
    other: Seq<u8>,
    in_mode: UseCompression,
    response: Seq<u8>,
    out_mode: UseCompression,
)
    requires
        spec_verify(config, intended, in_mode, response, out_mode) == Verdict::Accepted,
        blake2b_512(other) != blake2b_512(intended),
    ensures
        spec_verify(config, other, in_mode, response, out_mode) is Rejected,
        other.len() == intended.len() && spec_slot(other, config, in_mode, Section::TauG1, 1)
            == spec_slot(intended, config, in_mode, Section::TauG1, 1) ==> spec_verify(
            config,
            other,
            in_mode,
            response,
            out_mode,
        ) == Verdict::Rejected(CeremonyError::HashMismatch),
{
}

} // verus!
