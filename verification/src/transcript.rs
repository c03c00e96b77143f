//! The history of a ceremony: the digests of the accumulators that were
//! accepted, each derived from its predecessor.

use vstd::prelude::*;
use crate::config::HASH_SIZE;
use crate::error::CeremonyError;
use crate::layout::{spec_store_size, store_size};
use crate::parameters::UseCompression;
use crate::runtime_parameters::RuntimeCeremonyParameters;
use crate::store::AccumulatorStore;
use crate::utils::{blake2b_512, bytes_equal, copy_range, hash_of};
use crate::verification::{spec_verify, verify, Verdict};

verus! {

/// The accumulator that a response file carries: the file without the
/// public key at its end.
pub open spec fn spec_next_challenge(
    response: Seq<u8>,
    params: crate::config::ConfigModel,
    mode: UseCompression,
) -> Seq<u8> {
    response.subrange(0, spec_store_size(params, mode))
}

/// The outcome of presenting a contribution to a ceremony whose current
/// accumulator has the digest `current`: a challenge with another digest is
/// not the one to transform; otherwise the verifier decides.
pub open spec fn spec_present(
    current: Seq<u8>,
    params: crate::config::ConfigModel,
    challenge: Seq<u8>,
    in_mode: UseCompression,
    response: Seq<u8>,
    out_mode: UseCompression,
) -> Verdict {
    if blake2b_512(challenge) != current {
        Verdict::Rejected(CeremonyError::HashMismatch)
    } else {
        spec_verify(params, challenge, in_mode, response, out_mode)
    }
}

/// The digests of the accepted accumulators of one ceremony, oldest first.
/// The first is that of the initial accumulator.
#[derive(Debug)]
pub struct Transcript {
    initial: Vec<u8>,
    accepted: Vec<Vec<u8>>,
}

impl View for Transcript {
    type V = Seq<Seq<u8>>;

    closed spec fn view(&self) -> Seq<Seq<u8>> {
        seq![self.initial@] + Seq::new(self.accepted@.len(), |i: int| self.accepted@[i]@)
    }
}

impl Transcript {
    /// Starts the history of a ceremony with its first accumulator.
    pub fn new(initial: &AccumulatorStore) -> (r: Transcript)
        ensures
            r@ == seq![blake2b_512(initial@)],
    {
        let r = Transcript { initial: initial.finalize(), accepted: Vec::new() };
        assert(r@ =~= seq![blake2b_512(initial@)]);
        r
    }

    /// Number of contributions accepted so far.
    pub fn contributions(&self) -> (r: usize)
        ensures
            r == self@.len() - 1,
    {
        self.accepted.len()
    }

    /// The digest of the current accumulator, which the next contribution
    /// has to transform.
    pub fn current(&self) -> (r: &Vec<u8>)
        ensures
            self@.len() > 0,
            r@ == self@.last(),
    {
        if self.accepted.len() == 0 {
            &self.initial
        } else {
            &self.accepted[self.accepted.len() - 1]
        }
    }

    /// Presents a contribution. An accepted one is appended to the history
    /// and its accumulator comes back as the next challenge; a rejected one
    /// leaves the history as it was.
    pub fn present(
        &mut self,
        params: &RuntimeCeremonyParameters,
        challenge: &[u8],
        in_mode: UseCompression,
        response: &[u8],
        out_mode: UseCompression,
    ) -> (r: (Verdict, Option<Vec<u8>>))
        ensures
            old(self)@.len() > 0,
            r.0 == spec_present(
                old(self)@.last(),
                params@,
                challenge@,
                in_mode,
                response@,
                out_mode,
            ),
            r.0 is Accepted <==> r.1 is Some,
            r.0 is Accepted ==> {
                &&& r.1->Some_0@ == spec_next_challenge(response@, params@, out_mode)
                &&& r.1->Some_0@.subrange(0, HASH_SIZE as int) == old(self)@.last()
                &&& final(self)@ == old(self)@.push(blake2b_512(r.1->Some_0@))
            },
            r.0 is Rejected ==> final(self)@ == old(self)@,
    {
        let digest = hash_of(challenge);
        if !bytes_equal(digest.as_slice(), self.current().as_slice()) {
            return (Verdict::Rejected(CeremonyError::HashMismatch), None);
        }
        let verdict = verify(params, challenge, in_mode, response, out_mode);
        match verdict {
            Verdict::Rejected(e) => (Verdict::Rejected(e), None),
            Verdict::Accepted => {
                let size = store_size(params, out_mode);
                let next = copy_range(response, 0, size);
                let ghost before = self@;
                self.accepted.push(hash_of(next.as_slice()));
                proof {
                    assert(self@ =~= before.push(blake2b_512(next@)));
                }
                (Verdict::Accepted, Some(next))
            },
        }
    }
}

} // verus!
