use powersoftau_core::config::CeremonyConfig;
use powersoftau_core::engine::contribute;
use powersoftau_core::error::CeremonyError;
use powersoftau_core::keypair::Keypair;
use powersoftau_core::parameters::UseCompression;
use powersoftau_core::runtime_parameters::RuntimeCeremonyParameters;
use powersoftau_core::store::AccumulatorStore;
use powersoftau_core::transcript::Transcript;
use powersoftau_core::utils::hash_of;
use powersoftau_core::verification::Verdict;

fn parameters() -> RuntimeCeremonyParameters {
    let mut config = CeremonyConfig::default_bls12_381();
    config.ceremony.required_power = 1;
    RuntimeCeremonyParameters::try_new(config).unwrap()
}

#[test]
fn accepted_contributions_form_a_chain() {
    let params = parameters();
    let mode = UseCompression::Yes;
    let initial = AccumulatorStore::create_initial(parameters(), mode).unwrap();
    let mut transcript = Transcript::new(&initial);
    assert_eq!(transcript.contributions(), 0);
    assert_eq!(transcript.current(), &initial.finalize());

    let key = Keypair::generate(&initial.finalize(), b"first").unwrap();
    let response = contribute(&initial, &key, mode, 2).unwrap();
    let (verdict, next) = transcript.present(&params, initial.as_bytes(), mode, &response, mode);
    assert_eq!(verdict, Verdict::Accepted);
    let next = next.unwrap();
    assert_eq!(&next[..], &response[..response.len() - 1152]);
    assert_eq!(&next[..64], &initial.finalize()[..]);
    assert_eq!(transcript.contributions(), 1);
    assert_eq!(transcript.current(), &hash_of(&next));

    let (again, none) = transcript.present(&params, initial.as_bytes(), mode, &response, mode);
    assert_eq!(again, Verdict::Rejected(CeremonyError::HashMismatch));
    assert!(none.is_none());
    assert_eq!(transcript.contributions(), 1);

    let second = AccumulatorStore::open_for_read(parameters(), mode, next.clone()).unwrap();
    let key = Keypair::generate(&second.finalize(), b"second").unwrap();
    let mut response = contribute(&second, &key, mode, 2).unwrap();
    let last = response.len() - 1;
    response[last] ^= 1;
    let (verdict, none) = transcript.present(&params, &next, mode, &response, mode);
    assert!(matches!(verdict, Verdict::Rejected(CeremonyError::Decode(_))));
    assert!(none.is_none());
    assert_eq!(transcript.contributions(), 1);
    response[last] ^= 1;
    let (verdict, third) = transcript.present(&params, &next, mode, &response, mode);
    assert_eq!(verdict, Verdict::Accepted);
    assert_eq!(transcript.contributions(), 2);
    assert_eq!(transcript.current(), &hash_of(&third.unwrap()));
}
