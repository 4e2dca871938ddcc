use sangria::errors::SangriaError;
use sangria::field::PrimeField;
use sangria::folding_scheme::{
    derive_challenge, encode_with_randomness, fold_instances, pair_is_trivial,
    prover_with_blinding, relax, PLONKFoldingScheme, ProverKey, PublicParameters, SetupInfo,
    VerifierKey,
};
use sangria::linear_commitment::{LinearCommitmentConfig, LinearCommitmentScheme};
use sangria::pasta::{PallasScalar, PoseidonSponge};
use sangria::relation::{
    gates_satisfied, slack_commitment_satisfied, witness_commitments_satisfied,
};
use sangria::relaxed_plonk::{
    PLONKCircuit, PLONKInstance, PLONKWitness, RelaxedPLONKInstance, RelaxedPLONKWitness,
};
use sangria::transcript::{FieldBasedCryptographicSponge, PoseidonParameters};
use sangria::vector_commitment::HomomorphicCommitmentScheme;
use sangria::NonInteractiveFoldingScheme;

type F = PallasScalar;
type Config = LinearCommitmentConfig<F>;
type Sponge = PoseidonSponge<F>;
type Scheme = PLONKFoldingScheme<F, Config, Sponge>;
type Commitments = LinearCommitmentScheme<F>;

fn elements(xs: &[u64]) -> Vec<F> {
    xs.iter().map(|x| F::from_u64(*x)).collect()
}

fn limbs(xs: &[F]) -> Vec<[u64; 4]> {
    xs.iter().map(|x| x.to_limbs()).collect()
}

fn minus(x: u64) -> F {
    // the additive inverse of a small number, as (modulus - 1) * x
    let two_to_64 = F::from_u64(1 << 32).mul(&F::from_u64(1 << 32));
    let two_to_192 = two_to_64.mul(&two_to_64).mul(&two_to_64);
    let minus_one = F::from_u64(0x4000000000000000)
        .mul(&two_to_192)
        .add(&F::from_u64(0x224698fc0994a8dd).mul(&two_to_64))
        .add(&F::from_u64(0x8c46eb2100000000));
    minus_one.mul(&F::from_u64(x))
}

fn rows(count: u64, offset: u64) -> Vec<Vec<F>> {
    (0..count)
        .map(|i| (0..3).map(|j| F::from_u64(offset + 7 * i + j)).collect())
        .collect()
}

fn info() -> SetupInfo<F> {
    SetupInfo {
        number_of_public_inputs: 1,
        number_of_gates: 4,
        domain_separator: b"sangria".to_vec(),
        poseidon_constants: PoseidonParameters::new(8, 4, 5, rows(3, 2), rows(12, 100)).unwrap(),
    }
}

/// Two public rows of addition gates, then two multiplication gates and
/// two addition gates.
fn circuit() -> PLONKCircuit<F> {
    let minus_one = minus(1);
    PLONKCircuit::new(
        vec![
            elements(&[1, 1, 0, 0, 1, 1]),
            elements(&[1, 1, 0, 0, 1, 1]),
            vec![minus_one; 6],
            elements(&[0, 0, 1, 1, 0, 0]),
            elements(&[0, 0, 0, 0, 0, 0]),
        ],
        elements(&[]),
    )
}

fn pair(
    pp: &PublicParameters<F, Config>,
    public: [&[u64]; 3],
    private: [&[u64]; 3],
    hidings: &[u64],
) -> (RelaxedPLONKInstance<F, Config>, RelaxedPLONKWitness<F>) {
    relax(
        pp,
        PLONKInstance::new(public.iter().map(|c| elements(c)).collect()).unwrap(),
        PLONKWitness::new(private.iter().map(|c| elements(c)).collect()).unwrap(),
        elements(hidings),
    )
    .unwrap()
}

fn left(pp: &PublicParameters<F, Config>) -> (RelaxedPLONKInstance<F, Config>, RelaxedPLONKWitness<F>) {
    pair(
        pp,
        [&[1, 2], &[3, 4], &[4, 6]],
        [&[2, 3, 5, 7], &[3, 5, 1, 1], &[6, 15, 6, 8]],
        &[11, 12, 13],
    )
}

fn right(pp: &PublicParameters<F, Config>) -> (RelaxedPLONKInstance<F, Config>, RelaxedPLONKWitness<F>) {
    pair(
        pp,
        [&[2, 0], &[5, 1], &[7, 1]],
        [&[1, 1, 2, 3], &[4, 2, 2, 3], &[4, 2, 4, 6]],
        &[21, 22, 23],
    )
}

fn keys() -> (PublicParameters<F, Config>, ProverKey<F, Config>, VerifierKey<F, Config>) {
    let mut rng = ark_std::test_rng();
    let pp = Scheme::setup(&info(), &mut rng).unwrap();
    let (pk, vk) = Scheme::encode(&pp, &circuit(), &mut rng).unwrap();
    (pp, pk, vk)
}

#[test]
fn setup_sizes_the_two_keys() {
    let mut rng = ark_std::test_rng();
    let pp = Scheme::setup(&info(), &mut rng).unwrap();
    assert_eq!(pp.number_of_gates, 4);
    assert_eq!(pp.number_of_public_inputs, 1);
    assert_eq!(pp.domain_separator, b"sangria".to_vec());
    assert_eq!(pp.poseidon_constants.full_rounds(), 8);
    // the key for witness columns takes four entries, the other six
    assert!(Commitments::commit(&pp.commit_key_witness, &elements(&[1, 2, 3, 4]), F::from_u64(1)).is_ok());
    assert!(Commitments::commit(&pp.commit_key_witness, &elements(&[1, 2, 3, 4, 5]), F::from_u64(1)).is_err());
    assert!(Commitments::commit(
        &pp.commit_key_selectors_and_slack,
        &elements(&[1, 2, 3, 4, 5, 6]),
        F::from_u64(1)
    )
    .is_ok());
    assert!(Commitments::commit(
        &pp.commit_key_selectors_and_slack,
        &elements(&[1, 2, 3, 4, 5]),
        F::from_u64(1)
    )
    .is_err());
    let copy = pp.clone();
    assert_eq!(copy.number_of_gates, 4);
}

#[test]
fn setup_rejects_sizes_beyond_a_machine_word() {
    let mut rng = ark_std::test_rng();
    let mut too_large = info();
    too_large.number_of_gates = usize::MAX;
    too_large.number_of_public_inputs = 0;
    assert_eq!(
        Scheme::setup(&too_large, &mut rng).err(),
        Some(SangriaError::IndexOutOfBounds)
    );
    too_large.number_of_gates = usize::MAX - 1;
    too_large.number_of_public_inputs = 1;
    assert_eq!(
        Scheme::setup(&too_large, &mut rng).err(),
        Some(SangriaError::IndexOutOfBounds)
    );
}

#[test]
fn encode_commits_to_the_constant_selector() {
    let mut rng = ark_std::test_rng();
    let pp = Scheme::setup(&info(), &mut rng).unwrap();
    let blinding = F::from_u64(77);
    let (pk, vk) = encode_with_randomness::<F, Config, Sponge>(&pp, &circuit(), blinding).unwrap();
    let expected = Commitments::commit(
        &pp.commit_key_selectors_and_slack,
        &circuit().single_selector(4).unwrap(),
        blinding,
    )
    .unwrap();
    assert_eq!(vk.selector_c_commitment.to_limbs(), expected.to_limbs());
    assert_eq!(pk.verifier_key.selector_c_commitment.to_limbs(), expected.to_limbs());
    assert_eq!(pk.selector_c_commit_randomness.to_limbs(), [77, 0, 0, 0]);
    assert_eq!(pk.verifier_key.transcript_seed.to_limbs(), vk.transcript_seed.to_limbs());
    assert_eq!(vk.domain_separator, b"sangria".to_vec());
    assert_eq!(pk.public_parameters.number_of_gates, 4);
    assert_eq!(limbs(&pk.circuit.single_selector(3).unwrap()), limbs(&elements(&[0, 0, 1, 1, 0, 0])));

    // the seed is squeezed from circuit, parameters and blinding, in this order
    let mut transcript: Vec<F> = Vec::new();
    circuit().to_sponge_field_elements(&mut transcript);
    pp.to_sponge_field_elements(&mut transcript);
    transcript.push(blinding);
    let seed = Sponge::squeeze_after_absorbing(&pp.poseidon_constants, &transcript);
    assert_eq!(vk.transcript_seed.to_limbs(), seed.to_limbs());

    let (_, other) = encode_with_randomness::<F, Config, Sponge>(&pp, &circuit(), F::from_u64(78)).unwrap();
    assert_ne!(other.transcript_seed.to_limbs(), vk.transcript_seed.to_limbs());
    assert_ne!(other.selector_c_commitment.to_limbs(), vk.selector_c_commitment.to_limbs());
}

#[test]
fn encode_rejects_a_circuit_without_its_constant_selector() {
    let mut rng = ark_std::test_rng();
    let pp = Scheme::setup(&info(), &mut rng).unwrap();
    let four_selectors = PLONKCircuit::new(vec![elements(&[0; 6]); 4], elements(&[]));
    assert_eq!(
        Scheme::encode(&pp, &four_selectors, &mut rng).err(),
        Some(SangriaError::IndexOutOfBounds)
    );
    let no_selectors = PLONKCircuit::new(vec![], elements(&[]));
    assert_eq!(
        Scheme::encode(&pp, &no_selectors, &mut rng).err(),
        Some(SangriaError::IndexOutOfBounds)
    );
    let five_selectors = PLONKCircuit::new(vec![elements(&[0; 6]); 5], elements(&[]));
    assert!(Scheme::encode(&pp, &five_selectors, &mut rng).is_ok());
}

#[test]
fn encode_rejects_a_selector_of_another_length_than_the_key() {
    let mut rng = ark_std::test_rng();
    let pp = Scheme::setup(&info(), &mut rng).unwrap();
    let short = PLONKCircuit::new(vec![elements(&[0; 4]); 5], elements(&[]));
    assert_eq!(
        Scheme::encode(&pp, &short, &mut rng).err(),
        Some(SangriaError::IndexOutOfBounds)
    );
    let long = PLONKCircuit::new(vec![elements(&[0; 7]); 5], elements(&[]));
    assert_eq!(
        encode_with_randomness::<F, Config, Sponge>(&pp, &long, F::from_u64(1)).err(),
        Some(SangriaError::IndexOutOfBounds)
    );
}

#[test]
fn relax_gives_the_trivial_pair() {
    let (pp, _, _) = keys();
    let (instance, witness) = left(&pp);
    assert_eq!(instance.scaling_factor().to_limbs(), [1, 0, 0, 0]);
    assert_eq!(limbs(&witness.slack_vector()), vec![[0u64; 4]; 6]);
    assert_eq!(limbs(&witness.hiding_randomnesses()), limbs(&elements(&[11, 12, 13])));
    assert!(pair_is_trivial(&instance, &witness));
    assert!(gates_satisfied(&circuit(), &instance, &witness));
    assert!(witness_commitments_satisfied::<F, Config>(&pp.commit_key_witness, &instance, &witness));
    assert!(slack_commitment_satisfied::<F, Config>(
        &pp.commit_key_selectors_and_slack,
        &instance,
        &witness,
        F::from_u64(0)
    ));
    assert!(!slack_commitment_satisfied::<F, Config>(
        &pp.commit_key_selectors_and_slack,
        &instance,
        &witness,
        F::from_u64(1)
    ));
    let expected = Commitments::commit(&pp.commit_key_witness, &elements(&[3, 5, 1, 1]), F::from_u64(12)).unwrap();
    assert_eq!(instance.single_witness_commitment(1).unwrap().to_limbs(), expected.to_limbs());
}

#[test]
fn relax_rejects_lengths_that_do_not_fit_the_keys() {
    let (pp, _, _) = keys();
    let tables = |rows: usize| {
        (
            PLONKInstance::new(vec![elements(&[1, 2]); 3]).unwrap(),
            PLONKWitness::new(vec![elements(&vec![1; rows]); 3]).unwrap(),
        )
    };
    let (x, w) = tables(4);
    assert!(relax::<F, Config>(&pp, x, w, elements(&[1, 2, 3])).is_ok());
    let (x, w) = tables(4);
    assert_eq!(
        relax::<F, Config>(&pp, x, w, elements(&[1, 2])).err(),
        Some(SangriaError::IndexOutOfBounds)
    );
    let (x, w) = tables(3);
    assert_eq!(
        relax::<F, Config>(&pp, x, w, elements(&[1, 2, 3])).err(),
        Some(SangriaError::IndexOutOfBounds)
    );
    let x = PLONKInstance::new(vec![elements(&[1]); 3]).unwrap();
    let (_, w) = tables(4);
    assert_eq!(
        relax::<F, Config>(&pp, x, w, elements(&[1, 2, 3])).err(),
        Some(SangriaError::IndexOutOfBounds)
    );
}

#[test]
fn prover_and_verifier_fold_to_the_same_instance() {
    let (pp, pk, vk) = keys();
    let (left_instance, left_witness) = left(&pp);
    let (right_instance, right_witness) = right(&pp);
    let mut rng = ark_std::test_rng();
    let (folded_instance, folded_witness, message) = Scheme::prover(
        &pk,
        &left_instance,
        &left_witness,
        &right_instance,
        &right_witness,
        &mut rng,
    )
    .unwrap();
    let by_verifier = Scheme::fold_verifier(&vk, &left_instance, &right_instance, &message).unwrap();
    assert!(folded_instance.same_as(&by_verifier));
    assert!(gates_satisfied(&circuit(), &folded_instance, &folded_witness));
    assert!(witness_commitments_satisfied::<F, Config>(
        &pp.commit_key_witness,
        &folded_instance,
        &folded_witness
    ));
    assert!(!pair_is_trivial(&folded_instance, &folded_witness));
}

#[test]
fn challenge_is_the_same_for_prover_and_verifier() {
    let (pp, pk, vk) = keys();
    let (left_instance, left_witness) = left(&pp);
    let (right_instance, right_witness) = right(&pp);
    let blinding = F::from_u64(5);
    let (folded_instance, folded_witness, message) = prover_with_blinding::<F, Config, Sponge>(
        &pk,
        &left_instance,
        &left_witness,
        &right_instance,
        &right_witness,
        blinding,
    )
    .unwrap();
    let by_prover_key =
        derive_challenge::<F, Config, Sponge>(&pk.verifier_key, &left_instance, &right_instance, &message);
    let by_verifier_key = derive_challenge::<F, Config, Sponge>(&vk, &left_instance, &right_instance, &message);
    assert_eq!(by_prover_key.to_limbs(), by_verifier_key.to_limbs());

    // the scaling factor of the fold is 1 + r
    assert_eq!(
        folded_instance.scaling_factor().to_limbs(),
        F::from_u64(1).add(&by_verifier_key).to_limbs()
    );
    let again = fold_instances::<F, Config>(&left_instance, &right_instance, &message, &by_verifier_key).unwrap();
    assert!(again.same_as(&folded_instance));

    // the slack commitment opens under the folded blinding 0 + r * 5 + r^2 * 0
    assert!(slack_commitment_satisfied::<F, Config>(
        &pp.commit_key_selectors_and_slack,
        &folded_instance,
        &folded_witness,
        by_verifier_key.mul(&blinding)
    ));
}

#[test]
fn challenge_changes_with_every_part_of_the_transcript() {
    let (pp, _, vk) = keys();
    let (left_instance, _) = left(&pp);
    let (right_instance, _) = right(&pp);
    let message = F::from_u64(1234);
    let base = derive_challenge::<F, Config, Sponge>(&vk, &left_instance, &right_instance, &message).to_limbs();
    let again = derive_challenge::<F, Config, Sponge>(&vk, &left_instance, &right_instance, &message).to_limbs();
    assert_eq!(base, again);
    let other_message = derive_challenge::<F, Config, Sponge>(&vk, &left_instance, &right_instance, &F::from_u64(1235));
    assert_ne!(base, other_message.to_limbs());
    let swapped = derive_challenge::<F, Config, Sponge>(&vk, &right_instance, &left_instance, &message);
    assert_ne!(base, swapped.to_limbs());
    let mut other_domain = vk.clone();
    other_domain.domain_separator = b"sangrib".to_vec();
    let separated = derive_challenge::<F, Config, Sponge>(&other_domain, &left_instance, &right_instance, &message);
    assert_ne!(base, separated.to_limbs());
    let mut other_seed = vk.clone();
    other_seed.transcript_seed = other_seed.transcript_seed.add(&F::from_u64(1));
    let seeded = derive_challenge::<F, Config, Sponge>(&other_seed, &left_instance, &right_instance, &message);
    assert_ne!(base, seeded.to_limbs());
}

#[test]
fn a_forged_message_breaks_the_slack_commitment() {
    let (pp, pk, vk) = keys();
    let (left_instance, left_witness) = left(&pp);
    let (right_instance, right_witness) = right(&pp);
    let blinding = F::from_u64(5);
    let (_, folded_witness, message) = prover_with_blinding::<F, Config, Sponge>(
        &pk,
        &left_instance,
        &left_witness,
        &right_instance,
        &right_witness,
        blinding,
    )
    .unwrap();
    let forged = message.add(&F::from_u64(1));
    let by_verifier = Scheme::fold_verifier(&vk, &left_instance, &right_instance, &forged).unwrap();
    let challenge = derive_challenge::<F, Config, Sponge>(&vk, &left_instance, &right_instance, &forged);
    // the honest witness was folded under another challenge: nothing fits
    assert!(!gates_satisfied(&circuit(), &by_verifier, &folded_witness));
    assert!(!slack_commitment_satisfied::<F, Config>(
        &pp.commit_key_selectors_and_slack,
        &by_verifier,
        &folded_witness,
        challenge.mul(&blinding)
    ));
}

#[test]
fn prover_rejects_pairs_that_do_not_fit() {
    let (pp, pk, _) = keys();
    let (left_instance, left_witness) = left(&pp);
    let (right_instance, right_witness) = right(&pp);
    let mut rng = ark_std::test_rng();

    // a right pair with fewer witness rows
    let short = PLONKWitness::new(vec![elements(&[1, 1, 1]); 3]).unwrap();
    let short_witness = RelaxedPLONKWitness::new(short, elements(&[0; 6]), elements(&[1, 2, 3])).unwrap();
    assert_eq!(
        Scheme::prover(&pk, &left_instance, &left_witness, &right_instance, &short_witness, &mut rng).err(),
        Some(SangriaError::IndexOutOfBounds)
    );

    // a slack vector of another length
    let table = PLONKWitness::new(vec![elements(&[1, 1, 2, 3]), elements(&[4, 2, 2, 3]), elements(&[4, 2, 4, 6])]).unwrap();
    let short_slack = RelaxedPLONKWitness::new(table, elements(&[0; 5]), elements(&[21, 22, 23])).unwrap();
    assert_eq!(
        Scheme::prover(&pk, &left_instance, &left_witness, &right_instance, &short_slack, &mut rng).err(),
        Some(SangriaError::IndexOutOfBounds)
    );

    // an instance with fewer witness commitments
    let fewer = RelaxedPLONKInstance::new(
        PLONKInstance::new(vec![elements(&[2, 0]), elements(&[5, 1]), elements(&[7, 1])]).unwrap(),
        F::from_u64(1),
        right_instance.slack_commitment(),
        right_instance.witness_commitments()[..2].to_vec(),
    );
    assert_eq!(
        Scheme::prover(&pk, &left_instance, &left_witness, &fewer, &right_witness, &mut rng).err(),
        Some(SangriaError::IndexOutOfBounds)
    );
    assert_eq!(
        Scheme::fold_verifier(&pk.verifier_key, &left_instance, &fewer, &F::from_u64(1)).err(),
        Some(SangriaError::IndexOutOfBounds)
    );
    assert!(Scheme::prover(&pk, &left_instance, &left_witness, &right_instance, &right_witness, &mut rng).is_ok());
}

#[test]
fn setup_follows_its_randomness() {
    let first = Scheme::setup(&info(), &mut ark_std::test_rng()).unwrap();
    let second = Scheme::setup(&info(), &mut ark_std::test_rng()).unwrap();
    let x = elements(&[1, 2, 3, 4]);
    let commit = |pp: &PublicParameters<F, Config>| {
        Commitments::commit(&pp.commit_key_witness, &x, F::from_u64(7)).unwrap().to_limbs()
    };
    assert_eq!(commit(&first), commit(&second));
    let mut rng = ark_std::test_rng();
    let _ = F::random(&mut rng);
    let third = Scheme::setup(&info(), &mut rng).unwrap();
    assert_ne!(commit(&first), commit(&third));
}

#[test]
fn parameters_and_keys_enter_a_transcript_in_their_order() {
    let (pp, _, vk) = keys();
    let mut transcript: Vec<F> = Vec::new();
    pp.to_sponge_field_elements(&mut transcript);
    // one public input, four gates, then the seven bytes of the domain separator
    let expected: Vec<u64> = vec![1, 4, 7, 115, 97, 110, 103, 114, 105, 97];
    assert_eq!(limbs(&transcript), limbs(&elements(&expected)));

    let mut transcript: Vec<F> = Vec::new();
    vk.to_sponge_field_elements(&mut transcript);
    assert_eq!(
        limbs(&transcript),
        vec![vk.selector_c_commitment.to_limbs(), vk.transcript_seed.to_limbs()]
    );

    let (instance, _) = left(&pp);
    let mut transcript: Vec<F> = Vec::new();
    instance.to_sponge_field_elements(&mut transcript);
    let mut expected: Vec<[u64; 4]> =
        limbs(&elements(&[3, 2, 1, 2, 2, 3, 4, 2, 4, 6, 1]));
    expected.push(instance.slack_commitment().to_limbs());
    expected.push([3, 0, 0, 0]);
    expected.extend(limbs(&instance.witness_commitments()));
    assert_eq!(limbs(&transcript), expected);
}

#[test]
fn prover_rejects_an_instance_with_another_number_of_commitments_than_columns() {
    let (pp, pk, vk) = keys();
    let (left_instance, left_witness) = left(&pp);
    let (right_instance, right_witness) = right(&pp);
    let mut rng = ark_std::test_rng();
    let refused = Some(SangriaError::IndexOutOfBounds);
    let with_commitments = |instance: &RelaxedPLONKInstance<F, Config>, count: usize| {
        let mut commitments = instance.witness_commitments();
        commitments.resize(count, F::from_u64(0));
        RelaxedPLONKInstance::<F, Config>::new(
            PLONKInstance::new(vec![
                instance.instance_column(0).unwrap(),
                instance.instance_column(1).unwrap(),
                instance.instance_column(2).unwrap(),
            ])
            .unwrap(),
            instance.scaling_factor(),
            instance.slack_commitment(),
            commitments,
        )
    };
    // both instances without commitments: the counts agree with each other, not with the columns
    for count in [0usize, 2, 4] {
        let left_short = with_commitments(&left_instance, count);
        let right_short = with_commitments(&right_instance, count);
        assert_eq!(
            Scheme::prover(&pk, &left_short, &left_witness, &right_short, &right_witness, &mut rng).err(),
            refused
        );
        assert_eq!(
            prover_with_blinding::<F, Config, Sponge>(
                &pk,
                &left_short,
                &left_witness,
                &right_short,
                &right_witness,
                F::from_u64(5)
            )
            .err(),
            refused
        );
        // the instances alone still fold: the verifier sees no witness
        assert!(Scheme::fold_verifier(&vk, &left_short, &right_short, &F::from_u64(1)).is_ok());
    }
    let same = with_commitments(&left_instance, 3);
    assert!(Scheme::prover(&pk, &same, &left_witness, &right_instance, &right_witness, &mut rng).is_ok());
}
