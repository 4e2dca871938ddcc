use sangria::errors::SangriaError;
use sangria::field::{PrimeField, Zp};
use sangria::folding_scheme::{fold_instances, fold_slack_elements, fold_witnesses};
use sangria::linear_commitment::{
    LinearCommitmentConfig, LinearCommitmentKey, LinearCommitmentScheme,
};
use sangria::relation::{
    compute_cross_term, copy_constraints_satisfied, evaluate_cross, evaluate_gate, gates_satisfied,
    slack_commitment_satisfied, witness_commitments_satisfied,
};
use sangria::relaxed_plonk::{
    PLONKCircuit, PLONKInstance, PLONKWitness, RelaxedPLONKInstance, RelaxedPLONKWitness,
};
use sangria::vector_commitment::HomomorphicCommitmentScheme;

type F97 = Zp<97>;
type Config = LinearCommitmentConfig<F97>;
type Scheme = LinearCommitmentScheme<F97>;

fn elements(xs: &[u64]) -> Vec<F97> {
    xs.iter().map(|x| F97::from_u64(*x)).collect()
}

fn numbers(xs: &[F97]) -> Vec<u64> {
    xs.iter().map(|x| x.to_u64()).collect()
}

fn witness_key() -> LinearCommitmentKey<F97> {
    LinearCommitmentKey::new(elements(&[3, 5, 7, 11]), F97::from_u64(13))
}

fn slack_key() -> LinearCommitmentKey<F97> {
    LinearCommitmentKey::new(elements(&[2, 4, 8, 16, 32, 64]), F97::from_u64(17))
}

/// Two multiplication gates and two addition gates below two public rows
/// of addition gates.
fn circuit() -> PLONKCircuit<F97> {
    PLONKCircuit::new(
        vec![
            elements(&[1, 1, 0, 0, 1, 1]),
            elements(&[1, 1, 0, 0, 1, 1]),
            elements(&[96, 96, 96, 96, 96, 96]),
            elements(&[0, 0, 1, 1, 0, 0]),
            elements(&[0, 0, 0, 0, 0, 0]),
        ],
        elements(&[]),
    )
}

fn trivial_pair(
    public: [&[u64]; 3],
    private: [&[u64]; 3],
) -> (RelaxedPLONKInstance<F97, Config>, RelaxedPLONKWitness<F97>) {
    let hidings = elements(&[1, 2, 3]);
    let columns: Vec<Vec<F97>> = private.iter().map(|c| elements(c)).collect();
    let commitments: Vec<F97> = columns
        .iter()
        .zip(hidings.iter())
        .map(|(c, h)| Scheme::commit(&witness_key(), c, *h).unwrap())
        .collect();
    let slack = elements(&[0, 0, 0, 0, 0, 0]);
    let slack_commitment = Scheme::commit(&slack_key(), &slack, F97::from_u64(0)).unwrap();
    let instance = RelaxedPLONKInstance::new(
        PLONKInstance::new(public.iter().map(|c| elements(c)).collect()).unwrap(),
        F97::from_u64(1),
        slack_commitment,
        commitments,
    );
    let witness =
        RelaxedPLONKWitness::new(PLONKWitness::new(columns).unwrap(), slack, hidings).unwrap();
    (instance, witness)
}

fn left_pair() -> (RelaxedPLONKInstance<F97, Config>, RelaxedPLONKWitness<F97>) {
    trivial_pair(
        [&[1, 2], &[3, 4], &[4, 6]],
        [&[2, 3, 5, 7], &[3, 5, 1, 1], &[6, 15, 6, 8]],
    )
}

fn right_pair() -> (RelaxedPLONKInstance<F97, Config>, RelaxedPLONKWitness<F97>) {
    trivial_pair(
        [&[2, 0], &[5, 1], &[7, 1]],
        [&[1, 1, 2, 3], &[4, 2, 2, 3], &[4, 2, 4, 6]],
    )
}

#[test]
fn end_to_end_fold_modulo_97() {
    let circuit = circuit();
    let (left_instance, left_witness) = left_pair();
    let (right_instance, right_witness) = right_pair();
    assert!(gates_satisfied(&circuit, &left_instance, &left_witness));
    assert!(gates_satisfied(&circuit, &right_instance, &right_witness));

    let cross = compute_cross_term(
        &circuit,
        &left_instance,
        &left_witness,
        &right_instance,
        &right_witness,
    )
    .unwrap();
    assert_eq!(numbers(&cross), vec![0, 0, 1, 91, 0, 0]);

    let challenge = F97::from_u64(5);
    let message = Scheme::commit(&slack_key(), &cross, F97::from_u64(9)).unwrap();
    let folded_witness =
        fold_witnesses(&left_witness, &right_witness, &cross, &challenge).unwrap();
    let folded_instance =
        fold_instances::<F97, Config>(&left_instance, &right_instance, &message, &challenge)
            .unwrap();

    assert_eq!(folded_instance.scaling_factor().to_u64(), 6);
    assert_eq!(numbers(&folded_witness.witness_column(0).unwrap()), vec![7, 8, 15, 22]);
    assert_eq!(numbers(&folded_witness.slack_vector()), vec![0, 0, 5, 67, 0, 0]);
    assert!(gates_satisfied(&circuit, &folded_instance, &folded_witness));
}

#[test]
fn folding_a_satisfying_pair_with_itself_is_complete() {
    let circuit = circuit();
    let mut rng = ark_std::test_rng();
    let mut challenges: Vec<F97> = [1u64, 2, 5, 48, 96].iter().map(|r| F97::from_u64(*r)).collect();
    challenges.push(F97::random(&mut rng));
    challenges.push(F97::from_u64(u64::MAX));
    for (instance, witness) in [left_pair(), right_pair()] {
        let cross =
            compute_cross_term(&circuit, &instance, &witness, &instance, &witness).unwrap();
        let message = Scheme::commit(&slack_key(), &cross, F97::from_u64(3)).unwrap();
        for challenge in &challenges {
            let folded_witness = fold_witnesses(&witness, &witness, &cross, challenge).unwrap();
            let folded_instance =
                fold_instances::<F97, Config>(&instance, &instance, &message, challenge).unwrap();
            assert!(gates_satisfied(&circuit, &folded_instance, &folded_witness));
        }
    }
}

#[test]
fn folding_two_folded_pairs_is_complete() {
    let circuit = circuit();
    let (left_instance, left_witness) = left_pair();
    let (right_instance, right_witness) = right_pair();
    let fold = |x1: &RelaxedPLONKInstance<F97, Config>,
                w1: &RelaxedPLONKWitness<F97>,
                x2: &RelaxedPLONKInstance<F97, Config>,
                w2: &RelaxedPLONKWitness<F97>,
                r: u64| {
        let cross = compute_cross_term(&circuit, x1, w1, x2, w2).unwrap();
        let message = Scheme::commit(&slack_key(), &cross, F97::from_u64(1)).unwrap();
        let challenge = F97::from_u64(r);
        (
            fold_instances::<F97, Config>(x1, x2, &message, &challenge).unwrap(),
            fold_witnesses(w1, w2, &cross, &challenge).unwrap(),
        )
    };
    let (a_instance, a_witness) = fold(&left_instance, &left_witness, &right_instance, &right_witness, 5);
    let (b_instance, b_witness) = fold(&right_instance, &right_witness, &left_instance, &left_witness, 7);
    let (c_instance, c_witness) = fold(&a_instance, &a_witness, &b_instance, &b_witness, 11);
    assert!(gates_satisfied(&circuit, &a_instance, &a_witness));
    assert!(gates_satisfied(&circuit, &b_instance, &b_witness));
    assert!(gates_satisfied(&circuit, &c_instance, &c_witness));
    assert_ne!(c_instance.scaling_factor().to_u64(), 1);
}

#[test]
fn a_wrong_cross_term_breaks_the_fold() {
    let circuit = circuit();
    let (left_instance, left_witness) = left_pair();
    let (right_instance, right_witness) = right_pair();
    let cross = compute_cross_term(
        &circuit,
        &left_instance,
        &left_witness,
        &right_instance,
        &right_witness,
    )
    .unwrap();
    for challenge in [1u64, 5, 96] {
        let challenge = F97::from_u64(challenge);
        let message = Scheme::commit(&slack_key(), &cross, F97::from_u64(9)).unwrap();
        let folded_instance =
            fold_instances::<F97, Config>(&left_instance, &right_instance, &message, &challenge)
                .unwrap();
        for row in 0..6 {
            let mut forged = cross.clone();
            forged[row] = forged[row].add(&F97::from_u64(1));
            let folded_witness =
                fold_witnesses(&left_witness, &right_witness, &forged, &challenge).unwrap();
            assert!(!gates_satisfied(&circuit, &folded_instance, &folded_witness));
        }
        // leaving the cross term out is a wrong cross term too
        let omitted = fold_witnesses(
            &left_witness,
            &right_witness,
            &elements(&[0, 0, 0, 0, 0, 0]),
            &challenge,
        )
        .unwrap();
        assert!(!gates_satisfied(&circuit, &folded_instance, &omitted));
    }
}

#[test]
fn challenge_zero_gives_back_the_left_pair() {
    let circuit = circuit();
    let (left_instance, left_witness) = left_pair();
    let (right_instance, right_witness) = right_pair();
    let cross = compute_cross_term(
        &circuit,
        &left_instance,
        &left_witness,
        &right_instance,
        &right_witness,
    )
    .unwrap();
    let message = Scheme::commit(&slack_key(), &cross, F97::from_u64(9)).unwrap();
    let zero = F97::from_u64(0);
    let folded_witness = fold_witnesses(&left_witness, &right_witness, &cross, &zero).unwrap();
    let folded_instance =
        fold_instances::<F97, Config>(&left_instance, &right_instance, &message, &zero).unwrap();
    assert!(folded_witness.same_as(&left_witness));
    assert!(folded_instance.same_as(&left_instance));
}

#[test]
fn gates_and_cross_terms_have_their_exact_values() {
    let e = |x: u64| F97::from_u64(x);
    // u (q_L a + q_R b + q_O c) + q_M a b + u^2 q_C
    //   = 2 (3*4 + 5*6 + 7*8) + 9*4*6 + 4*10 = 452
    let gate = evaluate_gate(&e(3), &e(5), &e(7), &e(9), &e(10), &e(2), &e(4), &e(6), &e(8));
    assert_eq!(gate.to_u64(), 452 % 97);
    // with u2 = 3, a2 = 1, b2 = 2, c2 = 5:
    //   2 (3*1 + 5*2 + 7*5) + 3 (3*4 + 5*6 + 7*8) + 9 (4*2 + 1*6) + 2*2*3*10 = 636
    let cross = evaluate_cross(
        &e(3), &e(5), &e(7), &e(9), &e(10), &e(2), &e(4), &e(6), &e(8), &e(3), &e(1), &e(2), &e(5),
    );
    assert_eq!(cross.to_u64(), 636 % 97);
    // at the folded wires, with r = 5, a gate takes the value gate1 + r cross + r^2 gate2
    let gate2 = evaluate_gate(&e(3), &e(5), &e(7), &e(9), &e(10), &e(3), &e(1), &e(2), &e(5));
    let folded = evaluate_gate(&e(3), &e(5), &e(7), &e(9), &e(10), &e(17), &e(9), &e(16), &e(33));
    assert_eq!(
        folded.to_u64(),
        (452 + 5 * 636 + 25 * gate2.to_u64()) % 97
    );
}

#[test]
fn the_relation_rejects_what_does_not_satisfy_it() {
    let circuit = circuit();
    let (instance, witness) = left_pair();
    assert!(gates_satisfied(&circuit, &instance, &witness));

    // a wrong output wire
    let (wrong_instance, wrong_witness) = trivial_pair(
        [&[1, 2], &[3, 4], &[4, 6]],
        [&[2, 3, 5, 7], &[3, 5, 1, 1], &[6, 15, 6, 9]],
    );
    assert!(!gates_satisfied(&circuit, &wrong_instance, &wrong_witness));

    // a wrong public row
    let (wrong_instance, wrong_witness) = trivial_pair(
        [&[1, 2], &[3, 4], &[5, 6]],
        [&[2, 3, 5, 7], &[3, 5, 1, 1], &[6, 15, 6, 8]],
    );
    assert!(!gates_satisfied(&circuit, &wrong_instance, &wrong_witness));

    // a slack vector of another length, a circuit of another size, two wire columns
    let table = || PLONKWitness::new(vec![elements(&[2, 3, 5, 7]), elements(&[3, 5, 1, 1]), elements(&[6, 15, 6, 8])]).unwrap();
    let short_slack = RelaxedPLONKWitness::new(table(), elements(&[0; 5]), elements(&[1, 2, 3])).unwrap();
    assert!(!gates_satisfied(&circuit, &instance, &short_slack));
    let small = PLONKCircuit::new(vec![elements(&[0; 5]); 5], elements(&[]));
    assert!(!gates_satisfied(&small, &instance, &witness));
    let four = PLONKCircuit::new(vec![elements(&[0; 6]); 4], elements(&[]));
    assert!(!gates_satisfied(&four, &instance, &witness));
    let two_wires = RelaxedPLONKWitness::new(
        PLONKWitness::new(vec![elements(&[2, 3, 5, 7]), elements(&[3, 5, 1, 1])]).unwrap(),
        elements(&[0; 6]),
        elements(&[1, 2]),
    )
    .unwrap();
    assert!(!gates_satisfied(&circuit, &instance, &two_wires));

    // a circuit of zeros is satisfied by every trace with zero slack
    let zeros = PLONKCircuit::new(vec![elements(&[0; 6]); 5], elements(&[]));
    assert!(gates_satisfied(&zeros, &wrong_instance, &wrong_witness));
}

#[test]
fn cross_term_is_refused_for_traces_that_cannot_be_folded() {
    let circuit = circuit();
    let (left_instance, left_witness) = left_pair();
    let (right_instance, right_witness) = right_pair();
    let refused = Some(SangriaError::IndexOutOfBounds);

    let short = RelaxedPLONKWitness::new(
        PLONKWitness::new(vec![elements(&[1, 1, 2]); 3]).unwrap(),
        elements(&[0; 6]),
        elements(&[1, 2, 3]),
    )
    .unwrap();
    assert_eq!(
        compute_cross_term(&circuit, &left_instance, &left_witness, &right_instance, &short).err(),
        refused
    );
    let small = PLONKCircuit::new(vec![elements(&[0; 5]); 5], elements(&[]));
    assert_eq!(
        compute_cross_term(&small, &left_instance, &left_witness, &right_instance, &right_witness).err(),
        refused
    );
    let six = PLONKCircuit::new(vec![elements(&[0; 6]); 6], elements(&[]));
    assert_eq!(
        compute_cross_term(&six, &left_instance, &left_witness, &right_instance, &right_witness).err(),
        refused
    );
    let narrow = RelaxedPLONKInstance::<F97, Config>::new(
        PLONKInstance::new(vec![elements(&[2, 0]), elements(&[5, 1])]).unwrap(),
        F97::from_u64(1),
        F97::from_u64(0),
        elements(&[1, 2, 3]),
    );
    assert_eq!(
        compute_cross_term(&circuit, &left_instance, &left_witness, &narrow, &right_witness).err(),
        refused
    );
    assert_eq!(
        compute_cross_term(&circuit, &narrow, &left_witness, &narrow, &right_witness).err(),
        refused
    );
}

#[test]
fn folding_is_refused_for_shapes_that_do_not_fit() {
    let (left_instance, left_witness) = left_pair();
    let (right_instance, right_witness) = right_pair();
    let refused = Some(SangriaError::IndexOutOfBounds);
    let challenge = F97::from_u64(5);
    let cross = elements(&[0, 0, 1, 91, 0, 0]);

    assert_eq!(
        fold_witnesses(&left_witness, &right_witness, &elements(&[0, 0, 1, 91, 0]), &challenge).err(),
        refused
    );
    assert_eq!(
        fold_witnesses(&left_witness, &right_witness, &elements(&[0, 0, 1, 91, 0, 0, 0]), &challenge).err(),
        refused
    );
    let short = RelaxedPLONKWitness::new(
        PLONKWitness::new(vec![elements(&[1, 1, 2]); 3]).unwrap(),
        elements(&[0; 6]),
        elements(&[1, 2, 3]),
    )
    .unwrap();
    assert_eq!(fold_witnesses(&left_witness, &short, &cross, &challenge).err(), refused);
    assert!(fold_witnesses(&left_witness, &right_witness, &cross, &challenge).is_ok());

    let fewer = RelaxedPLONKInstance::<F97, Config>::new(
        PLONKInstance::new(vec![elements(&[2, 0]), elements(&[5, 1]), elements(&[7, 1])]).unwrap(),
        F97::from_u64(1),
        F97::from_u64(0),
        elements(&[1, 2]),
    );
    assert_eq!(
        fold_instances::<F97, Config>(&left_instance, &fewer, &F97::from_u64(3), &challenge).err(),
        refused
    );
    let taller = RelaxedPLONKInstance::<F97, Config>::new(
        PLONKInstance::new(vec![elements(&[2, 0, 1]); 3]).unwrap(),
        F97::from_u64(1),
        F97::from_u64(0),
        elements(&[1, 2, 3]),
    );
    assert_eq!(
        fold_instances::<F97, Config>(&left_instance, &taller, &F97::from_u64(3), &challenge).err(),
        refused
    );
    assert!(fold_instances::<F97, Config>(&left_instance, &right_instance, &F97::from_u64(3), &challenge).is_ok());
}

#[test]
fn folded_commitments_follow_the_folding_rule() {
    let (left_instance, _) = left_pair();
    let (right_instance, _) = right_pair();
    let challenge = F97::from_u64(5);
    let message = F97::from_u64(40);
    let folded =
        fold_instances::<F97, Config>(&left_instance, &right_instance, &message, &challenge).unwrap();
    // slack: left + 5 * message + 25 * right
    let expected_slack = (left_instance.slack_commitment().to_u64()
        + 5 * 40
        + 25 * right_instance.slack_commitment().to_u64())
        % 97;
    assert_eq!(folded.slack_commitment().to_u64(), expected_slack);
    for i in 0..3 {
        let expected = (left_instance.single_witness_commitment(i).unwrap().to_u64()
            + 5 * right_instance.single_witness_commitment(i).unwrap().to_u64())
            % 97;
        assert_eq!(folded.single_witness_commitment(i).unwrap().to_u64(), expected);
    }
    assert_eq!(
        folded.instance_column(0).unwrap().iter().map(|x| x.to_u64()).collect::<Vec<_>>(),
        vec![11, 2]
    );
    // apart from the slack commitment the fold is left + right * challenge
    let combined = left_instance.add(&right_instance.mul(challenge)).unwrap();
    assert_eq!(combined.scaling_factor().to_u64(), folded.scaling_factor().to_u64());
    assert_eq!(
        combined.witness_commitments().iter().map(|x| x.to_u64()).collect::<Vec<_>>(),
        folded.witness_commitments().iter().map(|x| x.to_u64()).collect::<Vec<_>>()
    );
}

#[test]
fn folded_witness_commitments_open_to_the_folded_witness() {
    let (left_instance, left_witness) = left_pair();
    let (right_instance, right_witness) = right_pair();
    let circuit = circuit();
    let cross = compute_cross_term(&circuit, &left_instance, &left_witness, &right_instance, &right_witness).unwrap();
    let blinding = F97::from_u64(9);
    let message = Scheme::commit(&slack_key(), &cross, blinding).unwrap();
    let challenge = F97::from_u64(5);
    let folded_witness = fold_witnesses(&left_witness, &right_witness, &cross, &challenge).unwrap();
    let folded_instance =
        fold_instances::<F97, Config>(&left_instance, &right_instance, &message, &challenge).unwrap();
    assert!(witness_commitments_satisfied::<F97, Config>(&witness_key(), &folded_instance, &folded_witness));
    assert!(witness_commitments_satisfied::<F97, Config>(&witness_key(), &left_instance, &left_witness));
    assert!(!witness_commitments_satisfied::<F97, Config>(&witness_key(), &left_instance, &right_witness));
    assert!(!witness_commitments_satisfied::<F97, Config>(&slack_key(), &left_instance, &left_witness));
    // blinding 0 + 5 * 9 + 25 * 0
    assert!(slack_commitment_satisfied::<F97, Config>(&slack_key(), &folded_instance, &folded_witness, F97::from_u64(45)));
    assert!(!slack_commitment_satisfied::<F97, Config>(&slack_key(), &folded_instance, &folded_witness, F97::from_u64(44)));
    assert!(!slack_commitment_satisfied::<F97, Config>(&witness_key(), &folded_instance, &folded_witness, F97::from_u64(45)));
    assert_eq!(
        folded_witness.hiding_randomnesses().iter().map(|x| x.to_u64()).collect::<Vec<_>>(),
        vec![6, 12, 18]
    );
}

fn wired(permutation: &[u64]) -> PLONKCircuit<F97> {
    PLONKCircuit::new(circuit().selectors(), elements(permutation))
}

fn identity_but(swaps: &[(u64, u64)]) -> Vec<u64> {
    let mut permutation: Vec<u64> = (0..18).collect();
    for (from, to) in swaps {
        permutation[*from as usize] = *to;
    }
    permutation
}

#[test]
fn copy_constraints_hold_where_the_cells_agree() {
    let (left_instance, left_witness) = left_pair();
    let (right_instance, right_witness) = right_pair();
    // every cell is a copy of itself
    let identity = wired(&identity_but(&[]));
    assert!(copy_constraints_satisfied(&identity, &left_instance, &left_witness));
    assert!(copy_constraints_satisfied(&identity, &right_instance, &right_witness));
    // the outputs of rows two and four agree in both traces
    let outputs = wired(&identity_but(&[(14, 16), (16, 14)]));
    assert!(copy_constraints_satisfied(&outputs, &left_instance, &left_witness));
    assert!(copy_constraints_satisfied(&outputs, &right_instance, &right_witness));
    // the left wires of rows one and two agree in the left trace only
    let lefts = wired(&identity_but(&[(1, 2), (2, 1)]));
    assert!(copy_constraints_satisfied(&lefts, &left_instance, &left_witness));
    assert!(!copy_constraints_satisfied(&lefts, &right_instance, &right_witness));
    // a constraint in one direction is a constraint
    let one_way = wired(&identity_but(&[(0, 6)]));
    assert!(!copy_constraints_satisfied(&one_way, &left_instance, &left_witness));
}

#[test]
fn copy_constraints_need_a_target_for_every_cell() {
    let (instance, witness) = left_pair();
    assert!(!copy_constraints_satisfied(&circuit(), &instance, &witness));
    let short: Vec<u64> = (0..17).collect();
    assert!(!copy_constraints_satisfied(&wired(&short), &instance, &witness));
    let long: Vec<u64> = (0..19).collect();
    assert!(!copy_constraints_satisfied(&wired(&long), &instance, &witness));
    // the first index that is no cell, and one that is 0 modulo 97
    assert!(!copy_constraints_satisfied(&wired(&identity_but(&[(5, 18)])), &instance, &witness));
    assert!(copy_constraints_satisfied(&wired(&identity_but(&[(0, 97)])), &instance, &witness));
    assert!(copy_constraints_satisfied(&wired(&identity_but(&[(17, 17)])), &instance, &witness));
}

#[test]
fn copy_constraints_survive_folding() {
    let outputs = wired(&identity_but(&[(14, 16), (16, 14)]));
    let (left_instance, left_witness) = left_pair();
    let (right_instance, right_witness) = right_pair();
    let cross = compute_cross_term(
        &outputs,
        &left_instance,
        &left_witness,
        &right_instance,
        &right_witness,
    )
    .unwrap();
    let message = Scheme::commit(&slack_key(), &cross, F97::from_u64(9)).unwrap();
    for challenge in [0u64, 1, 5, 96] {
        let challenge = F97::from_u64(challenge);
        let folded_witness =
            fold_witnesses(&left_witness, &right_witness, &cross, &challenge).unwrap();
        let folded_instance =
            fold_instances::<F97, Config>(&left_instance, &right_instance, &message, &challenge)
                .unwrap();
        assert!(copy_constraints_satisfied(&outputs, &folded_instance, &folded_witness));
        assert!(gates_satisfied(&outputs, &folded_instance, &folded_witness));
    }
}

#[test]
fn slack_folds_with_the_cross_term_at_the_first_power() {
    // 10 + 5 * 3 + 25 * 2 = 75 and 96 + 5 * 96 + 25 * 96 = 2976
    let folded = fold_slack_elements(
        &elements(&[10, 96]),
        &elements(&[3, 96]),
        &elements(&[2, 96]),
        &F97::from_u64(5),
    )
    .unwrap();
    assert_eq!(numbers(&folded), vec![75, 2976 % 97]);
    let refused = Some(SangriaError::IndexOutOfBounds);
    let two = elements(&[1, 2]);
    let three = elements(&[1, 2, 3]);
    assert_eq!(fold_slack_elements(&three, &two, &two, &F97::from_u64(5)).err(), refused);
    assert_eq!(fold_slack_elements(&two, &three, &two, &F97::from_u64(5)).err(), refused);
    assert_eq!(fold_slack_elements(&two, &two, &three, &F97::from_u64(5)).err(), refused);
}
